use crate::error::ClientError;
use vstd::prelude::*;

verus! {

/// Relies on chrono's `Local::now` and `NaiveDateTime::format`: the local wall
/// clock time as `YYYY-MM-DD HH:MM:SS`. Nothing is promised of the value, which
/// depends on the clock.
#[verifier::external_body]
pub fn cur_datetime_str() -> (r: String) {
    chrono::Local::now().naive_local().format("%Y-%m-%d %H:%M:%S").to_string()
}

/// A control character in the C0 block, or DEL.
pub open spec fn is_control_char(c: char) -> bool {
    (c as u32) <= 0x1f || (c as u32) == 0x7f
}

/// The characters of `s` with every control character removed, in order.
pub open spec fn without_control_chars(s: Seq<char>) -> Seq<char> {
    s.filter(|c: char| !is_control_char(c))
}

/// Relies on regex's `Regex::replace_all` with the class `[\x00-\x1F\x7F]`
/// and an empty replacement: every character of that class is removed and the
/// others are kept in order. The pattern is valid, so `Regex::new` succeeds.
#[verifier::external_body]
pub fn sanitize_control_chars(input: &str) -> (r: String)
    ensures
        r@ == without_control_chars(input@),
{
    let re = regex::Regex::new(r"[\x00-\x1F\x7F]").unwrap();
    re.replace_all(input, "").into_owned()
}

/// An ASCII letter or digit.
pub open spec fn is_ascii_alnum(c: char) -> bool {
    ('a' <= c && c <= 'z') || ('A' <= c && c <= 'Z') || ('0' <= c && c <= '9')
}

/// A character allowed before the `@` of an address.
pub open spec fn is_local_char(c: char) -> bool {
    is_ascii_alnum(c) || c == '.' || c == '!' || c == '#' || c == '$' || c == '%' || c == '&'
        || c == '\u{e2}' || c == '\u{20ac}' || c == '\u{2122}' || c == '*' || c == '+' || c == '/'
        || c == '=' || c == '?' || c == '^' || c == '_' || c == '`' || c == '{' || c == '|' || c == '}'
        || c == '~' || c == '-'
}

/// A character allowed in a domain label.
pub open spec fn is_label_char(c: char) -> bool {
    is_ascii_alnum(c) || c == '-'
}

/// A domain: one or more non-empty labels of label characters, separated by single dots.
pub open spec fn is_domain(d: Seq<char>) -> bool {
    &&& d.len() > 0
    &&& d[0] != '.'
    &&& d.last() != '.'
    &&& forall|i: int| 0 <= i < d.len() ==> is_label_char(#[trigger] d[i]) || d[i] == '.'
    &&& forall|i: int| 0 <= i < d.len() - 1 ==> !(#[trigger] d[i] == '.' && d[i + 1] == '.')
}

/// Whether `s` splits at position `i` into a non-empty local part, `@`, and a domain.
pub open spec fn splits_as_address(s: Seq<char>, i: int) -> bool {
    &&& 0 < i < s.len()
    &&& s[i] == '@'
    &&& forall|j: int| 0 <= j < i ==> is_local_char(#[trigger] s[j])
    &&& is_domain(s.subrange(i + 1, s.len() as int))
}

/// Whether `s` has the shape of an email address: a local part, `@`, and a
/// domain of dot-separated labels.
pub open spec fn is_email_shaped(s: Seq<char>) -> bool {
    exists|i: int| #[trigger] splits_as_address(s, i)
}

/// Relies on regex's `Regex::is_match` with the anchored address pattern below,
/// which `is_email_shaped` spells out. The pattern is valid, so `Regex::new`
/// succeeds.
#[verifier::external_body]
fn email_matches(input: &str) -> (r: bool)
    ensures
        r == is_email_shaped(input@),
{
    let re = regex::Regex::new(
        r#"^[a-zA-Z0-9.!#$%&â€™*+/=?^_`{|}~-]+@[a-zA-Z0-9-]+(?:\.[a-zA-Z0-9-]+)*$"#,
    ).unwrap();
    re.is_match(input)
}

/// Accepts an email address, or fails with `ParameterInvalid`.
pub fn assert_email(input: &str) -> (r: Result<(), ClientError>)
    ensures
        r is Ok <==> is_email_shaped(input@),
        r is Err ==> r->Err_0 is ParameterInvalid,
{
    if email_matches(input) {
        Ok(())
    } else {
        Err(ClientError::ParameterInvalid(String::from_str("Value is not an email address.")))
    }
}

/// A character with the Unicode White_Space property.
pub open spec fn is_white_space(c: char) -> bool {
    ('\u{9}' <= c && c <= '\u{d}') || c == ' ' || c == '\u{85}' || c == '\u{a0}' || c == '\u{1680}'
        || ('\u{2000}' <= c && c <= '\u{200a}') || c == '\u{2028}' || c == '\u{2029}' || c == '\u{202f}'
        || c == '\u{205f}' || c == '\u{3000}'
}

/// `s` without leading white space.
pub open spec fn trimmed_start(s: Seq<char>) -> Seq<char>
    decreases s.len(),
{
    if s.len() > 0 && is_white_space(s[0]) {
        trimmed_start(s.drop_first())
    } else {
        s
    }
}

/// `s` without trailing white space.
pub open spec fn trimmed_end(s: Seq<char>) -> Seq<char>
    decreases s.len(),
{
    if s.len() > 0 && is_white_space(s.last()) {
        trimmed_end(s.drop_last())
    } else {
        s
    }
}

/// `s` without leading and trailing white space.
pub open spec fn trimmed(s: Seq<char>) -> Seq<char> {
    trimmed_end(trimmed_start(s))
}

fn is_white_space_char(c: char) -> (r: bool)
    ensures
        r == is_white_space(c),
{
    ('\u{9}' <= c && c <= '\u{d}') || c == ' ' || c == '\u{85}' || c == '\u{a0}' || c == '\u{1680}'
        || ('\u{2000}' <= c && c <= '\u{200a}') || c == '\u{2028}' || c == '\u{2029}' || c == '\u{202f}'
        || c == '\u{205f}' || c == '\u{3000}'
}

/// `s` without leading and trailing white space, as `str::trim` gives it.
pub(crate) fn trim(s: &str) -> (r: String)
    ensures
        r@ == trimmed(s@),
{
    let n = s.unicode_len();
    let mut a: usize = 0;
    proof {
        assert(s@.subrange(0, n as int) =~= s@);
    }
    while a < n && is_white_space_char(s.get_char(a))
        invariant
            n == s@.len(),
            a <= n,
            trimmed_start(s@) == trimmed_start(s@.subrange(a as int, n as int)),
        decreases n - a,
    {
        proof {
            assert(s@.subrange(a as int, n as int).drop_first() =~= s@.subrange(a as int + 1, n as int));
        }
        a += 1;
    }
    let mut b: usize = n;
    while b > a && is_white_space_char(s.get_char(b - 1))
        invariant
            n == s@.len(),
            a <= b <= n,
            trimmed_start(s@) == s@.subrange(a as int, n as int),
            trimmed(s@) == trimmed_end(s@.subrange(a as int, b as int)),
        decreases b,
    {
        proof {
            assert(s@.subrange(a as int, b as int).drop_last() =~= s@.subrange(a as int, b as int - 1));
        }
        b -= 1;
    }
    String::from_str(s.substring_char(a, b))
}

} // verus!
