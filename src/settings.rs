use vstd::prelude::*;

verus! {

#[derive(Debug, Clone)]
pub struct SettingsWrapper {
    pub parameters: Settings,
}

#[derive(Debug, Clone)]
pub struct Settings {
    pub strichliste: StrichlisteSetting,
}

#[derive(Debug, Clone)]
pub struct StrichlisteSetting {
    pub article: ArticleSettings,
    pub common: CommonSettings,
    pub paypal: PaypalSetting,
    pub user: UserSetting,
    pub i18n: I18nSetting,
    pub account: AccountSetting,
    pub payment: PaymentSetting,
}

#[derive(Debug, Clone)]
pub struct ArticleSettings {
    pub enabled: bool,
    pub auto_open: bool,
}

#[derive(Debug, Clone)]
pub struct CommonSettings {
    pub idle_timeout: i64,
}

#[derive(Debug, Clone)]
pub struct PaypalSetting {
    pub enabled: bool,
    pub recipient: String,
    pub fee: i32,
}

#[derive(Debug, Clone)]
pub struct UserSetting {
    pub stale_period: String,
}

#[derive(Debug, Clone)]
pub struct I18nSetting {
    pub date_format: String,
    pub timezone: String,
    pub language: String,
    pub currency: CurrencySetting,
}

#[derive(Debug, Clone)]
pub struct CurrencySetting {
    pub name: String,
    pub symbol: String,
    pub alpha3: String,
}

#[derive(Debug, Clone)]
pub struct AccountSetting {
    pub boundary: BoundarySetting,
}

/// An inclusive range `[lower, upper]`.
#[derive(Debug, Clone, Copy)]
pub struct BoundarySetting {
    pub upper: i32,
    pub lower: i32,
}

#[derive(Debug, Clone)]
pub struct PaymentSetting {
    pub undo: UndoSetting,
    pub boundary: BoundarySetting,
    pub transactions: TransactionSetting,
    pub split_invoice: SplitInvoiceSetting,
    pub deposit: DepositSetting,
    pub dispense: DepositSetting,
}

#[derive(Debug, Clone)]
pub struct UndoSetting {
    pub enabled: bool,
    pub delete: bool,
    pub timeout: String,
}

#[derive(Debug, Clone)]
pub struct TransactionSetting {
    pub enabled: bool,
}

#[derive(Debug, Clone)]
pub struct SplitInvoiceSetting {
    pub enabled: bool,
}

#[derive(Debug, Clone)]
pub struct DepositSetting {
    pub enabled: bool,
    pub custom: bool,
    pub steps: Vec<i32>,
}

/// Whether `v` lies in the inclusive range of `b`.
pub open spec fn within(b: BoundarySetting, v: int) -> bool {
    b.lower <= v && v <= b.upper
}

/// Relies on ms-converter's `ms`: it reads a number and a unit postfix and
/// returns the duration in milliseconds, or an error. Nothing is promised of the
/// value: a fractional number is scaled in floating point, whose rounding is not
/// fixed.
#[verifier::external_body]
fn parse_duration_ms(s: &str) -> (r: Option<i64>) {
    ms_converter::ms(s).ok()
}

/// The stale period used when the configured one cannot be read: ten days.
pub const DEFAULT_STALE_PERIOD: i64 = 864000000;

/// The stale period for a parsed duration: the duration times 1000 when it is
/// given and the product fits, else the default.
pub open spec fn stale_period_for(parsed: Option<i64>) -> int {
    match parsed {
        Some(v) => if i64::MIN <= v * 1000 <= i64::MAX { v * 1000 } else { DEFAULT_STALE_PERIOD as int },
        None => DEFAULT_STALE_PERIOD as int,
    }
}

/// The stale period for an already parsed duration.
pub fn stale_period_of(parsed: Option<i64>) -> (r: i64)
    ensures
        r as int == stale_period_for(parsed),
{
    match parsed {
        Some(v) => match v.checked_mul(1000) {
            Some(p) => p,
            None => DEFAULT_STALE_PERIOD,
        },
        None => DEFAULT_STALE_PERIOD,
    }
}

/// The period after its last booking at which an account counts as inactive,
/// read from the user settings.
pub fn get_stale_period(settings: &StrichlisteSetting) -> (r: i64)
    ensures
        exists|parsed: Option<i64>| r as int == #[trigger] stale_period_for(parsed),
{
    let parsed = parse_duration_ms(settings.user.stale_period.as_str());
    let r = stale_period_of(parsed);
    assert(r as int == stale_period_for(parsed));
    r
}

} // verus!
