use crate::model::{copy_article, copy_user, ArticleEntity, TransactionEntity, UserEntity};
use vstd::prelude::*;

verus! {

/// The largest row id a table can hand out.
pub const MAX_ID: i32 = 2147483647;

/// The store: three tables of rows addressed by id. Row `i` of each table has
/// id `i + 1`; ids are handed out in order and rows are never removed.
#[derive(Clone)]
pub struct Database {
    pub users: Vec<UserEntity>,
    pub articles: Vec<ArticleEntity>,
    pub transactions: Vec<TransactionEntity>,
}

/// Whether article row `j` names row `i` as its precursor.
pub open spec fn replaces(arts: Seq<ArticleEntity>, j: int, i: int) -> bool {
    arts[j].precursor_id == Some((i + 1) as i32)
}

/// Well-formed article rows: ids in order, each precursor strictly older, a
/// replaced revision inactive, and no revision replaced twice.
pub open spec fn articles_wf(arts: Seq<ArticleEntity>) -> bool {
    &&& forall|i: int| 0 <= i < arts.len() ==> #[trigger] arts[i].id == i + 1
    &&& forall|i: int|
        0 <= i < arts.len() && (#[trigger] arts[i]).precursor_id is Some ==> 1
            <= arts[i].precursor_id->0 <= i
    &&& forall|i: int, j: int|
        0 <= i < arts.len() && 0 <= j < arts.len() && #[trigger] replaces(arts, j, i)
            ==> !(#[trigger] arts[i]).active
    &&& forall|j: int, k: int|
        0 <= j < arts.len() && 0 <= k < arts.len() && (#[trigger] arts[j]).precursor_id is Some
            && (#[trigger] arts[k]).precursor_id == arts[j].precursor_id ==> j == k
}

/// Whether ledger row `t` names one of `n_users` accounts and, if it names an
/// article, one of `n_articles` articles.
pub open spec fn refers_to_rows(t: TransactionEntity, n_users: int, n_articles: int) -> bool {
    &&& 1 <= t.user_id <= n_users
    &&& t.article_id is Some ==> 1 <= t.article_id->0 <= n_articles
}

/// Well-formed tables: ids in order, every ledger row naming an existing
/// account and, if any, an existing article, well-formed article rows, and every
/// table within the id range.
pub open spec fn tables_wf(users: Seq<UserEntity>, articles: Seq<ArticleEntity>, transactions: Seq<TransactionEntity>) -> bool {
    &&& forall|i: int| 0 <= i < users.len() ==> #[trigger] users[i].id == i + 1
    &&& forall|i: int| 0 <= i < transactions.len() ==> #[trigger] transactions[i].id == i + 1
    &&& forall|i: int| 0 <= i < transactions.len() ==> refers_to_rows(#[trigger] transactions[i], users.len() as int, articles.len() as int)
    &&& articles_wf(articles)
    &&& users.len() <= MAX_ID
    &&& articles.len() <= MAX_ID
    &&& transactions.len() <= MAX_ID
}

impl Database {
    pub open spec fn wf(&self) -> bool {
        tables_wf(self.users@, self.articles@, self.transactions@)
    }

    /// The account with id `id`, if there is one.
    pub open spec fn user(&self, id: int) -> Option<UserEntity> {
        if 1 <= id <= self.users@.len() {
            Some(self.users@[id - 1])
        } else {
            None
        }
    }

    /// The article revision with id `id`, if there is one.
    pub open spec fn article(&self, id: int) -> Option<ArticleEntity> {
        if 1 <= id <= self.articles@.len() {
            Some(self.articles@[id - 1])
        } else {
            None
        }
    }

    /// The ledger row with id `id`, if there is one.
    pub open spec fn transaction(&self, id: int) -> Option<TransactionEntity> {
        if 1 <= id <= self.transactions@.len() {
            Some(self.transactions@[id - 1])
        } else {
            None
        }
    }

    /// An empty store.
    pub fn new() -> (r: Database)
        ensures
            r.wf(),
            r.users@.len() == 0,
            r.articles@.len() == 0,
            r.transactions@.len() == 0,
    {
        Database { users: Vec::new(), articles: Vec::new(), transactions: Vec::new() }
    }

    /// Rebuilds a store from saved rows; `None` when the rows are not well formed.
    pub fn from_rows(users: Vec<UserEntity>, articles: Vec<ArticleEntity>, transactions: Vec<TransactionEntity>) -> (r: Option<Database>)
        ensures
            r is Some <==> tables_wf(users@, articles@, transactions@),
            r is Some ==> r->0.users@ == users@ && r->0.articles@ == articles@ && r->0.transactions@ == transactions@,
    {
        if users.len() > MAX_ID as usize || articles.len() > MAX_ID as usize || transactions.len() > MAX_ID as usize {
            return None;
        }
        if !users_in_order(&users) || !ledger_in_order(&transactions, users.len(), articles.len())
            || !articles_in_order(&articles) || !replaced_are_inactive(&articles) || !replaced_once(&articles) {
            return None;
        }
        Some(Database { users, articles, transactions })
    }

    /// Looks up an account by id.
    pub fn find_user(&self, id: i32) -> (r: Option<UserEntity>)
        requires
            self.wf(),
        ensures
            r == self.user(id as int),
    {
        if 1 <= id && (id as usize) <= self.users.len() {
            Some(copy_user(&self.users[(id - 1) as usize]))
        } else {
            None
        }
    }

    /// Looks up an article revision by id, active or not.
    pub fn find_article(&self, id: i32) -> (r: Option<ArticleEntity>)
        requires
            self.wf(),
        ensures
            r == self.article(id as int),
    {
        if 1 <= id && (id as usize) <= self.articles.len() {
            Some(copy_article(&self.articles[(id - 1) as usize]))
        } else {
            None
        }
    }
}

fn users_in_order(users: &Vec<UserEntity>) -> (r: bool)
    ensures
        r == forall|i: int| 0 <= i < users@.len() ==> #[trigger] users@[i].id == i + 1,
{
    let mut i: usize = 0;
    while i < users.len()
        invariant
            i <= users@.len(),
            forall|k: int| 0 <= k < i ==> #[trigger] users@[k].id == k + 1,
        decreases users@.len() - i,
    {
        if users[i].id < 1 || (users[i].id - 1) as usize != i {
            return false;
        }
        i += 1;
    }
    true
}

fn ledger_in_order(txs: &Vec<TransactionEntity>, n_users: usize, n_articles: usize) -> (r: bool)
    requires
        txs@.len() <= MAX_ID,
    ensures
        r == ((forall|i: int| 0 <= i < txs@.len() ==> #[trigger] txs@[i].id == i + 1) && (forall|i: int|
            0 <= i < txs@.len() ==> refers_to_rows(#[trigger] txs@[i], n_users as int, n_articles as int))),
{
    let mut i: usize = 0;
    while i < txs.len()
        invariant
            i <= txs@.len(),
            txs@.len() <= MAX_ID,
            forall|k: int| 0 <= k < i ==> #[trigger] txs@[k].id == k + 1,
            forall|k: int| 0 <= k < i ==> refers_to_rows(#[trigger] txs@[k], n_users as int, n_articles as int),
        decreases txs@.len() - i,
    {
        let t = &txs[i];
        if t.id < 1 || (t.id - 1) as usize != i || t.user_id < 1 || t.user_id as usize > n_users {
            assert(!(txs@[i as int].id == i + 1) || !refers_to_rows(txs@[i as int], n_users as int, n_articles as int));
            return false;
        }
        match t.article_id {
            Some(a) => {
                if a < 1 || a as usize > n_articles {
                    assert(!refers_to_rows(txs@[i as int], n_users as int, n_articles as int));
                    return false;
                }
            },
            None => {},
        }
        i += 1;
    }
    true
}

fn articles_in_order(arts: &Vec<ArticleEntity>) -> (r: bool)
    ensures
        r == ((forall|i: int| 0 <= i < arts@.len() ==> #[trigger] arts@[i].id == i + 1) && (forall|i: int|
            0 <= i < arts@.len() && (#[trigger] arts@[i]).precursor_id is Some ==> 1 <= arts@[i].precursor_id->0 <= i)),
{
    let mut i: usize = 0;
    while i < arts.len()
        invariant
            i <= arts@.len(),
            forall|k: int| 0 <= k < i ==> #[trigger] arts@[k].id == k + 1,
            forall|k: int| 0 <= k < i && (#[trigger] arts@[k]).precursor_id is Some ==> 1 <= arts@[k].precursor_id->0 <= k,
        decreases arts@.len() - i,
    {
        let a = &arts[i];
        if a.id < 1 || (a.id - 1) as usize != i {
            return false;
        }
        match a.precursor_id {
            Some(p) => {
                if p < 1 || p as usize > i {
                    assert(!(1 <= arts@[i as int].precursor_id->0 <= i));
                    return false;
                }
            },
            None => {},
        }
        i += 1;
    }
    true
}

fn replaced_are_inactive(arts: &Vec<ArticleEntity>) -> (r: bool)
    requires
        arts@.len() <= MAX_ID,
    ensures
        r == forall|i: int, j: int| 0 <= i < arts@.len() && 0 <= j < arts@.len() && #[trigger] replaces(arts@, j, i)
            ==> !(#[trigger] arts@[i]).active,
{
    let mut j: usize = 0;
    while j < arts.len()
        invariant
            j <= arts@.len(),
            arts@.len() <= MAX_ID,
            forall|i: int, jj: int| 0 <= i < arts@.len() && 0 <= jj < j && #[trigger] replaces(arts@, jj, i)
                ==> !(#[trigger] arts@[i]).active,
        decreases arts@.len() - j,
    {
        match arts[j].precursor_id {
            Some(p) => {
                if p >= 1 && (p as usize) <= arts.len() && arts[(p - 1) as usize].active {
                    assert(replaces(arts@, j as int, p - 1));
                    return false;
                }
            },
            None => {},
        }
        j += 1;
    }
    true
}

fn replaced_once(arts: &Vec<ArticleEntity>) -> (r: bool)
    ensures
        r == forall|j: int, k: int|
            0 <= j < arts@.len() && 0 <= k < arts@.len() && (#[trigger] arts@[j]).precursor_id is Some
                && (#[trigger] arts@[k]).precursor_id == arts@[j].precursor_id ==> j == k,
{
    let mut j: usize = 0;
    while j < arts.len()
        invariant
            j <= arts@.len(),
            forall|jj: int, k: int|
                0 <= jj < j && 0 <= k < arts@.len() && (#[trigger] arts@[jj]).precursor_id is Some
                    && (#[trigger] arts@[k]).precursor_id == arts@[jj].precursor_id ==> jj == k,
        decreases arts@.len() - j,
    {
        if arts[j].precursor_id.is_some() {
            let mut k: usize = 0;
            while k < arts.len()
                invariant
                    j < arts@.len(),
                    k <= arts@.len(),
                    arts@[j as int].precursor_id is Some,
                    forall|kk: int| 0 <= kk < k && (#[trigger] arts@[kk]).precursor_id == arts@[j as int].precursor_id
                        ==> kk == j,
                decreases arts@.len() - k,
            {
                if k != j && arts[k].precursor_id == arts[j].precursor_id {
                    return false;
                }
                k += 1;
            }
        }
        j += 1;
    }
    true
}

} // verus!
