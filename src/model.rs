use vstd::prelude::*;

verus! {

/// An account with its running balance in minor currency units.
#[derive(Debug, Clone)]
pub struct UserEntity {
    pub id: i32,
    pub name: String,
    pub email: Option<String>,
    pub balance: i32,
    pub active: bool,
    pub disabled: bool,
    pub created: String,
    pub updated: Option<String>,
}

/// One revision of a catalog article. `precursor_id` names the revision it replaced.
#[derive(Debug, Clone)]
pub struct ArticleEntity {
    pub id: i32,
    pub precursor_id: Option<i32>,
    pub name: String,
    pub barcode: Option<String>,
    pub amount: i32,
    pub active: bool,
    pub created: String,
    pub usage_count: i32,
}

/// One ledger row: a single balance-affecting event for one account.
#[derive(Debug, Clone)]
pub struct TransactionEntity {
    pub id: i32,
    pub user_id: i32,
    pub article_id: Option<i32>,
    pub recipient_transaction_id: Option<i32>,
    pub sender_transaction_id: Option<i32>,
    pub quantity: Option<i32>,
    pub comment: Option<String>,
    pub amount: i32,
    pub deleted: bool,
    pub created: String,
}

#[derive(Debug, Clone)]
pub struct TransactionStatsEntity {
    pub count: i32,
    pub amount: i32,
}

/// An article revision with its whole chain of predecessors, newest first.
#[derive(Debug)]
pub struct ArticleObject {
    pub entity: ArticleEntity,
    pub precursor: Option<Box<ArticleObject>>,
}

/// A ledger row enriched with the account, article and counterpart it concerns.
#[derive(Debug)]
pub struct TransactionObject {
    pub entity: TransactionEntity,
    pub user: UserEntity,
    pub article: Option<ArticleObject>,
    pub recipient: Option<UserEntity>,
    pub sender: Option<UserEntity>,
}

#[derive(Debug, Clone)]
pub struct DailyTransaction {
    pub date: String,
    pub transactions: i32,
    pub distinct_users: i32,
    pub balance: i32,
    pub charged: TransactionSum,
    pub spent: TransactionSum,
}

#[derive(Debug, Clone)]
pub struct TransactionSum {
    pub amount: i32,
    pub transactions: i32,
}

#[derive(Debug, Clone)]
pub struct UserAddReq {
    pub name: String,
    pub email: Option<String>,
}

#[derive(Debug, Clone)]
pub struct UserUpdateReq {
    pub name: String,
    pub email: Option<String>,
    pub is_disabled: bool,
}

#[derive(Debug, Clone)]
pub struct ArticleAddReq {
    pub name: String,
    pub barcode: Option<String>,
    pub amount: i32,
}

/// A request to book a transaction. Which optional fields are set selects its kind:
/// an amount alone books a value, an article books a purchase, an amount with a
/// recipient books a transfer. The amount is in whole minor units.
#[derive(Debug, Clone)]
pub struct TransactionAddReq {
    pub amount: Option<i32>,
    pub quantity: Option<i32>,
    pub comment: Option<String>,
    pub recipient_id: Option<i32>,
    pub article_id: Option<i32>,
}

#[derive(Debug, Clone)]
pub struct UsersResp {
    pub count: usize,
    pub users: Vec<UserEntity>,
}

#[derive(Debug, Clone)]
pub struct UserResp {
    pub user: UserEntity,
}

#[derive(Debug)]
pub struct ArticleResp {
    pub article: ArticleObject,
}

#[derive(Debug)]
pub struct ArticlesResp {
    pub count: usize,
    pub articles: Vec<ArticleObject>,
}

#[derive(Debug)]
pub struct TransactionResp {
    pub transaction: TransactionObject,
}

#[derive(Debug)]
pub struct TransactionsResp {
    pub count: usize,
    pub transactions: Vec<TransactionObject>,
}

#[derive(Debug)]
pub struct SystemMetrics {
    pub balance: i32,
    pub transaction_count: i32,
    pub user_count: i32,
    pub articles: Vec<ArticleObject>,
    pub days: Vec<DailyTransaction>,
}

#[derive(Debug)]
pub struct UserArticles {
    pub article: ArticleObject,
    pub count: i32,
    pub amount: i32,
}

#[derive(Debug, Clone)]
pub struct UserTransactions {
    pub count: i32,
    pub outgoing: TransactionStatsEntity,
    pub incoming: TransactionStatsEntity,
}

#[derive(Debug)]
pub struct UserMetrics {
    pub balance: i32,
    pub articles: Vec<UserArticles>,
    pub transactions: UserTransactions,
}

/// The revisions held by an article object, newest first.
pub open spec fn chain_of(o: ArticleObject) -> Seq<ArticleEntity>
    decreases o,
{
    match o.precursor {
        Some(p) => seq![o.entity].add(chain_of(*p)),
        None => seq![o.entity],
    }
}

/// A copy of an optional string, equal to its source.
pub fn copy_opt_string(s: &Option<String>) -> (r: Option<String>)
    ensures
        r == *s,
{
    match s {
        Some(v) => Some(v.clone()),
        None => None,
    }
}

/// A copy of an account row, equal to its source.
pub fn copy_user(u: &UserEntity) -> (r: UserEntity)
    ensures
        r == *u,
{
    UserEntity {
        id: u.id,
        name: u.name.clone(),
        email: copy_opt_string(&u.email),
        balance: u.balance,
        active: u.active,
        disabled: u.disabled,
        created: u.created.clone(),
        updated: copy_opt_string(&u.updated),
    }
}

/// A copy of an article row, equal to its source.
pub fn copy_article(a: &ArticleEntity) -> (r: ArticleEntity)
    ensures
        r == *a,
{
    ArticleEntity {
        id: a.id,
        precursor_id: a.precursor_id,
        name: a.name.clone(),
        barcode: copy_opt_string(&a.barcode),
        amount: a.amount,
        active: a.active,
        created: a.created.clone(),
        usage_count: a.usage_count,
    }
}

/// A copy of a ledger row, equal to its source.
pub fn copy_transaction(t: &TransactionEntity) -> (r: TransactionEntity)
    ensures
        r == *t,
{
    TransactionEntity {
        id: t.id,
        user_id: t.user_id,
        article_id: t.article_id,
        recipient_transaction_id: t.recipient_transaction_id,
        sender_transaction_id: t.sender_transaction_id,
        quantity: t.quantity,
        comment: copy_opt_string(&t.comment),
        amount: t.amount,
        deleted: t.deleted,
        created: t.created.clone(),
    }
}

} // verus!
