use strichliste::article_db::{
    add_article, build_article_chain, delete_article, get_article_or_error_tx, get_article_tx, get_articles,
    num_active, update_article,
};
use strichliste::db::Database;
use strichliste::error::{ApiError, ClientError, DbError, ErrorKind};
use strichliste::model::{ArticleEntity, ArticleObject, TransactionAddReq};
use strichliste::settings::{
    AccountSetting, ArticleSettings, BoundarySetting, CommonSettings, CurrencySetting,
    DepositSetting, I18nSetting, PaymentSetting, PaypalSetting, SplitInvoiceSetting,
    StrichlisteSetting, TransactionSetting, UndoSetting, UserSetting,
};
use strichliste::transaction_api::{add_transaction, add_transaction_at, check_limit};
use strichliste::user_db::{create_user, get_user_tx, update_user};

fn settings(account: (i32, i32), payment: (i32, i32)) -> StrichlisteSetting {
    let deposit = DepositSetting { enabled: true, custom: true, steps: vec![50, 100, 200] };
    StrichlisteSetting {
        article: ArticleSettings { enabled: true, auto_open: false },
        common: CommonSettings { idle_timeout: 30000 },
        paypal: PaypalSetting { enabled: false, recipient: "shop@example.com".to_string(), fee: 0 },
        user: UserSetting { stale_period: "10 day".to_string() },
        i18n: I18nSetting {
            date_format: "YYYY-MM-DD HH:mm:ss".to_string(),
            timezone: "auto".to_string(),
            language: "en".to_string(),
            currency: CurrencySetting {
                name: "Euro".to_string(),
                symbol: "€".to_string(),
                alpha3: "EUR".to_string(),
            },
        },
        account: AccountSetting { boundary: BoundarySetting { lower: account.0, upper: account.1 } },
        payment: PaymentSetting {
            undo: UndoSetting { enabled: true, delete: false, timeout: "5 minute".to_string() },
            boundary: BoundarySetting { lower: payment.0, upper: payment.1 },
            transactions: TransactionSetting { enabled: true },
            split_invoice: SplitInvoiceSetting { enabled: false },
            deposit: deposit.clone(),
            dispense: deposit,
        },
    }
}

fn wide() -> StrichlisteSetting {
    settings((-100000, 100000), (-20000, 20000))
}

fn now() -> String {
    "2024-01-02 03:04:05".to_string()
}

fn req(amount: Option<i32>, article: Option<i32>, recipient: Option<i32>, quantity: Option<i32>) -> TransactionAddReq {
    TransactionAddReq { amount, quantity, comment: None, recipient_id: recipient, article_id: article }
}

fn user_with_balance(db: &mut Database, name: &str, balance: i32) -> i32 {
    let u = create_user(db, name.to_string(), None, now()).unwrap();
    if balance != 0 {
        add_transaction_at(db, &wide(), u.id, req(Some(balance), None, None, None), now()).unwrap();
    }
    u.id
}

fn depth(o: &ArticleObject) -> usize {
    match &o.precursor {
        Some(p) => 1 + depth(p),
        None => 1,
    }
}

#[test]
fn purchase_of_three_units_debits_price_and_counts_one_use() {
    let mut db = Database::new();
    let uid = user_with_balance(&mut db, "alice", 100);
    let art = add_article(&mut db, "Mate".to_string(), None, 250, now()).unwrap();
    let s = settings((-100000, 100000), (-2000, 15000));
    let o = add_transaction_at(&mut db, &s, uid, req(None, Some(art.entity.id), None, Some(3)), now()).unwrap();
    assert_eq!(o.entity.amount, -750);
    assert_eq!(o.entity.quantity, Some(3));
    assert_eq!(o.user.balance, -650);
    assert_eq!(get_user_tx(&db, &uid).unwrap().balance, -650);
    assert_eq!(o.article.as_ref().unwrap().entity.usage_count, 1);
    assert_eq!(db.find_article(art.entity.id).unwrap().usage_count, 1);
}

#[test]
fn transfer_moves_both_balances_and_links_rows() {
    let mut db = Database::new();
    let a = user_with_balance(&mut db, "a", 1000);
    let b = user_with_balance(&mut db, "b", 0);
    let rows_before = db.transactions.len();
    let o = add_transaction_at(&mut db, &wide(), a, req(Some(-500), None, Some(b), None), now()).unwrap();
    assert_eq!(get_user_tx(&db, &a).unwrap().balance, 500);
    assert_eq!(get_user_tx(&db, &b).unwrap().balance, 500);
    assert_eq!(o.user.balance, 500);
    assert_eq!(o.recipient.as_ref().unwrap().balance, 500);
    assert_eq!(db.transactions.len(), rows_before + 2);
    let sent = &db.transactions[rows_before];
    let received = &db.transactions[rows_before + 1];
    assert_eq!(sent.amount, -500);
    assert_eq!(received.amount, 500);
    assert_eq!(sent.recipient_transaction_id, Some(received.id));
    assert_eq!(received.sender_transaction_id, Some(sent.id));
    assert_eq!(o.entity.id, sent.id);
}

#[test]
fn value_booking_adds_amount() {
    let mut db = Database::new();
    let uid = user_with_balance(&mut db, "carol", 100);
    let o = add_transaction(&mut db, &wide(), uid, req(Some(-30), None, None, None)).unwrap();
    assert_eq!(o.entity.amount, -30);
    assert_eq!(o.user.balance, 70);
    assert_eq!(get_user_tx(&db, &uid).unwrap().balance, 70);
    assert!(o.user.updated.is_some());
    assert!(o.article.is_none() && o.recipient.is_none() && o.sender.is_none());
}

#[test]
fn boundary_violation_changes_nothing() {
    let mut db = Database::new();
    let uid = user_with_balance(&mut db, "dave", 100);
    let rows = db.transactions.len();
    let s = settings((-50, 1000), (-2000, 2000));
    let e = add_transaction_at(&mut db, &s, uid, req(Some(-200), None, None, None), now()).unwrap_err();
    assert_eq!(e.kind(), ErrorKind::ParameterInvalid);
    let e = add_transaction_at(&mut db, &s, uid, req(Some(5000), None, None, None), now()).unwrap_err();
    assert_eq!(e.kind(), ErrorKind::ParameterInvalid);
    assert_eq!(get_user_tx(&db, &uid).unwrap().balance, 100);
    assert_eq!(db.transactions.len(), rows);
}

#[test]
fn transaction_amount_boundary_is_inclusive() {
    let mut db = Database::new();
    let uid = user_with_balance(&mut db, "erin", 0);
    let s = settings((-5000, 5000), (-2000, 2000));
    assert!(add_transaction_at(&mut db, &s, uid, req(Some(2000), None, None, None), now()).is_ok());
    assert!(add_transaction_at(&mut db, &s, uid, req(Some(2001), None, None, None), now()).is_err());
    assert_eq!(get_user_tx(&db, &uid).unwrap().balance, 2000);
}

#[test]
fn check_limit_names_each_boundary() {
    let s = settings((-100, 100), (-10, 10));
    assert!(check_limit(&s, &100, &10).is_ok());
    assert!(check_limit(&s, &-100, &-10).is_ok());
    assert!(matches!(check_limit(&s, &101, &0),
        Err(ClientError::ParameterInvalid(m)) if m == "Requested balance is out of the allowed boundary."));
    assert!(matches!(check_limit(&s, &101, &50),
        Err(ClientError::ParameterInvalid(m)) if m == "Requested balance is out of the allowed boundary."));
    assert!(matches!(check_limit(&s, &0, &-11),
        Err(ClientError::ParameterInvalid(m)) if m == "Requested amount is out of the allowed boundary."));
}

#[test]
fn missing_sender_recipient_or_article_is_not_found() {
    let mut db = Database::new();
    let uid = user_with_balance(&mut db, "frank", 100);
    let e = add_transaction_at(&mut db, &wide(), 99, req(Some(5), None, None, None), now()).unwrap_err();
    assert_eq!(e.kind(), ErrorKind::EntityNotFound);
    let e = add_transaction_at(&mut db, &wide(), uid, req(Some(-5), None, Some(42), None), now()).unwrap_err();
    assert_eq!(e.kind(), ErrorKind::EntityNotFound);
    let e = add_transaction_at(&mut db, &wide(), uid, req(None, Some(7), None, None), now()).unwrap_err();
    assert_eq!(e.kind(), ErrorKind::EntityNotFound);
    assert_eq!(get_user_tx(&db, &uid).unwrap().balance, 100);
}

#[test]
fn inactive_article_cannot_be_bought() {
    let mut db = Database::new();
    let uid = user_with_balance(&mut db, "gina", 100);
    let art = add_article(&mut db, "Tea".to_string(), None, 10, now()).unwrap();
    delete_article(&mut db, art.entity.id).unwrap();
    let e = add_transaction_at(&mut db, &wide(), uid, req(None, Some(art.entity.id), None, None), now()).unwrap_err();
    assert_eq!(e.kind(), ErrorKind::EntityNotFound);
}

#[test]
fn ambiguous_requests_are_invalid() {
    let mut db = Database::new();
    let a = user_with_balance(&mut db, "hank", 100);
    let b = user_with_balance(&mut db, "ida", 0);
    let art = add_article(&mut db, "Cola".to_string(), None, 10, now()).unwrap();
    let shapes = vec![
        req(None, Some(art.entity.id), Some(b), None),
        req(Some(5), Some(art.entity.id), None, None),
        req(Some(5), None, Some(b), None),
        req(Some(-5), None, Some(a), None),
        req(None, None, None, None),
        req(None, Some(art.entity.id), None, Some(0)),
    ];
    for r in shapes {
        let e = add_transaction_at(&mut db, &wide(), a, r, now()).unwrap_err();
        assert_eq!(e.kind(), ErrorKind::ParameterInvalid);
        assert!(matches!(e, ApiError::Client(ClientError::ParameterInvalid(_))));
    }
    assert_eq!(get_user_tx(&db, &a).unwrap().balance, 100);
}

#[test]
fn purchase_defaults_to_one_unit() {
    let mut db = Database::new();
    let uid = user_with_balance(&mut db, "jack", 100);
    let art = add_article(&mut db, "Club".to_string(), None, 150, now()).unwrap();
    let o = add_transaction_at(&mut db, &wide(), uid, req(None, Some(art.entity.id), None, None), now()).unwrap();
    assert_eq!(o.entity.amount, -150);
    assert_eq!(o.entity.quantity, Some(1));
    assert_eq!(o.entity.article_id, Some(art.entity.id));
    assert_eq!(o.entity.created, now());
}

#[test]
fn replacing_inactive_article_conflicts_and_adds_nothing() {
    let mut db = Database::new();
    let art = add_article(&mut db, "Beer".to_string(), None, 100, now()).unwrap();
    update_article(&mut db, art.entity.id, "Beer".to_string(), None, 120, now()).unwrap();
    let rows = db.articles.len();
    let e = update_article(&mut db, art.entity.id, "Beer 2".to_string(), None, 130, now()).unwrap_err();
    assert!(matches!(e, DbError::Conflict(_)));
    assert_eq!(db.articles.len(), rows);
}

#[test]
fn replacing_missing_article_is_not_found() {
    let mut db = Database::new();
    let e = update_article(&mut db, 5, "x".to_string(), None, 1, now()).unwrap_err();
    assert_eq!(e.kind(), ErrorKind::EntityNotFound);
    assert!(db.articles.is_empty());
}

#[test]
fn replacement_carries_usage_and_deactivates_precursor() {
    let mut db = Database::new();
    let uid = user_with_balance(&mut db, "kim", 1000);
    let art = add_article(&mut db, "Juice".to_string(), Some("4001".to_string()), 100, now()).unwrap();
    add_transaction_at(&mut db, &wide(), uid, req(None, Some(art.entity.id), None, Some(2)), now()).unwrap();
    let next = update_article(&mut db, art.entity.id, "Juice".to_string(), Some("4001".to_string()), 110, now()).unwrap();
    assert_eq!(next.entity.precursor_id, Some(art.entity.id));
    assert_eq!(next.entity.usage_count, 1);
    assert!(next.entity.active);
    let prev = next.precursor.as_ref().unwrap();
    assert_eq!(prev.entity.id, art.entity.id);
    assert!(!prev.entity.active);
    assert!(!db.find_article(art.entity.id).unwrap().active);
}

#[test]
fn chain_of_three_revisions_resolves_newest_first() {
    let mut db = Database::new();
    let a = add_article(&mut db, "Pretzel".to_string(), None, 100, now()).unwrap();
    assert_eq!(depth(&get_article_or_error_tx(&db, a.entity.id).unwrap()), 1);
    let b = update_article(&mut db, a.entity.id, "Pretzel".to_string(), None, 110, now()).unwrap();
    let c = update_article(&mut db, b.entity.id, "Pretzel".to_string(), None, 120, now()).unwrap();
    assert_eq!(depth(&c), 3);
    let r = get_article_or_error_tx(&db, c.entity.id).unwrap();
    assert_eq!(depth(&r), 3);
    assert_eq!(r.entity.id, c.entity.id);
    let p = r.precursor.as_ref().unwrap();
    assert_eq!(p.entity.id, b.entity.id);
    let q = p.precursor.as_ref().unwrap();
    assert_eq!(q.entity.id, a.entity.id);
    assert!(q.precursor.is_none());
    assert_eq!(depth(&get_article_or_error_tx(&db, b.entity.id).unwrap()), 2);
}

#[test]
fn resolving_missing_article_fails() {
    let db = Database::new();
    assert!(matches!(get_article_or_error_tx(&db, 1), Err(DbError::EntityNotFound(m)) if m == "Article"));
    assert!(get_article_tx(&db, None).is_none());
    assert!(get_article_tx(&db, Some(-3)).is_none());
}

#[test]
fn build_article_chain_nests_in_list_order() {
    let e = |id: i32, p: Option<i32>| ArticleEntity {
        id,
        precursor_id: p,
        name: format!("a{}", id),
        barcode: None,
        amount: 1,
        active: p.is_none(),
        created: now(),
        usage_count: 0,
    };
    assert!(build_article_chain(vec![]).is_none());
    let o = build_article_chain(vec![e(3, Some(2)), e(2, Some(1)), e(1, None)]).unwrap();
    assert_eq!(o.entity.id, 3);
    assert_eq!(o.precursor.as_ref().unwrap().entity.id, 2);
    assert_eq!(depth(&o), 3);
}

#[test]
fn duplicate_active_name_or_barcode_is_refused() {
    let mut db = Database::new();
    add_article(&mut db, "Water".to_string(), Some("111".to_string()), 50, now()).unwrap();
    let e = add_article(&mut db, "Water".to_string(), None, 60, now()).unwrap_err();
    assert!(matches!(e, DbError::Conflict(_)));
    let e = add_article(&mut db, "Sparkling".to_string(), Some("111".to_string()), 60, now()).unwrap_err();
    assert!(matches!(e, DbError::Conflict(_)));
    assert!(add_article(&mut db, "Sparkling".to_string(), None, 60, now()).is_ok());
    assert_eq!(db.articles.len(), 2);
    assert_eq!(num_active(&db), 2);
}

#[test]
fn deactivate_is_unconditional_and_counts_drop() {
    let mut db = Database::new();
    let a = add_article(&mut db, "Chips".to_string(), None, 50, now()).unwrap();
    assert_eq!(num_active(&db), 1);
    assert!(!delete_article(&mut db, a.entity.id).unwrap().entity.active);
    assert!(!delete_article(&mut db, a.entity.id).unwrap().entity.active);
    assert_eq!(num_active(&db), 0);
    assert!(matches!(delete_article(&mut db, 9), Err(DbError::EntityNotFound(_))));
}

#[test]
fn recipient_balance_is_not_bounded() {
    let mut db = Database::new();
    let a = user_with_balance(&mut db, "lou", 0);
    let b = user_with_balance(&mut db, "mo", 0);
    let s = settings((-1000, 100), (-1000, 1000));
    add_transaction_at(&mut db, &s, a, req(Some(-900), None, Some(b), None), now()).unwrap();
    assert_eq!(get_user_tx(&db, &b).unwrap().balance, 900);
    assert_eq!(get_user_tx(&db, &a).unwrap().balance, -900);
}

#[test]
fn accounts_have_unique_names() {
    let mut db = Database::new();
    let u = create_user(&mut db, "nina".to_string(), Some("n@example.com".to_string()), now()).unwrap();
    assert_eq!(u.id, 1);
    assert_eq!(u.balance, 0);
    assert!(matches!(create_user(&mut db, "nina".to_string(), None, now()), Err(DbError::DuplicateKey(_))));
    let v = create_user(&mut db, "otto".to_string(), None, now()).unwrap();
    assert!(matches!(update_user(&mut db, v.id, "nina".to_string(), None, false), Err(DbError::DuplicateKey(_))));
    let w = update_user(&mut db, v.id, "otto".to_string(), None, true).unwrap();
    assert!(w.disabled);
    assert!(matches!(update_user(&mut db, 77, "x".to_string(), None, false), Err(DbError::EntityNotFound(_))));
}

#[test]
fn article_listing_shows_heads_by_name_with_pages() {
    let mut db = Database::new();
    let z = add_article(&mut db, "Zitrone".to_string(), None, 100, now()).unwrap();
    add_article(&mut db, "Apfel".to_string(), None, 100, now()).unwrap();
    add_article(&mut db, "Mate".to_string(), None, 100, now()).unwrap();
    let z2 = update_article(&mut db, z.entity.id, "Birne".to_string(), None, 120, now()).unwrap();
    let names = |v: &Vec<ArticleObject>| v.iter().map(|a| a.entity.name.clone()).collect::<Vec<_>>();
    let all = get_articles(&db, 999, 0, true, true);
    assert_eq!(names(&all), vec!["Apfel", "Birne", "Mate"]);
    let birne = &all[1];
    assert_eq!(birne.entity.id, z2.entity.id);
    assert_eq!(birne.precursor.as_ref().unwrap().entity.name, "Zitrone");
    let bare = get_articles(&db, 999, 0, true, false);
    assert!(bare.iter().all(|a| a.precursor.is_none()));
    assert_eq!(names(&get_articles(&db, 1, 1, true, true)), vec!["Birne"]);
    assert!(get_articles(&db, 5, 3, true, true).is_empty());
    assert!(get_articles(&db, 0, 0, true, true).is_empty());
    assert!(get_articles(&db, 999, 0, false, true).is_empty());
    delete_article(&mut db, z2.entity.id).unwrap();
    assert_eq!(names(&get_articles(&db, 999, 0, false, false)), vec!["Birne"]);
}

#[test]
fn negative_limits_list_everything() {
    let mut db = Database::new();
    for name in ["C", "A", "B"] {
        add_article(&mut db, name.to_string(), None, 10, now()).unwrap();
    }
    assert_eq!(get_articles(&db, -1, 0, true, false).len(), 3);
    assert_eq!(get_articles(&db, -1, 2, true, false).len(), 1);
    let uid = user_with_balance(&mut db, "pat", 10);
    add_transaction_at(&mut db, &wide(), uid, req(Some(5), None, None, None), now()).unwrap();
    assert_eq!(strichliste::transaction_db::get_transactions(&db, &uid, &-1, &0).len(), 2);
    assert_eq!(strichliste::transaction_db::get_transactions(&db, &uid, &0, &0).len(), 0);
}
