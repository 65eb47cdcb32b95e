use strichliste::article_api;
use strichliste::common::{assert_email, sanitize_control_chars};
use strichliste::db::Database;
use strichliste::error::{ClientError, ErrorKind};
use strichliste::model::{ArticleAddReq, UserAddReq, UserUpdateReq};
use strichliste::settings::{
    stale_period_of, AccountSetting, ArticleSettings, BoundarySetting, CommonSettings,
    CurrencySetting, DepositSetting, I18nSetting, PaymentSetting, PaypalSetting,
    SplitInvoiceSetting, StrichlisteSetting, TransactionSetting, UndoSetting, UserSetting,
    get_stale_period, DEFAULT_STALE_PERIOD,
};
use strichliste::transaction_db::{get_transactions, num_active};
use strichliste::transaction_api::add_transaction_at;
use strichliste::model::TransactionAddReq;
use strichliste::user_api;

fn stamp() -> String {
    "2024-05-06 07:08:09".to_string()
}

fn settings_with_stale(stale: &str) -> StrichlisteSetting {
    let deposit = DepositSetting { enabled: true, custom: true, steps: vec![100] };
    StrichlisteSetting {
        article: ArticleSettings { enabled: true, auto_open: false },
        common: CommonSettings { idle_timeout: 30000 },
        paypal: PaypalSetting { enabled: false, recipient: String::new(), fee: 0 },
        user: UserSetting { stale_period: stale.to_string() },
        i18n: I18nSetting {
            date_format: "YYYY-MM-DD".to_string(),
            timezone: "auto".to_string(),
            language: "en".to_string(),
            currency: CurrencySetting { name: "Euro".to_string(), symbol: "€".to_string(), alpha3: "EUR".to_string() },
        },
        account: AccountSetting { boundary: BoundarySetting { lower: -10000, upper: 10000 } },
        payment: PaymentSetting {
            undo: UndoSetting { enabled: true, delete: false, timeout: "5 minute".to_string() },
            boundary: BoundarySetting { lower: -5000, upper: 5000 },
            transactions: TransactionSetting { enabled: true },
            split_invoice: SplitInvoiceSetting { enabled: false },
            deposit: deposit.clone(),
            dispense: deposit,
        },
    }
}

#[test]
fn control_characters_are_removed() {
    assert_eq!(sanitize_control_chars("a\tb\u{7f}c\n"), "abc");
    assert_eq!(sanitize_control_chars("plain"), "plain");
}

#[test]
fn email_shape_is_checked() {
    assert!(assert_email("someone@example.org").is_ok());
    assert!(matches!(assert_email("not an address"), Err(ClientError::ParameterInvalid(_))));
    assert!(assert_email("a@b").is_ok());
    assert!(assert_email("@b.c").is_err());
}

#[test]
fn stale_period_scales_parsed_duration() {
    assert_eq!(get_stale_period(&settings_with_stale("1s")), 1_000_000);
    assert_eq!(get_stale_period(&settings_with_stale("10 days")), 864_000_000_000);
    assert_eq!(get_stale_period(&settings_with_stale("soon")), DEFAULT_STALE_PERIOD);
    assert_eq!(stale_period_of(Some(i64::MAX)), DEFAULT_STALE_PERIOD);
    assert_eq!(stale_period_of(None), 864_000_000);
}

#[test]
fn add_user_cleans_name_and_checks_email() {
    let mut db = Database::new();
    let u = user_api::add_user(&mut db, UserAddReq { name: "  Ann\u{1}ie ".to_string(), email: Some(" ann@example.org ".to_string()) }, stamp()).unwrap();
    assert_eq!(u.name, "Annie");
    assert_eq!(u.email.as_deref(), Some("ann@example.org"));
    let e = user_api::add_user(&mut db, UserAddReq { name: "Bob".to_string(), email: Some("bob".to_string()) }, stamp()).unwrap_err();
    assert_eq!(e.kind(), ErrorKind::ParameterInvalid);
    assert_eq!(db.users.len(), 1);
    let blank = user_api::add_user(&mut db, UserAddReq { name: "Bob".to_string(), email: Some("  ".to_string()) }, stamp()).unwrap();
    assert_eq!(blank.email.as_deref(), Some(""));
    let e = user_api::add_user(&mut db, UserAddReq { name: " Bob".to_string(), email: None }, stamp()).unwrap_err();
    assert_eq!(e.kind(), ErrorKind::DuplicateKey);
}

#[test]
fn update_user_sets_flags() {
    let mut db = Database::new();
    let u = user_api::add_user(&mut db, UserAddReq { name: "Cy".to_string(), email: None }, stamp()).unwrap();
    let v = user_api::update_user(&mut db, u.id, UserUpdateReq { name: " Cyrus ".to_string(), email: None, is_disabled: true }).unwrap();
    assert_eq!(v.name, "Cyrus");
    assert!(v.disabled);
    let e = user_api::update_user(&mut db, 40, UserUpdateReq { name: "Z".to_string(), email: None, is_disabled: false }).unwrap_err();
    assert_eq!(e.kind(), ErrorKind::EntityNotFound);
}

#[test]
fn article_request_trims_and_drops_blank_barcode() {
    let mut db = Database::new();
    let a = article_api::add_article(&mut db, ArticleAddReq { name: " Mate ".to_string(), barcode: Some("   ".to_string()), amount: 150 }, stamp()).unwrap();
    assert_eq!(a.entity.name, "Mate");
    assert_eq!(a.entity.barcode, None);
    let b = article_api::update_article(&mut db, a.entity.id, ArticleAddReq { name: "Mate".to_string(), barcode: Some(" 42 ".to_string()), amount: 160 }, stamp()).unwrap();
    assert_eq!(b.entity.barcode.as_deref(), Some("42"));
    assert_eq!(b.entity.precursor_id, Some(a.entity.id));
    let e = article_api::update_article(&mut db, a.entity.id, ArticleAddReq { name: "Mate".to_string(), barcode: None, amount: 1 }, stamp()).unwrap_err();
    assert_eq!(e.kind(), ErrorKind::Conflict);
}

#[test]
fn ledger_listing_is_newest_first_and_paginated() {
    let mut db = Database::new();
    let s = settings_with_stale("10 days");
    let a = user_api::add_user(&mut db, UserAddReq { name: "A".to_string(), email: None }, stamp()).unwrap().id;
    let b = user_api::add_user(&mut db, UserAddReq { name: "B".to_string(), email: None }, stamp()).unwrap().id;
    for v in [10, 20, 30] {
        add_transaction_at(&mut db, &s, a, TransactionAddReq { amount: Some(v), quantity: None, comment: None, recipient_id: None, article_id: None }, stamp()).unwrap();
    }
    add_transaction_at(&mut db, &s, a, TransactionAddReq { amount: Some(-5), quantity: None, comment: Some("lunch".to_string()), recipient_id: Some(b), article_id: None }, stamp()).unwrap();
    assert_eq!(num_active(&db, Some(a)), 4);
    assert_eq!(num_active(&db, Some(b)), 1);
    assert_eq!(num_active(&db, None), 5);
    let all = get_transactions(&db, &a, &10, &0);
    let amounts: Vec<i32> = all.iter().map(|t| t.entity.amount).collect();
    assert_eq!(amounts, vec![-5, 30, 20, 10]);
    assert_eq!(all[0].recipient.as_ref().unwrap().id, b);
    let page = get_transactions(&db, &a, &2, &1);
    let amounts: Vec<i32> = page.iter().map(|t| t.entity.amount).collect();
    assert_eq!(amounts, vec![30, 20]);
    let theirs = get_transactions(&db, &b, &5, &0);
    assert_eq!(theirs.len(), 1);
    assert_eq!(theirs[0].entity.amount, 5);
    assert_eq!(theirs[0].sender.as_ref().unwrap().id, a);
    assert!(get_transactions(&db, &a, &5, &9).is_empty());
    assert!(get_transactions(&db, &77, &5, &0).is_empty());
}

#[test]
fn listing_follows_stamps_latest_first() {
    let mut db = Database::new();
    let s = settings_with_stale("10 days");
    let a = user_api::add_user(&mut db, UserAddReq { name: "A".to_string(), email: None }, stamp()).unwrap().id;
    let book = |db: &mut Database, v: i32, at: &str| {
        add_transaction_at(db, &s, a, TransactionAddReq { amount: Some(v), quantity: None, comment: None, recipient_id: None, article_id: None }, at.to_string()).unwrap();
    };
    book(&mut db, 1, "2024-01-02 00:00:00");
    book(&mut db, 2, "2024-01-01 00:00:00");
    book(&mut db, 3, "2024-01-03 00:00:00");
    book(&mut db, 4, "2024-01-02 00:00:00");
    let amounts: Vec<i32> = get_transactions(&db, &a, &10, &0).iter().map(|t| t.entity.amount).collect();
    assert_eq!(amounts, vec![3, 4, 1, 2]);
}

#[test]
fn email_shape_edges() {
    assert!(assert_email("first.last+tag@sub.example.org").is_ok());
    assert!(assert_email("x@a-b.c").is_ok());
    assert!(assert_email("x@a..b").is_err());
    assert!(assert_email("x@a.").is_err());
    assert!(assert_email("x@.a").is_err());
    assert!(assert_email("x y@a.b").is_err());
    assert!(assert_email("x@a@b").is_err());
}

#[test]
fn store_rebuilds_only_from_consistent_rows() {
    let mut db = Database::new();
    let s = settings_with_stale("1d");
    let u = user_api::add_user(&mut db, UserAddReq { name: "Rita".to_string(), email: None }, stamp()).unwrap().id;
    let a = article_api::add_article(&mut db, ArticleAddReq { name: "Mate".to_string(), barcode: None, amount: 100 }, stamp()).unwrap();
    article_api::update_article(&mut db, a.entity.id, ArticleAddReq { name: "Mate".to_string(), barcode: None, amount: 120 }, stamp()).unwrap();
    add_transaction_at(&mut db, &s, u, TransactionAddReq { amount: Some(50), quantity: None, comment: None, recipient_id: None, article_id: None }, stamp()).unwrap();
    let back = Database::from_rows(db.users.clone(), db.articles.clone(), db.transactions.clone()).unwrap();
    assert_eq!(back.users.len(), 1);
    assert_eq!(back.articles.len(), 2);
    let mut arts = db.articles.clone();
    arts[0].active = true;
    assert!(Database::from_rows(db.users.clone(), arts, db.transactions.clone()).is_none());
    let mut txs = db.transactions.clone();
    txs[0].user_id = 9;
    assert!(Database::from_rows(db.users.clone(), db.articles.clone(), txs).is_none());
    let mut users = db.users.clone();
    users[0].id = 2;
    assert!(Database::from_rows(users, db.articles.clone(), db.transactions.clone()).is_none());
}
