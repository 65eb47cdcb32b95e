use strichliste::db::Database;
use strichliste::metrics_db::{num_transactions, num_users, system_balance, user_transaction_stats};
use strichliste::model::TransactionAddReq;
use strichliste::settings::{
    AccountSetting, ArticleSettings, BoundarySetting, CommonSettings, CurrencySetting,
    DepositSetting, I18nSetting, PaymentSetting, PaypalSetting, SplitInvoiceSetting,
    StrichlisteSetting, TransactionSetting, UndoSetting, UserSetting,
};
use strichliste::transaction_api::add_transaction_at;
use strichliste::user_db::{create_user, get_users, search_user, update_user};

fn config() -> StrichlisteSetting {
    let deposit = DepositSetting { enabled: true, custom: true, steps: vec![100] };
    StrichlisteSetting {
        article: ArticleSettings { enabled: true, auto_open: false },
        common: CommonSettings { idle_timeout: 30000 },
        paypal: PaypalSetting { enabled: false, recipient: String::new(), fee: 0 },
        user: UserSetting { stale_period: "1s".to_string() },
        i18n: I18nSetting {
            date_format: "YYYY-MM-DD".to_string(),
            timezone: "auto".to_string(),
            language: "en".to_string(),
            currency: CurrencySetting { name: "Euro".to_string(), symbol: "€".to_string(), alpha3: "EUR".to_string() },
        },
        account: AccountSetting { boundary: BoundarySetting { lower: -10000, upper: 10000 } },
        payment: PaymentSetting {
            undo: UndoSetting { enabled: true, delete: false, timeout: "5 minute".to_string() },
            boundary: BoundarySetting { lower: -5000, upper: 5000 },
            transactions: TransactionSetting { enabled: true },
            split_invoice: SplitInvoiceSetting { enabled: false },
            deposit: deposit.clone(),
            dispense: deposit,
        },
    }
}

fn value(amount: i32) -> TransactionAddReq {
    TransactionAddReq { amount: Some(amount), quantity: None, comment: None, recipient_id: None, article_id: None }
}

fn booked_db() -> Database {
    let mut db = Database::new();
    let t0 = "2024-01-01 00:00:00".to_string();
    let zoe = create_user(&mut db, "Zoe".to_string(), None, t0.clone()).unwrap().id;
    let adam = create_user(&mut db, "adam".to_string(), None, t0.clone()).unwrap().id;
    let bea = create_user(&mut db, "Bea".to_string(), None, t0.clone()).unwrap().id;
    add_transaction_at(&mut db, &config(), zoe, value(300), "2024-01-01 10:00:00".to_string()).unwrap();
    add_transaction_at(&mut db, &config(), bea, value(-40), "2024-01-01 10:00:00".to_string()).unwrap();
    update_user(&mut db, adam, "adam".to_string(), None, true).unwrap();
    db
}

#[test]
fn listing_orders_by_name_bytes_and_filters() {
    let db = booked_db();
    let names = |v: Vec<strichliste::model::UserEntity>| v.into_iter().map(|u| u.name).collect::<Vec<_>>();
    let now = "2024-01-01 10:00:00";
    assert_eq!(names(get_users(&db, &config(), false, None, now)), vec!["Bea", "Zoe"]);
    assert_eq!(names(get_users(&db, &config(), true, None, now)), vec!["adam"]);
    assert_eq!(names(get_users(&db, &config(), false, Some(true), now)), vec!["Bea", "Zoe"]);
    assert!(get_users(&db, &config(), false, Some(false), now).is_empty());
    assert!(get_users(&db, &config(), false, None, now).iter().all(|u| u.active));
}

#[test]
fn activity_lapses_after_stale_period() {
    let db = booked_db();
    let later = "2030-01-01 00:00:00";
    assert!(get_users(&db, &config(), false, Some(true), later).is_empty());
    assert_eq!(get_users(&db, &config(), false, Some(false), later).len(), 2);
    assert!(get_users(&db, &config(), false, None, "not a time").iter().all(|u| !u.active));
}

#[test]
fn search_ignores_ascii_case_and_disabled_accounts() {
    let db = booked_db();
    let now = "2024-01-01 10:00:00";
    let found = search_user(&db, &config(), "E", 25, now);
    assert_eq!(found.iter().map(|u| u.name.as_str()).collect::<Vec<_>>(), vec!["Bea", "Zoe"]);
    assert!(search_user(&db, &config(), "adam", 25, now).is_empty());
    assert_eq!(search_user(&db, &config(), "", 1, now).len(), 1);
    assert!(search_user(&db, &config(), "x", 25, now).is_empty());
}

#[test]
fn metrics_sum_enabled_balances_and_count_rows() {
    let mut db = booked_db();
    assert_eq!(system_balance(&db), 260);
    assert_eq!(num_users(&db), 3);
    assert_eq!(num_transactions(&db), 2);
    let s = config();
    add_transaction_at(&mut db, &s, 1, TransactionAddReq { amount: Some(-100), quantity: None, comment: None, recipient_id: Some(3), article_id: None }, "2024-01-02 00:00:00".to_string()).unwrap();
    let zoe = user_transaction_stats(&db, &1).unwrap();
    assert_eq!(zoe.count, 2);
    assert_eq!(zoe.outgoing.count, 1);
    assert_eq!(zoe.outgoing.amount, -100);
    assert_eq!(zoe.incoming.count, 0);
    let bea = user_transaction_stats(&db, &3).unwrap();
    assert_eq!(bea.incoming.count, 1);
    assert_eq!(bea.incoming.amount, 100);
    assert_eq!(system_balance(&db), 260);
}

#[test]
fn purchases_roll_up_per_article_most_bought_first() {
    let mut db = booked_db();
    let s = config();
    let t = "2024-01-03 00:00:00".to_string();
    let tea = strichliste::article_db::add_article(&mut db, "Tea".to_string(), None, 20, t.clone()).unwrap().entity.id;
    let mate = strichliste::article_db::add_article(&mut db, "Mate".to_string(), None, 150, t.clone()).unwrap().entity.id;
    let buy = |id: i32, q: i32| TransactionAddReq { amount: None, quantity: Some(q), comment: None, recipient_id: None, article_id: Some(id) };
    add_transaction_at(&mut db, &s, 1, buy(tea, 1), t.clone()).unwrap();
    add_transaction_at(&mut db, &s, 1, buy(mate, 2), t.clone()).unwrap();
    add_transaction_at(&mut db, &s, 1, buy(mate, 1), t.clone()).unwrap();
    let stats = strichliste::metrics_db::user_article_stats(&db, &1).unwrap();
    assert_eq!(stats.len(), 2);
    assert_eq!(stats[0].article.entity.id, mate);
    assert_eq!(stats[0].count, 2);
    assert_eq!(stats[0].amount, 450);
    assert_eq!(stats[1].article.entity.id, tea);
    assert_eq!(stats[1].count, 1);
    assert_eq!(stats[1].amount, 20);
    let m = strichliste::metrics_db::get_user_metrics(&db, 1).unwrap();
    assert_eq!(m.balance, 300 - 20 - 450);
    assert_eq!(m.articles.len(), 2);
    assert_eq!(m.transactions.count, 4);
    assert!(matches!(strichliste::metrics_db::get_user_metrics(&db, 99), Err(strichliste::error::DbError::EntityNotFound(_))));
    assert!(strichliste::metrics_db::user_article_stats(&db, &2).unwrap().is_empty());
}

#[test]
fn daily_rollup_groups_by_date_after_start() {
    let mut db = Database::new();
    let s = config();
    let a = create_user(&mut db, "a".to_string(), None, "2024-01-01 00:00:00".to_string()).unwrap().id;
    let b = create_user(&mut db, "b".to_string(), None, "2024-01-01 00:00:00".to_string()).unwrap().id;
    let at = |d: &str| d.to_string();
    add_transaction_at(&mut db, &s, a, value(100), at("2024-01-02 09:00:00")).unwrap();
    add_transaction_at(&mut db, &s, a, value(-30), at("2024-01-02 10:00:00")).unwrap();
    add_transaction_at(&mut db, &s, b, value(50), at("2024-01-02 11:00:00")).unwrap();
    add_transaction_at(&mut db, &s, b, value(-20), at("2024-01-01 23:00:00")).unwrap();
    add_transaction_at(&mut db, &s, a, value(7), at("2023-12-31 12:00:00")).unwrap();
    let days = strichliste::metrics_db::transactions_per_day(&db, &"2024-01-01".to_string()).unwrap();
    assert_eq!(days.len(), 2);
    assert_eq!(days[0].date, "2024-01-01");
    assert_eq!(days[0].transactions, 1);
    assert_eq!(days[0].balance, -20);
    assert_eq!(days[0].spent.transactions, 1);
    assert_eq!(days[0].charged.transactions, 0);
    assert_eq!(days[1].date, "2024-01-02");
    assert_eq!(days[1].transactions, 3);
    assert_eq!(days[1].distinct_users, 2);
    assert_eq!(days[1].balance, 120);
    assert_eq!(days[1].charged.amount, 150);
    assert_eq!(days[1].charged.transactions, 2);
    assert_eq!(days[1].spent.amount, -30);
    let m = strichliste::metrics_db::get_sys_metrics_since(&db, &"2024-01-01".to_string()).unwrap();
    assert_eq!(m.balance, 107);
    assert_eq!(m.transaction_count, 5);
    assert_eq!(m.user_count, 2);
    assert!(m.articles.is_empty());
    assert_eq!(m.days.len(), 2);
    assert!(strichliste::metrics_db::get_sys_metrics(&db, 30).is_ok());
}

#[test]
fn single_lookup_reports_activity() {
    let db = booked_db();
    let zoe = strichliste::user_db::get_user(&db, &config(), &1, "2024-01-01 10:00:00").unwrap();
    assert!(zoe.active);
    let later = strichliste::user_db::get_user(&db, &config(), &1, "2030-01-01 00:00:00").unwrap();
    assert!(!later.active);
    assert_eq!(later.balance, 300);
    assert!(!strichliste::user_db::get_user(&db, &config(), &2, "2024-01-01 10:00:00").unwrap().active);
    assert!(strichliste::user_db::get_user(&db, &config(), &42, "2024-01-01 10:00:00").is_none());
}

#[test]
fn negative_search_limit_means_no_bound() {
    let db = booked_db();
    assert_eq!(search_user(&db, &config(), "", -1, "2024-01-01 10:00:00").len(), 2);
    assert!(search_user(&db, &config(), "", 0, "2024-01-01 10:00:00").is_empty());
}
