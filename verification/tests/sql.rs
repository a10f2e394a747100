use mail_autoconfig::login_param::{
    Auth, CertificateChecks, ImapSocket, LoginParam, SmtpSocket,
};
use mail_autoconfig::migration::{applied_count, plan_for, step_for, tables_created};
use mail_autoconfig::schema::{required_tables, statements, version_of, CURRENT_VERSION, VERSION_COUNT};
use mail_autoconfig::sql::{
    get_rowid, get_rowid2, get_rowid2_query, get_rowid_query, Error, QueryOutcome, Sql,
};

fn open_new() -> Sql {
    let mut sql = Sql::new();
    assert!(sql.open(None, false).is_ok());
    sql
}

fn table(rows: &[(&str, &str)]) -> Vec<(String, String)> {
    rows.iter().map(|(k, v)| (k.to_string(), v.to_string())).collect()
}

#[test]
fn closed_database_refuses() {
    let mut sql = Sql::new();
    assert!(!sql.is_open());
    assert!(matches!(sql.set_raw_config("a", Some("b")), Err(Error::SqlNoConnection)));
    assert!(matches!(sql.set_raw_config_int("a", 1), Err(Error::SqlNoConnection)));
    assert!(matches!(sql.set_raw_config_int64("a", 1), Err(Error::SqlNoConnection)));
    assert!(matches!(sql.set_raw_config_bool("a", true), Err(Error::SqlNoConnection)));
    assert!(matches!(sql.set_raw_config("a", None), Err(Error::SqlNoConnection)));
    assert_eq!(sql.get_raw_config("a"), None);
    let p = LoginParam::new();
    assert!(matches!(p.save_to_database(&mut sql, ""), Err(Error::SqlNoConnection)));
}

#[test]
fn open_twice_is_refused() {
    let mut sql = open_new();
    sql.set_raw_config("k", Some("v")).unwrap();
    assert!(matches!(sql.open(None, false), Err(Error::SqlAlreadyOpen)));
    assert!(sql.is_open());
    assert_eq!(sql.get_raw_config("k"), Some("v".to_string()));
    sql.close();
    assert!(!sql.is_open());
    assert_eq!(sql.get_raw_config("k"), None);
    assert!(sql.open(None, true).is_ok());
}

#[test]
fn set_get_and_delete() {
    let mut sql = open_new();
    assert_eq!(sql.get_raw_config("addr"), None);
    sql.set_raw_config("addr", Some("a@b.org")).unwrap();
    assert_eq!(sql.get_raw_config("addr"), Some("a@b.org".to_string()));
    sql.set_raw_config("addr", Some("c@d.org")).unwrap();
    assert_eq!(sql.get_raw_config("addr"), Some("c@d.org".to_string()));
    sql.set_raw_config("other", Some("")).unwrap();
    assert_eq!(sql.get_raw_config("other"), Some("".to_string()));
    sql.set_raw_config("addr", None).unwrap();
    assert_eq!(sql.get_raw_config("addr"), None);
    assert_eq!(sql.get_raw_config("other"), Some("".to_string()));
    sql.set_raw_config("missing", None).unwrap();
    sql.set_raw_config("", Some("x")).unwrap();
    assert_eq!(sql.get_raw_config(""), None);
}

#[test]
fn numbers_and_flags_are_stored_as_text() {
    let mut sql = open_new();
    sql.set_raw_config_int("n", -42).unwrap();
    assert_eq!(sql.get_raw_config("n"), Some("-42".to_string()));
    assert_eq!(sql.get_raw_config_int("n"), Some(-42));
    assert_eq!(sql.get_raw_config_int64("n"), Some(-42));
    assert!(!sql.get_raw_config_bool("n"));
    sql.set_raw_config_int("n", i32::MIN).unwrap();
    assert_eq!(sql.get_raw_config("n"), Some("-2147483648".to_string()));
    assert_eq!(sql.get_raw_config_int("n"), Some(i32::MIN));
    sql.set_raw_config_int64("big", i64::MAX).unwrap();
    assert_eq!(sql.get_raw_config("big"), Some("9223372036854775807".to_string()));
    assert_eq!(sql.get_raw_config_int64("big"), Some(i64::MAX));
    assert_eq!(sql.get_raw_config_int("big"), None);
    sql.set_raw_config_int64("small", i64::MIN).unwrap();
    assert_eq!(sql.get_raw_config_int64("small"), Some(i64::MIN));
    sql.set_raw_config_bool("flag", true).unwrap();
    assert_eq!(sql.get_raw_config("flag"), Some("1".to_string()));
    assert!(sql.get_raw_config_bool("flag"));
    sql.set_raw_config_bool("flag", false).unwrap();
    assert_eq!(sql.get_raw_config("flag"), None);
    assert!(!sql.get_raw_config_bool("flag"));
    sql.set_raw_config("text", Some("12x")).unwrap();
    assert_eq!(sql.get_raw_config_int("text"), None);
    assert_eq!(sql.get_raw_config_int("missing"), None);
    sql.set_raw_config("plus", Some("+7")).unwrap();
    assert_eq!(sql.get_raw_config_int("plus"), Some(7));
}

#[test]
fn read_only_database_refuses_writes() {
    let mut sql = Sql::new();
    assert!(sql.open(Some(table(&[("addr", "a@b.org"), ("dbversion", "49")])), true).is_ok());
    assert_eq!(sql.get_raw_config("addr"), Some("a@b.org".to_string()));
    assert_eq!(sql.get_raw_config_int("dbversion"), Some(49));
    assert!(matches!(sql.set_raw_config("addr", Some("x")), Err(Error::Sql(_))));
    assert_eq!(sql.get_raw_config("addr"), Some("a@b.org".to_string()));
    match sql.open(None, true) {
        Err(Error::SqlAlreadyOpen) => {}
        _ => panic!("an open database must refuse to be opened"),
    }
}

#[test]
fn first_row_of_a_key_counts() {
    let mut sql = Sql::new();
    assert!(sql
        .open(Some(table(&[("k", "first"), ("other", "o"), ("k", "second")])), true)
        .is_ok());
    assert_eq!(sql.get_raw_config("k"), Some("first".to_string()));
    assert_eq!(sql.get_raw_config("other"), Some("o".to_string()));
}

#[test]
fn new_database_is_created_and_brought_up_to_date() {
    let mut sql = Sql::new();
    let plan = match sql.open(None, false) {
        Ok(plan) => plan,
        Err(_) => panic!("opening failed"),
    };
    assert_eq!(plan.steps.len(), 26);
    assert_eq!(plan.steps[0].version, 0);
    assert_eq!(plan.steps[0].statements.len(), 19);
    assert_eq!(
        plan.steps[0].statements[0],
        "CREATE TABLE config (id INTEGER PRIMARY KEY, keyname TEXT, value TEXT);"
    );
    assert_eq!(
        plan.steps[0].required_tables,
        vec!["config", "contacts", "chats", "chats_contacts", "msgs", "jobs"]
    );
    assert_eq!(plan.steps[0].settings, table(&[("dbversion", "0")]));
    let versions: Vec<i32> = plan.steps.iter().map(|s| s.version).collect();
    assert_eq!(
        versions,
        vec![
            0, 1, 2, 7, 10, 12, 17, 18, 27, 34, 39, 40, 44, 46, 47, 48, 49, 50, 53, 54, 55, 59, 60,
            61, 62, 63
        ]
    );
    assert_eq!(plan.steps[17].settings, table(&[("dbversion", "50")]));
    assert_eq!(plan.steps[21].settings, table(&[("dbversion", "59")]));
    assert!(plan.recalc_fingerprints);
    assert!(plan.update_icons);
    assert_eq!(sql.get_raw_config_int("dbversion"), Some(63));
    assert_eq!(sql.get_raw_config("show_emails"), None);
    assert_eq!(sql.get_raw_config("bcc_self"), None);
}

#[test]
fn migration_from_v49() {
    let mut sql = Sql::new();
    let stored = table(&[("dbversion", "49"), ("addr", "kept@example.org")]);
    let plan = match sql.open(Some(stored), false) {
        Ok(plan) => plan,
        Err(_) => panic!("opening failed"),
    };
    let versions: Vec<i32> = plan.steps.iter().map(|s| s.version).collect();
    assert_eq!(versions, vec![50, 53, 54, 55, 59, 60, 61, 62, 63]);
    assert_eq!(sql.get_raw_config_int("dbversion"), Some(63));
    assert_eq!(sql.get_raw_config("show_emails"), Some("2".to_string()));
    assert_eq!(sql.get_raw_config("bcc_self"), Some("1".to_string()));
    assert_eq!(sql.get_raw_config("addr"), Some("kept@example.org".to_string()));
    assert_eq!(plan.steps[0].statements.len(), 0);
    assert_eq!(plan.steps[0].settings, table(&[("show_emails", "2"), ("dbversion", "50")]));
    assert_eq!(plan.steps[4].settings, table(&[("bcc_self", "1"), ("dbversion", "59")]));
    let all: Vec<&str> = plan.steps.iter().flat_map(|s| s.statements.iter().copied()).collect();
    assert!(all.contains(&"ALTER TABLE chats ADD COLUMN created_timestamp INTEGER DEFAULT 0;"));
    assert!(all.contains(&"ALTER TABLE contacts ADD COLUMN selfavatar_sent INTEGER DEFAULT 0;"));
    assert!(all.contains(&"ALTER TABLE chats ADD COLUMN muted_until INTEGER DEFAULT 0;"));
    assert!(all.contains(&"ALTER TABLE msgs ADD COLUMN location_id INTEGER DEFAULT 0;"));
    assert!(all.contains(&"ALTER TABLE locations ADD COLUMN independent INTEGER DEFAULT 0;"));
    assert!(all.contains(&"UPDATE chats SET grpid='' WHERE type=100"));
    assert!(!all.iter().any(|s| s.starts_with("DELETE") || s.starts_with("DROP")));
    assert!(!all.contains(&"ALTER TABLE chats ADD COLUMN gossiped_timestamp INTEGER DEFAULT 0;"));
    assert!(plan.steps.iter().all(|s| s.required_tables.is_empty()));
    assert!(!plan.recalc_fingerprints);
    assert!(plan.update_icons);
}

#[test]
fn bcc_self_is_kept_where_it_is_set() {
    let mut sql = Sql::new();
    let stored = table(&[("dbversion", "55"), ("bcc_self", "0"), ("show_emails", "0")]);
    let plan = match sql.open(Some(stored), false) {
        Ok(plan) => plan,
        Err(_) => panic!("opening failed"),
    };
    assert_eq!(plan.steps[0].version, 59);
    assert_eq!(plan.steps[0].settings, table(&[("dbversion", "59")]));
    assert_eq!(sql.get_raw_config("bcc_self"), Some("0".to_string()));
    assert_eq!(sql.get_raw_config("show_emails"), Some("0".to_string()));
}

#[test]
fn opening_is_idempotent() {
    let mut sql = Sql::new();
    assert!(sql.open(Some(table(&[("dbversion", "12")])), false).is_ok());
    let mut after: Vec<(String, String)> = Vec::new();
    for key in ["dbversion", "show_emails", "bcc_self"] {
        after.push((key.to_string(), sql.get_raw_config(key).unwrap()));
    }
    sql.close();
    let plan = match sql.open(Some(after.clone()), false) {
        Ok(plan) => plan,
        Err(_) => panic!("opening failed"),
    };
    assert!(plan.steps.is_empty());
    assert!(!plan.recalc_fingerprints);
    assert!(!plan.update_icons);
    for (key, value) in after {
        assert_eq!(sql.get_raw_config(&key), Some(value));
    }
    assert_eq!(sql.get_raw_config_int("dbversion"), Some(CURRENT_VERSION));
}

#[test]
fn a_newer_database_is_left_alone() {
    let mut sql = Sql::new();
    let plan = match sql.open(Some(table(&[("dbversion", "70")])), false) {
        Ok(plan) => plan,
        Err(_) => panic!("opening failed"),
    };
    assert!(plan.steps.is_empty());
    assert_eq!(sql.get_raw_config_int("dbversion"), Some(70));
}

#[test]
fn a_table_without_version_starts_at_zero() {
    let plan = plan_for(Some(0), true);
    assert_eq!(plan.steps.len(), 25);
    assert_eq!(plan.steps[0].version, 1);
    let mut sql = Sql::new();
    let opened = match sql.open(Some(table(&[("dbversion", "nonsense")])), false) {
        Ok(plan) => plan,
        Err(_) => panic!("opening failed"),
    };
    assert_eq!(opened.steps.len(), 25);
    assert_eq!(opened.steps[16].settings, table(&[("show_emails", "2"), ("dbversion", "50")]));
}

#[test]
fn versions_and_their_statements() {
    assert_eq!(VERSION_COUNT, 25);
    assert_eq!(version_of(0), 1);
    assert_eq!(version_of(24), 63);
    assert_eq!(applied_count(-5), 0);
    assert_eq!(applied_count(0), 0);
    assert_eq!(applied_count(1), 1);
    assert_eq!(applied_count(6), 2);
    assert_eq!(applied_count(7), 3);
    assert_eq!(applied_count(62), 24);
    assert_eq!(applied_count(63), 25);
    assert_eq!(applied_count(i32::MAX), 25);
    assert_eq!(statements(1).len(), 2);
    assert_eq!(
        statements(2),
        vec!["ALTER TABLE contacts ADD COLUMN authname TEXT DEFAULT '';"]
    );
    assert_eq!(statements(3).len(), 0);
    assert_eq!(statements(50).len(), 0);
    assert_eq!(statements(53).len(), 7);
    assert_eq!(statements(34).len(), 6);
    assert_eq!(required_tables().len(), 6);
    let step = step_for(50, false, true);
    assert_eq!(step.settings, table(&[("dbversion", "50")]));
    let step = step_for(59, true, false);
    assert_eq!(step.settings, table(&[("dbversion", "59")]));
    let step = step_for(34, true, true);
    assert_eq!(step.statements.len(), 6);
    assert!(step.required_tables.is_empty());
}

#[test]
fn missing_tables_fail_the_opening() {
    assert!(tables_created(&vec![true, true, true, true, true, true]).is_ok());
    assert!(tables_created(&vec![]).is_ok());
    assert!(matches!(
        tables_created(&vec![true, true, false, true, true, true]),
        Err(Error::SqlFailedToOpen)
    ));
}

#[test]
fn query_outcomes() {
    assert!(matches!(
        Sql::query_get_value_result(QueryOutcome::Value("v".to_string())),
        Ok(Some(v)) if v == "v"
    ));
    assert!(matches!(Sql::query_get_value_result(QueryOutcome::NoRows), Ok(None)));
    assert!(matches!(Sql::query_get_value_result(QueryOutcome::Null), Ok(None)));
    assert!(matches!(
        Sql::query_get_value_result(QueryOutcome::Failed(Error::SqlNoConnection)),
        Err(Error::SqlNoConnection)
    ));
    assert_eq!(Sql::query_get_value(QueryOutcome::Value("v".to_string())), Some("v".to_string()));
    assert_eq!(Sql::query_get_value(QueryOutcome::NoRows), None);
    assert_eq!(Sql::query_get_value(QueryOutcome::Null), None);
    assert_eq!(Sql::query_get_value(QueryOutcome::Failed(Error::Sql("bad".to_string()))), None);
}

#[test]
fn newest_row_has_the_highest_id() {
    let rows = vec![
        (3, "mid@x".to_string()),
        (9, "mid@x".to_string()),
        (12, "other".to_string()),
        (5, "mid@x".to_string()),
    ];
    assert_eq!(get_rowid(&rows, "mid@x"), Some(9));
    assert_eq!(get_rowid(&rows, "other"), Some(12));
    assert_eq!(get_rowid(&rows, "none"), None);
    assert_eq!(get_rowid(&vec![], "mid@x"), None);
    let rows2 = vec![(1, 10i64, 1i32), (4, 10, 2), (2, 10, 1), (7, 11, 1)];
    assert_eq!(get_rowid2(&rows2, 10, 1), Some(2));
    assert_eq!(get_rowid2(&rows2, 10, 2), Some(4));
    assert_eq!(get_rowid2(&rows2, 11, 2), None);
}

#[test]
fn rowid_queries() {
    assert_eq!(
        get_rowid_query("msgs", "rfc724_mid"),
        "SELECT id FROM msgs WHERE rfc724_mid=? ORDER BY id DESC"
    );
    assert_eq!(
        get_rowid2_query("locations", "timestamp", -5, "from_id", 17),
        "SELECT id FROM locations WHERE timestamp=-5 AND from_id=17 ORDER BY id DESC"
    );
}

#[test]
fn settings_are_read_back_as_written() {
    let mut sql = open_new();
    let mut p = LoginParam::new();
    p.addr = "a@b.org".to_string();
    p.mail_server = "imap.b.org".to_string();
    p.mail_user = "a".to_string();
    p.mail_pw = "pw1".to_string();
    p.mail_port = 993;
    p.imap_certificate_checks = CertificateChecks::Strict;
    p.send_server = "smtp.b.org".to_string();
    p.send_user = "a@b.org".to_string();
    p.send_pw = "pw2".to_string();
    p.send_port = 465;
    p.smtp_certificate_checks = CertificateChecks::AcceptInvalidCertificates;
    p.server_flags = 0x20204;
    p.save_to_database(&mut sql, "configured_").unwrap();
    assert_eq!(sql.get_raw_config("configured_mail_port"), Some("993".to_string()));
    assert_eq!(sql.get_raw_config("configured_imap_certificate_checks"), Some("1".to_string()));
    assert_eq!(sql.get_raw_config("configured_smtp_certificate_checks"), Some("3".to_string()));
    assert_eq!(sql.get_raw_config("configured_server_flags"), Some("131588".to_string()));
    assert_eq!(sql.get_raw_config("mail_port"), None);
    let q = LoginParam::from_database(&sql, "configured_");
    assert_eq!(q.addr, p.addr);
    assert_eq!(q.mail_server, p.mail_server);
    assert_eq!(q.mail_user, p.mail_user);
    assert_eq!(q.mail_pw, p.mail_pw);
    assert_eq!(q.mail_port, p.mail_port);
    assert_eq!(q.imap_certificate_checks, p.imap_certificate_checks);
    assert_eq!(q.send_server, p.send_server);
    assert_eq!(q.send_user, p.send_user);
    assert_eq!(q.send_pw, p.send_pw);
    assert_eq!(q.send_port, p.send_port);
    assert_eq!(q.smtp_certificate_checks, p.smtp_certificate_checks);
    assert_eq!(q.server_flags, p.server_flags);
    let empty = LoginParam::from_database(&sql, "");
    assert_eq!(empty.addr, "");
    assert_eq!(empty.mail_port, 0);
    assert_eq!(empty.imap_certificate_checks, CertificateChecks::Automatic);
    sql.set_raw_config_int("configured_imap_certificate_checks", 2).unwrap();
    let r = LoginParam::from_database(&sql, "configured_");
    assert_eq!(r.imap_certificate_checks, CertificateChecks::Automatic);
    let c = p.copy();
    assert_eq!(c.send_pw, "pw2");
}

#[test]
fn a_failed_opening_closes_unless_it_was_open() {
    assert!(!Sql::open_error_closes(&Error::SqlAlreadyOpen));
    assert!(Sql::open_error_closes(&Error::SqlFailedToOpen));
    assert!(Sql::open_error_closes(&Error::SqlNoConnection));
    assert!(Sql::open_error_closes(&Error::Sql("no".to_string())));
    assert!(Sql::open_error_closes(&Error::ConnectionPool("no".to_string())));
    assert!(Sql::open_error_closes(&Error::Io("no".to_string())));
    assert!(Sql::open_error_closes(&Error::BlobError("no".to_string())));
}

#[test]
fn flags_read_as_choices() {
    let mut p = LoginParam::new();
    assert_eq!(p.auth(), None);
    assert_eq!(p.imap_socket(), None);
    assert_eq!(p.smtp_socket(), None);
    p.server_flags = 0x4 | 0x200 | 0x10000;
    assert_eq!(p.auth(), Some(Auth::Normal));
    assert_eq!(p.imap_socket(), Some(ImapSocket::Ssl));
    assert_eq!(p.smtp_socket(), Some(SmtpSocket::Starttls));
    p.server_flags = 0x2 | 0x100 | 0x40000;
    assert_eq!(p.auth(), Some(Auth::Oauth2));
    assert_eq!(p.imap_socket(), Some(ImapSocket::Starttls));
    assert_eq!(p.smtp_socket(), Some(SmtpSocket::Plain));
    p.server_flags = 0x6 | 0x400 | 0x20000;
    assert_eq!(p.auth(), None);
    assert_eq!(p.imap_socket(), Some(ImapSocket::Plain));
    assert_eq!(p.smtp_socket(), Some(SmtpSocket::Ssl));
    p.server_flags = 0x300 | 0x30000 | 0x1;
    assert_eq!(p.auth(), None);
    assert_eq!(p.imap_socket(), None);
    assert_eq!(p.smtp_socket(), None);
}
