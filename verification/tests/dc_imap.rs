use mail_autoconfig::dc_imap::{
    configure_folders_step, dc_imap_new, dc_imap_t, find_delimiter, find_mvbox, find_sentbox,
    get_config_last_seen_uid, get_folder_meaning, get_folder_meaning_by_name,
    select_after_prefetch, select_with_uidvalidity, set_config_last_seen_uid, ConnectPlan,
    Folder, FolderMeaning, FolderRequest, FolderStage, ImapConfig, Mailbox, NameAttribute,
    Security, SelectError, SelectOutcome,
};
use mail_autoconfig::login_param::{
    LoginParam, DC_LP_IMAP_SOCKET_PLAIN, DC_LP_IMAP_SOCKET_SSL, DC_LP_IMAP_SOCKET_STARTTLS,
};
use mail_autoconfig::sql::Sql;

fn folder(name: &str, labels: &[&str]) -> Folder {
    Folder {
        name: name.to_string(),
        attributes: labels.iter().map(|l| NameAttribute::Custom(l.to_string())).collect(),
        delimiter: Some("/".to_string()),
    }
}

fn open_sql() -> Sql {
    let mut sql = Sql::new();
    assert!(sql.open(None, false).is_ok());
    sql
}

fn connected() -> dc_imap_t {
    let mut imap = dc_imap_new();
    imap.login_succeeded(&vec!["IMAP4rev1".to_string()]);
    imap
}

#[test]
fn labels_decide_before_names() {
    assert_eq!(get_folder_meaning(&folder("Sent", &["\\Trash"])), FolderMeaning::Other);
    assert_eq!(get_folder_meaning(&folder("x", &["\\Sent", "\\Junk"])), FolderMeaning::Other);
    assert_eq!(get_folder_meaning(&folder("x", &["\\Junk", "\\Sent"])), FolderMeaning::Other);
    assert_eq!(get_folder_meaning(&folder("x", &["\\Spam"])), FolderMeaning::Other);
    assert_eq!(get_folder_meaning(&folder("x", &["\\Drafts"])), FolderMeaning::Other);
    assert_eq!(get_folder_meaning(&folder("x", &["\\Sent"])), FolderMeaning::SentObjects);
    assert_eq!(get_folder_meaning(&folder("x", &["\\sent"])), FolderMeaning::Unknown);
    assert_eq!(get_folder_meaning(&folder("x", &["\\HasNoChildren"])), FolderMeaning::Unknown);
    assert_eq!(get_folder_meaning(&folder("INBOX", &[])), FolderMeaning::Unknown);
    assert_eq!(get_folder_meaning(&folder("Gesendet", &[])), FolderMeaning::SentObjects);
    assert_eq!(
        get_folder_meaning(&folder("Sent Objects", &["\\HasNoChildren"])),
        FolderMeaning::SentObjects
    );
    let plain = Folder {
        name: "x".to_string(),
        attributes: vec![NameAttribute::NoSelect, NameAttribute::Marked],
        delimiter: None,
    };
    assert_eq!(get_folder_meaning(&plain), FolderMeaning::Unknown);
}

#[test]
fn names_are_matched_without_regard_to_case() {
    for name in ["sent", "SENT", "Sent", "sent objects", "Sent Objects", "gesendet", "GESENDET"] {
        assert_eq!(get_folder_meaning_by_name(&folder(name, &[])), FolderMeaning::SentObjects);
    }
    for name in ["", "sen", "sent ", "sentobjects", "Trash", "INBOX", "gesendete"] {
        assert_eq!(get_folder_meaning_by_name(&folder(name, &[])), FolderMeaning::Unknown);
    }
}

#[test]
fn connect_follows_the_socket_flag() {
    let imap = dc_imap_t::new();
    assert!(!imap.is_connected());
    let mut lp = LoginParam::new();
    assert!(matches!(imap.connect(&lp), ConnectPlan::Refused));
    lp.mail_server = "imap.example.org".to_string();
    lp.mail_user = "me".to_string();
    assert!(matches!(imap.connect(&lp), ConnectPlan::Refused));
    lp.mail_pw = "pw".to_string();
    lp.mail_port = 993;
    for (flags, wanted) in [
        (DC_LP_IMAP_SOCKET_SSL, Security::Tls),
        (0, Security::Tls),
        (DC_LP_IMAP_SOCKET_STARTTLS, Security::StartTls),
        (DC_LP_IMAP_SOCKET_PLAIN, Security::Plain),
        (DC_LP_IMAP_SOCKET_PLAIN | DC_LP_IMAP_SOCKET_STARTTLS, Security::StartTls),
    ] {
        lp.server_flags = flags;
        match imap.connect(&lp) {
            ConnectPlan::Open { server, port, security, user, password } => {
                assert_eq!(server, "imap.example.org");
                assert_eq!(port, 993);
                assert_eq!(security, wanted);
                assert_eq!(user, "me");
                assert_eq!(password, "pw");
            }
            _ => panic!("a connection should be opened"),
        }
    }
    lp.mail_port = 65536 + 143;
    match imap.connect(&lp) {
        ConnectPlan::Open { port, .. } => assert_eq!(port, 143),
        _ => panic!("a connection should be opened"),
    }
}

#[test]
fn capabilities_are_noted_on_login() {
    let mut imap = dc_imap_new();
    imap.login_succeeded(&vec!["IMAP4rev1".to_string(), "IDLE".to_string()]);
    assert!(imap.is_connected());
    assert_eq!(imap.config.can_idle, 1);
    assert_eq!(imap.config.has_xlist, 0);
    let mut lp = LoginParam::new();
    lp.mail_server = "s".to_string();
    lp.mail_user = "u".to_string();
    lp.mail_pw = "p".to_string();
    assert!(matches!(imap.connect(&lp), ConnectPlan::AlreadyConnected));
    imap.disconnect();
    assert!(!imap.is_connected());
    assert_eq!(imap.config.can_idle, 0);
    imap.login_succeeded(&vec!["XLIST".to_string(), "idle".to_string()]);
    assert_eq!(imap.config.can_idle, 0);
    assert_eq!(imap.config.has_xlist, 1);
    imap.set_watch_folder("INBOX");
    assert_eq!(imap.config.watch_folder, "INBOX");
    let d = ImapConfig::default();
    assert_eq!(d.fetch_type_prefetch, "(UID ENVELOPE)");
    assert_eq!(d.fetch_type_body, "(FLAGS BODY.PEEK[])");
    assert_eq!(d.fetch_type_flags, "(FLAGS)");
    assert_eq!(d.log_connect_errors, 1);
    assert_eq!(d.connected, 0);
    assert_eq!(d.imap_delimiter, '.');
}

#[test]
fn folders_are_found_in_the_listing() {
    let listing = vec![
        folder("INBOX", &[]),
        folder("Sent", &["\\Trash"]),
        folder("Gesendet", &[]),
        folder("Sent Messages", &["\\Sent"]),
        folder("INBOX/DeltaChat", &[]),
        folder("DeltaChat", &[]),
    ];
    assert_eq!(find_delimiter(&listing), "/");
    assert_eq!(find_sentbox(&listing), Some("Gesendet".to_string()));
    assert_eq!(find_mvbox(&listing, "INBOX/DeltaChat"), Some("INBOX/DeltaChat".to_string()));
    assert_eq!(find_mvbox(&listing, "INBOX.DeltaChat"), Some("DeltaChat".to_string()));
    assert_eq!(find_mvbox(&listing[..4].iter().map(|f| folder(&f.name, &[])).collect(), "x"), None);
    assert_eq!(find_delimiter(&vec![]), ".");
    let flat = vec![
        Folder { name: "a".to_string(), attributes: vec![], delimiter: None },
        Folder { name: "b".to_string(), attributes: vec![], delimiter: Some("".to_string()) },
        Folder { name: "c".to_string(), attributes: vec![], delimiter: Some("|".to_string()) },
    ];
    assert_eq!(find_delimiter(&flat), "|");
}

#[test]
fn existing_folders_are_written_down() {
    let mut sql = open_sql();
    let mut imap = connected();
    let listing = vec![folder("INBOX", &[]), folder("Sent", &[]), folder("DeltaChat", &[])];
    let (setup, request) = imap.configure_folders(&mut sql, &listing, true);
    assert!(setup.is_none());
    assert!(matches!(request, FolderRequest::Done));
    assert_eq!(sql.get_raw_config_int("folders_configured"), Some(3));
    assert_eq!(sql.get_raw_config("configured_mvbox_folder"), Some("DeltaChat".to_string()));
    assert_eq!(sql.get_raw_config("configured_sentbox_folder"), Some("Sent".to_string()));
    assert_eq!(imap.config.imap_delimiter, '/');
}

#[test]
fn missing_mvbox_is_not_made_unless_wanted() {
    let mut sql = open_sql();
    let mut imap = connected();
    let listing = vec![folder("INBOX", &[])];
    let (setup, request) = imap.configure_folders(&mut sql, &listing, false);
    assert!(setup.is_none());
    assert!(matches!(request, FolderRequest::Done));
    assert_eq!(sql.get_raw_config_int("folders_configured"), Some(3));
    assert_eq!(sql.get_raw_config("configured_mvbox_folder"), None);
    assert_eq!(sql.get_raw_config("configured_sentbox_folder"), None);
}

#[test]
fn mvbox_is_made_at_the_top() {
    let mut sql = open_sql();
    let mut imap = connected();
    let listing = vec![folder("INBOX", &[]), folder("sent", &[])];
    let (setup, request) = imap.configure_folders(&mut sql, &listing, true);
    assert!(matches!(request, FolderRequest::Create(name) if name == "DeltaChat"));
    assert_eq!(sql.get_raw_config("folders_configured"), None);
    let setup = setup.unwrap();
    assert_eq!(setup.stage, FolderStage::Creating);
    assert_eq!(setup.fallback, "INBOX/DeltaChat");
    let (setup, request) = configure_folders_step(setup, &mut sql, true);
    assert!(matches!(request, FolderRequest::Subscribe(name) if name == "DeltaChat"));
    assert_eq!(sql.get_raw_config("folders_configured"), None);
    let (setup, request) = configure_folders_step(setup.unwrap(), &mut sql, true);
    assert!(setup.is_none());
    assert!(matches!(request, FolderRequest::Done));
    assert_eq!(sql.get_raw_config_int("folders_configured"), Some(3));
    assert_eq!(sql.get_raw_config("configured_mvbox_folder"), Some("DeltaChat".to_string()));
    assert_eq!(sql.get_raw_config("configured_sentbox_folder"), Some("sent".to_string()));
}

#[test]
fn mvbox_is_made_below_the_inbox_when_the_top_is_refused() {
    let mut sql = open_sql();
    let mut imap = connected();
    let listing = vec![Folder {
        name: "INBOX".to_string(),
        attributes: vec![],
        delimiter: Some(".".to_string()),
    }];
    let (setup, _) = imap.configure_folders(&mut sql, &listing, true);
    let (setup, request) = configure_folders_step(setup.unwrap(), &mut sql, false);
    assert!(matches!(request, FolderRequest::Create(name) if name == "INBOX.DeltaChat"));
    let (setup, request) = configure_folders_step(setup.unwrap(), &mut sql, true);
    assert!(matches!(request, FolderRequest::Subscribe(name) if name == "INBOX.DeltaChat"));
    let (setup, _) = configure_folders_step(setup.unwrap(), &mut sql, false);
    assert!(setup.is_none());
    assert_eq!(sql.get_raw_config("configured_mvbox_folder"), Some("INBOX.DeltaChat".to_string()));

    let mut sql = open_sql();
    let (setup, _) = imap.configure_folders(&mut sql, &listing, true);
    let (setup, _) = configure_folders_step(setup.unwrap(), &mut sql, false);
    let (setup, request) = configure_folders_step(setup.unwrap(), &mut sql, false);
    assert!(setup.is_none());
    assert!(matches!(request, FolderRequest::Done));
    assert_eq!(sql.get_raw_config_int("folders_configured"), Some(3));
    assert_eq!(sql.get_raw_config("configured_mvbox_folder"), None);
}

#[test]
fn a_session_that_is_not_connected_configures_nothing() {
    let mut sql = open_sql();
    let mut imap = dc_imap_new();
    let (setup, request) = imap.configure_folders(&mut sql, &vec![folder("Sent", &[])], true);
    assert!(setup.is_none());
    assert!(matches!(request, FolderRequest::Done));
    assert_eq!(sql.get_raw_config("folders_configured"), None);
}

#[test]
fn remembered_uids() {
    let mut sql = open_sql();
    assert_eq!(get_config_last_seen_uid(&sql, "INBOX"), None);
    set_config_last_seen_uid(&mut sql, "INBOX", 1234, 56);
    assert_eq!(sql.get_raw_config("imap.mailbox.INBOX"), Some("1234:56".to_string()));
    assert_eq!(get_config_last_seen_uid(&sql, "INBOX"), Some((1234, 56)));
    set_config_last_seen_uid(&mut sql, "INBOX", u32::MAX, 0);
    assert_eq!(get_config_last_seen_uid(&sql, "INBOX"), Some((u32::MAX, 0)));
    for (entry, numbers) in [
        ("7", (7, 0)),
        ("", (0, 0)),
        (":9", (0, 9)),
        ("x:9", (0, 9)),
        ("7:9:11", (7, 9)),
        ("7:", (7, 0)),
        ("-1:4294967296", (0, 0)),
    ] {
        sql.set_raw_config("imap.mailbox.Sent", Some(entry)).unwrap();
        assert_eq!(get_config_last_seen_uid(&sql, "Sent"), Some(numbers));
    }
}

#[test]
fn known_uidvalidity_keeps_the_last_seen_uid() {
    let mut sql = open_sql();
    set_config_last_seen_uid(&mut sql, "INBOX", 77, 500);
    let r = select_with_uidvalidity(
        &mut sql,
        "INBOX",
        &Mailbox { exists: 900, uid_validity: Some(77) },
    );
    assert_eq!(r, SelectOutcome::Selected { uid_validity: 77, last_seen_uid: 500 });
    assert_eq!(sql.get_raw_config("imap.mailbox.INBOX"), Some("77:500".to_string()));
}

#[test]
fn uidvalidity_mismatch_resets_the_last_seen_uid() {
    let mut sql = open_sql();
    set_config_last_seen_uid(&mut sql, "INBOX", 77, 500);
    let r = select_with_uidvalidity(
        &mut sql,
        "INBOX",
        &Mailbox { exists: 12, uid_validity: Some(78) },
    );
    assert_eq!(r, SelectOutcome::Prefetch { sequence: 12, uid_validity: 78 });
    assert_eq!(sql.get_raw_config("imap.mailbox.INBOX"), Some("77:500".to_string()));
    let r = select_after_prefetch(&mut sql, "INBOX", 78, Some(Some(40)));
    assert_eq!(r, SelectOutcome::Selected { uid_validity: 78, last_seen_uid: 39 });
    assert_eq!(sql.get_raw_config("imap.mailbox.INBOX"), Some("78:39".to_string()));
    assert_eq!(get_config_last_seen_uid(&sql, "INBOX"), Some((78, 39)));
}

#[test]
fn empty_folder_starts_at_zero() {
    let mut sql = open_sql();
    let r =
        select_with_uidvalidity(&mut sql, "INBOX", &Mailbox { exists: 0, uid_validity: Some(5) });
    assert_eq!(r, SelectOutcome::Selected { uid_validity: 5, last_seen_uid: 0 });
    assert_eq!(sql.get_raw_config("imap.mailbox.INBOX"), Some("5:0".to_string()));
    let mut sql = open_sql();
    let r =
        select_with_uidvalidity(&mut sql, "INBOX", &Mailbox { exists: 0, uid_validity: Some(0) });
    assert_eq!(r, SelectOutcome::Selected { uid_validity: 0, last_seen_uid: 0 });
    assert_eq!(sql.get_raw_config("imap.mailbox.INBOX"), Some("0:0".to_string()));
}

#[test]
fn failures_leave_the_table_alone() {
    let mut sql = open_sql();
    set_config_last_seen_uid(&mut sql, "INBOX", 77, 500);
    let r = select_with_uidvalidity(&mut sql, "INBOX", &Mailbox { exists: 3, uid_validity: None });
    assert_eq!(r, SelectOutcome::Failed(SelectError::NoUidValidity));
    let r = select_after_prefetch(&mut sql, "INBOX", 78, None);
    assert_eq!(r, SelectOutcome::Failed(SelectError::PrefetchFailed));
    assert_eq!(sql.get_raw_config("imap.mailbox.INBOX"), Some("77:500".to_string()));
    let r = select_after_prefetch(&mut sql, "INBOX", 78, Some(Some(0)));
    assert_eq!(r, SelectOutcome::Selected { uid_validity: 78, last_seen_uid: 0 });
    let r = select_after_prefetch(&mut sql, "INBOX", 78, Some(Some(1)));
    assert_eq!(r, SelectOutcome::Selected { uid_validity: 78, last_seen_uid: 0 });
    let r = select_after_prefetch(&mut sql, "INBOX", 79, Some(None));
    assert_eq!(r, SelectOutcome::Selected { uid_validity: 79, last_seen_uid: 0 });
    assert_eq!(sql.get_raw_config("imap.mailbox.INBOX"), Some("79:0".to_string()));
}
