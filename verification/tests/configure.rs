use mail_autoconfig::autoconfig::{
    complete, fill_defaults, get_offline_autoconfig, has_advanced, probe_format, probe_url,
    use_autoconfig, ProbeFormat,
};
use mail_autoconfig::configure::{
    job_configure_imap, job_configure_imap_step, ConfigureJob, Event, Failure, Output, Request,
    Stage,
};
use mail_autoconfig::context::Context;
use mail_autoconfig::login_param::{
    CertificateChecks, LoginParam, DC_LP_AUTH_NORMAL, DC_LP_AUTH_OAUTH2, DC_LP_IMAP_SOCKET_PLAIN,
    DC_LP_IMAP_SOCKET_SSL, DC_LP_IMAP_SOCKET_STARTTLS, DC_LP_SMTP_SOCKET_PLAIN,
    DC_LP_SMTP_SOCKET_SSL, DC_LP_SMTP_SOCKET_STARTTLS,
};

fn dummy_context() -> Context {
    let mut ctx = Context::new();
    assert!(ctx.sql.open(None, false).is_ok());
    ctx
}

fn context_with(addr: &str, mail_pw: &str) -> Context {
    let mut ctx = dummy_context();
    ctx.sql.set_raw_config("addr", Some(addr)).unwrap();
    ctx.sql.set_raw_config("mail_pw", Some(mail_pw)).unwrap();
    ctx
}

/// What a scripted server answers.
struct Script {
    oauth2: Option<String>,
    /// The place whose document holds settings, and the settings.
    document: Option<(usize, LoginParam)>,
    /// The number of the IMAP login that works.
    imap_works_at: Option<usize>,
    /// The number of the SMTP login that works.
    smtp_works_at: Option<usize>,
    folders: bool,
    inbox: bool,
    secret_key: bool,
    /// Ask the run to stop once it has reported this progress.
    cancel_after: Option<u32>,
}

fn script() -> Script {
    Script {
        oauth2: None,
        document: None,
        imap_works_at: Some(0),
        smtp_works_at: Some(0),
        folders: true,
        inbox: true,
        secret_key: true,
        cancel_after: None,
    }
}

struct Run {
    progress: Vec<u32>,
    urls: Vec<String>,
    imap_tries: Vec<LoginParam>,
    smtp_tries: Vec<LoginParam>,
    requests: Vec<String>,
    success: bool,
    failure: Option<Failure>,
    disconnect_imap: bool,
    disconnect_smtp: bool,
    hint: Option<String>,
}

fn drive(ctx: &mut Context, script: &Script) -> Run {
    let mut run = Run {
        progress: Vec::new(),
        urls: Vec::new(),
        imap_tries: Vec::new(),
        smtp_tries: Vec::new(),
        requests: Vec::new(),
        success: false,
        failure: None,
        disconnect_imap: false,
        disconnect_smtp: false,
        hint: None,
    };
    let (mut job, mut out) = job_configure_imap(ctx);
    loop {
        for p in out.progress.iter() {
            run.progress.push(*p);
            if script.cancel_after == Some(*p) {
                ctx.stop_ongoing();
            }
        }
        let event = match out.request {
            Request::Continue => Event::Continue,
            Request::Disconnect => {
                run.requests.push("disconnect".to_string());
                Event::Disconnected
            }
            Request::GetOauth2Address { .. } => {
                run.requests.push("oauth2".to_string());
                Event::Oauth2Address(script.oauth2.clone())
            }
            Request::Fetch { url, .. } => {
                run.requests.push("fetch".to_string());
                let place = run.urls.len();
                run.urls.push(url);
                match &script.document {
                    Some((at, found)) if *at == place => Event::Autoconfig(Some(found.clone())),
                    _ => Event::Autoconfig(None),
                }
            }
            Request::ConnectImap(param) => {
                run.requests.push("imap".to_string());
                let number = run.imap_tries.len();
                run.imap_tries.push(param);
                Event::Connected(script.imap_works_at == Some(number))
            }
            Request::ConnectSmtp(param) => {
                run.requests.push("smtp".to_string());
                let number = run.smtp_tries.len();
                run.smtp_tries.push(param);
                Event::Connected(script.smtp_works_at == Some(number))
            }
            Request::ConfigureFolders { .. } => {
                run.requests.push("folders".to_string());
                Event::FoldersConfigured(script.folders)
            }
            Request::SelectInbox => {
                run.requests.push("inbox".to_string());
                Event::InboxSelected(script.inbox)
            }
            Request::EnsureSecretKey => {
                run.requests.push("key".to_string());
                Event::SecretKey(script.secret_key)
            }
            Request::Finish {
                success,
                failure,
                disconnect_imap,
                disconnect_smtp,
                after_login_hint,
            } => {
                run.success = success;
                run.failure = failure;
                run.disconnect_imap = disconnect_imap;
                run.disconnect_smtp = disconnect_smtp;
                run.hint = after_login_hint;
                assert!(job.is_none());
                return run;
            }
        };
        let current = match job {
            Some(j) => j,
            None => panic!("a run that is over asked for something"),
        };
        let (next, output) = job_configure_imap_step(current, ctx, event);
        job = next;
        out = output;
    }
}

/// Hands the answer to the run, and tells it to go on for as long as it asks
/// for nothing else. Returns the run with all progress of these calls and
/// the request that is left.
fn advance(job: Option<ConfigureJob>, ctx: &mut Context, event: Event) -> (Option<ConfigureJob>, Output) {
    let (mut job, mut out) = job_configure_imap_step(job.unwrap(), ctx, event);
    let mut progress = Vec::new();
    loop {
        progress.append(&mut out.progress);
        match out.request {
            Request::Continue => {
                let (next, output) = job_configure_imap_step(job.unwrap(), ctx, Event::Continue);
                job = next;
                out = output;
            }
            request => return (job, Output { progress, request }),
        }
    }
}

fn assert_progress_in_order(progress: &[u32]) {
    assert!(!progress.is_empty());
    let last = progress[progress.len() - 1];
    assert!(last == 0 || last == 1000);
    let before = &progress[..progress.len() - 1];
    for p in before {
        assert!(1 <= *p && *p <= 999);
    }
    for pair in before.windows(2) {
        assert!(pair[0] <= pair[1]);
    }
}

#[test]
fn test_no_panic_on_bad_credentials() {
    let mut ctx = context_with("probably@unexistant.addr", "123456");
    let mut s = script();
    s.imap_works_at = None;
    let run = drive(&mut ctx, &s);
    assert!(!run.success);
    assert_eq!(run.failure, Some(Failure::ImapConnect));
    assert_progress_in_order(&run.progress);
}

#[test]
fn test_get_offline_autoconfig() {
    let context = dummy_context();

    let mut params = LoginParam::new();
    params.addr = "someone123@example.org".to_string();
    assert!(get_offline_autoconfig(&context, &params).is_none());

    let mut params = LoginParam::new();
    params.addr = "someone123@nauta.cu".to_string();
    let found_params = get_offline_autoconfig(&context, &params).unwrap();
    assert_eq!(found_params.mail_server, "imap.nauta.cu".to_string());
    assert_eq!(found_params.send_server, "smtp.nauta.cu".to_string());
}

#[test]
fn offline_autoconfig_takes_all_of_the_entry() {
    let context = dummy_context();
    let mut params = LoginParam::new();
    params.addr = "someone123@Nauta.CU".to_string();
    params.mail_pw = "secret".to_string();
    let found = get_offline_autoconfig(&context, &params).unwrap();
    assert_eq!(found.addr, "someone123@Nauta.CU");
    assert_eq!(found.mail_user, "someone123@Nauta.CU");
    assert_eq!(found.send_user, "someone123@Nauta.CU");
    assert_eq!(found.mail_port, 143);
    assert_eq!(found.send_port, 25);
    assert_eq!(found.mail_pw, "");
    assert_eq!(found.send_pw, "");
    assert_eq!(found.server_flags, DC_LP_IMAP_SOCKET_STARTTLS | DC_LP_SMTP_SOCKET_STARTTLS);
    assert_eq!(found.imap_certificate_checks, CertificateChecks::AcceptInvalidCertificates);
    assert_eq!(found.smtp_certificate_checks, CertificateChecks::AcceptInvalidCertificates);
}

#[test]
fn offline_autoconfig_skips_broken_and_serverless_providers() {
    let context = dummy_context();
    let mut params = LoginParam::new();
    params.addr = "a@example.com".to_string();
    assert!(get_offline_autoconfig(&context, &params).is_none());
    params.addr = "a@posteo.de".to_string();
    assert!(get_offline_autoconfig(&context, &params).is_none());
    params.addr = "a@gmail.com".to_string();
    let found = get_offline_autoconfig(&context, &params).unwrap();
    assert_eq!(found.mail_server, "imap.gmail.com");
    assert_eq!(found.mail_port, 993);
    assert_eq!(found.send_port, 465);
    assert_eq!(found.server_flags, DC_LP_IMAP_SOCKET_SSL | DC_LP_SMTP_SOCKET_SSL);
    params.addr = "no address".to_string();
    assert!(get_offline_autoconfig(&context, &params).is_none());
}

#[test]
fn empty_address_fails_fast() {
    let mut ctx = dummy_context();
    let run = drive(&mut ctx, &script());
    assert_eq!(run.progress, vec![1, 0]);
    assert!(!run.success);
    assert_eq!(run.failure, Some(Failure::NoAddress));
    assert!(!ctx.is_configured());
    assert_eq!(ctx.sql.get_raw_config("configured"), None);
    assert!(!ctx.has_ongoing());
}

#[test]
fn empty_address_leaves_configured_flag_set() {
    let mut ctx = dummy_context();
    ctx.sql.set_raw_config_bool("configured", true).unwrap();
    let run = drive(&mut ctx, &script());
    assert_eq!(run.progress, vec![1, 0]);
    assert!(ctx.is_configured());
}

#[test]
fn offline_provider_hit() {
    let mut ctx = context_with("a@nauta.cu", "x");
    let run = drive(&mut ctx, &script());
    assert!(run.success);
    assert!(run.urls.is_empty());
    assert_eq!(run.progress, vec![1, 200, 500, 600, 800, 900, 910, 920, 940, 1000]);
    assert_eq!(run.imap_tries[0].mail_server, "imap.nauta.cu");
    assert_eq!(run.imap_tries[0].send_server, "smtp.nauta.cu");
    assert_eq!(ctx.sql.get_raw_config("configured_mail_server"), Some("imap.nauta.cu".to_string()));
    assert_eq!(ctx.sql.get_raw_config("configured_send_server"), Some("smtp.nauta.cu".to_string()));
    assert_eq!(ctx.sql.get_raw_config("configured_mail_port"), Some("143".to_string()));
    assert_eq!(ctx.sql.get_raw_config("configured_send_port"), Some("25".to_string()));
    assert_eq!(ctx.sql.get_raw_config("configured_mail_user"), Some("a@nauta.cu".to_string()));
    assert_eq!(ctx.sql.get_raw_config("configured_send_pw"), Some("x".to_string()));
    assert_eq!(
        ctx.sql.get_raw_config_int("configured_server_flags"),
        Some(DC_LP_AUTH_NORMAL | DC_LP_IMAP_SOCKET_STARTTLS | DC_LP_SMTP_SOCKET_STARTTLS)
    );
    assert!(ctx.is_configured());
}

#[test]
fn found_settings_get_one_login_in_each_round() {
    let mut ctx = context_with("a@nauta.cu", "x");
    let mut s = script();
    s.imap_works_at = None;
    let run = drive(&mut ctx, &s);
    assert!(!run.success);
    assert_eq!(run.failure, Some(Failure::ImapConnect));
    assert_eq!(run.imap_tries.len(), 2);
    assert_eq!(run.imap_tries[0].mail_user, "a@nauta.cu");
    assert_eq!(run.imap_tries[0].mail_port, 143);
    assert_eq!(run.imap_tries[0].server_flags & 0x700, DC_LP_IMAP_SOCKET_STARTTLS);
    assert_eq!(run.imap_tries[1].mail_user, "a");
    assert_eq!(run.imap_tries[1].send_user, "a");
    assert_eq!(run.imap_tries[1].mail_port, 993);
    assert_eq!(run.imap_tries[1].server_flags & 0x700, DC_LP_IMAP_SOCKET_SSL);
    assert_eq!(run.imap_tries[1].mail_server, "imap.nauta.cu");
    assert_eq!(run.progress, vec![1, 200, 500, 600, 670, 0]);
    assert!(!ctx.is_configured());

    let mut ctx = context_with("a@nauta.cu", "x");
    s.imap_works_at = Some(1);
    let run = drive(&mut ctx, &s);
    assert!(run.success);
    assert_eq!(run.imap_tries.len(), 2);
    assert_eq!(run.smtp_tries.len(), 1);
    assert_eq!(run.progress, vec![1, 200, 500, 600, 670, 800, 900, 910, 920, 940, 1000]);
    assert_eq!(ctx.sql.get_raw_config("configured_mail_user"), Some("a".to_string()));
    assert_eq!(ctx.sql.get_raw_config_int("configured_mail_port"), Some(993));
}

#[test]
fn found_settings_get_one_smtp_login() {
    let mut ctx = context_with("a@nauta.cu", "x");
    let mut s = script();
    s.smtp_works_at = Some(1);
    let run = drive(&mut ctx, &s);
    assert!(!run.success);
    assert_eq!(run.failure, Some(Failure::SmtpConnect));
    assert_eq!(run.smtp_tries.len(), 1);
    assert_eq!(run.progress, vec![1, 200, 500, 600, 800, 0]);
}

#[test]
fn autoconfig_hit_on_first_url() {
    let mut ctx = context_with("user@example.org", "pw");
    let mut found = LoginParam::new();
    found.mail_server = "mail.example.org".to_string();
    found.mail_port = 993;
    found.send_server = "out.example.org".to_string();
    found.send_port = 587;
    found.send_user = "user".to_string();
    found.server_flags = DC_LP_IMAP_SOCKET_SSL | DC_LP_SMTP_SOCKET_STARTTLS;
    let mut s = script();
    s.document = Some((0, found));
    let run = drive(&mut ctx, &s);
    assert!(run.success);
    assert_eq!(
        run.urls,
        vec![
            "https://autoconfig.example.org/mail/config-v1.1.xml?emailaddress=user%40example%2Eorg"
                .to_string()
        ]
    );
    assert_eq!(
        run.progress,
        vec![1, 200, 300, 310, 320, 330, 340, 350, 500, 600, 800, 900, 910, 920, 940, 1000]
    );
    assert_eq!(run.imap_tries[0].mail_server, "mail.example.org");
    assert_eq!(run.imap_tries[0].mail_user, "user@example.org");
    assert_eq!(run.imap_tries[0].send_user, "user");
    assert_eq!(run.imap_tries[0].send_port, 587);
    assert_eq!(
        run.imap_tries[0].server_flags,
        DC_LP_AUTH_NORMAL | DC_LP_IMAP_SOCKET_SSL | DC_LP_SMTP_SOCKET_STARTTLS
    );
}

#[test]
fn all_seven_places_are_asked_in_order() {
    let mut ctx = context_with("user@example.org", "pw");
    let run = drive(&mut ctx, &script());
    let enc = "user%40example%2Eorg";
    assert_eq!(
        run.urls,
        vec![
            format!("https://autoconfig.example.org/mail/config-v1.1.xml?emailaddress={}", enc),
            format!(
                "https://example.org/.well-known/autoconfig/mail/config-v1.1.xml?emailaddress={}",
                enc
            ),
            "https://example.org/autodiscover/autodiscover.xml".to_string(),
            "https://autodiscover.example.org/autodiscover/autodiscover.xml".to_string(),
            format!("http://autoconfig.example.org/mail/config-v1.1.xml?emailaddress={}", enc),
            "http://example.org/.well-known/autoconfig/mail/config-v1.1.xml".to_string(),
            "https://autoconfig.thunderbird.net/v1.1/example.org".to_string(),
        ]
    );
    assert!(run.success);
    assert_eq!(run.imap_tries[0].mail_server, "imap.example.org");
    assert_eq!(run.imap_tries[0].send_server, "smtp.example.org");
    assert_eq!(run.imap_tries[0].mail_port, 993);
    assert_eq!(run.imap_tries[0].send_port, 465);
}

#[test]
fn probe_urls_and_formats() {
    assert_eq!(
        probe_url(0, "x.org", "a%40x%2Eorg"),
        "https://autoconfig.x.org/mail/config-v1.1.xml?emailaddress=a%40x%2Eorg"
    );
    assert_eq!(probe_url(5, "x.org", "a%40x%2Eorg"), "http://x.org/.well-known/autoconfig/mail/config-v1.1.xml");
    assert_eq!(probe_url(6, "x.org", "a%40x%2Eorg"), "https://autoconfig.thunderbird.net/v1.1/x.org");
    assert_eq!(probe_format(0), ProbeFormat::Mozilla);
    assert_eq!(probe_format(1), ProbeFormat::Mozilla);
    assert_eq!(probe_format(2), ProbeFormat::Outlook);
    assert_eq!(probe_format(3), ProbeFormat::Outlook);
    assert_eq!(probe_format(4), ProbeFormat::Mozilla);
    assert_eq!(probe_format(6), ProbeFormat::Mozilla);
}

#[test]
fn local_part_fallback_login() {
    let mut ctx = context_with("a@x.com", "pw");
    let mut s = script();
    s.imap_works_at = Some(3);
    let run = drive(&mut ctx, &s);
    assert!(run.success);
    assert_eq!(run.imap_tries.len(), 4);
    assert_eq!(run.imap_tries[0].mail_user, "a@x.com");
    assert_eq!(run.imap_tries[0].mail_port, 993);
    assert_eq!(run.imap_tries[0].server_flags & 0x700, DC_LP_IMAP_SOCKET_SSL);
    assert_eq!(run.imap_tries[1].server_flags & 0x700, DC_LP_IMAP_SOCKET_STARTTLS);
    assert_eq!(run.imap_tries[1].mail_port, 993);
    assert_eq!(run.imap_tries[2].server_flags & 0x700, DC_LP_IMAP_SOCKET_STARTTLS);
    assert_eq!(run.imap_tries[2].mail_port, 143);
    assert_eq!(run.imap_tries[3].mail_user, "a");
    assert_eq!(run.imap_tries[3].send_user, "a");
    assert_eq!(run.imap_tries[3].mail_port, 993);
    assert_eq!(run.imap_tries[3].server_flags & 0x700, DC_LP_IMAP_SOCKET_SSL);
    assert_eq!(ctx.sql.get_raw_config("configured_mail_user"), Some("a".to_string()));
    assert_eq!(
        run.progress,
        vec![
            1, 200, 300, 310, 320, 330, 340, 350, 500, 600, 650, 660, 670, 800, 900, 910, 920, 940,
            1000
        ]
    );
}

#[test]
fn six_imap_logins_at_most() {
    let mut ctx = context_with("a@x.com", "pw");
    let mut s = script();
    s.imap_works_at = None;
    let run = drive(&mut ctx, &s);
    assert!(!run.success);
    assert_eq!(run.imap_tries.len(), 6);
    assert_eq!(run.imap_tries[4].server_flags & 0x700, DC_LP_IMAP_SOCKET_STARTTLS);
    assert_eq!(run.imap_tries[4].mail_port, 993);
    assert_eq!(run.imap_tries[5].mail_port, 143);
    assert_eq!(run.imap_tries[5].mail_user, "a");
    assert_eq!(
        run.progress,
        vec![1, 200, 300, 310, 320, 330, 340, 350, 500, 600, 650, 660, 670, 680, 690, 0]
    );
    assert!(!run.disconnect_imap);
}

#[test]
fn three_smtp_logins_at_most() {
    let mut ctx = context_with("a@x.com", "pw");
    let mut s = script();
    s.smtp_works_at = Some(2);
    let run = drive(&mut ctx, &s);
    assert!(run.success);
    assert_eq!(run.smtp_tries.len(), 3);
    assert_eq!(run.smtp_tries[0].send_port, 465);
    assert_eq!(run.smtp_tries[0].server_flags & 0x70000, DC_LP_SMTP_SOCKET_SSL);
    assert_eq!(run.smtp_tries[1].send_port, 587);
    assert_eq!(run.smtp_tries[1].server_flags & 0x70000, DC_LP_SMTP_SOCKET_STARTTLS);
    assert_eq!(run.smtp_tries[2].send_port, 25);
    assert_eq!(run.smtp_tries[2].server_flags & 0x70000, DC_LP_SMTP_SOCKET_STARTTLS);
    assert_eq!(ctx.sql.get_raw_config_int("configured_send_port"), Some(25));
    let mut ctx = context_with("a@x.com", "pw");
    s.smtp_works_at = None;
    let run = drive(&mut ctx, &s);
    assert!(!run.success);
    assert_eq!(run.failure, Some(Failure::SmtpConnect));
    assert_eq!(run.smtp_tries.len(), 3);
    assert!(run.disconnect_imap);
    assert!(!run.disconnect_smtp);
    assert_eq!(*run.progress.last().unwrap(), 0);
    assert!(run.progress.contains(&850));
    assert!(run.progress.contains(&860));
}

#[test]
fn cancelled_mid_flight() {
    let mut ctx = context_with("a@nauta.cu", "x");
    ctx.sql.set_raw_config("configured_mail_server", Some("old.example.org")).unwrap();
    let mut s = script();
    s.cancel_after = Some(500);
    let run = drive(&mut ctx, &s);
    assert!(!run.success);
    assert_eq!(run.failure, Some(Failure::Cancelled));
    assert_eq!(run.progress, vec![1, 200, 500, 0]);
    assert!(run.imap_tries.is_empty());
    assert!(run.smtp_tries.is_empty());
    assert!(!run.requests.contains(&"imap".to_string()));
    assert_progress_in_order(&run.progress);
    assert!(!ctx.is_configured());
    assert_eq!(ctx.sql.get_raw_config("configured"), None);
    assert_eq!(
        ctx.sql.get_raw_config("configured_mail_server"),
        Some("old.example.org".to_string())
    );
    assert_eq!(ctx.sql.get_raw_config("configured_addr"), None);
    assert!(!ctx.has_ongoing());
    assert!(!ctx.shall_stop_ongoing());
}

#[test]
fn cancelled_after_failed_login() {
    let mut ctx = context_with("a@x.com", "pw");
    let mut s = script();
    s.imap_works_at = None;
    s.cancel_after = Some(600);
    let run = drive(&mut ctx, &s);
    assert_eq!(run.failure, Some(Failure::Cancelled));
    assert_eq!(run.imap_tries.len(), 1);
}

#[test]
fn failure_restores_last_good_settings() {
    let mut ctx = context_with("new@x.com", "newpw");
    let mut good = LoginParam::new();
    good.addr = "old@x.com".to_string();
    good.mail_pw = "oldpw".to_string();
    good.mail_server = "imap.old.x.com".to_string();
    good.mail_port = 1143;
    good.server_flags = DC_LP_AUTH_NORMAL;
    good.save_to_database(&mut ctx.sql, "configured_raw_").unwrap();
    let mut s = script();
    s.imap_works_at = None;
    let run = drive(&mut ctx, &s);
    assert!(!run.success);
    assert_eq!(ctx.sql.get_raw_config("addr"), Some("old@x.com".to_string()));
    assert_eq!(ctx.sql.get_raw_config("mail_pw"), Some("oldpw".to_string()));
    assert_eq!(ctx.sql.get_raw_config("mail_server"), Some("imap.old.x.com".to_string()));
    assert_eq!(ctx.sql.get_raw_config_int("mail_port"), Some(1143));
    assert_eq!(ctx.sql.get_raw_config_int("server_flags"), Some(DC_LP_AUTH_NORMAL));
    let primary = LoginParam::from_database(&ctx.sql, "");
    let raw = LoginParam::from_database(&ctx.sql, "configured_raw_");
    assert_eq!(primary.addr, raw.addr);
    assert_eq!(primary.send_server, raw.send_server);
}

#[test]
fn success_remembers_entered_settings() {
    let mut ctx = context_with("a@nauta.cu", "x");
    let run = drive(&mut ctx, &script());
    assert!(run.success);
    assert_eq!(ctx.sql.get_raw_config("configured_raw_addr"), Some("a@nauta.cu".to_string()));
    assert_eq!(ctx.sql.get_raw_config("configured_raw_mail_pw"), Some("x".to_string()));
    assert_eq!(ctx.sql.get_raw_config("configured_raw_mail_server"), Some("".to_string()));
    assert_eq!(ctx.sql.get_raw_config("configured_raw_mail_port"), Some("0".to_string()));
}

#[test]
fn successful_run_persists_complete_settings() {
    let mut ctx = context_with("a@x.com", "pw");
    let mut s = script();
    s.imap_works_at = Some(2);
    s.smtp_works_at = Some(1);
    let run = drive(&mut ctx, &s);
    assert!(run.success);
    let p = LoginParam::from_database(&ctx.sql, "configured_");
    assert!(!p.addr.is_empty());
    assert!(!p.mail_server.is_empty());
    assert!(!p.mail_user.is_empty());
    assert!(!p.mail_pw.is_empty());
    assert!(p.mail_port != 0);
    assert!(!p.send_server.is_empty());
    assert!(!p.send_user.is_empty());
    assert!(!p.send_pw.is_empty());
    assert!(p.send_port != 0);
    assert_eq!((p.server_flags & 0x6).count_ones(), 1);
    assert_eq!((p.server_flags & 0x700).count_ones(), 1);
    assert_eq!((p.server_flags & 0x70000).count_ones(), 1);
    assert_eq!(p.mail_port, 143);
    assert_eq!(p.send_port, 587);
    assert!(complete(&p));
}

#[test]
fn configured_is_written_after_both_logins_only() {
    let mut ctx = context_with("a@nauta.cu", "x");
    let (job, out) = job_configure_imap(&mut ctx);
    assert!(matches!(out.request, Request::Disconnect));
    let (job, out) = advance(job, &mut ctx, Event::Disconnected);
    assert!(matches!(out.request, Request::ConnectImap(_)));
    assert_eq!(out.progress, vec![1, 200, 500, 600]);
    assert!(!ctx.is_configured());
    let (job, out) = advance(job, &mut ctx, Event::Connected(true));
    assert!(matches!(out.request, Request::ConnectSmtp(_)));
    assert!(!ctx.is_configured());
    let (job, out) = advance(job, &mut ctx, Event::Connected(true));
    assert!(matches!(out.request, Request::ConfigureFolders { create_mvbox: false }));
    assert_eq!(out.progress, vec![900]);
    assert!(!ctx.is_configured());
    let (job, out) = advance(job, &mut ctx, Event::FoldersConfigured(true));
    assert!(matches!(out.request, Request::SelectInbox));
    assert!(out.progress.is_empty());
    assert!(!ctx.is_configured());
    let job = job.unwrap();
    assert_eq!(job.stage(), Stage::Inbox);
    let (job, out) = job_configure_imap_step(job, &mut ctx, Event::InboxSelected(true));
    assert!(matches!(out.request, Request::Continue));
    assert_eq!(out.progress, vec![910]);
    assert!(ctx.is_configured());
    let (job, out) = job_configure_imap_step(job.unwrap(), &mut ctx, Event::Continue);
    assert!(matches!(out.request, Request::EnsureSecretKey));
    assert_eq!(out.progress, vec![920]);
    let (job, out) = job_configure_imap_step(job.unwrap(), &mut ctx, Event::SecretKey(true));
    assert!(job.is_none());
    assert_eq!(out.progress, vec![940, 1000]);
}

#[test]
fn every_reported_step_ends_its_call() {
    let mut ctx = context_with("a@nauta.cu", "x");
    let (job, _) = job_configure_imap(&mut ctx);
    let (job, out) = job_configure_imap_step(job.unwrap(), &mut ctx, Event::Disconnected);
    assert_eq!(out.progress, vec![1]);
    assert!(matches!(out.request, Request::Continue));
    assert_eq!(job.as_ref().unwrap().stage(), Stage::Entered);
    let (job, out) = job_configure_imap_step(job.unwrap(), &mut ctx, Event::Continue);
    assert_eq!(out.progress, vec![200]);
    assert!(matches!(out.request, Request::Continue));
    assert_eq!(job.as_ref().unwrap().stage(), Stage::UseFound);
    let (job, out) = job_configure_imap_step(job.unwrap(), &mut ctx, Event::Continue);
    assert_eq!(out.progress, vec![500]);
    assert!(matches!(out.request, Request::Continue));
    assert_eq!(job.as_ref().unwrap().stage(), Stage::Defaults);
    let (job, out) = job_configure_imap_step(job.unwrap(), &mut ctx, Event::Continue);
    assert_eq!(out.progress, vec![600]);
    assert!(matches!(out.request, Request::ConnectImap(_)));
    assert_eq!(job.as_ref().unwrap().stage(), Stage::Imap(0));
}

#[test]
fn a_stop_is_seen_between_any_two_steps() {
    for (after, expected) in [
        (1, vec![1, 0]),
        (200, vec![1, 200, 0]),
        (500, vec![1, 200, 500, 0]),
        (800, vec![1, 200, 500, 600, 800, 0]),
        (900, vec![1, 200, 500, 600, 800, 900, 0]),
        (910, vec![1, 200, 500, 600, 800, 900, 910, 0]),
    ] {
        let mut ctx = context_with("a@nauta.cu", "x");
        let mut s = script();
        s.cancel_after = Some(after);
        let run = drive(&mut ctx, &s);
        assert_eq!(run.progress, expected, "stop after {}", after);
        assert_eq!(run.failure, Some(Failure::Cancelled));
        assert!(!run.requests.contains(&"key".to_string()));
        if after < 600 {
            assert!(run.imap_tries.is_empty());
        }
        if after < 800 {
            assert!(run.smtp_tries.is_empty());
        }
        assert_eq!(ctx.is_configured(), after == 910);
    }
    let mut ctx = context_with("user@example.org", "pw");
    let mut s = script();
    s.cancel_after = Some(310);
    let run = drive(&mut ctx, &s);
    assert_eq!(run.progress, vec![1, 200, 300, 310, 0]);
    assert_eq!(run.urls.len(), 3);
    let mut ctx = context_with("entered@x.com", "token");
    ctx.sql.set_raw_config_int("server_flags", DC_LP_AUTH_OAUTH2).unwrap();
    let mut s = script();
    s.cancel_after = Some(20);
    let run = drive(&mut ctx, &s);
    assert_eq!(run.progress, vec![1, 10, 20, 0]);
}

#[test]
fn folder_trouble_is_no_failure_but_inbox_trouble_is() {
    let mut ctx = context_with("a@nauta.cu", "x");
    let mut s = script();
    s.folders = false;
    let run = drive(&mut ctx, &s);
    assert!(run.success);
    let mut ctx = context_with("a@nauta.cu", "x");
    let mut s = script();
    s.inbox = false;
    let run = drive(&mut ctx, &s);
    assert!(!run.success);
    assert_eq!(run.failure, Some(Failure::InboxSelect));
    assert_eq!(run.progress, vec![1, 200, 500, 600, 800, 900, 0]);
    assert!(run.disconnect_imap && run.disconnect_smtp);
}

#[test]
fn missing_secret_key_fails_the_run() {
    let mut ctx = context_with("a@nauta.cu", "x");
    let mut s = script();
    s.secret_key = false;
    let run = drive(&mut ctx, &s);
    assert!(!run.success);
    assert_eq!(run.failure, Some(Failure::SecretKey));
    assert_eq!(run.progress, vec![1, 200, 500, 600, 800, 900, 910, 920, 940, 0]);
}

#[test]
fn run_is_refused_without_database_or_slot() {
    let mut ctx = Context::new();
    let (job, out) = job_configure_imap(&mut ctx);
    assert!(job.is_none());
    assert_eq!(out.progress, vec![0]);
    assert!(matches!(
        out.request,
        Request::Finish { success: false, failure: Some(Failure::DatabaseNotOpen), .. }
    ));
    assert!(!ctx.has_ongoing());

    let mut ctx = dummy_context();
    assert!(ctx.alloc_ongoing());
    let (job, out) = job_configure_imap(&mut ctx);
    assert!(job.is_none());
    assert_eq!(out.progress, vec![0]);
    assert!(matches!(
        out.request,
        Request::Finish { success: false, failure: Some(Failure::OngoingRunning), .. }
    ));
    assert!(ctx.has_ongoing());
}

#[test]
fn bad_address_and_missing_password() {
    let mut ctx = context_with("no-at-sign", "pw");
    let run = drive(&mut ctx, &script());
    assert_eq!(run.failure, Some(Failure::BadEmailAddress));
    assert_eq!(run.progress, vec![1, 0]);
    let mut ctx = context_with("a@x.com", "");
    let run = drive(&mut ctx, &script());
    assert_eq!(run.failure, Some(Failure::IncompleteSettings));
    assert_eq!(run.progress, vec![1, 200, 300, 310, 320, 330, 340, 350, 500, 0]);
}

#[test]
fn advanced_settings_skip_the_search() {
    let mut ctx = context_with("a@nauta.cu", "x");
    ctx.sql.set_raw_config("mail_server", Some("mx.example.net")).unwrap();
    let run = drive(&mut ctx, &script());
    assert!(run.success);
    assert!(run.urls.is_empty());
    assert_eq!(run.progress, vec![1, 200, 600, 800, 900, 910, 920, 940, 1000]);
    assert_eq!(run.imap_tries[0].mail_server, "mx.example.net");
    assert_eq!(run.imap_tries[0].send_server, "mx.example.net");
    let mut s = script();
    s.imap_works_at = Some(1);
    let mut ctx = context_with("a@nauta.cu", "x");
    ctx.sql.set_raw_config_int("mail_port", 993).unwrap();
    let run = drive(&mut ctx, &s);
    assert!(run.success);
    assert_eq!(run.imap_tries.len(), 2);
}

#[test]
fn oauth2_address_is_taken_over() {
    let mut ctx = context_with("entered@x.com", "token");
    ctx.sql.set_raw_config_int("server_flags", DC_LP_AUTH_OAUTH2).unwrap();
    let mut s = script();
    s.oauth2 = Some("real@x.com".to_string());
    let run = drive(&mut ctx, &s);
    assert!(run.success);
    assert_eq!(&run.progress[..4], &[1, 10, 20, 200]);
    assert_eq!(run.imap_tries[0].addr, "real@x.com");
    assert_eq!(run.imap_tries[0].mail_user, "real@x.com");
    assert_eq!(run.imap_tries[0].server_flags & 0x6, DC_LP_AUTH_OAUTH2);
    assert_eq!(ctx.sql.get_raw_config("configured_addr"), Some("real@x.com".to_string()));
    let mut ctx = context_with("entered@x.com", "token");
    ctx.sql.set_raw_config_int("server_flags", DC_LP_AUTH_OAUTH2).unwrap();
    s.oauth2 = Some("not an address".to_string());
    let run = drive(&mut ctx, &s);
    assert_eq!(run.imap_tries[0].addr, "entered@x.com");
}

#[test]
fn unexpected_answer_ends_the_run() {
    let mut ctx = context_with("a@nauta.cu", "x");
    let (job, _) = job_configure_imap(&mut ctx);
    let (job, out) = job_configure_imap_step(job.unwrap(), &mut ctx, Event::Connected(true));
    assert!(job.is_none());
    assert_eq!(out.progress, vec![0]);
    assert!(matches!(
        out.request,
        Request::Finish { failure: Some(Failure::UnexpectedEvent), .. }
    ));
}

#[test]
fn provider_hint_is_handed_out() {
    let mut ctx = context_with("a@example.com", "x");
    let mut s = script();
    s.imap_works_at = None;
    let run = drive(&mut ctx, &s);
    assert!(run.hint.unwrap().starts_with("This provider doesn't really exist"));
    let mut ctx = context_with("a@nauta.cu", "x");
    let run = drive(&mut ctx, &script());
    assert_eq!(run.hint, None);
}

#[test]
fn mvbox_is_wanted_when_watched_or_moved_to() {
    for (key, wanted) in [("mvbox_watch", true), ("mvbox_move", true), ("other", false)] {
        let mut ctx = context_with("a@nauta.cu", "x");
        ctx.sql.set_raw_config_bool(key, true).unwrap();
        let (job, _) = job_configure_imap(&mut ctx);
        let (job, _) = advance(job, &mut ctx, Event::Disconnected);
        let (job, _) = advance(job, &mut ctx, Event::Connected(true));
        let (_, out) = advance(job, &mut ctx, Event::Connected(true));
        match out.request {
            Request::ConfigureFolders { create_mvbox } => assert_eq!(create_mvbox, wanted),
            _ => panic!("the folders should be next"),
        }
    }
}

#[test]
fn defaults_are_filled_in() {
    let mut p = LoginParam::new();
    p.addr = "me@example.org".to_string();
    p.mail_pw = "pw".to_string();
    fill_defaults(&mut p, "example.org");
    assert_eq!(p.mail_server, "imap.example.org");
    assert_eq!(p.mail_port, 993);
    assert_eq!(p.mail_user, "me@example.org");
    assert_eq!(p.send_server, "smtp.example.org");
    assert_eq!(p.send_port, 465);
    assert_eq!(p.send_user, "me@example.org");
    assert_eq!(p.send_pw, "pw");
    assert_eq!(p.server_flags, DC_LP_AUTH_NORMAL | DC_LP_IMAP_SOCKET_SSL | DC_LP_SMTP_SOCKET_SSL);
    assert!(complete(&p));

    let mut p = LoginParam::new();
    p.addr = "me@example.org".to_string();
    p.mail_server = "mail.example.org".to_string();
    p.server_flags = DC_LP_IMAP_SOCKET_STARTTLS | DC_LP_SMTP_SOCKET_STARTTLS;
    fill_defaults(&mut p, "example.org");
    assert_eq!(p.mail_port, 143);
    assert_eq!(p.send_server, "mail.example.org");
    assert_eq!(p.send_port, 587);
    assert_eq!(
        p.server_flags,
        DC_LP_AUTH_NORMAL | DC_LP_IMAP_SOCKET_STARTTLS | DC_LP_SMTP_SOCKET_STARTTLS
    );
    assert!(!complete(&p));

    let mut p = LoginParam::new();
    p.server_flags = DC_LP_IMAP_SOCKET_PLAIN | DC_LP_SMTP_SOCKET_PLAIN;
    fill_defaults(&mut p, "example.org");
    assert_eq!(p.mail_port, 143);
    assert_eq!(p.send_port, 25);

    let mut p = LoginParam::new();
    p.send_port = 143;
    fill_defaults(&mut p, "example.org");
    assert_eq!(p.server_flags & 0x700, DC_LP_IMAP_SOCKET_STARTTLS);
    assert_eq!(p.server_flags & 0x70000, DC_LP_SMTP_SOCKET_SSL);
    let mut p = LoginParam::new();
    p.send_port = 25;
    fill_defaults(&mut p, "example.org");
    assert_eq!(p.server_flags & 0x70000, DC_LP_SMTP_SOCKET_PLAIN);
    let mut p = LoginParam::new();
    p.send_port = 587;
    p.server_flags = DC_LP_AUTH_OAUTH2 | DC_LP_AUTH_NORMAL | DC_LP_IMAP_SOCKET_SSL | 0x100;
    fill_defaults(&mut p, "example.org");
    assert_eq!(
        p.server_flags,
        DC_LP_AUTH_NORMAL | DC_LP_IMAP_SOCKET_SSL | DC_LP_SMTP_SOCKET_STARTTLS
    );
    let mut p = LoginParam::new();
    p.mail_server = "imapx.example.org".to_string();
    fill_defaults(&mut p, "example.org");
    assert_eq!(p.send_server, "imapx.example.org");
}

#[test]
fn found_settings_are_merged() {
    let mut p = LoginParam::new();
    p.addr = "me@example.org".to_string();
    p.mail_user = "me".to_string();
    p.mail_pw = "pw".to_string();
    p.server_flags = DC_LP_AUTH_OAUTH2;
    let mut f = LoginParam::new();
    f.mail_server = "a".to_string();
    f.mail_port = 1;
    f.send_server = "b".to_string();
    f.send_port = 2;
    f.send_user = "c".to_string();
    f.mail_pw = "ignored".to_string();
    f.server_flags = DC_LP_IMAP_SOCKET_SSL;
    use_autoconfig(&mut p, &Some(f), DC_LP_AUTH_OAUTH2);
    assert_eq!(p.mail_user, "me");
    assert_eq!(p.mail_server, "a");
    assert_eq!(p.mail_port, 1);
    assert_eq!(p.send_server, "b");
    assert_eq!(p.send_port, 2);
    assert_eq!(p.send_user, "c");
    assert_eq!(p.mail_pw, "pw");
    assert_eq!(p.server_flags, DC_LP_IMAP_SOCKET_SSL | DC_LP_AUTH_OAUTH2);
    let mut q = LoginParam::new();
    q.server_flags = 0x100;
    use_autoconfig(&mut q, &None, DC_LP_AUTH_OAUTH2);
    assert_eq!(q.server_flags, 0x102);
    assert!(has_advanced(&q));
    assert!(!has_advanced(&LoginParam::new()));
    let mut r = LoginParam::new();
    r.mail_user = "login".to_string();
    r.mail_pw = "pw".to_string();
    r.server_flags = DC_LP_AUTH_OAUTH2;
    assert!(!has_advanced(&r));
    r.send_user = "x".to_string();
    assert!(has_advanced(&r));
}

#[test]
fn only_the_oauth2_flag_outlives_the_search() {
    let mut ctx = context_with("a@nauta.cu", "token");
    ctx.sql.set_raw_config_int("server_flags", DC_LP_AUTH_OAUTH2).unwrap();
    let run = drive(&mut ctx, &script());
    assert!(run.success);
    assert!(run.urls.is_empty());
    assert_eq!(
        run.imap_tries[0].server_flags,
        DC_LP_AUTH_OAUTH2 | DC_LP_IMAP_SOCKET_STARTTLS | DC_LP_SMTP_SOCKET_STARTTLS
    );
    // Any other flag makes the settings those of an expert, and nothing is searched.
    let mut ctx = context_with("a@nauta.cu", "pw");
    ctx.sql.set_raw_config_int("server_flags", DC_LP_AUTH_NORMAL).unwrap();
    let run = drive(&mut ctx, &script());
    assert!(run.success);
    assert_eq!(run.imap_tries[0].mail_server, "imap.nauta.cu");
    assert_eq!(run.imap_tries[0].mail_port, 993);
    assert_eq!(run.progress, vec![1, 200, 600, 800, 900, 910, 920, 940, 1000]);
    assert_eq!(
        run.imap_tries[0].server_flags,
        DC_LP_AUTH_NORMAL | DC_LP_IMAP_SOCKET_SSL | DC_LP_SMTP_SOCKET_SSL
    );
}

#[test]
fn every_write_of_a_run_is_noted() {
    let mut ctx = context_with("a@nauta.cu", "x");
    assert_eq!(ctx.sql.take_changes().len(), 2);
    let run = drive(&mut ctx, &script());
    assert!(run.success);
    let changes = ctx.sql.take_changes();
    let keys: Vec<&str> = changes.iter().map(|c| c.keyname.as_str()).collect();
    assert_eq!(keys.len(), 12 + 1 + 12);
    assert_eq!(keys[0], "configured_addr");
    assert_eq!(keys[11], "configured_server_flags");
    assert_eq!(keys[12], "configured");
    assert_eq!(keys[13], "configured_raw_addr");
    assert_eq!(changes[12].value, Some("1".to_string()));
    assert!(ctx.sql.take_changes().is_empty());
}
