//! Where the settings of an account come from: the built-in table of
//! providers, the documents that a domain publishes, and defaults for what
//! is still missing after that.

use vstd::prelude::*;
use crate::context::Context;
use crate::login_param::{
    auth_chosen, flags_chosen, has_auth, has_imap_socket, has_smtp_socket, imap_socket_chosen,
    lemma_with_auth, lemma_with_imap_socket, lemma_with_smtp_socket, set_auth, set_imap_socket,
    set_smtp_socket, smtp_socket_chosen, with_auth, with_imap_socket, with_smtp_socket,
    CertificateChecks, LoginParam, LoginParamView, DC_LP_AUTH_NORMAL, DC_LP_AUTH_OAUTH2,
    DC_LP_IMAP_SOCKET_PLAIN, DC_LP_IMAP_SOCKET_SSL, DC_LP_IMAP_SOCKET_STARTTLS,
    DC_LP_SMTP_SOCKET_PLAIN, DC_LP_SMTP_SOCKET_SSL, DC_LP_SMTP_SOCKET_STARTTLS,
};
use crate::provider::{get_provider_info, provider_info, username_for, Socket, Status};
use crate::text::{join, join3, is_prefix, starts_with, substring};

verus! {

/// The format of a published document with settings.
#[derive(Clone, Copy, Debug, PartialEq, Eq, Structural)]
pub enum ProbeFormat {
    /// The autoconfig format that Thunderbird reads.
    Mozilla,
    /// The autodiscover format that Outlook reads.
    Outlook,
}

/// How many places are asked for a document with settings.
pub const PROBE_COUNT: u8 = 7;

/// The flag for a socket to the IMAP server.
pub open spec fn imap_socket_flag(socket: Socket) -> i32 {
    match socket {
        Socket::STARTTLS => DC_LP_IMAP_SOCKET_STARTTLS,
        Socket::SSL => DC_LP_IMAP_SOCKET_SSL,
    }
}

/// The flag for a socket to the SMTP server.
pub open spec fn smtp_socket_flag(socket: Socket) -> i32 {
    match socket {
        Socket::STARTTLS => DC_LP_SMTP_SOCKET_STARTTLS,
        Socket::SSL => DC_LP_SMTP_SOCKET_SSL,
    }
}

/// The settings that the table of providers gives for `addr`: those of a
/// provider that is not broken and has both servers. The passwords stay
/// empty and no way to log in is chosen.
pub open spec fn offline_autoconfig(addr: Seq<char>) -> Option<LoginParamView> {
    match provider_info(addr) {
        Some(p) => if p.status != Status::BROKEN && p.imap is Some && p.smtp is Some {
            Some(
                LoginParamView {
                    addr,
                    mail_server: p.imap->0.hostname,
                    mail_user: username_for(p.username_pattern, addr),
                    mail_pw: Seq::empty(),
                    mail_port: p.imap->0.port as i32,
                    imap_certificate_checks: CertificateChecks::AcceptInvalidCertificates,
                    send_server: p.smtp->0.hostname,
                    send_user: username_for(p.username_pattern, addr),
                    send_pw: Seq::empty(),
                    send_port: p.smtp->0.port as i32,
                    smtp_certificate_checks: CertificateChecks::AcceptInvalidCertificates,
                    server_flags: imap_socket_flag(p.imap->0.socket) | smtp_socket_flag(
                        p.smtp->0.socket,
                    ),
                },
            )
        } else {
            None
        },
        None => None,
    }
}

/// Looks the address of `param` up in the table of providers.
pub fn get_offline_autoconfig(context: &Context, param: &LoginParam) -> (r: Option<LoginParam>)
    ensures
        r is Some <==> offline_autoconfig(param@.addr) is Some,
        r is Some ==> r->0@ == offline_autoconfig(param@.addr)->0,
{
    let provider = match get_provider_info(param.addr.as_str()) {
        Some(p) => p,
        None => {
            return None;
        },
    };
    match provider.status {
        Status::OK | Status::PREPARATION => {
            match (provider.get_imap_server(), provider.get_smtp_server()) {
                (Some(imap), Some(smtp)) => {
                    let imap_flag = match imap.socket {
                        Socket::STARTTLS => DC_LP_IMAP_SOCKET_STARTTLS,
                        Socket::SSL => DC_LP_IMAP_SOCKET_SSL,
                    };
                    let smtp_flag = match smtp.socket {
                        Socket::STARTTLS => DC_LP_SMTP_SOCKET_STARTTLS,
                        Socket::SSL => DC_LP_SMTP_SOCKET_SSL,
                    };
                    Some(
                        LoginParam {
                            addr: param.addr.clone(),
                            mail_server: imap.hostname.to_owned(),
                            mail_user: provider.apply_username_pattern(param.addr.as_str()),
                            mail_pw: String::new(),
                            mail_port: imap.port as i32,
                            imap_certificate_checks: CertificateChecks::AcceptInvalidCertificates,
                            send_server: smtp.hostname.to_owned(),
                            send_user: provider.apply_username_pattern(param.addr.as_str()),
                            send_pw: String::new(),
                            send_port: smtp.port as i32,
                            smtp_certificate_checks: CertificateChecks::AcceptInvalidCertificates,
                            server_flags: imap_flag | smtp_flag,
                        },
                    )
                },
                _ => None,
            }
        },
        Status::BROKEN => None,
    }
}

/// The URL of the place `k` that is asked for a document with settings of
/// `domain`. `enc` is the address in its form for a URL; it is sent only
/// over an encrypted connection.
pub open spec fn probe_url_spec(k: int, domain: Seq<char>, enc: Seq<char>) -> Seq<char> {
    if k == 0 {
        "https://autoconfig."@ + domain + "/mail/config-v1.1.xml?emailaddress="@ + enc
    } else if k == 1 {
        "https://"@ + domain + "/.well-known/autoconfig/mail/config-v1.1.xml?emailaddress="@ + enc
    } else if k == 2 {
        "https://"@ + domain + "/autodiscover/autodiscover.xml"@
    } else if k == 3 {
        "https://autodiscover."@ + domain + "/autodiscover/autodiscover.xml"@
    } else if k == 4 {
        "http://autoconfig."@ + domain + "/mail/config-v1.1.xml?emailaddress="@ + enc
    } else if k == 5 {
        "http://"@ + domain + "/.well-known/autoconfig/mail/config-v1.1.xml"@
    } else {
        "https://autoconfig.thunderbird.net/v1.1/"@ + domain
    }
}

/// The format of the document at the place `k`.
pub open spec fn probe_format_spec(k: int) -> ProbeFormat {
    if k == 2 || k == 3 {
        ProbeFormat::Outlook
    } else {
        ProbeFormat::Mozilla
    }
}

/// The URL of the place `k`.
pub fn probe_url(k: u8, domain: &str, enc: &str) -> (r: String)
    ensures
        r@ == probe_url_spec(k as int, domain@, enc@),
{
    if k == 0 {
        join3("https://autoconfig.", domain, "/mail/config-v1.1.xml?emailaddress=").concat(enc)
    } else if k == 1 {
        join3(
            "https://",
            domain,
            "/.well-known/autoconfig/mail/config-v1.1.xml?emailaddress=",
        ).concat(enc)
    } else if k == 2 {
        join3("https://", domain, "/autodiscover/autodiscover.xml")
    } else if k == 3 {
        join3("https://autodiscover.", domain, "/autodiscover/autodiscover.xml")
    } else if k == 4 {
        join3("http://autoconfig.", domain, "/mail/config-v1.1.xml?emailaddress=").concat(enc)
    } else if k == 5 {
        join3("http://", domain, "/.well-known/autoconfig/mail/config-v1.1.xml")
    } else {
        join("https://autoconfig.thunderbird.net/v1.1/", domain)
    }
}

/// The format of the document at the place `k`.
pub fn probe_format(k: u8) -> (r: ProbeFormat)
    ensures
        r == probe_format_spec(k as int),
{
    if k == 2 || k == 3 {
        ProbeFormat::Outlook
    } else {
        ProbeFormat::Mozilla
    }
}

/// Whether the user entered any of the settings that only an expert
/// enters: a server, a port, a user name for sending, or a flag other than
/// the one for OAuth2.
pub open spec fn advanced_entered(p: LoginParamView) -> bool {
    !(p.mail_server.len() == 0 && p.mail_port == 0 && p.send_server.len() == 0 && p.send_port == 0
        && p.send_user.len() == 0 && p.server_flags & !DC_LP_AUTH_OAUTH2 == 0)
}

/// Whether the user entered any of the settings that only an expert enters.
pub fn has_advanced(param: &LoginParam) -> (r: bool)
    ensures
        r == advanced_entered(param@),
{
    !(param.mail_server.as_str().is_empty() && param.mail_port == 0
        && param.send_server.as_str().is_empty() && param.send_port == 0
        && param.send_user.as_str().is_empty() && (param.server_flags & !DC_LP_AUTH_OAUTH2) == 0)
}

/// The settings `p` after those that were found, `found`, were taken over:
/// servers, ports, the user name for sending and the flags always, the user
/// name for fetching where one was found. `keep_flags` is set in the flags
/// either way.
pub open spec fn merged(
    p: LoginParamView,
    found: Option<LoginParamView>,
    keep_flags: i32,
) -> LoginParamView {
    match found {
        Some(f) => LoginParamView {
            mail_user: if f.mail_user.len() > 0 {
                f.mail_user
            } else {
                p.mail_user
            },
            mail_server: f.mail_server,
            mail_port: f.mail_port,
            send_server: f.send_server,
            send_port: f.send_port,
            send_user: f.send_user,
            server_flags: f.server_flags | keep_flags,
            ..p
        },
        None => LoginParamView { server_flags: p.server_flags | keep_flags, ..p },
    }
}

/// Takes the settings that were found over into `param`.
pub fn use_autoconfig(param: &mut LoginParam, found: &Option<LoginParam>, keep_flags: i32)
    ensures
        final(param)@ == merged(
            old(param)@,
            match found {
                Some(f) => Some(f@),
                None => None,
            },
            keep_flags,
        ),
{
    match found {
        Some(cfg) => {
            if !cfg.mail_user.as_str().is_empty() {
                param.mail_user = cfg.mail_user.clone();
            }
            param.mail_server = cfg.mail_server.clone();
            param.mail_port = cfg.mail_port;
            param.send_server = cfg.send_server.clone();
            param.send_port = cfg.send_port;
            param.send_user = cfg.send_user.clone();
            param.server_flags = cfg.server_flags;
        },
        None => {},
    }
    param.server_flags = param.server_flags | keep_flags;
}

/// The server for sending that goes with a server for fetching: the same
/// name, with `smtp` in place of `imap` where the name begins with `imap.`.
pub open spec fn send_server_for(mail_server: Seq<char>) -> Seq<char> {
    if is_prefix("imap."@, mail_server) {
        "smtp"@ + mail_server.subrange(4, mail_server.len() as int)
    } else {
        mail_server
    }
}

/// The port for fetching that goes with the flags.
pub open spec fn default_mail_port(flags: i32) -> i32 {
    if flags & (DC_LP_IMAP_SOCKET_STARTTLS | DC_LP_IMAP_SOCKET_PLAIN) != 0 {
        143
    } else {
        993
    }
}

/// The port for sending that goes with the flags.
pub open spec fn default_send_port(flags: i32) -> i32 {
    if flags & DC_LP_SMTP_SOCKET_STARTTLS != 0 {
        587
    } else if flags & DC_LP_SMTP_SOCKET_PLAIN != 0 {
        25
    } else {
        465
    }
}

/// The flags with a choice made in each group that had none: the password
/// to log in; for fetching STARTTLS where the port for sending is 143, and
/// else TLS; for sending STARTTLS on port 587, plain text on port 25, and
/// else TLS.
pub open spec fn default_flags(flags: i32, send_port: i32) -> i32 {
    let a = if auth_chosen(flags) {
        flags
    } else {
        with_auth(flags, DC_LP_AUTH_NORMAL)
    };
    let b = if imap_socket_chosen(a) {
        a
    } else {
        with_imap_socket(
            a,
            if send_port == 143 {
                DC_LP_IMAP_SOCKET_STARTTLS
            } else {
                DC_LP_IMAP_SOCKET_SSL
            },
        )
    };
    if smtp_socket_chosen(b) {
        b
    } else {
        with_smtp_socket(
            b,
            if send_port == 587 {
                DC_LP_SMTP_SOCKET_STARTTLS
            } else if send_port == 25 {
                DC_LP_SMTP_SOCKET_PLAIN
            } else {
                DC_LP_SMTP_SOCKET_SSL
            },
        )
    }
}

/// The settings `p` of an account at `domain` with a default in place of
/// everything that is missing.
pub open spec fn defaults_filled(p: LoginParamView, domain: Seq<char>) -> LoginParamView {
    let mail_server = if p.mail_server.len() == 0 {
        "imap."@ + domain
    } else {
        p.mail_server
    };
    let mail_port = if p.mail_port == 0 {
        default_mail_port(p.server_flags)
    } else {
        p.mail_port
    };
    let mail_user = if p.mail_user.len() == 0 {
        p.addr
    } else {
        p.mail_user
    };
    let send_server = if p.send_server.len() == 0 && mail_server.len() > 0 {
        send_server_for(mail_server)
    } else {
        p.send_server
    };
    let send_port = if p.send_port == 0 {
        default_send_port(p.server_flags)
    } else {
        p.send_port
    };
    let send_user = if p.send_user.len() == 0 {
        mail_user
    } else {
        p.send_user
    };
    let send_pw = if p.send_pw.len() == 0 {
        p.mail_pw
    } else {
        p.send_pw
    };
    LoginParamView {
        mail_server,
        mail_port,
        mail_user,
        send_server,
        send_port,
        send_user,
        send_pw,
        server_flags: default_flags(p.server_flags, send_port),
        ..p
    }
}

/// Nothing is missing: no text is empty, no port is 0, and some flag is set.
pub open spec fn is_complete(p: LoginParamView) -> bool {
    p.mail_server.len() > 0 && p.mail_port != 0 && p.mail_user.len() > 0 && p.mail_pw.len() > 0
        && p.send_server.len() > 0 && p.send_port != 0 && p.send_user.len() > 0 && p.send_pw.len()
        > 0 && p.server_flags != 0
}

/// After the defaults exactly one flag of each group is set.
pub proof fn lemma_default_flags(flags: i32, send_port: i32)
    ensures
        flags_chosen(default_flags(flags, send_port)),
        default_flags(flags, send_port) != 0,
{
    let a = if auth_chosen(flags) {
        flags
    } else {
        with_auth(flags, DC_LP_AUTH_NORMAL)
    };
    lemma_with_auth(flags, DC_LP_AUTH_NORMAL);
    let imap = if send_port == 143 {
        DC_LP_IMAP_SOCKET_STARTTLS
    } else {
        DC_LP_IMAP_SOCKET_SSL
    };
    let b = if imap_socket_chosen(a) {
        a
    } else {
        with_imap_socket(a, imap)
    };
    lemma_with_imap_socket(a, imap);
    let smtp = if send_port == 587 {
        DC_LP_SMTP_SOCKET_STARTTLS
    } else if send_port == 25 {
        DC_LP_SMTP_SOCKET_PLAIN
    } else {
        DC_LP_SMTP_SOCKET_SSL
    };
    lemma_with_smtp_socket(b, smtp);
    let c = default_flags(flags, send_port);
    assert(c == if smtp_socket_chosen(b) {
        b
    } else {
        with_smtp_socket(b, smtp)
    });
    assert(auth_chosen(a));
    assert(auth_chosen(b) && imap_socket_chosen(b));
    assert(c & 0x6i32 != 0 ==> c != 0) by (bit_vector);
}

/// `current`, or `fallback` where `current` is empty.
fn text_or(current: &String, fallback: String) -> (r: String)
    ensures
        r@ == if current@.len() == 0 {
            fallback@
        } else {
            current@
        },
{
    if current.as_str().is_empty() {
        fallback
    } else {
        current.clone()
    }
}

/// `current`, or `fallback` where `current` is 0.
fn port_or(current: i32, fallback: i32) -> (r: i32)
    ensures
        r == if current == 0 {
            fallback
        } else {
            current
        },
{
    if current == 0 {
        fallback
    } else {
        current
    }
}

/// The server for sending that goes with a server for fetching.
fn send_server_of(mail_server: &str) -> (r: String)
    ensures
        r@ == send_server_for(mail_server@),
{
    if starts_with(mail_server, "imap.") {
        proof {
            reveal_strlit("imap.");
        }
        let n = mail_server.unicode_len();
        join("smtp", substring(mail_server, 4, n).as_str())
    } else {
        mail_server.to_owned()
    }
}

/// The port for fetching that goes with the flags.
fn mail_port_for(flags: i32) -> (r: i32)
    ensures
        r == default_mail_port(flags),
{
    if 0 != flags & (DC_LP_IMAP_SOCKET_STARTTLS | DC_LP_IMAP_SOCKET_PLAIN) {
        143
    } else {
        993
    }
}

/// The port for sending that goes with the flags.
fn send_port_for(flags: i32) -> (r: i32)
    ensures
        r == default_send_port(flags),
{
    if 0 != flags & DC_LP_SMTP_SOCKET_STARTTLS {
        587
    } else if 0 != flags & DC_LP_SMTP_SOCKET_PLAIN {
        25
    } else {
        465
    }
}

/// The flags with a choice made in each group that had none.
fn flags_with_defaults(flags: i32, send_port: i32) -> (r: i32)
    ensures
        r == default_flags(flags, send_port),
{
    let mut r: i32 = flags;
    if !has_auth(r) {
        r = set_auth(r, DC_LP_AUTH_NORMAL);
    }
    if !has_imap_socket(r) {
        r = set_imap_socket(
            r,
            if send_port == 143 {
                DC_LP_IMAP_SOCKET_STARTTLS
            } else {
                DC_LP_IMAP_SOCKET_SSL
            },
        );
    }
    if !has_smtp_socket(r) {
        r = set_smtp_socket(
            r,
            if send_port == 587 {
                DC_LP_SMTP_SOCKET_STARTTLS
            } else if send_port == 25 {
                DC_LP_SMTP_SOCKET_PLAIN
            } else {
                DC_LP_SMTP_SOCKET_SSL
            },
        );
    }
    r
}

/// Puts a default in place of everything that is missing in `param`.
pub fn fill_defaults(param: &mut LoginParam, domain: &str)
    ensures
        final(param)@ == defaults_filled(old(param)@, domain@),
{
    let mail_server = text_or(&param.mail_server, join("imap.", domain));
    let mail_port = port_or(param.mail_port, mail_port_for(param.server_flags));
    let mail_user = text_or(&param.mail_user, param.addr.clone());
    let send_server = if param.send_server.as_str().is_empty()
        && !mail_server.as_str().is_empty() {
        send_server_of(mail_server.as_str())
    } else {
        param.send_server.clone()
    };
    let send_port = port_or(param.send_port, send_port_for(param.server_flags));
    let send_user = text_or(&param.send_user, mail_user.clone());
    let send_pw = text_or(&param.send_pw, param.mail_pw.clone());
    let server_flags = flags_with_defaults(param.server_flags, send_port);
    param.mail_server = mail_server;
    param.mail_port = mail_port;
    param.mail_user = mail_user;
    param.send_server = send_server;
    param.send_port = send_port;
    param.send_user = send_user;
    param.send_pw = send_pw;
    param.server_flags = server_flags;
}

/// Whether nothing is missing in `param`.
pub fn complete(param: &LoginParam) -> (r: bool)
    ensures
        r == is_complete(param@),
{
    !(param.mail_server.as_str().is_empty() || param.mail_port == 0
        || param.mail_user.as_str().is_empty() || param.mail_pw.as_str().is_empty()
        || param.send_server.as_str().is_empty() || param.send_port == 0
        || param.send_user.as_str().is_empty() || param.send_pw.as_str().is_empty()
        || param.server_flags == 0)
}

} // verus!
