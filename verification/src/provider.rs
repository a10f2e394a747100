//! The built-in table of mail providers: what is known of the servers of
//! some domains without asking anyone.

use vstd::prelude::*;
use crate::address::{address_parts, before_at, strip_domain, EmailAddress};
use crate::text::{ascii_lowered, eq_ignore_ascii_case};

verus! {

/// How well a provider works with this client.
#[derive(Clone, Copy, Debug, PartialEq, Eq, Structural)]
pub enum Status {
    /// Works out of the box.
    OK,
    /// Works once the user has prepared the account.
    PREPARATION,
    /// Does not work.
    BROKEN,
}

/// How the connection to a server is secured.
#[derive(Clone, Copy, Debug, PartialEq, Eq, Structural)]
pub enum Socket {
    STARTTLS,
    SSL,
}

/// What a provider wants as the user name of a login.
#[derive(Clone, Copy, Debug, PartialEq, Eq, Structural)]
pub enum UsernamePattern {
    /// The whole address.
    EMAIL,
    /// The address up to its `@`.
    EMAILLOCALPART,
}

/// One server of a provider.
#[derive(Clone, Copy, Debug)]
pub struct ServerSpec {
    pub hostname: &'static str,
    pub port: u16,
    pub socket: Socket,
}

pub struct ServerSpecView {
    pub hostname: Seq<char>,
    pub port: u16,
    pub socket: Socket,
}

impl View for ServerSpec {
    type V = ServerSpecView;

    open spec fn view(&self) -> ServerSpecView {
        ServerSpecView { hostname: self.hostname@, port: self.port, socket: self.socket }
    }
}

/// What is known of one provider.
#[derive(Clone, Copy, Debug)]
pub struct ProviderEntry {
    pub status: Status,
    pub imap: Option<ServerSpec>,
    pub smtp: Option<ServerSpec>,
    pub username_pattern: UsernamePattern,
    /// What to tell the user once the login has worked; empty for nothing.
    pub after_login_hint: &'static str,
}

pub struct ProviderEntryView {
    pub status: Status,
    pub imap: Option<ServerSpecView>,
    pub smtp: Option<ServerSpecView>,
    pub username_pattern: UsernamePattern,
    pub after_login_hint: Seq<char>,
}

/// The view of a server that may be missing.
pub open spec fn server_view(s: Option<ServerSpec>) -> Option<ServerSpecView> {
    match s {
        Some(s) => Some(s@),
        None => None,
    }
}

impl View for ProviderEntry {
    type V = ProviderEntryView;

    open spec fn view(&self) -> ProviderEntryView {
        ProviderEntryView {
            status: self.status,
            imap: server_view(self.imap),
            smtp: server_view(self.smtp),
            username_pattern: self.username_pattern,
            after_login_hint: self.after_login_hint@,
        }
    }
}

/// The user name that a provider with the pattern `pattern` wants for `addr`.
pub open spec fn username_for(pattern: UsernamePattern, addr: Seq<char>) -> Seq<char> {
    match pattern {
        UsernamePattern::EMAIL => addr,
        UsernamePattern::EMAILLOCALPART => before_at(addr),
    }
}

impl ProviderEntry {
    pub fn get_imap_server(&self) -> (r: Option<ServerSpec>)
        ensures
            r == self.imap,
    {
        self.imap
    }

    pub fn get_smtp_server(&self) -> (r: Option<ServerSpec>)
        ensures
            r == self.smtp,
    {
        self.smtp
    }

    /// The user name that this provider wants for the address `addr`.
    pub fn apply_username_pattern(&self, addr: &str) -> (r: String)
        ensures
            r@ == username_for(self.username_pattern, addr@),
    {
        match self.username_pattern {
            UsernamePattern::EMAIL => addr.to_owned(),
            UsernamePattern::EMAILLOCALPART => strip_domain(addr),
        }
    }
}

/// A server as it stands in the table.
pub open spec fn server(hostname: Seq<char>, port: u16, socket: Socket) -> Option<ServerSpecView> {
    Some(ServerSpecView { hostname, port, socket })
}

/// Whether `domain` is `name`, capital ASCII letters counting as small ones.
pub open spec fn is_domain(domain: Seq<char>, name: Seq<char>) -> bool {
    ascii_lowered(domain) == ascii_lowered(name)
}

/// The table: what is known of the provider of `domain`, where anything is.
pub open spec fn provider_of(domain: Seq<char>) -> Option<ProviderEntryView> {
    if is_domain(domain, "nauta.cu"@) {
        Some(
            ProviderEntryView {
                status: Status::OK,
                imap: server("imap.nauta.cu"@, 143, Socket::STARTTLS),
                smtp: server("smtp.nauta.cu"@, 25, Socket::STARTTLS),
                username_pattern: UsernamePattern::EMAIL,
                after_login_hint: ""@,
            },
        )
    } else if is_domain(domain, "testrun.org"@) {
        Some(
            ProviderEntryView {
                status: Status::OK,
                imap: server("testrun.org"@, 993, Socket::SSL),
                smtp: server("testrun.org"@, 465, Socket::SSL),
                username_pattern: UsernamePattern::EMAIL,
                after_login_hint: ""@,
            },
        )
    } else if is_domain(domain, "posteo.de"@) {
        Some(
            ProviderEntryView {
                status: Status::OK,
                imap: None,
                smtp: None,
                username_pattern: UsernamePattern::EMAIL,
                after_login_hint: ""@,
            },
        )
    } else if is_domain(domain, "gmail.com"@) || is_domain(domain, "googlemail.com"@) {
        Some(
            ProviderEntryView {
                status: Status::PREPARATION,
                imap: server("imap.gmail.com"@, 993, Socket::SSL),
                smtp: server("smtp.gmail.com"@, 465, Socket::SSL),
                username_pattern: UsernamePattern::EMAIL,
                after_login_hint: ""@,
            },
        )
    } else if is_domain(domain, "example.com"@) {
        Some(
            ProviderEntryView {
                status: Status::BROKEN,
                imap: server("imap.example.com"@, 1337, Socket::SSL),
                smtp: server("smtp.example.com"@, 1337, Socket::STARTTLS),
                username_pattern: UsernamePattern::EMAILLOCALPART,
                after_login_hint: "This provider doesn't really exist, so you can't use it :/ If you need an email provider for Delta Chat, take a look at providers.delta.chat!"@,
            },
        )
    } else if is_domain(domain, "outlook.com"@) || is_domain(domain, "hotmail.com"@) {
        Some(
            ProviderEntryView {
                status: Status::BROKEN,
                imap: None,
                smtp: None,
                username_pattern: UsernamePattern::EMAIL,
                after_login_hint: "Outlook addresses will not work as expected: the servers remove transport information that this client needs."@,
            },
        )
    } else {
        None
    }
}

/// What is known of the provider of the address `addr`: the entry of its
/// domain, where `addr` is an address and the table knows the domain.
pub open spec fn provider_info(addr: Seq<char>) -> Option<ProviderEntryView> {
    match address_parts(addr) {
        Some(parts) => provider_of(parts.1),
        None => None,
    }
}

/// What is known of the provider of `domain`.
pub fn get_provider_by_domain(domain: &str) -> (r: Option<ProviderEntry>)
    ensures
        r is Some <==> provider_of(domain@) is Some,
        r is Some ==> r->0@ == provider_of(domain@)->0,
{
    if eq_ignore_ascii_case(domain, "nauta.cu") {
        Some(
            ProviderEntry {
                status: Status::OK,
                imap: Some(
                    ServerSpec { hostname: "imap.nauta.cu", port: 143, socket: Socket::STARTTLS },
                ),
                smtp: Some(
                    ServerSpec { hostname: "smtp.nauta.cu", port: 25, socket: Socket::STARTTLS },
                ),
                username_pattern: UsernamePattern::EMAIL,
                after_login_hint: "",
            },
        )
    } else if eq_ignore_ascii_case(domain, "testrun.org") {
        Some(
            ProviderEntry {
                status: Status::OK,
                imap: Some(ServerSpec { hostname: "testrun.org", port: 993, socket: Socket::SSL }),
                smtp: Some(ServerSpec { hostname: "testrun.org", port: 465, socket: Socket::SSL }),
                username_pattern: UsernamePattern::EMAIL,
                after_login_hint: "",
            },
        )
    } else if eq_ignore_ascii_case(domain, "posteo.de") {
        Some(
            ProviderEntry {
                status: Status::OK,
                imap: None,
                smtp: None,
                username_pattern: UsernamePattern::EMAIL,
                after_login_hint: "",
            },
        )
    } else if eq_ignore_ascii_case(domain, "gmail.com") || eq_ignore_ascii_case(
        domain,
        "googlemail.com",
    ) {
        Some(
            ProviderEntry {
                status: Status::PREPARATION,
                imap: Some(ServerSpec { hostname: "imap.gmail.com", port: 993, socket: Socket::SSL }),
                smtp: Some(ServerSpec { hostname: "smtp.gmail.com", port: 465, socket: Socket::SSL }),
                username_pattern: UsernamePattern::EMAIL,
                after_login_hint: "",
            },
        )
    } else if eq_ignore_ascii_case(domain, "example.com") {
        Some(
            ProviderEntry {
                status: Status::BROKEN,
                imap: Some(
                    ServerSpec { hostname: "imap.example.com", port: 1337, socket: Socket::SSL },
                ),
                smtp: Some(
                    ServerSpec {
                        hostname: "smtp.example.com",
                        port: 1337,
                        socket: Socket::STARTTLS,
                    },
                ),
                username_pattern: UsernamePattern::EMAILLOCALPART,
                after_login_hint: "This provider doesn't really exist, so you can't use it :/ If you need an email provider for Delta Chat, take a look at providers.delta.chat!",
            },
        )
    } else if eq_ignore_ascii_case(domain, "outlook.com") || eq_ignore_ascii_case(
        domain,
        "hotmail.com",
    ) {
        Some(
            ProviderEntry {
                status: Status::BROKEN,
                imap: None,
                smtp: None,
                username_pattern: UsernamePattern::EMAIL,
                after_login_hint: "Outlook addresses will not work as expected: the servers remove transport information that this client needs.",
            },
        )
    } else {
        None
    }
}

/// What is known of the provider of the address `addr`.
pub fn get_provider_info(addr: &str) -> (r: Option<ProviderEntry>)
    ensures
        r is Some <==> provider_info(addr@) is Some,
        r is Some ==> r->0@ == provider_info(addr@)->0,
{
    match EmailAddress::parse(addr) {
        Some(parsed) => get_provider_by_domain(parsed.domain.as_str()),
        None => None,
    }
}

} // verus!
