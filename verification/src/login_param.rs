//! The settings of one mail account, and how they are kept in the
//! configuration table.

use vstd::prelude::*;
use crate::decimal::{decimal, lemma_parse_decimal_of_decimal};
use crate::sql::{int_of, raw_of, Error, Sql};
use crate::text::join;

verus! {

/// Log in with the password.
pub const DC_LP_AUTH_NORMAL: i32 = 0x4;

/// Log in with an OAuth2 token.
pub const DC_LP_AUTH_OAUTH2: i32 = 0x2;

/// Talk to the IMAP server in plain text, then switch to TLS.
pub const DC_LP_IMAP_SOCKET_STARTTLS: i32 = 0x100;

/// Talk to the IMAP server over TLS from the start.
pub const DC_LP_IMAP_SOCKET_SSL: i32 = 0x200;

/// Talk to the IMAP server in plain text.
pub const DC_LP_IMAP_SOCKET_PLAIN: i32 = 0x400;

/// Talk to the SMTP server in plain text, then switch to TLS.
pub const DC_LP_SMTP_SOCKET_STARTTLS: i32 = 0x10000;

/// Talk to the SMTP server over TLS from the start.
pub const DC_LP_SMTP_SOCKET_SSL: i32 = 0x20000;

/// Talk to the SMTP server in plain text.
pub const DC_LP_SMTP_SOCKET_PLAIN: i32 = 0x40000;

/// The bits that choose how to log in.
pub const DC_LP_AUTH_FLAGS: i32 = 0x6;

/// The bits that choose the socket to the IMAP server.
pub const DC_LP_IMAP_SOCKET_FLAGS: i32 = 0x700;

/// The bits that choose the socket to the SMTP server.
pub const DC_LP_SMTP_SOCKET_FLAGS: i32 = 0x70000;

/// How strictly the certificate of a server is checked.
#[derive(Clone, Copy, Debug, PartialEq, Eq, Structural)]
pub enum CertificateChecks {
    Automatic,
    Strict,
    AcceptInvalidCertificates,
}

impl CertificateChecks {
    /// The number that stands for `self` in the configuration table.
    pub open spec fn number(self) -> int {
        match self {
            CertificateChecks::Automatic => 0,
            CertificateChecks::Strict => 1,
            CertificateChecks::AcceptInvalidCertificates => 3,
        }
    }

    /// The choice that `n` stands for; a number that stands for none is read
    /// as `Automatic`.
    pub open spec fn of_number(n: int) -> CertificateChecks {
        if n == 1 {
            CertificateChecks::Strict
        } else if n == 3 {
            CertificateChecks::AcceptInvalidCertificates
        } else {
            CertificateChecks::Automatic
        }
    }

    pub fn to_i32(self) -> (r: i32)
        ensures
            r == self.number(),
    {
        match self {
            CertificateChecks::Automatic => 0,
            CertificateChecks::Strict => 1,
            CertificateChecks::AcceptInvalidCertificates => 3,
        }
    }

    pub fn from_i32(n: i32) -> (r: CertificateChecks)
        ensures
            r == CertificateChecks::of_number(n as int),
    {
        if n == 1 {
            CertificateChecks::Strict
        } else if n == 3 {
            CertificateChecks::AcceptInvalidCertificates
        } else {
            CertificateChecks::Automatic
        }
    }
}

/// The settings of one mail account: where to fetch mail, where to send it,
/// and how to log in.
#[derive(Clone, Debug)]
pub struct LoginParam {
    pub addr: String,
    pub mail_server: String,
    pub mail_user: String,
    pub mail_pw: String,
    pub mail_port: i32,
    pub imap_certificate_checks: CertificateChecks,
    pub send_server: String,
    pub send_user: String,
    pub send_pw: String,
    pub send_port: i32,
    pub smtp_certificate_checks: CertificateChecks,
    pub server_flags: i32,
}

pub struct LoginParamView {
    pub addr: Seq<char>,
    pub mail_server: Seq<char>,
    pub mail_user: Seq<char>,
    pub mail_pw: Seq<char>,
    pub mail_port: i32,
    pub imap_certificate_checks: CertificateChecks,
    pub send_server: Seq<char>,
    pub send_user: Seq<char>,
    pub send_pw: Seq<char>,
    pub send_port: i32,
    pub smtp_certificate_checks: CertificateChecks,
    pub server_flags: i32,
}

impl View for LoginParam {
    type V = LoginParamView;

    open spec fn view(&self) -> LoginParamView {
        LoginParamView {
            addr: self.addr@,
            mail_server: self.mail_server@,
            mail_user: self.mail_user@,
            mail_pw: self.mail_pw@,
            mail_port: self.mail_port,
            imap_certificate_checks: self.imap_certificate_checks,
            send_server: self.send_server@,
            send_user: self.send_user@,
            send_pw: self.send_pw@,
            send_port: self.send_port,
            smtp_certificate_checks: self.smtp_certificate_checks,
            server_flags: self.server_flags,
        }
    }
}

/// The settings of an account of which nothing is known.
pub open spec fn empty_param() -> LoginParamView {
    LoginParamView {
        addr: Seq::empty(),
        mail_server: Seq::empty(),
        mail_user: Seq::empty(),
        mail_pw: Seq::empty(),
        mail_port: 0,
        imap_certificate_checks: CertificateChecks::Automatic,
        send_server: Seq::empty(),
        send_user: Seq::empty(),
        send_pw: Seq::empty(),
        send_port: 0,
        smtp_certificate_checks: CertificateChecks::Automatic,
        server_flags: 0,
    }
}

/// Exactly one way to log in is chosen.
pub open spec fn auth_chosen(flags: i32) -> bool {
    flags & DC_LP_AUTH_FLAGS == DC_LP_AUTH_OAUTH2 || flags & DC_LP_AUTH_FLAGS == DC_LP_AUTH_NORMAL
}

/// Exactly one socket to the IMAP server is chosen.
pub open spec fn imap_socket_chosen(flags: i32) -> bool {
    flags & DC_LP_IMAP_SOCKET_FLAGS == DC_LP_IMAP_SOCKET_STARTTLS || flags
        & DC_LP_IMAP_SOCKET_FLAGS == DC_LP_IMAP_SOCKET_SSL || flags & DC_LP_IMAP_SOCKET_FLAGS
        == DC_LP_IMAP_SOCKET_PLAIN
}

/// Exactly one socket to the SMTP server is chosen.
pub open spec fn smtp_socket_chosen(flags: i32) -> bool {
    flags & DC_LP_SMTP_SOCKET_FLAGS == DC_LP_SMTP_SOCKET_STARTTLS || flags
        & DC_LP_SMTP_SOCKET_FLAGS == DC_LP_SMTP_SOCKET_SSL || flags & DC_LP_SMTP_SOCKET_FLAGS
        == DC_LP_SMTP_SOCKET_PLAIN
}

/// In each of the three groups of flags exactly one bit is set.
pub open spec fn flags_chosen(flags: i32) -> bool {
    auth_chosen(flags) && imap_socket_chosen(flags) && smtp_socket_chosen(flags)
}

/// The flags with the way to log in replaced by `auth`.
pub open spec fn with_auth(flags: i32, auth: i32) -> i32 {
    (flags & !DC_LP_AUTH_FLAGS) | auth
}

/// The flags with the socket to the IMAP server replaced by `socket`.
pub open spec fn with_imap_socket(flags: i32, socket: i32) -> i32 {
    (flags & !DC_LP_IMAP_SOCKET_FLAGS) | socket
}

/// The flags with the socket to the SMTP server replaced by `socket`.
pub open spec fn with_smtp_socket(flags: i32, socket: i32) -> i32 {
    (flags & !DC_LP_SMTP_SOCKET_FLAGS) | socket
}

/// Replacing the way to log in sets that group and leaves the two others.
pub proof fn lemma_with_auth(flags: i32, auth: i32)
    requires
        auth == DC_LP_AUTH_NORMAL || auth == DC_LP_AUTH_OAUTH2,
    ensures
        with_auth(flags, auth) & DC_LP_AUTH_FLAGS == auth,
        with_auth(flags, auth) & DC_LP_IMAP_SOCKET_FLAGS == flags & DC_LP_IMAP_SOCKET_FLAGS,
        with_auth(flags, auth) & DC_LP_SMTP_SOCKET_FLAGS == flags & DC_LP_SMTP_SOCKET_FLAGS,
        with_auth(flags, auth) != 0,
{
    assert(auth == 0x4i32 || auth == 0x2i32 ==> ((flags & !0x6i32) | auth) & 0x6i32 == auth
        && ((flags & !0x6i32) | auth) & 0x700i32 == flags & 0x700i32 && ((flags & !0x6i32) | auth)
        & 0x70000i32 == flags & 0x70000i32 && ((flags & !0x6i32) | auth) != 0i32)
        by (bit_vector);
}

/// Replacing the IMAP socket sets that group and leaves the two others.
pub proof fn lemma_with_imap_socket(flags: i32, socket: i32)
    requires
        socket == DC_LP_IMAP_SOCKET_STARTTLS || socket == DC_LP_IMAP_SOCKET_SSL || socket
            == DC_LP_IMAP_SOCKET_PLAIN,
    ensures
        with_imap_socket(flags, socket) & DC_LP_IMAP_SOCKET_FLAGS == socket,
        with_imap_socket(flags, socket) & DC_LP_AUTH_FLAGS == flags & DC_LP_AUTH_FLAGS,
        with_imap_socket(flags, socket) & DC_LP_SMTP_SOCKET_FLAGS == flags
            & DC_LP_SMTP_SOCKET_FLAGS,
        with_imap_socket(flags, socket) != 0,
{
    assert(socket == 0x100i32 || socket == 0x200i32 || socket == 0x400i32 ==> ((flags & !0x700i32)
        | socket) & 0x700i32 == socket && ((flags & !0x700i32) | socket) & 0x6i32 == flags & 0x6i32
        && ((flags & !0x700i32) | socket) & 0x70000i32 == flags & 0x70000i32 && ((flags
        & !0x700i32) | socket) != 0i32) by (bit_vector);
}

/// Replacing the SMTP socket sets that group and leaves the two others.
pub proof fn lemma_with_smtp_socket(flags: i32, socket: i32)
    requires
        socket == DC_LP_SMTP_SOCKET_STARTTLS || socket == DC_LP_SMTP_SOCKET_SSL || socket
            == DC_LP_SMTP_SOCKET_PLAIN,
    ensures
        with_smtp_socket(flags, socket) & DC_LP_SMTP_SOCKET_FLAGS == socket,
        with_smtp_socket(flags, socket) & DC_LP_AUTH_FLAGS == flags & DC_LP_AUTH_FLAGS,
        with_smtp_socket(flags, socket) & DC_LP_IMAP_SOCKET_FLAGS == flags
            & DC_LP_IMAP_SOCKET_FLAGS,
        with_smtp_socket(flags, socket) != 0,
{
    assert(socket == 0x10000i32 || socket == 0x20000i32 || socket == 0x40000i32 ==> ((flags
        & !0x70000i32) | socket) & 0x70000i32 == socket && ((flags & !0x70000i32) | socket)
        & 0x6i32 == flags & 0x6i32 && ((flags & !0x70000i32) | socket) & 0x700i32 == flags
        & 0x700i32 && ((flags & !0x70000i32) | socket) != 0i32) by (bit_vector);
}

/// Whether exactly one way to log in is chosen.
pub fn has_auth(flags: i32) -> (r: bool)
    ensures
        r == auth_chosen(flags),
{
    let group = flags & DC_LP_AUTH_FLAGS;
    group == DC_LP_AUTH_OAUTH2 || group == DC_LP_AUTH_NORMAL
}

/// Whether exactly one socket to the IMAP server is chosen.
pub fn has_imap_socket(flags: i32) -> (r: bool)
    ensures
        r == imap_socket_chosen(flags),
{
    let group = flags & DC_LP_IMAP_SOCKET_FLAGS;
    group == DC_LP_IMAP_SOCKET_STARTTLS || group == DC_LP_IMAP_SOCKET_SSL || group
        == DC_LP_IMAP_SOCKET_PLAIN
}

/// Whether exactly one socket to the SMTP server is chosen.
pub fn has_smtp_socket(flags: i32) -> (r: bool)
    ensures
        r == smtp_socket_chosen(flags),
{
    let group = flags & DC_LP_SMTP_SOCKET_FLAGS;
    group == DC_LP_SMTP_SOCKET_STARTTLS || group == DC_LP_SMTP_SOCKET_SSL || group
        == DC_LP_SMTP_SOCKET_PLAIN
}

/// The flags with the way to log in replaced by `auth`.
pub fn set_auth(flags: i32, auth: i32) -> (r: i32)
    ensures
        r == with_auth(flags, auth),
{
    (flags & !DC_LP_AUTH_FLAGS) | auth
}

/// The flags with the socket to the IMAP server replaced by `socket`.
pub fn set_imap_socket(flags: i32, socket: i32) -> (r: i32)
    ensures
        r == with_imap_socket(flags, socket),
{
    (flags & !DC_LP_IMAP_SOCKET_FLAGS) | socket
}

/// The flags with the socket to the SMTP server replaced by `socket`.
pub fn set_smtp_socket(flags: i32, socket: i32) -> (r: i32)
    ensures
        r == with_smtp_socket(flags, socket),
{
    (flags & !DC_LP_SMTP_SOCKET_FLAGS) | socket
}

/// How to log in.
#[derive(Clone, Copy, Debug, PartialEq, Eq, Structural)]
pub enum Auth {
    Normal,
    Oauth2,
}

/// The socket to the IMAP server.
#[derive(Clone, Copy, Debug, PartialEq, Eq, Structural)]
pub enum ImapSocket {
    Starttls,
    Ssl,
    Plain,
}

/// The socket to the SMTP server.
#[derive(Clone, Copy, Debug, PartialEq, Eq, Structural)]
pub enum SmtpSocket {
    Starttls,
    Ssl,
    Plain,
}

/// The way to log in that the flags choose, where they choose exactly one.
pub open spec fn auth_of(flags: i32) -> Option<Auth> {
    if flags & DC_LP_AUTH_FLAGS == DC_LP_AUTH_NORMAL {
        Some(Auth::Normal)
    } else if flags & DC_LP_AUTH_FLAGS == DC_LP_AUTH_OAUTH2 {
        Some(Auth::Oauth2)
    } else {
        None
    }
}

/// The socket to the IMAP server that the flags choose, where they choose
/// exactly one.
pub open spec fn imap_socket_of(flags: i32) -> Option<ImapSocket> {
    if flags & DC_LP_IMAP_SOCKET_FLAGS == DC_LP_IMAP_SOCKET_STARTTLS {
        Some(ImapSocket::Starttls)
    } else if flags & DC_LP_IMAP_SOCKET_FLAGS == DC_LP_IMAP_SOCKET_SSL {
        Some(ImapSocket::Ssl)
    } else if flags & DC_LP_IMAP_SOCKET_FLAGS == DC_LP_IMAP_SOCKET_PLAIN {
        Some(ImapSocket::Plain)
    } else {
        None
    }
}

/// The socket to the SMTP server that the flags choose, where they choose
/// exactly one.
pub open spec fn smtp_socket_of(flags: i32) -> Option<SmtpSocket> {
    if flags & DC_LP_SMTP_SOCKET_FLAGS == DC_LP_SMTP_SOCKET_STARTTLS {
        Some(SmtpSocket::Starttls)
    } else if flags & DC_LP_SMTP_SOCKET_FLAGS == DC_LP_SMTP_SOCKET_SSL {
        Some(SmtpSocket::Ssl)
    } else if flags & DC_LP_SMTP_SOCKET_FLAGS == DC_LP_SMTP_SOCKET_PLAIN {
        Some(SmtpSocket::Plain)
    } else {
        None
    }
}

/// The flags choose in every group exactly when each group reads as a choice.
pub proof fn lemma_flags_chosen_as_choices(flags: i32)
    ensures
        flags_chosen(flags) <==> auth_of(flags) is Some && imap_socket_of(flags) is Some
            && smtp_socket_of(flags) is Some,
{
}

/// The text stored for a value read from the table; a missing one reads as
/// empty text.
pub open spec fn text_in(m: Map<Seq<char>, Seq<char>>, key: Seq<char>) -> Seq<char> {
    match raw_of(m, key) {
        Some(v) => v,
        None => Seq::empty(),
    }
}

/// The number stored for a value read from the table; a missing one, or one
/// that is no number, reads as 0.
pub open spec fn number_in(m: Map<Seq<char>, Seq<char>>, key: Seq<char>) -> i32 {
    match int_of(m, key) {
        Some(v) => v,
        None => 0,
    }
}

/// The settings that the table `m` holds under the keys that begin with
/// `prefix`.
pub open spec fn param_in(m: Map<Seq<char>, Seq<char>>, prefix: Seq<char>) -> LoginParamView {
    LoginParamView {
        addr: text_in(m, prefix + "addr"@),
        mail_server: text_in(m, prefix + "mail_server"@),
        mail_user: text_in(m, prefix + "mail_user"@),
        mail_pw: text_in(m, prefix + "mail_pw"@),
        mail_port: number_in(m, prefix + "mail_port"@),
        imap_certificate_checks: CertificateChecks::of_number(
            number_in(m, prefix + "imap_certificate_checks"@) as int,
        ),
        send_server: text_in(m, prefix + "send_server"@),
        send_user: text_in(m, prefix + "send_user"@),
        send_pw: text_in(m, prefix + "send_pw"@),
        send_port: number_in(m, prefix + "send_port"@),
        smtp_certificate_checks: CertificateChecks::of_number(
            number_in(m, prefix + "smtp_certificate_checks"@) as int,
        ),
        server_flags: number_in(m, prefix + "server_flags"@),
    }
}

/// The table `m` after the settings `p` were written under the keys that
/// begin with `prefix`.
pub open spec fn param_saved(
    m: Map<Seq<char>, Seq<char>>,
    prefix: Seq<char>,
    p: LoginParamView,
) -> Map<Seq<char>, Seq<char>> {
    m.insert(prefix + "addr"@, p.addr).insert(prefix + "mail_server"@, p.mail_server).insert(
        prefix + "mail_port"@,
        decimal(p.mail_port as int),
    ).insert(prefix + "mail_user"@, p.mail_user).insert(prefix + "mail_pw"@, p.mail_pw).insert(
        prefix + "imap_certificate_checks"@,
        decimal(p.imap_certificate_checks.number()),
    ).insert(prefix + "send_server"@, p.send_server).insert(
        prefix + "send_port"@,
        decimal(p.send_port as int),
    ).insert(prefix + "send_user"@, p.send_user).insert(prefix + "send_pw"@, p.send_pw).insert(
        prefix + "smtp_certificate_checks"@,
        decimal(p.smtp_certificate_checks.number()),
    ).insert(prefix + "server_flags"@, decimal(p.server_flags as int))
}

/// The twelve names under which the settings are kept, without a prefix.
pub open spec fn field_names() -> Seq<Seq<char>> {
    seq![
        "addr"@,
        "mail_server"@,
        "mail_port"@,
        "mail_user"@,
        "mail_pw"@,
        "imap_certificate_checks"@,
        "send_server"@,
        "send_port"@,
        "send_user"@,
        "send_pw"@,
        "smtp_certificate_checks"@,
        "server_flags"@,
    ]
}

/// `key` is one of the twelve keys of the settings kept under `prefix`.
pub open spec fn is_param_key(prefix: Seq<char>, key: Seq<char>) -> bool {
    exists|i: int| 0 <= i < field_names().len() && key == prefix + #[trigger] field_names()[i]
}

proof fn reveal_field_names()
    ensures
        "addr"@ == seq!['a', 'd', 'd', 'r'],
        "mail_server"@ == seq!['m', 'a', 'i', 'l', '_', 's', 'e', 'r', 'v', 'e', 'r'],
        "mail_port"@ == seq!['m', 'a', 'i', 'l', '_', 'p', 'o', 'r', 't'],
        "mail_user"@ == seq!['m', 'a', 'i', 'l', '_', 'u', 's', 'e', 'r'],
        "mail_pw"@ == seq!['m', 'a', 'i', 'l', '_', 'p', 'w'],
        "imap_certificate_checks"@.len() == 23,
        "imap_certificate_checks"@[0] == 'i',
        "send_server"@ == seq!['s', 'e', 'n', 'd', '_', 's', 'e', 'r', 'v', 'e', 'r'],
        "send_port"@ == seq!['s', 'e', 'n', 'd', '_', 'p', 'o', 'r', 't'],
        "send_user"@ == seq!['s', 'e', 'n', 'd', '_', 'u', 's', 'e', 'r'],
        "send_pw"@ == seq!['s', 'e', 'n', 'd', '_', 'p', 'w'],
        "smtp_certificate_checks"@.len() == 23,
        "smtp_certificate_checks"@[0] == 's',
        "server_flags"@.len() == 12,
        "server_flags"@[0] == 's',
{
    reveal_strlit("addr");
    reveal_strlit("mail_server");
    reveal_strlit("mail_port");
    reveal_strlit("mail_user");
    reveal_strlit("mail_pw");
    reveal_strlit("imap_certificate_checks");
    reveal_strlit("send_server");
    reveal_strlit("send_port");
    reveal_strlit("send_user");
    reveal_strlit("send_pw");
    reveal_strlit("smtp_certificate_checks");
    reveal_strlit("server_flags");
    assert("addr"@ =~= seq!['a', 'd', 'd', 'r']);
    assert("mail_server"@ =~= seq!['m', 'a', 'i', 'l', '_', 's', 'e', 'r', 'v', 'e', 'r']);
    assert("mail_port"@ =~= seq!['m', 'a', 'i', 'l', '_', 'p', 'o', 'r', 't']);
    assert("mail_user"@ =~= seq!['m', 'a', 'i', 'l', '_', 'u', 's', 'e', 'r']);
    assert("mail_pw"@ =~= seq!['m', 'a', 'i', 'l', '_', 'p', 'w']);
    assert("send_server"@ =~= seq!['s', 'e', 'n', 'd', '_', 's', 'e', 'r', 'v', 'e', 'r']);
    assert("send_port"@ =~= seq!['s', 'e', 'n', 'd', '_', 'p', 'o', 'r', 't']);
    assert("send_user"@ =~= seq!['s', 'e', 'n', 'd', '_', 'u', 's', 'e', 'r']);
    assert("send_pw"@ =~= seq!['s', 'e', 'n', 'd', '_', 'p', 'w']);
}

/// Two texts that begin alike and are equal end alike.
pub proof fn lemma_prefix_cancels(prefix: Seq<char>, a: Seq<char>, b: Seq<char>)
    requires
        prefix + a == prefix + b,
    ensures
        a == b,
{
    assert((prefix + a).subrange(prefix.len() as int, (prefix + a).len() as int) =~= a);
    assert((prefix + b).subrange(prefix.len() as int, (prefix + b).len() as int) =~= b);
}

/// The twelve names differ from each other.
pub proof fn lemma_field_names_distinct()
    ensures
        forall|i: int, j: int|
            0 <= i < j < field_names().len() ==> field_names()[i] != field_names()[j],
{
    reveal_field_names();
    let n = field_names();
    assert(n[0].len() == 4);
    assert(n[1].len() == 11 && n[1][0] == 'm');
    assert(n[2].len() == 9 && n[2][0] == 'm' && n[2][5] == 'p');
    assert(n[3].len() == 9 && n[3][0] == 'm' && n[3][5] == 'u');
    assert(n[4].len() == 7 && n[4][0] == 'm');
    assert(n[5].len() == 23 && n[5][0] == 'i');
    assert(n[6].len() == 11 && n[6][0] == 's');
    assert(n[7].len() == 9 && n[7][0] == 's' && n[7][5] == 'p');
    assert(n[8].len() == 9 && n[8][0] == 's' && n[8][5] == 'u');
    assert(n[9].len() == 7 && n[9][0] == 's');
    assert(n[10].len() == 23 && n[10][0] == 's');
    assert(n[11].len() == 12);
}

/// Each of the twelve names has four characters or more, and begins with
/// one of the letters `a`, `i`, `m` and `s`.
pub proof fn lemma_field_name_shape()
    ensures
        field_names().len() == 12,
        forall|i: int|
            0 <= i < field_names().len() ==> (#[trigger] field_names()[i]).len() >= 4 && (
            field_names()[i][0] == 'a' || field_names()[i][0] == 'i' || field_names()[i][0] == 'm'
                || field_names()[i][0] == 's'),
{
    reveal_field_names();
    let n = field_names();
    assert(n[0].len() == 4 && n[0][0] == 'a');
    assert(n[1].len() == 11 && n[1][0] == 'm');
    assert(n[2].len() == 9 && n[2][0] == 'm');
    assert(n[3].len() == 9 && n[3][0] == 'm');
    assert(n[4].len() == 7 && n[4][0] == 'm');
    assert(n[5].len() == 23 && n[5][0] == 'i');
    assert(n[6].len() == 11 && n[6][0] == 's');
    assert(n[7].len() == 9 && n[7][0] == 's');
    assert(n[8].len() == 9 && n[8][0] == 's');
    assert(n[9].len() == 7 && n[9][0] == 's');
    assert(n[10].len() == 23 && n[10][0] == 's');
    assert(n[11].len() == 12 && n[11][0] == 's');
}

/// Settings read under a prefix depend on the twelve keys under that prefix
/// and on nothing else.
pub proof fn lemma_param_in_depends_on_keys(
    a: Map<Seq<char>, Seq<char>>,
    b: Map<Seq<char>, Seq<char>>,
    prefix: Seq<char>,
)
    requires
        forall|i: int|
            0 <= i < field_names().len() ==> raw_of(a, prefix + #[trigger] field_names()[i])
                == raw_of(b, prefix + field_names()[i]),
    ensures
        param_in(a, prefix) == param_in(b, prefix),
{
    let n = field_names();
    assert(raw_of(a, prefix + n[0]) == raw_of(b, prefix + n[0]));
    assert(raw_of(a, prefix + n[1]) == raw_of(b, prefix + n[1]));
    assert(raw_of(a, prefix + n[2]) == raw_of(b, prefix + n[2]));
    assert(raw_of(a, prefix + n[3]) == raw_of(b, prefix + n[3]));
    assert(raw_of(a, prefix + n[4]) == raw_of(b, prefix + n[4]));
    assert(raw_of(a, prefix + n[5]) == raw_of(b, prefix + n[5]));
    assert(raw_of(a, prefix + n[6]) == raw_of(b, prefix + n[6]));
    assert(raw_of(a, prefix + n[7]) == raw_of(b, prefix + n[7]));
    assert(raw_of(a, prefix + n[8]) == raw_of(b, prefix + n[8]));
    assert(raw_of(a, prefix + n[9]) == raw_of(b, prefix + n[9]));
    assert(raw_of(a, prefix + n[10]) == raw_of(b, prefix + n[10]));
    assert(raw_of(a, prefix + n[11]) == raw_of(b, prefix + n[11]));
}

/// The twelve keys under one prefix differ from each other.
pub proof fn lemma_param_keys_distinct(prefix: Seq<char>)
    ensures
        forall|i: int, j: int|
            0 <= i < j < field_names().len() ==> prefix + field_names()[i] != prefix
                + field_names()[j],
{
    lemma_field_names_distinct();
    assert forall|i: int, j: int| 0 <= i < j < field_names().len() implies prefix + field_names()[i]
        != prefix + field_names()[j] by {
        if prefix + field_names()[i] == prefix + field_names()[j] {
            lemma_prefix_cancels(prefix, field_names()[i], field_names()[j]);
        }
    }
}

/// Writing settings touches the twelve keys under the prefix and no other.
pub proof fn lemma_param_saved_keeps_others(
    m: Map<Seq<char>, Seq<char>>,
    prefix: Seq<char>,
    p: LoginParamView,
    key: Seq<char>,
)
    requires
        !is_param_key(prefix, key),
    ensures
        param_saved(m, prefix, p).dom().contains(key) == m.dom().contains(key),
        m.dom().contains(key) ==> param_saved(m, prefix, p)[key] == m[key],
        raw_of(param_saved(m, prefix, p), key) == raw_of(m, key),
{
    let n = field_names();
    assert(key != prefix + n[0]);
    assert(key != prefix + n[1]);
    assert(key != prefix + n[2]);
    assert(key != prefix + n[3]);
    assert(key != prefix + n[4]);
    assert(key != prefix + n[5]);
    assert(key != prefix + n[6]);
    assert(key != prefix + n[7]);
    assert(key != prefix + n[8]);
    assert(key != prefix + n[9]);
    assert(key != prefix + n[10]);
    assert(key != prefix + n[11]);
}

/// Settings that were written under a prefix are read back as they were.
pub proof fn lemma_param_read_back(
    m: Map<Seq<char>, Seq<char>>,
    prefix: Seq<char>,
    p: LoginParamView,
)
    ensures
        param_in(param_saved(m, prefix, p), prefix) == p,
{
    lemma_param_keys_distinct(prefix);
    reveal_field_names();
    let n = field_names();
    let s = param_saved(m, prefix, p);
    assert forall|i: int| 0 <= i < n.len() implies (prefix + #[trigger] n[i]).len() > 0 by {}
    assert(prefix + n[0] != prefix + n[1]);
    assert(prefix + n[0] != prefix + n[11]);
    lemma_parse_decimal_of_decimal(p.mail_port as int);
    lemma_parse_decimal_of_decimal(p.send_port as int);
    lemma_parse_decimal_of_decimal(p.server_flags as int);
    lemma_parse_decimal_of_decimal(p.imap_certificate_checks.number());
    lemma_parse_decimal_of_decimal(p.smtp_certificate_checks.number());
    assert(s[prefix + n[0]] == p.addr);
    assert(s[prefix + n[1]] == p.mail_server);
    assert(s[prefix + n[2]] == decimal(p.mail_port as int));
    assert(s[prefix + n[3]] == p.mail_user);
    assert(s[prefix + n[4]] == p.mail_pw);
    assert(s[prefix + n[5]] == decimal(p.imap_certificate_checks.number()));
    assert(s[prefix + n[6]] == p.send_server);
    assert(s[prefix + n[7]] == decimal(p.send_port as int));
    assert(s[prefix + n[8]] == p.send_user);
    assert(s[prefix + n[9]] == p.send_pw);
    assert(s[prefix + n[10]] == decimal(p.smtp_certificate_checks.number()));
    assert(s[prefix + n[11]] == decimal(p.server_flags as int));
}

impl LoginParam {
    /// The settings of an account of which nothing is known.
    pub fn new() -> (r: LoginParam)
        ensures
            r@ == empty_param(),
    {
        LoginParam {
            addr: String::new(),
            mail_server: String::new(),
            mail_user: String::new(),
            mail_pw: String::new(),
            mail_port: 0,
            imap_certificate_checks: CertificateChecks::Automatic,
            send_server: String::new(),
            send_user: String::new(),
            send_pw: String::new(),
            send_port: 0,
            smtp_certificate_checks: CertificateChecks::Automatic,
            server_flags: 0,
        }
    }

    /// A copy of these settings.
    pub fn copy(&self) -> (r: LoginParam)
        ensures
            r@ == self@,
    {
        LoginParam {
            addr: self.addr.clone(),
            mail_server: self.mail_server.clone(),
            mail_user: self.mail_user.clone(),
            mail_pw: self.mail_pw.clone(),
            mail_port: self.mail_port,
            imap_certificate_checks: self.imap_certificate_checks,
            send_server: self.send_server.clone(),
            send_user: self.send_user.clone(),
            send_pw: self.send_pw.clone(),
            send_port: self.send_port,
            smtp_certificate_checks: self.smtp_certificate_checks,
            server_flags: self.server_flags,
        }
    }

    /// The way to log in, where the flags choose exactly one.
    pub fn auth(&self) -> (r: Option<Auth>)
        ensures
            r == auth_of(self.server_flags),
    {
        let group = self.server_flags & DC_LP_AUTH_FLAGS;
        if group == DC_LP_AUTH_NORMAL {
            Some(Auth::Normal)
        } else if group == DC_LP_AUTH_OAUTH2 {
            Some(Auth::Oauth2)
        } else {
            None
        }
    }

    /// The socket to the IMAP server, where the flags choose exactly one.
    pub fn imap_socket(&self) -> (r: Option<ImapSocket>)
        ensures
            r == imap_socket_of(self.server_flags),
    {
        let group = self.server_flags & DC_LP_IMAP_SOCKET_FLAGS;
        if group == DC_LP_IMAP_SOCKET_STARTTLS {
            Some(ImapSocket::Starttls)
        } else if group == DC_LP_IMAP_SOCKET_SSL {
            Some(ImapSocket::Ssl)
        } else if group == DC_LP_IMAP_SOCKET_PLAIN {
            Some(ImapSocket::Plain)
        } else {
            None
        }
    }

    /// The socket to the SMTP server, where the flags choose exactly one.
    pub fn smtp_socket(&self) -> (r: Option<SmtpSocket>)
        ensures
            r == smtp_socket_of(self.server_flags),
    {
        let group = self.server_flags & DC_LP_SMTP_SOCKET_FLAGS;
        if group == DC_LP_SMTP_SOCKET_STARTTLS {
            Some(SmtpSocket::Starttls)
        } else if group == DC_LP_SMTP_SOCKET_SSL {
            Some(SmtpSocket::Ssl)
        } else if group == DC_LP_SMTP_SOCKET_PLAIN {
            Some(SmtpSocket::Plain)
        } else {
            None
        }
    }

    /// Reads the settings kept under the keys that begin with `prefix`. What
    /// is missing reads as empty text or 0.
    pub fn from_database(sql: &Sql, prefix: &str) -> (r: LoginParam)
        requires
            sql.wf(),
        ensures
            r@ == param_in(sql.config(), prefix@),
    {
        LoginParam {
            addr: read_text(sql, prefix, "addr"),
            mail_server: read_text(sql, prefix, "mail_server"),
            mail_user: read_text(sql, prefix, "mail_user"),
            mail_pw: read_text(sql, prefix, "mail_pw"),
            mail_port: read_number(sql, prefix, "mail_port"),
            imap_certificate_checks: CertificateChecks::from_i32(
                read_number(sql, prefix, "imap_certificate_checks"),
            ),
            send_server: read_text(sql, prefix, "send_server"),
            send_user: read_text(sql, prefix, "send_user"),
            send_pw: read_text(sql, prefix, "send_pw"),
            send_port: read_number(sql, prefix, "send_port"),
            smtp_certificate_checks: CertificateChecks::from_i32(
                read_number(sql, prefix, "smtp_certificate_checks"),
            ),
            server_flags: read_number(sql, prefix, "server_flags"),
        }
    }

    /// Writes the settings under the keys that begin with `prefix`. A
    /// database that cannot be written refuses, and stays as it is.
    pub fn save_to_database(&self, sql: &mut Sql, prefix: &str) -> (r: Result<(), Error>)
        requires
            old(sql).wf(),
        ensures
            final(sql).follows(*old(sql)),
            r is Ok <==> old(sql).opened() && !old(sql).read_only(),
            !old(sql).opened() ==> r == Err::<(), Error>(Error::SqlNoConnection),
            r is Err ==> final(sql).config() == old(sql).config(),
            r is Ok ==> final(sql).config() == param_saved(old(sql).config(), prefix@, self@),
    {
        match sql.set_raw_config(join(prefix, "addr").as_str(), Some(self.addr.as_str())) {
            Err(e) => {
                return Err(e);
            },
            Ok(()) => {},
        }
        let _ = sql.set_raw_config(
            join(prefix, "mail_server").as_str(),
            Some(self.mail_server.as_str()),
        );
        let _ = sql.set_raw_config_int(join(prefix, "mail_port").as_str(), self.mail_port);
        let _ = sql.set_raw_config(
            join(prefix, "mail_user").as_str(),
            Some(self.mail_user.as_str()),
        );
        let _ = sql.set_raw_config(join(prefix, "mail_pw").as_str(), Some(self.mail_pw.as_str()));
        let _ = sql.set_raw_config_int(
            join(prefix, "imap_certificate_checks").as_str(),
            self.imap_certificate_checks.to_i32(),
        );
        let _ = sql.set_raw_config(
            join(prefix, "send_server").as_str(),
            Some(self.send_server.as_str()),
        );
        let _ = sql.set_raw_config_int(join(prefix, "send_port").as_str(), self.send_port);
        let _ = sql.set_raw_config(
            join(prefix, "send_user").as_str(),
            Some(self.send_user.as_str()),
        );
        let _ = sql.set_raw_config(join(prefix, "send_pw").as_str(), Some(self.send_pw.as_str()));
        let _ = sql.set_raw_config_int(
            join(prefix, "smtp_certificate_checks").as_str(),
            self.smtp_certificate_checks.to_i32(),
        );
        let _ = sql.set_raw_config_int(join(prefix, "server_flags").as_str(), self.server_flags);
        Ok(())
    }
}

/// The text kept under `prefix` followed by `name`.
fn read_text(sql: &Sql, prefix: &str, name: &str) -> (r: String)
    requires
        sql.wf(),
    ensures
        r@ == text_in(sql.config(), prefix@ + name@),
{
    match sql.get_raw_config(join(prefix, name).as_str()) {
        Some(v) => v,
        None => String::new(),
    }
}

/// The number kept under `prefix` followed by `name`.
fn read_number(sql: &Sql, prefix: &str, name: &str) -> (r: i32)
    requires
        sql.wf(),
    ensures
        r == number_in(sql.config(), prefix@ + name@),
{
    match sql.get_raw_config_int(join(prefix, name).as_str()) {
        Some(v) => v,
        None => 0,
    }
}

} // verus!
