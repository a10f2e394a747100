//! The IMAP side of an account, as far as it is decided here: how to
//! connect, what the folders of the server mean, which folders the account
//! uses, and what is remembered of a selected folder.

use vstd::prelude::*;
use crate::decimal::{
    all_digits, decimal, format_u32, is_digit, lemma_digits_of, lemma_parse_decimal_of_decimal,
    parse_u32, parse_u32_spec,
};
use crate::login_param::{
    LoginParam, LoginParamView, DC_LP_IMAP_SOCKET_PLAIN, DC_LP_IMAP_SOCKET_STARTTLS,
};
use crate::sql::{raw_of, Sql};
use crate::text::{
    ascii_lowered, join, join3, eq_ignore_ascii_case, find_char, first_index_of,
    lemma_first_index_of, str_eq, substring,
};

verus! {

/// What a folder of the server is for.
#[derive(Clone, Copy, Debug, PartialEq, Eq, Structural)]
pub enum FolderMeaning {
    Unknown,
    SentObjects,
    Other,
}

/// An attribute that the server gives to a folder in its listing.
#[derive(Debug)]
pub enum NameAttribute {
    NoInferiors,
    NoSelect,
    Marked,
    Unmarked,
    /// An attribute that the standard does not define, by its label.
    Custom(String),
}

/// One folder of the listing of the server.
#[derive(Debug)]
pub struct Folder {
    pub name: String,
    pub attributes: Vec<NameAttribute>,
    /// The text that separates the levels of the hierarchy of folders.
    pub delimiter: Option<String>,
}

/// What the server says of a folder that was selected.
#[derive(Clone, Copy, Debug)]
pub struct Mailbox {
    /// How many messages the folder holds.
    pub exists: u32,
    pub uid_validity: Option<u32>,
}

/// The name of the folder for moved messages.
pub const MVBOX_NAME: &'static str = "DeltaChat";

/// What is fetched of a message to see whether it is wanted: its UID and
/// its envelope.
pub const FETCH_PREFETCH: &'static str = "(UID ENVELOPE)";

/// What is fetched of a message to receive it: its flags and its body,
/// without marking it as seen.
pub const FETCH_BODY: &'static str = "(FLAGS BODY.PEEK[])";

/// What is fetched of a message to see its state: its flags.
pub const FETCH_FLAGS: &'static str = "(FLAGS)";

/// Whether one of the attributes is the label `label`.
pub open spec fn has_label(attributes: Seq<NameAttribute>, label: Seq<char>) -> bool {
    exists|i: int|
        0 <= i < attributes.len() && (#[trigger] attributes[i]) is Custom && attributes[i]->0@
            == label
}

/// Whether `name` is one of the names that a folder for sent messages has,
/// capital ASCII letters counting as small ones.
pub open spec fn is_sent_name(name: Seq<char>) -> bool {
    ascii_lowered(name) == ascii_lowered("sent"@) || ascii_lowered(name) == ascii_lowered(
        "sent objects"@,
    ) || ascii_lowered(name) == ascii_lowered("gesendet"@)
}

/// What a folder is for, going by its name alone.
pub open spec fn meaning_by_name(name: Seq<char>) -> FolderMeaning {
    if is_sent_name(name) {
        FolderMeaning::SentObjects
    } else {
        FolderMeaning::Unknown
    }
}

/// Whether the labels mark the folder as one for spam, deleted messages or
/// drafts.
pub open spec fn has_other_label(attributes: Seq<NameAttribute>) -> bool {
    has_label(attributes, "\\Spam"@) || has_label(attributes, "\\Trash"@) || has_label(
        attributes,
        "\\Drafts"@,
    ) || has_label(attributes, "\\Junk"@)
}

/// What a folder is for: something else where a label says so; else sent
/// messages where a label says so; else what its name says.
pub open spec fn folder_meaning(f: Folder) -> FolderMeaning {
    if has_other_label(f.attributes@) {
        FolderMeaning::Other
    } else if has_label(f.attributes@, "\\Sent"@) {
        FolderMeaning::SentObjects
    } else {
        meaning_by_name(f.name@)
    }
}

/// What a folder is for, going by its name alone.
pub fn get_folder_meaning_by_name(folder_name: &Folder) -> (r: FolderMeaning)
    ensures
        r == meaning_by_name(folder_name.name@),
{
    let name = folder_name.name.as_str();
    if eq_ignore_ascii_case(name, "sent") || eq_ignore_ascii_case(name, "sent objects")
        || eq_ignore_ascii_case(name, "gesendet") {
        FolderMeaning::SentObjects
    } else {
        FolderMeaning::Unknown
    }
}

/// Whether one of the attributes is the label `label`.
fn find_label(attributes: &Vec<NameAttribute>, label: &str) -> (r: bool)
    ensures
        r == has_label(attributes@, label@),
{
    let mut i: usize = 0;
    while i < attributes.len()
        invariant
            i <= attributes@.len(),
            forall|j: int|
                0 <= j < i ==> !((#[trigger] attributes@[j]) is Custom && attributes@[j]->0@
                    == label@),
        decreases attributes@.len() - i,
    {
        match &attributes[i] {
            NameAttribute::Custom(l) => {
                if str_eq(l.as_str(), label) {
                    return true;
                }
            },
            _ => {},
        }
        i += 1;
    }
    false
}

/// What a folder is for.
pub fn get_folder_meaning(folder_name: &Folder) -> (r: FolderMeaning)
    ensures
        r == folder_meaning(*folder_name),
{
    let attributes = &folder_name.attributes;
    if find_label(attributes, "\\Spam") || find_label(attributes, "\\Trash") || find_label(
        attributes,
        "\\Drafts",
    ) || find_label(attributes, "\\Junk") {
        FolderMeaning::Other
    } else if find_label(attributes, "\\Sent") {
        FolderMeaning::SentObjects
    } else {
        get_folder_meaning_by_name(folder_name)
    }
}

/// The view of a text that may be missing.
pub open spec fn text_view(s: Option<String>) -> Option<Seq<char>> {
    match s {
        Some(s) => Some(s@),
        None => None,
    }
}

/// What is known of the connection to the IMAP server.
#[derive(Debug)]
pub struct ImapConfig {
    pub addr: Option<String>,
    pub imap_server: Option<String>,
    pub imap_port: Option<usize>,
    pub imap_user: Option<String>,
    pub imap_pw: Option<String>,
    pub server_flags: Option<usize>,
    pub connected: i32,
    pub idle_set_up: i32,
    pub selected_folder: String,
    pub selected_folder_needs_expunge: i32,
    pub should_reconnect: i32,
    pub can_idle: i32,
    pub has_xlist: i32,
    pub imap_delimiter: char,
    pub watch_folder: String,
    pub fetch_type_prefetch: &'static str,
    pub fetch_type_body: &'static str,
    pub fetch_type_flags: &'static str,
    pub log_connect_errors: i32,
    pub skip_log_capabilities: i32,
}

pub struct ImapConfigView {
    pub addr: Option<Seq<char>>,
    pub imap_server: Option<Seq<char>>,
    pub imap_port: Option<usize>,
    pub imap_user: Option<Seq<char>>,
    pub imap_pw: Option<Seq<char>>,
    pub server_flags: Option<usize>,
    pub connected: i32,
    pub idle_set_up: i32,
    pub selected_folder: Seq<char>,
    pub selected_folder_needs_expunge: i32,
    pub should_reconnect: i32,
    pub can_idle: i32,
    pub has_xlist: i32,
    pub imap_delimiter: char,
    pub watch_folder: Seq<char>,
    pub fetch_type_prefetch: Seq<char>,
    pub fetch_type_body: Seq<char>,
    pub fetch_type_flags: Seq<char>,
    pub log_connect_errors: i32,
    pub skip_log_capabilities: i32,
}

impl View for ImapConfig {
    type V = ImapConfigView;

    open spec fn view(&self) -> ImapConfigView {
        ImapConfigView {
            addr: text_view(self.addr),
            imap_server: text_view(self.imap_server),
            imap_port: self.imap_port,
            imap_user: text_view(self.imap_user),
            imap_pw: text_view(self.imap_pw),
            server_flags: self.server_flags,
            connected: self.connected,
            idle_set_up: self.idle_set_up,
            selected_folder: self.selected_folder@,
            selected_folder_needs_expunge: self.selected_folder_needs_expunge,
            should_reconnect: self.should_reconnect,
            can_idle: self.can_idle,
            has_xlist: self.has_xlist,
            imap_delimiter: self.imap_delimiter,
            watch_folder: self.watch_folder@,
            fetch_type_prefetch: self.fetch_type_prefetch@,
            fetch_type_body: self.fetch_type_body@,
            fetch_type_flags: self.fetch_type_flags@,
            log_connect_errors: self.log_connect_errors,
            skip_log_capabilities: self.skip_log_capabilities,
        }
    }
}

/// What is known of a connection before anything is known: no session, no
/// folder, a dot between the levels of folders, the three ways to fetch a
/// message, and errors of a connect are logged.
pub open spec fn default_config() -> ImapConfigView {
    ImapConfigView {
        addr: None,
        imap_server: None,
        imap_port: None,
        imap_user: None,
        imap_pw: None,
        server_flags: None,
        connected: 0,
        idle_set_up: 0,
        selected_folder: Seq::empty(),
        selected_folder_needs_expunge: 0,
        should_reconnect: 0,
        can_idle: 0,
        has_xlist: 0,
        imap_delimiter: '.',
        watch_folder: Seq::empty(),
        fetch_type_prefetch: FETCH_PREFETCH@,
        fetch_type_body: FETCH_BODY@,
        fetch_type_flags: FETCH_FLAGS@,
        log_connect_errors: 1,
        skip_log_capabilities: 0,
    }
}

impl Default for ImapConfig {
    fn default() -> (r: ImapConfig)
        ensures
            r@ == default_config(),
    {
        ImapConfig {
            addr: None,
            imap_server: None,
            imap_port: None,
            imap_user: None,
            imap_pw: None,
            server_flags: None,
            connected: 0,
            idle_set_up: 0,
            selected_folder: String::new(),
            selected_folder_needs_expunge: 0,
            should_reconnect: 0,
            can_idle: 0,
            has_xlist: 0,
            imap_delimiter: '.',
            watch_folder: String::new(),
            fetch_type_prefetch: FETCH_PREFETCH,
            fetch_type_body: FETCH_BODY,
            fetch_type_flags: FETCH_FLAGS,
            log_connect_errors: 1,
            skip_log_capabilities: 0,
        }
    }
}

/// How a connection is secured.
#[derive(Clone, Copy, Debug, PartialEq, Eq, Structural)]
pub enum Security {
    /// TLS from the first byte.
    Tls,
    /// Plain text first, then TLS.
    StartTls,
    /// Plain text.
    Plain,
}

/// What a call of `connect` comes to.
#[derive(Debug)]
pub enum ConnectPlan {
    /// The settings lack the server, the user name or the password.
    Refused,
    /// There is a session already; nothing is to be done.
    AlreadyConnected,
    /// Open a connection and log in.
    Open { server: String, port: u16, security: Security, user: String, password: String },
}

pub enum ConnectPlanView {
    Refused,
    AlreadyConnected,
    Open { server: Seq<char>, port: u16, security: Security, user: Seq<char>, password: Seq<char> },
}

impl View for ConnectPlan {
    type V = ConnectPlanView;

    open spec fn view(&self) -> ConnectPlanView {
        match self {
            ConnectPlan::Refused => ConnectPlanView::Refused,
            ConnectPlan::AlreadyConnected => ConnectPlanView::AlreadyConnected,
            ConnectPlan::Open { server, port, security, user, password } => ConnectPlanView::Open {
                server: server@,
                port: *port,
                security: *security,
                user: user@,
                password: password@,
            },
        }
    }
}

/// How the flags want the connection to the IMAP server secured: TLS,
/// unless they ask for STARTTLS or for plain text.
pub open spec fn security_of(flags: i32) -> Security {
    if flags & (DC_LP_IMAP_SOCKET_STARTTLS | DC_LP_IMAP_SOCKET_PLAIN) != 0 {
        if flags & DC_LP_IMAP_SOCKET_STARTTLS != 0 {
            Security::StartTls
        } else {
            Security::Plain
        }
    } else {
        Security::Tls
    }
}

/// What `connect` comes to, with the settings `lp`, for a session that is
/// connected or not.
pub open spec fn connect_plan(connected: bool, lp: LoginParamView) -> ConnectPlanView {
    if lp.mail_server.len() == 0 || lp.mail_user.len() == 0 || lp.mail_pw.len() == 0 {
        ConnectPlanView::Refused
    } else if connected {
        ConnectPlanView::AlreadyConnected
    } else {
        ConnectPlanView::Open {
            server: lp.mail_server,
            port: (lp.mail_port & 0xffff) as u16,
            security: security_of(lp.server_flags),
            user: lp.mail_user,
            password: lp.mail_pw,
        }
    }
}

/// The capabilities of a server that matter to a session: whether it can
/// idle, and whether it can list folders with their purposes.
pub fn wanted_capabilities() -> (r: Vec<&'static str>)
    ensures
        r@.len() == 2,
        r@[0]@ == "IDLE"@,
        r@[1]@ == "XLIST"@,
{
    vec!["IDLE", "XLIST"]
}

/// Whether the server names the capability `name`.
pub open spec fn has_capability(capabilities: Seq<String>, name: Seq<char>) -> bool {
    exists|i: int| 0 <= i < capabilities.len() && (#[trigger] capabilities[i])@ == name
}

fn find_capability(capabilities: &Vec<String>, name: &str) -> (r: bool)
    ensures
        r == has_capability(capabilities@, name@),
{
    let mut i: usize = 0;
    while i < capabilities.len()
        invariant
            i <= capabilities@.len(),
            forall|j: int| 0 <= j < i ==> (#[trigger] capabilities@[j])@ != name@,
        decreases capabilities@.len() - i,
    {
        if str_eq(capabilities[i].as_str(), name) {
            return true;
        }
        i += 1;
    }
    false
}

/// The session with the IMAP server of one account.
#[allow(non_camel_case_types)]
pub struct dc_imap_t {
    pub config: ImapConfig,
}

/// A session that is not connected.
pub fn dc_imap_new() -> (r: dc_imap_t)
    ensures
        r.config@ == default_config(),
{
    dc_imap_t::new()
}

impl dc_imap_t {
    /// Whether the session is connected.
    pub open spec fn connected(&self) -> bool {
        self.config.connected != 0
    }

    /// A session that is not connected.
    pub fn new() -> (r: dc_imap_t)
        ensures
            r.config@ == default_config(),
    {
        dc_imap_t { config: ImapConfig::default() }
    }

    pub fn is_connected(&self) -> (r: bool)
        ensures
            r == self.connected(),
    {
        self.config.connected != 0
    }

    /// Decides what a connect with the settings `lp` has to do. Settings
    /// without server, user name or password are refused; a connected
    /// session has nothing to do; else the connection is secured as the
    /// flags ask: TLS, STARTTLS or plain text.
    pub fn connect(&self, lp: &LoginParam) -> (r: ConnectPlan)
        ensures
            r@ == connect_plan(self.connected(), lp@),
    {
        if lp.mail_server.as_str().is_empty() || lp.mail_user.as_str().is_empty()
            || lp.mail_pw.as_str().is_empty() {
            return ConnectPlan::Refused;
        }
        if self.is_connected() {
            return ConnectPlan::AlreadyConnected;
        }
        let port: i32 = lp.mail_port;
        let low: i32 = port & 0xffff;
        assert(0 <= low <= 0xffff) by (bit_vector)
            requires
                low == port & 0xffffi32,
        ;
        let security = if 0 != lp.server_flags & (DC_LP_IMAP_SOCKET_STARTTLS
            | DC_LP_IMAP_SOCKET_PLAIN) {
            if 0 != lp.server_flags & DC_LP_IMAP_SOCKET_STARTTLS {
                Security::StartTls
            } else {
                Security::Plain
            }
        } else {
            Security::Tls
        };
        ConnectPlan::Open {
            server: lp.mail_server.clone(),
            port: low as u16,
            security,
            user: lp.mail_user.clone(),
            password: lp.mail_pw.clone(),
        }
    }

    /// Notes that the login worked: the session is connected, and it can
    /// idle and list extended folders where the server names the
    /// capabilities `IDLE` and `XLIST`.
    pub fn login_succeeded(&mut self, capabilities: &Vec<String>)
        ensures
            final(self).config@ == (ImapConfigView {
                connected: 1,
                can_idle: if has_capability(capabilities@, "IDLE"@) {
                    1i32
                } else {
                    0i32
                },
                has_xlist: if has_capability(capabilities@, "XLIST"@) {
                    1i32
                } else {
                    0i32
                },
                ..old(self).config@
            }),
    {
        self.config.can_idle = if find_capability(capabilities, "IDLE") {
            1
        } else {
            0
        };
        self.config.has_xlist = if find_capability(capabilities, "XLIST") {
            1
        } else {
            0
        };
        self.config.connected = 1;
    }

    /// Notes that the session is closed: nothing is selected, and nothing
    /// is known of what the server can do.
    pub fn disconnect(&mut self)
        ensures
            final(self).config@ == (ImapConfigView {
                connected: 0,
                idle_set_up: 0,
                can_idle: 0,
                has_xlist: 0,
                selected_folder: Seq::empty(),
                selected_folder_needs_expunge: 0,
                ..old(self).config@
            }),
    {
        self.config.connected = 0;
        self.config.idle_set_up = 0;
        self.config.can_idle = 0;
        self.config.has_xlist = 0;
        self.config.selected_folder = String::new();
        self.config.selected_folder_needs_expunge = 0;
    }

    /// Sets the folder that the session watches.
    pub fn set_watch_folder(&mut self, watch_folder: &str)
        ensures
            final(self).config@ == (ImapConfigView {
                watch_folder: watch_folder@,
                ..old(self).config@
            }),
    {
        self.config.watch_folder = watch_folder.to_owned();
    }
}

/// The text that separates the levels of the folders of a listing: the
/// first one that the listing reports, or a dot where it reports none.
pub open spec fn listed_delimiter(folders: Seq<Folder>) -> Seq<char>
    decreases folders.len(),
{
    if folders.len() == 0 {
        "."@
    } else if folders[0].delimiter is Some && folders[0].delimiter->0@.len() > 0 {
        folders[0].delimiter->0@
    } else {
        listed_delimiter(folders.drop_first())
    }
}

/// The name that the folder for moved messages has where it can only be
/// made below the inbox.
pub open spec fn fallback_folder(delimiter: Seq<char>) -> Seq<char> {
    "INBOX"@ + delimiter + MVBOX_NAME@
}

/// Whether the folder is the one for moved messages, by its name.
pub open spec fn is_mvbox(f: Folder, fallback: Seq<char>) -> bool {
    f.name@ == MVBOX_NAME@ || f.name@ == fallback
}

/// The name of the first folder for moved messages in the listing.
pub open spec fn listed_mvbox(folders: Seq<Folder>, fallback: Seq<char>) -> Option<Seq<char>>
    decreases folders.len(),
{
    if folders.len() == 0 {
        None
    } else if is_mvbox(folders[0], fallback) {
        Some(folders[0].name@)
    } else {
        listed_mvbox(folders.drop_first(), fallback)
    }
}

/// The name of the first folder for sent messages in the listing.
pub open spec fn listed_sentbox(folders: Seq<Folder>) -> Option<Seq<char>>
    decreases folders.len(),
{
    if folders.len() == 0 {
        None
    } else if folder_meaning(folders[0]) == FolderMeaning::SentObjects {
        Some(folders[0].name@)
    } else {
        listed_sentbox(folders.drop_first())
    }
}

/// The text that separates the levels of the folders of the listing.
pub fn find_delimiter(folders: &Vec<Folder>) -> (r: String)
    ensures
        r@ == listed_delimiter(folders@),
{
    let mut i: usize = 0;
    assert(folders@.subrange(0, folders@.len() as int) =~= folders@);
    while i < folders.len()
        invariant
            i <= folders@.len(),
            listed_delimiter(folders@) == listed_delimiter(
                folders@.subrange(i as int, folders@.len() as int),
            ),
        decreases folders@.len() - i,
    {
        let ghost rest = folders@.subrange(i as int, folders@.len() as int);
        assert(rest[0] == folders@[i as int]);
        assert(rest.drop_first() =~= folders@.subrange(i + 1, folders@.len() as int));
        match &folders[i].delimiter {
            Some(d) => {
                if !d.as_str().is_empty() {
                    return d.clone();
                }
            },
            None => {},
        }
        i += 1;
    }
    ".".to_owned()
}

/// The name of the first folder for moved messages in the listing.
pub fn find_mvbox(folders: &Vec<Folder>, fallback: &str) -> (r: Option<String>)
    ensures
        text_view(r) == listed_mvbox(folders@, fallback@),
{
    let mut i: usize = 0;
    assert(folders@.subrange(0, folders@.len() as int) =~= folders@);
    while i < folders.len()
        invariant
            i <= folders@.len(),
            listed_mvbox(folders@, fallback@) == listed_mvbox(
                folders@.subrange(i as int, folders@.len() as int),
                fallback@,
            ),
        decreases folders@.len() - i,
    {
        let ghost rest = folders@.subrange(i as int, folders@.len() as int);
        assert(rest[0] == folders@[i as int]);
        assert(rest.drop_first() =~= folders@.subrange(i + 1, folders@.len() as int));
        let name = folders[i].name.as_str();
        if str_eq(name, MVBOX_NAME) || str_eq(name, fallback) {
            return Some(folders[i].name.clone());
        }
        i += 1;
    }
    None
}

/// The name of the first folder for sent messages in the listing.
pub fn find_sentbox(folders: &Vec<Folder>) -> (r: Option<String>)
    ensures
        text_view(r) == listed_sentbox(folders@),
{
    let mut i: usize = 0;
    assert(folders@.subrange(0, folders@.len() as int) =~= folders@);
    while i < folders.len()
        invariant
            i <= folders@.len(),
            listed_sentbox(folders@) == listed_sentbox(
                folders@.subrange(i as int, folders@.len() as int),
            ),
        decreases folders@.len() - i,
    {
        let ghost rest = folders@.subrange(i as int, folders@.len() as int);
        assert(rest[0] == folders@[i as int]);
        assert(rest.drop_first() =~= folders@.subrange(i + 1, folders@.len() as int));
        match get_folder_meaning(&folders[i]) {
            FolderMeaning::SentObjects => {
                return Some(folders[i].name.clone());
            },
            _ => {},
        }
        i += 1;
    }
    None
}

/// What the setting up of the folders waits for.
#[derive(Clone, Copy, Debug, PartialEq, Eq, Structural)]
pub enum FolderStage {
    /// Whether the folder for moved messages could be made.
    Creating,
    /// Whether the folder could be made below the inbox.
    CreatingFallback,
    /// That the new folder is subscribed to.
    Subscribing,
}

/// What the caller is asked to do for the folders.
#[derive(Debug)]
pub enum FolderRequest {
    /// Make the folder of this name.
    Create(String),
    /// Subscribe to the folder of this name.
    Subscribe(String),
    /// Nothing is left to do.
    Done,
}

pub enum FolderRequestView {
    Create(Seq<char>),
    Subscribe(Seq<char>),
    Done,
}

impl View for FolderRequest {
    type V = FolderRequestView;

    open spec fn view(&self) -> FolderRequestView {
        match self {
            FolderRequest::Create(n) => FolderRequestView::Create(n@),
            FolderRequest::Subscribe(n) => FolderRequestView::Subscribe(n@),
            FolderRequest::Done => FolderRequestView::Done,
        }
    }
}

/// The setting up of the folders while it waits for the server.
#[derive(Debug)]
pub struct FolderSetup {
    pub stage: FolderStage,
    /// The folder for sent messages, if the server has one.
    pub sentbox: Option<String>,
    /// The folder for moved messages, once there is one.
    pub mvbox: Option<String>,
    /// The name of the folder for moved messages below the inbox.
    pub fallback: String,
}

pub struct FolderSetupView {
    pub stage: FolderStage,
    pub sentbox: Option<Seq<char>>,
    pub mvbox: Option<Seq<char>>,
    pub fallback: Seq<char>,
}

impl View for FolderSetup {
    type V = FolderSetupView;

    open spec fn view(&self) -> FolderSetupView {
        FolderSetupView {
            stage: self.stage,
            sentbox: text_view(self.sentbox),
            mvbox: text_view(self.mvbox),
            fallback: self.fallback@,
        }
    }
}

/// The view of a setting up that may be over.
pub open spec fn setup_view(s: Option<FolderSetup>) -> Option<FolderSetupView> {
    match s {
        Some(s) => Some(s@),
        None => None,
    }
}

/// The table after the folders were written down: that they are
/// configured, and the names of those that were found or made. A table that
/// cannot be written stays as it is.
pub open spec fn folders_recorded(
    config: Map<Seq<char>, Seq<char>>,
    writable: bool,
    sentbox: Option<Seq<char>>,
    mvbox: Option<Seq<char>>,
) -> Map<Seq<char>, Seq<char>> {
    if !writable {
        config
    } else {
        let a = config.insert("folders_configured"@, decimal(3));
        let b = match mvbox {
            Some(m) => a.insert("configured_mvbox_folder"@, m),
            None => a,
        };
        match sentbox {
            Some(s) => b.insert("configured_sentbox_folder"@, s),
            None => b,
        }
    }
}

/// Writes the folders down.
fn record_folders(sql: &mut Sql, sentbox: &Option<String>, mvbox: &Option<String>)
    requires
        old(sql).wf(),
    ensures
        final(sql).follows(*old(sql)),
        final(sql).config() == folders_recorded(
            old(sql).config(),
            old(sql).opened() && !old(sql).read_only(),
            text_view(*sentbox),
            text_view(*mvbox),
        ),
{
    let _ = sql.set_raw_config_int("folders_configured", 3);
    match mvbox {
        Some(m) => {
            let _ = sql.set_raw_config("configured_mvbox_folder", Some(m.as_str()));
        },
        None => {},
    }
    match sentbox {
        Some(s) => {
            let _ = sql.set_raw_config("configured_sentbox_folder", Some(s.as_str()));
        },
        None => {},
    }
}

impl dc_imap_t {
    /// Goes through the listing of the server and finds the folders that
    /// the account uses: the first folder for sent messages, and the first
    /// folder for moved messages, which is named `DeltaChat`, at the top or
    /// below the inbox. Where the folder for moved messages is wanted and
    /// missing, the caller is asked to make it; else the folders are written
    /// down and nothing is left to do. A session that is not connected does
    /// nothing at all.
    pub fn configure_folders(
        &mut self,
        sql: &mut Sql,
        folders: &Vec<Folder>,
        create_mvbox: bool,
    ) -> (r: (Option<FolderSetup>, FolderRequest))
        requires
            old(sql).wf(),
        ensures
            final(sql).follows(*old(sql)),
            !old(self).connected() ==> {
                &&& r.0 is None
                &&& r.1@ == FolderRequestView::Done
                &&& final(sql).config() == old(sql).config()
                &&& final(self).config@ == old(self).config@
            },
            old(self).connected() ==> {
                let delimiter = listed_delimiter(folders@);
                let fallback = fallback_folder(delimiter);
                let sentbox = listed_sentbox(folders@);
                let mvbox = listed_mvbox(folders@, fallback);
                &&& final(self).config@ == (ImapConfigView {
                    imap_delimiter: delimiter[0],
                    ..old(self).config@
                })
                &&& if mvbox is None && create_mvbox {
                    &&& setup_view(r.0) == Some(
                        FolderSetupView {
                            stage: FolderStage::Creating,
                            sentbox,
                            mvbox: None,
                            fallback,
                        },
                    )
                    &&& r.1@ == FolderRequestView::Create(MVBOX_NAME@)
                    &&& final(sql).config() == old(sql).config()
                } else {
                    &&& r.0 is None
                    &&& r.1@ == FolderRequestView::Done
                    &&& final(sql).config() == folders_recorded(
                        old(sql).config(),
                        old(sql).opened() && !old(sql).read_only(),
                        sentbox,
                        mvbox,
                    )
                }
            },
    {
        if !self.is_connected() {
            return (None, FolderRequest::Done);
        }
        let delimiter = find_delimiter(folders);
        proof {
            lemma_listed_delimiter(folders@);
        }
        self.config.imap_delimiter = delimiter.as_str().get_char(0);
        let fallback = join3("INBOX", delimiter.as_str(), MVBOX_NAME);
        let mvbox = find_mvbox(folders, fallback.as_str());
        let sentbox = find_sentbox(folders);
        if mvbox.is_none() && create_mvbox {
            (
                Some(FolderSetup { stage: FolderStage::Creating, sentbox, mvbox: None, fallback }),
                FolderRequest::Create(MVBOX_NAME.to_owned()),
            )
        } else {
            record_folders(sql, &sentbox, &mvbox);
            (None, FolderRequest::Done)
        }
    }
}

/// The delimiter of a listing is never empty.
pub proof fn lemma_listed_delimiter(folders: Seq<Folder>)
    ensures
        listed_delimiter(folders).len() > 0,
    decreases folders.len(),
{
    if folders.len() == 0 {
        reveal_strlit(".");
    } else if folders[0].delimiter is Some && folders[0].delimiter->0@.len() > 0 {
    } else {
        lemma_listed_delimiter(folders.drop_first());
    }
}

/// Takes the answer of the server to the last request for the folders.
/// A folder that could not be made at the top is tried below the inbox; a
/// folder that was made is subscribed to, and is the folder for moved
/// messages from then on. In the end the folders are written down.
pub fn configure_folders_step(setup: FolderSetup, sql: &mut Sql, ok: bool) -> (r: (
    Option<FolderSetup>,
    FolderRequest,
))
    requires
        old(sql).wf(),
    ensures
        final(sql).follows(*old(sql)),
        match setup.stage {
            FolderStage::Creating => if ok {
                &&& setup_view(r.0) == Some(
                    FolderSetupView {
                        stage: FolderStage::Subscribing,
                        mvbox: Some(MVBOX_NAME@),
                        ..setup@
                    },
                )
                &&& r.1@ == FolderRequestView::Subscribe(MVBOX_NAME@)
                &&& final(sql).config() == old(sql).config()
            } else {
                &&& setup_view(r.0) == Some(
                    FolderSetupView { stage: FolderStage::CreatingFallback, ..setup@ },
                )
                &&& r.1@ == FolderRequestView::Create(setup@.fallback)
                &&& final(sql).config() == old(sql).config()
            },
            FolderStage::CreatingFallback => if ok {
                &&& setup_view(r.0) == Some(
                    FolderSetupView {
                        stage: FolderStage::Subscribing,
                        mvbox: Some(setup@.fallback),
                        ..setup@
                    },
                )
                &&& r.1@ == FolderRequestView::Subscribe(setup@.fallback)
                &&& final(sql).config() == old(sql).config()
            } else {
                &&& r.0 is None
                &&& r.1@ == FolderRequestView::Done
                &&& final(sql).config() == folders_recorded(
                    old(sql).config(),
                    old(sql).opened() && !old(sql).read_only(),
                    setup@.sentbox,
                    setup@.mvbox,
                )
            },
            FolderStage::Subscribing => {
                &&& r.0 is None
                &&& r.1@ == FolderRequestView::Done
                &&& final(sql).config() == folders_recorded(
                    old(sql).config(),
                    old(sql).opened() && !old(sql).read_only(),
                    setup@.sentbox,
                    setup@.mvbox,
                )
            },
        },
{
    let mut setup = setup;
    match setup.stage {
        FolderStage::Creating => {
            if ok {
                setup.stage = FolderStage::Subscribing;
                setup.mvbox = Some(MVBOX_NAME.to_owned());
                (Some(setup), FolderRequest::Subscribe(MVBOX_NAME.to_owned()))
            } else {
                setup.stage = FolderStage::CreatingFallback;
                let name = setup.fallback.clone();
                (Some(setup), FolderRequest::Create(name))
            }
        },
        FolderStage::CreatingFallback => {
            if ok {
                setup.stage = FolderStage::Subscribing;
                let name = setup.fallback.clone();
                setup.mvbox = Some(setup.fallback.clone());
                (Some(setup), FolderRequest::Subscribe(name))
            } else {
                record_folders(sql, &setup.sentbox, &setup.mvbox);
                (None, FolderRequest::Done)
            }
        },
        FolderStage::Subscribing => {
            record_folders(sql, &setup.sentbox, &setup.mvbox);
            (None, FolderRequest::Done)
        },
    }
}

/// The key under which the table remembers the folder `folder`.
pub open spec fn mailbox_key(folder: Seq<char>) -> Seq<char> {
    "imap.mailbox."@ + folder
}

/// What the table remembers of a folder with these two numbers.
pub open spec fn mailbox_entry(uid_validity: u32, last_seen_uid: u32) -> Seq<char> {
    decimal(uid_validity as int) + ":"@ + decimal(last_seen_uid as int)
}

/// The text of `s` up to its first colon; all of `s` where it has none.
pub open spec fn before_colon(s: Seq<char>) -> Seq<char> {
    let c = first_index_of(s, ':');
    if c < 0 {
        s
    } else {
        s.subrange(0, c)
    }
}

/// The text of `s` after its first colon; nothing where it has none.
pub open spec fn after_colon(s: Seq<char>) -> Seq<char> {
    let c = first_index_of(s, ':');
    if c < 0 {
        Seq::empty()
    } else {
        s.subrange(c + 1, s.len() as int)
    }
}

/// The number that `s` stands for; 0 where it stands for none.
pub open spec fn number_or_zero(s: Seq<char>) -> u32 {
    match parse_u32_spec(s) {
        Some(v) => v,
        None => 0,
    }
}

/// The two numbers of a remembered entry, UIDVALIDITY first: the entry is
/// cut at its colons, and a part that is missing or is no number counts
/// as 0.
pub open spec fn entry_numbers(entry: Seq<char>) -> (u32, u32) {
    (number_or_zero(before_colon(entry)), number_or_zero(before_colon(after_colon(entry))))
}

/// What the table remembers of the folder `folder`, if anything.
pub open spec fn remembered(config: Map<Seq<char>, Seq<char>>, folder: Seq<char>) -> Option<
    (u32, u32),
> {
    match raw_of(config, mailbox_key(folder)) {
        Some(entry) => Some(entry_numbers(entry)),
        None => None,
    }
}

/// The text of `s` up to its first colon.
fn take_before_colon(s: &str) -> (r: String)
    ensures
        r@ == before_colon(s@),
{
    match find_char(s, ':') {
        Some(c) => substring(s, 0, c),
        None => s.to_owned(),
    }
}

/// The text of `s` after its first colon.
fn take_after_colon(s: &str) -> (r: String)
    ensures
        r@ == after_colon(s@),
{
    match find_char(s, ':') {
        Some(c) => {
            let n = s.unicode_len();
            substring(s, c + 1, n)
        },
        None => String::new(),
    }
}

fn parse_or_zero(s: &str) -> (r: u32)
    ensures
        r == number_or_zero(s@),
{
    match parse_u32(s) {
        Some(v) => v,
        None => 0,
    }
}

/// What the table remembers of the folder `folder`: its UIDVALIDITY and the
/// highest UID that was seen.
pub fn get_config_last_seen_uid(sql: &Sql, folder: &str) -> (r: Option<(u32, u32)>)
    requires
        sql.wf(),
    ensures
        r == remembered(sql.config(), folder@),
{
    let key = join("imap.mailbox.", folder);
    match sql.get_raw_config(key.as_str()) {
        Some(entry) => {
            let first = take_before_colon(entry.as_str());
            let rest = take_after_colon(entry.as_str());
            let second = take_before_colon(rest.as_str());
            Some((parse_or_zero(first.as_str()), parse_or_zero(second.as_str())))
        },
        None => None,
    }
}

/// Remembers the two numbers of the folder `folder`, both in one entry. A
/// table that cannot be written stays as it is.
pub fn set_config_last_seen_uid(sql: &mut Sql, folder: &str, uid_validity: u32, last_seen_uid: u32)
    requires
        old(sql).wf(),
    ensures
        final(sql).follows(*old(sql)),
        final(sql).config() == if old(sql).opened() && !old(sql).read_only() {
            old(sql).config().insert(mailbox_key(folder@), mailbox_entry(uid_validity, last_seen_uid))
        } else {
            old(sql).config()
        },
{
    let key = join("imap.mailbox.", folder);
    let entry = join3(format_u32(uid_validity).as_str(), ":", format_u32(last_seen_uid).as_str());
    let _ = sql.set_raw_config(key.as_str(), Some(entry.as_str()));
}

/// Why a folder could not be selected.
#[derive(Clone, Copy, Debug, PartialEq, Eq, Structural)]
pub enum SelectError {
    /// The server gave no UIDVALIDITY for the folder.
    NoUidValidity,
    /// The highest UID of the folder could not be fetched.
    PrefetchFailed,
}

/// What selecting a folder comes to.
#[derive(Clone, Copy, Debug, PartialEq, Eq, Structural)]
pub enum SelectOutcome {
    /// The folder is selected; these are its UIDVALIDITY and the highest
    /// UID that counts as seen.
    Selected { uid_validity: u32, last_seen_uid: u32 },
    /// The UIDVALIDITY is new: fetch the UID of the message with this
    /// sequence number, the highest of the folder.
    Prefetch { sequence: u32, uid_validity: u32 },
    /// The folder cannot be used.
    Failed(SelectError),
}

/// Whether the table remembers the folder `folder` with the UIDVALIDITY
/// `uid_validity`.
pub open spec fn is_remembered_as(
    config: Map<Seq<char>, Seq<char>>,
    folder: Seq<char>,
    uid_validity: u32,
) -> bool {
    match remembered(config, folder) {
        Some(known) => known.0 == uid_validity,
        None => false,
    }
}

/// What `select_with_uidvalidity` returns, and what the table holds after
/// it, for a table that can be written or not.
pub open spec fn select_spec(
    config: Map<Seq<char>, Seq<char>>,
    writable: bool,
    folder: Seq<char>,
    mailbox: Mailbox,
) -> (SelectOutcome, Map<Seq<char>, Seq<char>>) {
    match mailbox.uid_validity {
        None => (SelectOutcome::Failed(SelectError::NoUidValidity), config),
        Some(uid_validity) => {
            if is_remembered_as(config, folder, uid_validity) {
                (
                    SelectOutcome::Selected {
                        uid_validity,
                        last_seen_uid: match remembered(config, folder) {
                            Some(known) => known.1,
                            None => 0,
                        },
                    },
                    config,
                )
            } else if mailbox.exists == 0 {
                (
                    SelectOutcome::Selected { uid_validity, last_seen_uid: 0 },
                    if writable {
                        config.insert(mailbox_key(folder), mailbox_entry(uid_validity, 0))
                    } else {
                        config
                    },
                )
            } else {
                (SelectOutcome::Prefetch { sequence: mailbox.exists, uid_validity }, config)
            }
        },
    }
}

/// Compares what the server says of a folder that was just selected with
/// what the table remembers of it. Where the UIDVALIDITY is the remembered
/// one, the remembered UID stands. Where it differs, or nothing is
/// remembered, the folder starts anew: an empty folder is remembered with
/// the new UIDVALIDITY and the UID 0, in one entry; for a folder with
/// messages the caller is asked to fetch the highest UID first, and the
/// table stays as it is until then.
pub fn select_with_uidvalidity(sql: &mut Sql, folder: &str, mailbox: &Mailbox) -> (r:
    SelectOutcome)
    requires
        old(sql).wf(),
    ensures
        final(sql).follows(*old(sql)),
        (r, final(sql).config()) == select_spec(
            old(sql).config(),
            old(sql).opened() && !old(sql).read_only(),
            folder@,
            *mailbox,
        ),
{
    let uid_validity = match mailbox.uid_validity {
        Some(v) => v,
        None => {
            return SelectOutcome::Failed(SelectError::NoUidValidity);
        },
    };
    match get_config_last_seen_uid(sql, folder) {
        Some((known_validity, last_seen_uid)) => {
            if known_validity == uid_validity {
                return SelectOutcome::Selected { uid_validity, last_seen_uid };
            }
        },
        None => {},
    }
    if mailbox.exists == 0 {
        set_config_last_seen_uid(sql, folder, uid_validity, 0);
        return SelectOutcome::Selected { uid_validity, last_seen_uid: 0 };
    }
    SelectOutcome::Prefetch { sequence: mailbox.exists, uid_validity }
}

/// The UID that counts as seen when `largest_uid` is the highest of the
/// folder: the one before it, so that the newest message is seen again.
pub open spec fn uid_before(largest_uid: u32) -> u32 {
    if largest_uid > 0 {
        (largest_uid - 1) as u32
    } else {
        0
    }
}

/// The highest UID of a folder as a fetch gave it; a message that came
/// without a UID counts as having the UID 0.
pub open spec fn fetched_uid(uid: Option<u32>) -> u32 {
    match uid {
        Some(uid) => uid,
        None => 0,
    }
}

/// Takes what the fetch of the newest message of a folder gave, for a
/// folder whose UIDVALIDITY is new: `None` where the fetch failed, else the
/// UID of the message, if it came with one. After a fetch that worked the
/// folder is remembered with the new UIDVALIDITY and the UID before that of
/// the message, in one entry. After one that failed the table stays as it
/// is.
pub fn select_after_prefetch(
    sql: &mut Sql,
    folder: &str,
    uid_validity: u32,
    fetched: Option<Option<u32>>,
) -> (r: SelectOutcome)
    requires
        old(sql).wf(),
    ensures
        final(sql).follows(*old(sql)),
        match fetched {
            Some(uid) => r == (SelectOutcome::Selected {
                uid_validity,
                last_seen_uid: uid_before(fetched_uid(uid)),
            }) && final(sql).config() == if old(sql).opened() && !old(sql).read_only() {
                old(sql).config().insert(
                    mailbox_key(folder@),
                    mailbox_entry(uid_validity, uid_before(fetched_uid(uid))),
                )
            } else {
                old(sql).config()
            },
            None => r == SelectOutcome::Failed(SelectError::PrefetchFailed) && final(sql).config()
                == old(sql).config(),
        },
{
    match fetched {
        Some(answer) => {
            let uid: u32 = match answer {
                Some(uid) => uid,
                None => 0,
            };
            let last_seen_uid: u32 = if uid > 0 {
                uid - 1
            } else {
                0
            };
            set_config_last_seen_uid(sql, folder, uid_validity, last_seen_uid);
            SelectOutcome::Selected { uid_validity, last_seen_uid }
        },
        None => SelectOutcome::Failed(SelectError::PrefetchFailed),
    }
}

/// A row of digits followed by a colon has its first colon right after the
/// digits.
proof fn lemma_first_colon(digits: Seq<char>, rest: Seq<char>)
    requires
        all_digits(digits),
    ensures
        first_index_of(digits + ":"@ + rest, ':') == digits.len(),
    decreases digits.len(),
{
    reveal_strlit(":");
    let s = digits + ":"@ + rest;
    if digits.len() == 0 {
        assert(s[0] == ':');
    } else {
        assert(s[0] == digits[0]);
        assert(is_digit(digits[0]));
        let tail = digits.drop_first();
        assert(s.drop_first() =~= tail + ":"@ + rest);
        assert forall|i: int| 0 <= i < tail.len() implies is_digit(#[trigger] tail[i]) by {
            assert(tail[i] == digits[i + 1]);
        }
        lemma_first_colon(tail, rest);
    }
}

/// A row of digits has no colon.
proof fn lemma_no_colon(digits: Seq<char>)
    requires
        all_digits(digits),
    ensures
        first_index_of(digits, ':') == -1,
{
    lemma_first_index_of(digits, ':');
    let c = first_index_of(digits, ':');
    if c >= 0 {
        assert(is_digit(digits[c]));
    }
}

/// An entry is read back as the two numbers that it was made of.
pub proof fn lemma_entry_read_back(uid_validity: u32, last_seen_uid: u32)
    ensures
        entry_numbers(mailbox_entry(uid_validity, last_seen_uid)) == (uid_validity, last_seen_uid),
{
    let a = decimal(uid_validity as int);
    let b = decimal(last_seen_uid as int);
    let entry = mailbox_entry(uid_validity, last_seen_uid);
    reveal_strlit(":");
    lemma_digits_of(uid_validity as nat);
    lemma_digits_of(last_seen_uid as nat);
    lemma_parse_decimal_of_decimal(uid_validity as int);
    lemma_parse_decimal_of_decimal(last_seen_uid as int);
    lemma_first_colon(a, b);
    lemma_no_colon(b);
    assert(entry.subrange(0, a.len() as int) =~= a);
    assert(entry.subrange(a.len() as int + 1, entry.len() as int) =~= b);
}

/// A change of UIDVALIDITY resets what is remembered of a folder in one
/// write: once a folder whose UIDVALIDITY differs from the remembered one,
/// or of which nothing is remembered, is selected on a table that can be
/// written, the table remembers the new UIDVALIDITY together with the new
/// UID, and never the new one of the two with the old other. Until then,
/// and on every failure, it remembers what it did before.
pub proof fn lemma_uidvalidity_reset(
    config: Map<Seq<char>, Seq<char>>,
    folder: Seq<char>,
    mailbox: Mailbox,
    largest_uid: u32,
)
    requires
        mailbox.uid_validity is Some,
        !is_remembered_as(config, folder, mailbox.uid_validity->0),
    ensures
        ({
            let uid_validity = mailbox.uid_validity->0;
            let first = select_spec(config, true, folder, mailbox);
            if mailbox.exists == 0 {
                &&& first.0 == (SelectOutcome::Selected { uid_validity, last_seen_uid: 0 })
                &&& remembered(first.1, folder) == Some((uid_validity, 0u32))
            } else {
                &&& first.0 == (SelectOutcome::Prefetch { sequence: mailbox.exists, uid_validity })
                &&& first.1 == config
                &&& remembered(
                    config.insert(
                        mailbox_key(folder),
                        mailbox_entry(uid_validity, uid_before(largest_uid)),
                    ),
                    folder,
                ) == Some((uid_validity, uid_before(largest_uid)))
            }
        }),
{
    reveal_strlit("imap.mailbox.");
    lemma_entry_read_back(mailbox.uid_validity->0, 0);
    lemma_entry_read_back(mailbox.uid_validity->0, uid_before(largest_uid));
    assert(mailbox_key(folder).len() > 0);
}

} // verus!
