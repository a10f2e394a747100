//! The configuration of an account, step by step.
//!
//! A run works out the settings of the account, tries them against the
//! servers, and writes them down once they are verified. Everything that has
//! to leave the process (asking a server, opening a connection) is handed to
//! the caller as a `Request`; the caller performs it and hands the answer
//! back as an `Event`. Every call begins by looking whether the run was asked
//! to stop, and no call goes further than one reported step: a step that
//! needs nothing from outside ends with the request to go on, so that the
//! caller can ask the run to stop between any two steps.

use vstd::prelude::*;
use vstd::utf8::encode_utf8;
use crate::address::{
    address_parts, before_at, percent_encoded, strip_domain, urlencode, EmailAddress,
};
use crate::autoconfig::{
    advanced_entered, complete, defaults_filled, fill_defaults, get_offline_autoconfig,
    has_advanced, is_complete, merged, offline_autoconfig, probe_format, probe_format_spec,
    probe_url, probe_url_spec, use_autoconfig, ProbeFormat, PROBE_COUNT,
};
use crate::context::Context;
use crate::login_param::{
    empty_param, param_in, param_saved, set_imap_socket, set_smtp_socket, with_imap_socket,
    with_smtp_socket, LoginParam, LoginParamView, DC_LP_AUTH_OAUTH2, DC_LP_IMAP_SOCKET_SSL,
    DC_LP_IMAP_SOCKET_STARTTLS, DC_LP_SMTP_SOCKET_STARTTLS,
};
use crate::guarantees::{job_wf, lemma_start, lemma_step};
use crate::ongoing::OngoingState;
use crate::provider::{get_provider_info, provider_info};
use crate::sql::bool_of;

verus! {

/// Where a run stands: what it waits for, or what it does next when it is
/// told to go on.
#[derive(Clone, Copy, Debug, PartialEq, Eq, Structural)]
pub enum Stage {
    /// Waits until the sessions of an earlier configuration are closed.
    Disconnecting,
    /// The address is there; next the way to log in is looked at.
    Entered,
    /// Waits for the address that the OAuth2 provider knows the account by.
    Oauth2,
    /// The address is settled; next it is taken apart and the way to the
    /// settings is chosen.
    Resolved,
    /// Next the place of this number is asked for a document with settings.
    BeforeProbe(u8),
    /// Waits for the document from the place of this number.
    Probe(u8),
    /// The search is over; next what was found is taken over.
    UseFound,
    /// Next the defaults are filled in and the first login is tried.
    Defaults,
    /// Waits for the outcome of the IMAP login of this number.
    Imap(u8),
    /// Waits for the outcome of the SMTP login of this number.
    Smtp(u8),
    /// Waits for the outcome of setting up the folders.
    Folders,
    /// Waits for the outcome of selecting the inbox.
    Inbox,
    /// The settings are written down; next the secret key is asked for.
    BeforeKey,
    /// Waits for the outcome of making sure that the account has a secret
    /// key.
    SecretKey,
}

/// Why a run failed.
#[derive(Clone, Copy, Debug, PartialEq, Eq, Structural)]
pub enum Failure {
    /// The database is closed.
    DatabaseNotOpen,
    /// Another long-running operation holds the slot.
    OngoingRunning,
    /// No address was entered.
    NoAddress,
    /// What was entered is no address.
    BadEmailAddress,
    /// A setting is still missing after the defaults were filled in.
    IncompleteSettings,
    /// No IMAP login worked.
    ImapConnect,
    /// No SMTP login worked.
    SmtpConnect,
    /// The inbox could not be selected.
    InboxSelect,
    /// The account has no secret key and none could be made.
    SecretKey,
    /// The run was asked to stop.
    Cancelled,
    /// The caller answered something that the run had not asked for.
    UnexpectedEvent,
}

/// What the caller is asked to do next.
#[derive(Debug)]
pub enum Request {
    /// Nothing is to be done but to call again: the step is over.
    Continue,
    /// Close the IMAP and SMTP sessions that are open.
    Disconnect,
    /// Ask the OAuth2 provider for the address of the account.
    GetOauth2Address { addr: String, code: String },
    /// Fetch the document at `url` and read it as `format`.
    Fetch { url: String, format: ProbeFormat },
    /// Log in to the IMAP server with these settings.
    ConnectImap(LoginParam),
    /// Log in to the SMTP server with these settings.
    ConnectSmtp(LoginParam),
    /// Find the folders of the account; create the folder for moved
    /// messages where `create_mvbox` says so.
    ConfigureFolders { create_mvbox: bool },
    /// Select the inbox and note its UIDVALIDITY.
    SelectInbox,
    /// Make sure that the account has a secret key.
    EnsureSecretKey,
    /// The run is over. Close the sessions that it opened, and show the
    /// hint of the provider, where there is one.
    Finish {
        success: bool,
        failure: Option<Failure>,
        disconnect_imap: bool,
        disconnect_smtp: bool,
        after_login_hint: Option<String>,
    },
}

pub enum RequestView {
    Continue,
    Disconnect,
    GetOauth2Address { addr: Seq<char>, code: Seq<char> },
    Fetch { url: Seq<char>, format: ProbeFormat },
    ConnectImap(LoginParamView),
    ConnectSmtp(LoginParamView),
    ConfigureFolders { create_mvbox: bool },
    SelectInbox,
    EnsureSecretKey,
    Finish {
        success: bool,
        failure: Option<Failure>,
        disconnect_imap: bool,
        disconnect_smtp: bool,
        after_login_hint: Option<Seq<char>>,
    },
}

impl View for Request {
    type V = RequestView;

    open spec fn view(&self) -> RequestView {
        match self {
            Request::Continue => RequestView::Continue,
            Request::Disconnect => RequestView::Disconnect,
            Request::GetOauth2Address { addr, code } => RequestView::GetOauth2Address {
                addr: addr@,
                code: code@,
            },
            Request::Fetch { url, format } => RequestView::Fetch { url: url@, format: *format },
            Request::ConnectImap(p) => RequestView::ConnectImap(p@),
            Request::ConnectSmtp(p) => RequestView::ConnectSmtp(p@),
            Request::ConfigureFolders { create_mvbox } => RequestView::ConfigureFolders {
                create_mvbox: *create_mvbox,
            },
            Request::SelectInbox => RequestView::SelectInbox,
            Request::EnsureSecretKey => RequestView::EnsureSecretKey,
            Request::Finish {
                success,
                failure,
                disconnect_imap,
                disconnect_smtp,
                after_login_hint,
            } => RequestView::Finish {
                success: *success,
                failure: *failure,
                disconnect_imap: *disconnect_imap,
                disconnect_smtp: *disconnect_smtp,
                after_login_hint: match after_login_hint {
                    Some(h) => Some(h@),
                    None => None,
                },
            },
        }
    }
}

/// The answer to a request.
#[derive(Debug)]
pub enum Event {
    /// The run is to go on with its next step.
    Continue,
    /// The sessions are closed.
    Disconnected,
    /// The address that the OAuth2 provider gave, if it gave one.
    Oauth2Address(Option<String>),
    /// The settings read from the document, if it was there and made sense.
    Autoconfig(Option<LoginParam>),
    /// Whether the login worked.
    Connected(bool),
    /// Whether the folders could be set up.
    FoldersConfigured(bool),
    /// Whether the inbox could be selected.
    InboxSelected(bool),
    /// Whether the account has a secret key now.
    SecretKey(bool),
}

pub enum EventView {
    Continue,
    Disconnected,
    Oauth2Address(Option<Seq<char>>),
    Autoconfig(Option<LoginParamView>),
    Connected(bool),
    FoldersConfigured(bool),
    InboxSelected(bool),
    SecretKey(bool),
}

/// The view of settings that may be missing.
pub open spec fn param_view(p: Option<LoginParam>) -> Option<LoginParamView> {
    match p {
        Some(p) => Some(p@),
        None => None,
    }
}

impl View for Event {
    type V = EventView;

    open spec fn view(&self) -> EventView {
        match self {
            Event::Continue => EventView::Continue,
            Event::Disconnected => EventView::Disconnected,
            Event::Oauth2Address(a) => EventView::Oauth2Address(
                match a {
                    Some(a) => Some(a@),
                    None => None,
                },
            ),
            Event::Autoconfig(p) => EventView::Autoconfig(param_view(*p)),
            Event::Connected(ok) => EventView::Connected(*ok),
            Event::FoldersConfigured(ok) => EventView::FoldersConfigured(*ok),
            Event::InboxSelected(ok) => EventView::InboxSelected(*ok),
            Event::SecretKey(ok) => EventView::SecretKey(*ok),
        }
    }
}

/// What one call hands to the caller: the progress to report, in this
/// order, and the request to perform after that.
#[derive(Debug)]
pub struct Output {
    pub progress: Vec<u32>,
    pub request: Request,
}

/// A run that waits for the answer to its last request.
pub struct ConfigureJob {
    stage: Stage,
    param: LoginParam,
    param_domain: String,
    param_addr_urlencoded: String,
    keep_flags: i32,
    param_autoconfig: Option<LoginParam>,
    imap_connected_here: bool,
    smtp_connected_here: bool,
    imap_verified: Ghost<Option<LoginParamView>>,
    smtp_verified: Ghost<Option<LoginParamView>>,
    trace: Ghost<Seq<u32>>,
}

pub struct JobView {
    pub stage: Stage,
    /// The settings as far as they are worked out.
    pub param: LoginParamView,
    /// The domain of the address.
    pub domain: Seq<char>,
    /// The address in its form for a URL.
    pub addr_urlencoded: Seq<char>,
    /// The flag for OAuth2 as the user set it.
    pub keep_flags: i32,
    /// The settings that the table of providers or a document gave.
    pub autoconfig: Option<LoginParamView>,
    /// Whether an IMAP login of this run worked.
    pub imap_connected_here: bool,
    /// Whether an SMTP login of this run worked.
    pub smtp_connected_here: bool,
    /// The settings of the IMAP login that worked.
    pub imap_verified: Option<LoginParamView>,
    /// The settings of the SMTP login that worked.
    pub smtp_verified: Option<LoginParamView>,
    /// All progress that the run reported so far.
    pub trace: Seq<u32>,
}

impl View for ConfigureJob {
    type V = JobView;

    closed spec fn view(&self) -> JobView {
        JobView {
            stage: self.stage,
            param: self.param@,
            domain: self.param_domain@,
            addr_urlencoded: self.param_addr_urlencoded@,
            keep_flags: self.keep_flags,
            autoconfig: param_view(self.param_autoconfig),
            imap_connected_here: self.imap_connected_here,
            smtp_connected_here: self.smtp_connected_here,
            imap_verified: self.imap_verified@,
            smtp_verified: self.smtp_verified@,
            trace: self.trace@,
        }
    }
}

/// What a run sees of the account, and what it can change there.
pub struct World {
    /// The configuration table.
    pub config: Map<Seq<char>, Seq<char>>,
    /// Whether the database is open.
    pub opened: bool,
    /// Whether the configuration table can be written.
    pub writable: bool,
    /// The slot for the long-running operation.
    pub ongoing: OngoingState,
}

/// What a run sees of `ctx`.
pub open spec fn world_of(ctx: Context) -> World {
    World {
        config: ctx.sql.config(),
        opened: ctx.sql.opened(),
        writable: ctx.sql.opened() && !ctx.sql.read_only(),
        ongoing: ctx.ongoing,
    }
}

/// What one call does.
pub struct Outcome {
    /// The run as it waits now; `None` where it is over.
    pub job: Option<JobView>,
    /// The progress to report.
    pub progress: Seq<u32>,
    /// The request to perform.
    pub request: RequestView,
    /// The configuration table after the call.
    pub config: Map<Seq<char>, Seq<char>>,
    /// The slot after the call.
    pub ongoing: OngoingState,
}

/// The table `config` with `value` under `key`, where it can be written.
pub open spec fn written(w: World, key: Seq<char>, value: Seq<char>) -> World {
    if w.writable {
        World { config: w.config.insert(key, value), ..w }
    } else {
        w
    }
}

/// The table with the settings `p` under `prefix`, where it can be written.
pub open spec fn saved(w: World, prefix: Seq<char>, p: LoginParamView) -> World {
    if w.writable {
        World { config: param_saved(w.config, prefix, p), ..w }
    } else {
        w
    }
}

/// The hint to show for the address `addr`: that of its provider, where
/// the provider is known and has one.
pub open spec fn hint_for(addr: Seq<char>) -> Option<Seq<char>> {
    match provider_info(addr) {
        Some(p) => if p.after_login_hint.len() > 0 {
            Some(p.after_login_hint)
        } else {
            None
        },
        None => None,
    }
}

/// The run goes on: it reports `progress` and stands at `stage` until the
/// answer to `request` comes.
pub open spec fn wait(
    j: JobView,
    w: World,
    stage: Stage,
    progress: Seq<u32>,
    request: RequestView,
) -> Outcome {
    Outcome {
        job: Some(JobView { stage, trace: j.trace + progress, ..j }),
        progress,
        request,
        config: w.config,
        ongoing: w.ongoing,
    }
}

/// A step is over that needed nothing from outside: the run reports
/// `progress` and asks only to be called again. What it does then is said
/// by `stage`.
pub open spec fn go_on(j: JobView, w: World, stage: Stage, progress: Seq<u32>) -> Outcome {
    wait(j, w, stage, progress, RequestView::Continue)
}

/// The run ends. After a success the settings that the user entered become
/// the last good ones, kept under `configured_raw_`; after a failure the
/// last good ones are put back in place of what the user entered. The slot
/// is released, and the last progress is 1000 for a success and 0 for a
/// failure.
pub open spec fn finish(
    j: JobView,
    w: World,
    failure: Option<Failure>,
    progress: Seq<u32>,
) -> Outcome {
    let success = failure is None;
    let after = if success {
        saved(w, "configured_raw_"@, param_in(w.config, ""@))
    } else {
        saved(w, ""@, param_in(w.config, "configured_raw_"@))
    };
    Outcome {
        job: None,
        progress: progress.push(
            if success {
                1000u32
            } else {
                0u32
            },
        ),
        request: RequestView::Finish {
            success,
            failure,
            disconnect_imap: j.imap_connected_here,
            disconnect_smtp: j.smtp_connected_here,
            after_login_hint: hint_for(j.param.addr),
        },
        config: after.config,
        ongoing: OngoingState { running: false, cancel_requested: false },
    }
}

/// The run was asked to stop: it ends as a failure and reports nothing but
/// the final 0.
pub open spec fn stopped(j: JobView, w: World) -> Outcome {
    finish(j, w, Some(Failure::Cancelled), Seq::empty())
}

/// What a step comes to that looks first whether the run was asked to stop:
/// `o` where it was not.
pub open spec fn unless_stopped(j: JobView, w: World, o: Outcome) -> Outcome {
    if w.ongoing.cancel_requested {
        stopped(j, w)
    } else {
        o
    }
}

/// The first step: the run reports 1, and fails where no address was
/// entered.
pub open spec fn enter(j: JobView, w: World) -> Outcome {
    if j.param.addr.len() == 0 {
        finish(j, w, Some(Failure::NoAddress), seq![1u32])
    } else {
        go_on(j, w, Stage::Entered, seq![1u32])
    }
}

/// The address is taken apart, and the way to the settings is chosen, with
/// progress 200: what an expert entered is used as it is; else the table of
/// providers is asked, and if it knows nothing, the places that publish
/// settings are next.
pub open spec fn locate(j: JobView, w: World) -> Outcome {
    match address_parts(j.param.addr) {
        None => finish(j, w, Some(Failure::BadEmailAddress), Seq::empty()),
        Some(parts) => {
            let located = JobView {
                domain: parts.1,
                addr_urlencoded: percent_encoded(encode_utf8(j.param.addr)),
                ..j
            };
            if advanced_entered(located.param) {
                go_on(located, w, Stage::Defaults, seq![200u32])
            } else {
                let kept = JobView {
                    keep_flags: located.param.server_flags & DC_LP_AUTH_OAUTH2,
                    ..located
                };
                match offline_autoconfig(kept.param.addr) {
                    Some(f) => go_on(
                        JobView { autoconfig: Some(f), ..kept },
                        w,
                        Stage::UseFound,
                        seq![200u32],
                    ),
                    None => go_on(kept, w, Stage::BeforeProbe(0), seq![200u32]),
                }
            }
        },
    }
}

/// The way to log in is looked at: with OAuth2 the run reports 10 and asks
/// for the address that the provider knows; else it goes straight on to
/// take the address apart.
pub open spec fn resolve(j: JobView, w: World) -> Outcome {
    if j.param.server_flags & DC_LP_AUTH_OAUTH2 != 0 {
        wait(
            j,
            w,
            Stage::Oauth2,
            seq![10u32],
            RequestView::GetOauth2Address { addr: j.param.addr, code: j.param.mail_pw },
        )
    } else {
        locate(j, w)
    }
}

/// The OAuth2 provider has answered. An address that it gave is taken in
/// place of the entered one, and written down, where it is an address. The
/// run reports 20.
pub open spec fn on_oauth2(j: JobView, w: World, addr: Option<Seq<char>>) -> Outcome {
    if addr is Some && address_parts(addr->0) is Some {
        go_on(
            JobView { param: LoginParamView { addr: addr->0, ..j.param }, ..j },
            written(w, "addr"@, addr->0),
            Stage::Resolved,
            seq![20u32],
        )
    } else {
        go_on(j, w, Stage::Resolved, seq![20u32])
    }
}

/// The progress to report before the place `k` is asked.
pub open spec fn probe_progress(k: int) -> u32 {
    (290 + 10 * k) as u32
}

/// Where the run stands once the place `k` is done with and was not asked.
pub open spec fn after_probe(k: int) -> Stage {
    if k + 1 < PROBE_COUNT {
        Stage::BeforeProbe((k + 1) as u8)
    } else {
        Stage::UseFound
    }
}

/// What was found is taken over, with progress 500.
pub open spec fn take_found(j: JobView, w: World) -> Outcome {
    go_on(
        JobView { param: merged(j.param, j.autoconfig, j.keep_flags), ..j },
        w,
        Stage::Defaults,
        seq![500u32],
    )
}

/// The step of the place `k`. Its progress is reported, for every place but
/// the first, whether or not the place is asked; it is asked only as long
/// as no settings are found. After the last place what was found is taken
/// over.
pub open spec fn probe(j: JobView, w: World, k: int) -> Outcome {
    if k >= PROBE_COUNT || k < 0 {
        take_found(j, w)
    } else {
        let reported = if k == 0 {
            Seq::empty()
        } else {
            seq![probe_progress(k)]
        };
        if j.autoconfig is None {
            wait(
                j,
                w,
                Stage::Probe(k as u8),
                reported,
                RequestView::Fetch {
                    url: probe_url_spec(k, j.domain, j.addr_urlencoded),
                    format: probe_format_spec(k),
                },
            )
        } else {
            go_on(j, w, after_probe(k), reported)
        }
    }
}

/// The defaults are filled in. Where something is still missing the run
/// fails; else it reports 600 and asks for the first IMAP login.
pub open spec fn settle(j: JobView, w: World) -> Outcome {
    let filled = JobView { param: defaults_filled(j.param, j.domain), ..j };
    if is_complete(filled.param) {
        wait(filled, w, Stage::Imap(0), seq![600u32], RequestView::ConnectImap(filled.param))
    } else {
        finish(filled, w, Some(Failure::IncompleteSettings), Seq::empty())
    }
}

/// The settings for the IMAP login of number `k`, made from those of the
/// login before. The second login switches to STARTTLS and the third to
/// port 143. The fourth goes back to TLS on port 993 and shortens both user
/// names to what stands before the `@`; the fifth and sixth change socket
/// and port as the second and third did.
pub open spec fn imap_retry(p: LoginParamView, k: int) -> LoginParamView {
    if k == 1 || k == 4 {
        LoginParamView {
            server_flags: with_imap_socket(p.server_flags, DC_LP_IMAP_SOCKET_STARTTLS),
            ..p
        }
    } else if k == 3 {
        LoginParamView {
            server_flags: with_imap_socket(p.server_flags, DC_LP_IMAP_SOCKET_SSL),
            mail_port: 993,
            mail_user: before_at(p.mail_user),
            send_user: before_at(p.send_user),
            ..p
        }
    } else {
        LoginParamView { mail_port: 143, ..p }
    }
}

/// The number of the IMAP login that follows the failed login of number
/// `k`, if one follows. The logins come in two rounds of three, the second
/// round with shortened user names. Settings that were guessed go through
/// all six. Settings that were found get one login in each round: the first
/// of the first round and the first of the second.
pub open spec fn next_imap(found: bool, k: int) -> Option<int> {
    if found {
        if k < 3 {
            Some(3)
        } else {
            None
        }
    } else if k < 5 {
        Some(k + 1)
    } else {
        None
    }
}

/// The progress to report before the IMAP login of number `k`, for every
/// login but the first.
pub open spec fn imap_progress(k: int) -> u32 {
    (640 + 10 * k) as u32
}

/// The IMAP login of number `k` is over. After a success the run looks
/// whether it was asked to stop, reports 800 and asks for the first SMTP
/// login. After a failure it looks whether it was asked to stop and tries
/// the login that follows, if one follows.
pub open spec fn on_imap(j: JobView, w: World, k: u8, ok: bool) -> Outcome {
    if ok {
        let done = JobView { imap_connected_here: true, imap_verified: Some(j.param), ..j };
        unless_stopped(
            done,
            w,
            wait(done, w, Stage::Smtp(0), seq![800u32], RequestView::ConnectSmtp(done.param)),
        )
    } else if w.ongoing.cancel_requested {
        stopped(j, w)
    } else {
        match next_imap(j.autoconfig is Some, k as int) {
            Some(n) => {
                let p = imap_retry(j.param, n);
                wait(
                    JobView { param: p, ..j },
                    w,
                    Stage::Imap(n as u8),
                    seq![imap_progress(n)],
                    RequestView::ConnectImap(p),
                )
            },
            None => finish(j, w, Some(Failure::ImapConnect), Seq::empty()),
        }
    }
}

/// The settings for the SMTP login of number `k`, made from those of the
/// login before: STARTTLS on port 587 for the second, on port 25 for the
/// third.
pub open spec fn smtp_retry(p: LoginParamView, k: int) -> LoginParamView {
    LoginParamView {
        server_flags: with_smtp_socket(p.server_flags, DC_LP_SMTP_SOCKET_STARTTLS),
        send_port: if k == 1 {
            587
        } else {
            25
        },
        ..p
    }
}

/// Whether the folder for moved messages is wanted: where the account
/// watches it or moves messages to it.
pub open spec fn wants_mvbox(config: Map<Seq<char>, Seq<char>>) -> bool {
    bool_of(config, "mvbox_watch"@) || bool_of(config, "mvbox_move"@)
}

/// The SMTP login of number `k` is over. After a success the run looks
/// whether it was asked to stop, reports 900 and asks for the folders.
/// After a failure the next login is tried, unless the run is asked to
/// stop, the settings were found rather than guessed, or this was the
/// third.
pub open spec fn on_smtp(j: JobView, w: World, k: u8, ok: bool) -> Outcome {
    if ok {
        let done = JobView { smtp_connected_here: true, smtp_verified: Some(j.param), ..j };
        unless_stopped(
            done,
            w,
            wait(
                done,
                w,
                Stage::Folders,
                seq![900u32],
                RequestView::ConfigureFolders { create_mvbox: wants_mvbox(w.config) },
            ),
        )
    } else if w.ongoing.cancel_requested {
        stopped(j, w)
    } else if j.autoconfig is Some || k >= 2 {
        finish(j, w, Some(Failure::SmtpConnect), Seq::empty())
    } else {
        let p = smtp_retry(j.param, k + 1);
        wait(
            JobView { param: p, ..j },
            w,
            Stage::Smtp((k + 1) as u8),
            seq![
                if k == 0 {
                    850u32
                } else {
                    860u32
                },
            ],
            RequestView::ConnectSmtp(p),
        )
    }
}

/// The inbox is settled. Where it could not be selected the run fails.
/// Else the run looks whether it was asked to stop, and then writes the
/// settings down, with progress 910: they are written under `configured_`,
/// and the account is marked as configured.
pub open spec fn on_inbox(j: JobView, w: World, ok: bool) -> Outcome {
    if !ok {
        finish(j, w, Some(Failure::InboxSelect), Seq::empty())
    } else {
        unless_stopped(
            j,
            w,
            go_on(
                j,
                written(saved(w, "configured_"@, j.param), "configured"@, "1"@),
                Stage::BeforeKey,
                seq![910u32],
            ),
        )
    }
}

/// The run reports 920 and asks for the secret key.
pub open spec fn before_key(j: JobView, w: World) -> Outcome {
    wait(j, w, Stage::SecretKey, seq![920u32], RequestView::EnsureSecretKey)
}

/// The secret key is settled: the run reports 940 and ends, with success
/// where the key is there.
pub open spec fn after_secret_key(j: JobView, w: World, ok: bool) -> Outcome {
    finish(
        j,
        w,
        if ok {
            None
        } else {
            Some(Failure::SecretKey)
        },
        seq![940u32],
    )
}

/// A run that has not worked anything out yet.
pub open spec fn fresh_job() -> JobView {
    JobView {
        stage: Stage::Disconnecting,
        param: empty_param(),
        domain: Seq::empty(),
        addr_urlencoded: Seq::empty(),
        keep_flags: 0,
        autoconfig: None,
        imap_connected_here: false,
        smtp_connected_here: false,
        imap_verified: None,
        smtp_verified: None,
        trace: Seq::empty(),
    }
}

/// A run is refused: it reports 0 and changes nothing.
pub open spec fn refused(w: World, failure: Failure) -> Outcome {
    Outcome {
        job: None,
        progress: seq![0u32],
        request: RequestView::Finish {
            success: false,
            failure: Some(failure),
            disconnect_imap: false,
            disconnect_smtp: false,
            after_login_hint: None,
        },
        config: w.config,
        ongoing: w.ongoing,
    }
}

/// What starting a run does. It is refused where the database is closed or
/// another operation holds the slot; else it takes the slot and asks for
/// the open sessions to be closed.
pub open spec fn start_spec(w: World) -> Outcome {
    if !w.opened {
        refused(w, Failure::DatabaseNotOpen)
    } else if w.ongoing.running {
        refused(w, Failure::OngoingRunning)
    } else {
        wait(
            fresh_job(),
            World { ongoing: OngoingState { running: true, cancel_requested: false }, ..w },
            Stage::Disconnecting,
            Seq::empty(),
            RequestView::Disconnect,
        )
    }
}

/// What the answer `ev` does to the run `j`. Every step looks first whether
/// the run was asked to stop, but for the end of a step that has begun: the
/// progress 20 after the answer of the OAuth2 provider, the selecting of
/// the inbox after the folders, and the end of the run after the secret
/// key. An answer that the run does not wait for ends it as a failure.
pub open spec fn step_spec(j: JobView, w: World, ev: EventView) -> Outcome {
    match (j.stage, ev) {
        (Stage::Disconnecting, EventView::Disconnected) => {
            let loaded = JobView { param: param_in(w.config, ""@), ..j };
            unless_stopped(loaded, w, enter(loaded, w))
        },
        (Stage::Entered, EventView::Continue) => unless_stopped(j, w, resolve(j, w)),
        (Stage::Oauth2, EventView::Oauth2Address(addr)) => on_oauth2(j, w, addr),
        (Stage::Resolved, EventView::Continue) => unless_stopped(j, w, locate(j, w)),
        (Stage::BeforeProbe(k), EventView::Continue) => unless_stopped(j, w, probe(j, w, k as int)),
        (Stage::Probe(k), EventView::Autoconfig(found)) => {
            let answered = JobView { autoconfig: found, ..j };
            unless_stopped(answered, w, probe(answered, w, k + 1))
        },
        (Stage::UseFound, EventView::Continue) => unless_stopped(j, w, take_found(j, w)),
        (Stage::Defaults, EventView::Continue) => unless_stopped(j, w, settle(j, w)),
        (Stage::Imap(k), EventView::Connected(ok)) => on_imap(j, w, k, ok),
        (Stage::Smtp(k), EventView::Connected(ok)) => on_smtp(j, w, k, ok),
        (Stage::Folders, EventView::FoldersConfigured(_)) => wait(
            j,
            w,
            Stage::Inbox,
            Seq::empty(),
            RequestView::SelectInbox,
        ),
        (Stage::Inbox, EventView::InboxSelected(ok)) => on_inbox(j, w, ok),
        (Stage::BeforeKey, EventView::Continue) => unless_stopped(j, w, before_key(j, w)),
        (Stage::SecretKey, EventView::SecretKey(ok)) => after_secret_key(j, w, ok),
        _ => finish(j, w, Some(Failure::UnexpectedEvent), Seq::empty()),
    }
}

/// The view of a run that may be over.
pub open spec fn job_view(job: Option<ConfigureJob>) -> Option<JobView> {
    match job {
        Some(j) => Some(j@),
        None => None,
    }
}

/// What holds of a run that goes on: see `job_wf`. A run that is over is
/// held to nothing.
pub open spec fn goes_on_well(job: Option<ConfigureJob>) -> bool {
    match job {
        Some(j) => job_wf(j@),
        None => true,
    }
}

/// The call that returned `job` and `out`, and changed the account from
/// `before` to `after`, did what `o` says; what `o` does not speak of is as
/// it was.
pub open spec fn realizes(
    job: Option<ConfigureJob>,
    out: Output,
    before: Context,
    after: Context,
    o: Outcome,
) -> bool {
    &&& job_view(job) == o.job
    &&& out.progress@ == o.progress
    &&& out.request@ == o.request
    &&& after.sql.config() == o.config
    &&& after.ongoing == o.ongoing
    &&& after.sql.follows(before.sql)
    &&& after.jobs == before.jobs
}

impl ConfigureJob {
    /// Where the run stands.
    pub fn stage(&self) -> (r: Stage)
        ensures
            r == self@.stage,
    {
        self.stage
    }

    /// The settings as far as the run has worked them out.
    pub fn param(&self) -> (r: &LoginParam)
        ensures
            r@ == self@.param,
    {
        &self.param
    }

    /// The settings that the table of providers or a document gave.
    pub fn autoconfig(&self) -> (r: &Option<LoginParam>)
        ensures
            param_view(*r) == self@.autoconfig,
    {
        &self.param_autoconfig
    }
}

type Step = (Option<ConfigureJob>, Output);

fn one(value: u32) -> (r: Vec<u32>)
    ensures
        r@ == seq![value],
{
    let mut r: Vec<u32> = Vec::new();
    r.push(value);
    assert(r@ =~= seq![value]);
    r
}

fn wait_for(
    job: ConfigureJob,
    ctx: &Context,
    stage: Stage,
    progress: Vec<u32>,
    request: Request,
) -> (r: Step)
    requires
        ctx.sql.wf(),
    ensures
        realizes(r.0, r.1, *ctx, *ctx, wait(job@, world_of(*ctx), stage, progress@, request@)),
{
    let mut job = job;
    job.stage = stage;
    job.trace = Ghost(job.trace@ + progress@);
    (Some(job), Output { progress, request })
}

fn finish_run(
    job: ConfigureJob,
    ctx: &mut Context,
    failure: Option<Failure>,
    progress: Vec<u32>,
) -> (r: Step)
    requires
        old(ctx).sql.wf(),
    ensures
        realizes(
            r.0,
            r.1,
            *old(ctx),
            *final(ctx),
            finish(job@, world_of(*old(ctx)), failure, progress@),
        ),
{
    let success = failure.is_none();
    if success {
        let entered = LoginParam::from_database(&ctx.sql, "");
        let _ = entered.save_to_database(&mut ctx.sql, "configured_raw_");
    } else {
        let last_good = LoginParam::from_database(&ctx.sql, "configured_raw_");
        let _ = last_good.save_to_database(&mut ctx.sql, "");
    }
    let hint = match get_provider_info(job.param.addr.as_str()) {
        Some(p) => if !p.after_login_hint.is_empty() {
            Some(p.after_login_hint.to_owned())
        } else {
            None
        },
        None => None,
    };
    ctx.ongoing.free_ongoing();
    let mut progress = progress;
    progress.push(
        if success {
            1000
        } else {
            0
        },
    );
    (
        None,
        Output {
            progress,
            request: Request::Finish {
                success,
                failure,
                disconnect_imap: job.imap_connected_here,
                disconnect_smtp: job.smtp_connected_here,
                after_login_hint: hint,
            },
        },
    )
}

fn stop_run(job: ConfigureJob, ctx: &mut Context) -> (r: Step)
    requires
        old(ctx).sql.wf(),
    ensures
        realizes(r.0, r.1, *old(ctx), *final(ctx), stopped(job@, world_of(*old(ctx)))),
{
    finish_run(job, ctx, Some(Failure::Cancelled), Vec::new())
}

fn enter_run(job: ConfigureJob, ctx: &mut Context) -> (r: Step)
    requires
        old(ctx).sql.wf(),
    ensures
        realizes(r.0, r.1, *old(ctx), *final(ctx), enter(job@, world_of(*old(ctx)))),
{
    if job.param.addr.as_str().is_empty() {
        finish_run(job, ctx, Some(Failure::NoAddress), one(1))
    } else {
        wait_for(job, ctx, Stage::Entered, one(1), Request::Continue)
    }
}

fn locate_run(job: ConfigureJob, ctx: &mut Context) -> (r: Step)
    requires
        old(ctx).sql.wf(),
    ensures
        realizes(r.0, r.1, *old(ctx), *final(ctx), locate(job@, world_of(*old(ctx)))),
{
    let mut job = job;
    let parsed = match EmailAddress::parse(job.param.addr.as_str()) {
        Some(parsed) => parsed,
        None => {
            return finish_run(job, ctx, Some(Failure::BadEmailAddress), Vec::new());
        },
    };
    job.param_domain = parsed.domain;
    job.param_addr_urlencoded = urlencode(job.param.addr.as_str());
    if has_advanced(&job.param) {
        return wait_for(job, ctx, Stage::Defaults, one(200), Request::Continue);
    }
    job.keep_flags = job.param.server_flags & DC_LP_AUTH_OAUTH2;
    match get_offline_autoconfig(ctx, &job.param) {
        Some(found) => {
            job.param_autoconfig = Some(found);
            wait_for(job, ctx, Stage::UseFound, one(200), Request::Continue)
        },
        None => wait_for(job, ctx, Stage::BeforeProbe(0), one(200), Request::Continue),
    }
}

fn resolve_run(job: ConfigureJob, ctx: &mut Context) -> (r: Step)
    requires
        old(ctx).sql.wf(),
    ensures
        realizes(r.0, r.1, *old(ctx), *final(ctx), resolve(job@, world_of(*old(ctx)))),
{
    if 0 != job.param.server_flags & DC_LP_AUTH_OAUTH2 {
        let request = Request::GetOauth2Address {
            addr: job.param.addr.clone(),
            code: job.param.mail_pw.clone(),
        };
        wait_for(job, ctx, Stage::Oauth2, one(10), request)
    } else {
        locate_run(job, ctx)
    }
}

fn on_oauth2_run(job: ConfigureJob, ctx: &mut Context, addr: Option<String>) -> (r: Step)
    requires
        old(ctx).sql.wf(),
    ensures
        realizes(
            r.0,
            r.1,
            *old(ctx),
            *final(ctx),
            on_oauth2(
                job@,
                world_of(*old(ctx)),
                match addr {
                    Some(a) => Some(a@),
                    None => None,
                },
            ),
        ),
{
    let mut job = job;
    match addr {
        Some(a) => {
            if EmailAddress::parse(a.as_str()).is_some() {
                let _ = ctx.sql.set_raw_config("addr", Some(a.as_str()));
                job.param.addr = a;
            }
        },
        None => {},
    }
    wait_for(job, ctx, Stage::Resolved, one(20), Request::Continue)
}

fn take_found_run(job: ConfigureJob, ctx: &mut Context) -> (r: Step)
    requires
        old(ctx).sql.wf(),
    ensures
        realizes(r.0, r.1, *old(ctx), *final(ctx), take_found(job@, world_of(*old(ctx)))),
{
    let mut job = job;
    use_autoconfig(&mut job.param, &job.param_autoconfig, job.keep_flags);
    wait_for(job, ctx, Stage::Defaults, one(500), Request::Continue)
}

fn probe_run(job: ConfigureJob, ctx: &mut Context, k: u8) -> (r: Step)
    requires
        old(ctx).sql.wf(),
    ensures
        realizes(r.0, r.1, *old(ctx), *final(ctx), probe(job@, world_of(*old(ctx)), k as int)),
{
    if k >= PROBE_COUNT {
        return take_found_run(job, ctx);
    }
    let progress: Vec<u32> = if k == 0 {
        Vec::new()
    } else {
        one(290 + 10 * (k as u32))
    };
    if job.param_autoconfig.is_none() {
        let request = Request::Fetch {
            url: probe_url(
                k,
                job.param_domain.as_str(),
                job.param_addr_urlencoded.as_str(),
            ),
            format: probe_format(k),
        };
        wait_for(job, ctx, Stage::Probe(k), progress, request)
    } else {
        let next = if k + 1 < PROBE_COUNT {
            Stage::BeforeProbe(k + 1)
        } else {
            Stage::UseFound
        };
        wait_for(job, ctx, next, progress, Request::Continue)
    }
}

fn settle_run(job: ConfigureJob, ctx: &mut Context) -> (r: Step)
    requires
        old(ctx).sql.wf(),
    ensures
        realizes(r.0, r.1, *old(ctx), *final(ctx), settle(job@, world_of(*old(ctx)))),
{
    let mut job = job;
    fill_defaults(&mut job.param, job.param_domain.as_str());
    if complete(&job.param) {
        let request = Request::ConnectImap(job.param.copy());
        wait_for(job, ctx, Stage::Imap(0), one(600), request)
    } else {
        finish_run(job, ctx, Some(Failure::IncompleteSettings), Vec::new())
    }
}

/// Changes the settings for the IMAP login of number `k`.
fn imap_retry_run(param: &mut LoginParam, k: u8)
    ensures
        final(param)@ == imap_retry(old(param)@, k as int),
{
    if k == 1 || k == 4 {
        param.server_flags = set_imap_socket(param.server_flags, DC_LP_IMAP_SOCKET_STARTTLS);
    } else if k == 3 {
        param.server_flags = set_imap_socket(param.server_flags, DC_LP_IMAP_SOCKET_SSL);
        param.mail_port = 993;
        param.mail_user = strip_domain(param.mail_user.as_str());
        param.send_user = strip_domain(param.send_user.as_str());
    } else {
        param.mail_port = 143;
    }
}

/// The number of the IMAP login that follows the failed login of number
/// `k`.
fn next_imap_run(found: bool, k: u8) -> (r: Option<u8>)
    ensures
        match r {
            Some(n) => next_imap(found, k as int) == Some(n as int) && n <= 5,
            None => next_imap(found, k as int) is None,
        },
{
    if found {
        if k < 3 {
            Some(3)
        } else {
            None
        }
    } else if k < 5 {
        Some(k + 1)
    } else {
        None
    }
}

fn on_imap_run(job: ConfigureJob, ctx: &mut Context, k: u8, ok: bool) -> (r: Step)
    requires
        old(ctx).sql.wf(),
    ensures
        realizes(r.0, r.1, *old(ctx), *final(ctx), on_imap(job@, world_of(*old(ctx)), k, ok)),
{
    let mut job = job;
    if ok {
        job.imap_connected_here = true;
        job.imap_verified = Ghost(Some(job.param@));
        if ctx.shall_stop_ongoing() {
            return stop_run(job, ctx);
        }
        let request = Request::ConnectSmtp(job.param.copy());
        return wait_for(job, ctx, Stage::Smtp(0), one(800), request);
    }
    if ctx.shall_stop_ongoing() {
        return stop_run(job, ctx);
    }
    match next_imap_run(job.param_autoconfig.is_some(), k) {
        Some(n) => {
            imap_retry_run(&mut job.param, n);
            let request = Request::ConnectImap(job.param.copy());
            wait_for(job, ctx, Stage::Imap(n), one(640 + 10 * (n as u32)), request)
        },
        None => finish_run(job, ctx, Some(Failure::ImapConnect), Vec::new()),
    }
}

fn on_smtp_run(job: ConfigureJob, ctx: &mut Context, k: u8, ok: bool) -> (r: Step)
    requires
        old(ctx).sql.wf(),
    ensures
        realizes(r.0, r.1, *old(ctx), *final(ctx), on_smtp(job@, world_of(*old(ctx)), k, ok)),
{
    let mut job = job;
    if ok {
        job.smtp_connected_here = true;
        job.smtp_verified = Ghost(Some(job.param@));
        if ctx.shall_stop_ongoing() {
            return stop_run(job, ctx);
        }
        let create_mvbox = ctx.sql.get_raw_config_bool("mvbox_watch")
            || ctx.sql.get_raw_config_bool("mvbox_move");
        return wait_for(
            job,
            ctx,
            Stage::Folders,
            one(900),
            Request::ConfigureFolders { create_mvbox },
        );
    }
    if ctx.shall_stop_ongoing() {
        return stop_run(job, ctx);
    }
    if job.param_autoconfig.is_some() || k >= 2 {
        return finish_run(job, ctx, Some(Failure::SmtpConnect), Vec::new());
    }
    let progress = one(
        if k == 0 {
            850
        } else {
            860
        },
    );
    job.param.server_flags = set_smtp_socket(job.param.server_flags, DC_LP_SMTP_SOCKET_STARTTLS);
    job.param.send_port = if k == 0 {
        587
    } else {
        25
    };
    let request = Request::ConnectSmtp(job.param.copy());
    wait_for(job, ctx, Stage::Smtp(k + 1), progress, request)
}

fn on_inbox_run(job: ConfigureJob, ctx: &mut Context, ok: bool) -> (r: Step)
    requires
        old(ctx).sql.wf(),
    ensures
        realizes(r.0, r.1, *old(ctx), *final(ctx), on_inbox(job@, world_of(*old(ctx)), ok)),
{
    if !ok {
        return finish_run(job, ctx, Some(Failure::InboxSelect), Vec::new());
    }
    if ctx.shall_stop_ongoing() {
        return stop_run(job, ctx);
    }
    let _ = job.param.save_to_database(&mut ctx.sql, "configured_");
    let _ = ctx.sql.set_raw_config_bool("configured", true);
    wait_for(job, ctx, Stage::BeforeKey, one(910), Request::Continue)
}

/// Starts a configuration. It is refused, with progress 0, where the
/// database is closed or another operation holds the slot. Else the run
/// takes the slot and asks for the open sessions to be closed.
pub fn job_configure_imap(ctx: &mut Context) -> (r: (Option<ConfigureJob>, Output))
    requires
        old(ctx).sql.wf(),
    ensures
        realizes(r.0, r.1, *old(ctx), *final(ctx), start_spec(world_of(*old(ctx)))),
        goes_on_well(r.0),
{
    proof {
        lemma_start(world_of(*ctx));
    }
    if !ctx.sql.is_open() || !ctx.ongoing.alloc_ongoing() {
        let failure = if !ctx.sql.is_open() {
            Failure::DatabaseNotOpen
        } else {
            Failure::OngoingRunning
        };
        return (
            None,
            Output {
                progress: one(0),
                request: Request::Finish {
                    success: false,
                    failure: Some(failure),
                    disconnect_imap: false,
                    disconnect_smtp: false,
                    after_login_hint: None,
                },
            },
        );
    }
    let job = ConfigureJob {
        stage: Stage::Disconnecting,
        param: LoginParam::new(),
        param_domain: String::new(),
        param_addr_urlencoded: String::new(),
        keep_flags: 0,
        param_autoconfig: None,
        imap_connected_here: false,
        smtp_connected_here: false,
        imap_verified: Ghost(None),
        smtp_verified: Ghost(None),
        trace: Ghost(Seq::empty()),
    };
    wait_for(job, ctx, Stage::Disconnecting, Vec::new(), Request::Disconnect)
}

/// Takes the answer to the last request and does the next step of the run:
/// it looks whether the run was asked to stop, and goes on up to the next
/// request, which may be the request only to call again, or to the end of
/// the run. Returns the run, or `None` where it is over, with the progress
/// to report and the request to perform. A run that goes on keeps what
/// holds of every run, `job_wf`.
pub fn job_configure_imap_step(job: ConfigureJob, ctx: &mut Context, event: Event) -> (r: (
    Option<ConfigureJob>,
    Output,
))
    requires
        old(ctx).sql.wf(),
        job_wf(job@),
    ensures
        realizes(r.0, r.1, *old(ctx), *final(ctx), step_spec(job@, world_of(*old(ctx)), event@)),
        goes_on_well(r.0),
{
    proof {
        lemma_step(job@, world_of(*ctx), event@);
    }
    let mut job = job;
    let stop = ctx.shall_stop_ongoing();
    match (job.stage, event) {
        (Stage::Disconnecting, Event::Disconnected) => {
            job.param = LoginParam::from_database(&ctx.sql, "");
            if stop {
                stop_run(job, ctx)
            } else {
                enter_run(job, ctx)
            }
        },
        (Stage::Entered, Event::Continue) => {
            if stop {
                stop_run(job, ctx)
            } else {
                resolve_run(job, ctx)
            }
        },
        (Stage::Oauth2, Event::Oauth2Address(addr)) => on_oauth2_run(job, ctx, addr),
        (Stage::Resolved, Event::Continue) => {
            if stop {
                stop_run(job, ctx)
            } else {
                locate_run(job, ctx)
            }
        },
        (Stage::BeforeProbe(k), Event::Continue) => {
            if stop {
                stop_run(job, ctx)
            } else {
                probe_run(job, ctx, k)
            }
        },
        (Stage::Probe(k), Event::Autoconfig(found)) => {
            job.param_autoconfig = found;
            if stop {
                stop_run(job, ctx)
            } else if k < PROBE_COUNT {
                probe_run(job, ctx, k + 1)
            } else {
                take_found_run(job, ctx)
            }
        },
        (Stage::UseFound, Event::Continue) => {
            if stop {
                stop_run(job, ctx)
            } else {
                take_found_run(job, ctx)
            }
        },
        (Stage::Defaults, Event::Continue) => {
            if stop {
                stop_run(job, ctx)
            } else {
                settle_run(job, ctx)
            }
        },
        (Stage::Imap(k), Event::Connected(ok)) => on_imap_run(job, ctx, k, ok),
        (Stage::Smtp(k), Event::Connected(ok)) => on_smtp_run(job, ctx, k, ok),
        (Stage::Folders, Event::FoldersConfigured(_)) => wait_for(
            job,
            ctx,
            Stage::Inbox,
            Vec::new(),
            Request::SelectInbox,
        ),
        (Stage::Inbox, Event::InboxSelected(ok)) => on_inbox_run(job, ctx, ok),
        (Stage::BeforeKey, Event::Continue) => {
            if stop {
                stop_run(job, ctx)
            } else {
                wait_for(job, ctx, Stage::SecretKey, one(920), Request::EnsureSecretKey)
            }
        },
        (Stage::SecretKey, Event::SecretKey(ok)) => {
            finish_run(
                job,
                ctx,
                if ok {
                    None
                } else {
                    Some(Failure::SecretKey)
                },
                one(940),
            )
        },
        _ => finish_run(job, ctx, Some(Failure::UnexpectedEvent), Vec::new()),
    }
}

} // verus!
