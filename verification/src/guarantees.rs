//! What holds of every run of the configuration, whatever the servers
//! answer and whenever the run is asked to stop.

use vstd::prelude::*;
use crate::address::{address_parts, before_at};
use crate::autoconfig::{defaults_filled, is_complete, lemma_default_flags, PROBE_COUNT};
use crate::configure::{
    finish, locate, next_imap, probe, saved, start_spec, step_spec, written, EventView, Failure,
    JobView, Outcome, RequestView, Stage, World,
};
use crate::decimal::{decimal, lemma_parse_decimal_of_decimal};
use crate::login_param::{
    field_names, flags_chosen, is_param_key, lemma_field_name_shape,
    lemma_param_in_depends_on_keys, lemma_param_read_back, lemma_param_saved_keeps_others,
    lemma_prefix_cancels, lemma_with_imap_socket, lemma_with_smtp_socket, param_in, param_saved,
    LoginParamView, DC_LP_AUTH_FLAGS, DC_LP_IMAP_SOCKET_FLAGS, DC_LP_IMAP_SOCKET_SSL,
    DC_LP_IMAP_SOCKET_STARTTLS, DC_LP_SMTP_SOCKET_STARTTLS,
};
use crate::sql::{bool_of, raw_of};
use crate::text::{first_index_of, lemma_first_index_of, lemma_last_index_of};

verus! {

/// No progress is smaller than one reported before it.
pub open spec fn non_decreasing(t: Seq<u32>) -> bool {
    forall|i: int, j: int| 0 <= i <= j < t.len() ==> t[i] <= t[j]
}

/// Every progress lies between the start, 1, and the last step before the
/// end, 999.
pub open spec fn all_under_way(t: Seq<u32>) -> bool {
    forall|i: int| 0 <= i < t.len() ==> 1 <= #[trigger] t[i] <= 999
}

/// The progress of a run that is under way and has reported nothing above
/// `bound` yet.
pub open spec fn under_way_upto(t: Seq<u32>, bound: int) -> bool {
    &&& non_decreasing(t)
    &&& all_under_way(t)
    &&& t.len() > 0 ==> t.last() <= bound
}

/// The progress of a run that is over: it ends with 0 or with 1000, and
/// what was reported before that never went down and stayed between 1 and
/// 999.
pub open spec fn run_complete(t: Seq<u32>) -> bool {
    &&& t.len() > 0
    &&& (t.last() == 0 || t.last() == 1000)
    &&& non_decreasing(t.drop_last())
    &&& all_under_way(t.drop_last())
}

/// The highest progress that a run can have reported when it stands at
/// `stage`.
pub open spec fn reported_at(stage: Stage) -> int {
    match stage {
        Stage::Disconnecting => 0,
        Stage::Entered => 1,
        Stage::Oauth2 => 10,
        Stage::Resolved => 20,
        Stage::BeforeProbe(k) => if k == 0 {
            200
        } else {
            280 + 10 * k
        },
        Stage::Probe(k) => if k == 0 {
            200
        } else {
            290 + 10 * k
        },
        Stage::UseFound => 350,
        Stage::Defaults => 500,
        Stage::Imap(k) => if k == 0 {
            600
        } else {
            640 + 10 * k
        },
        Stage::Smtp(k) => if k == 0 {
            800
        } else {
            840 + 10 * k
        },
        Stage::Folders => 900,
        Stage::Inbox => 900,
        Stage::BeforeKey => 910,
        Stage::SecretKey => 920,
    }
}

/// The settings are fit for a login: both servers, both ports and both
/// passwords are there, and one flag of each group is set.
pub open spec fn settled(p: LoginParamView) -> bool {
    p.mail_server.len() > 0 && p.mail_port != 0 && p.mail_pw.len() > 0 && p.send_server.len() > 0
        && p.send_port != 0 && p.send_pw.len() > 0 && flags_chosen(p.server_flags)
}

/// Both user names are there.
pub open spec fn users_there(p: LoginParamView) -> bool {
    p.mail_user.len() > 0 && p.send_user.len() > 0
}

/// Whether both logins of the run have worked.
pub open spec fn past_logins(stage: Stage) -> bool {
    stage is Folders || stage is Inbox || stage is BeforeKey || stage is SecretKey
}

/// Whether the run is at or past its logins.
pub open spec fn at_logins_or_later(stage: Stage) -> bool {
    stage is Imap || stage is Smtp || past_logins(stage)
}

/// The two settings agree in all that an IMAP login uses: address, server,
/// port, user name, password, the check of the certificate, the socket and
/// the way to log in.
pub open spec fn same_imap_settings(a: LoginParamView, b: LoginParamView) -> bool {
    &&& a.addr == b.addr
    &&& a.mail_server == b.mail_server
    &&& a.mail_port == b.mail_port
    &&& a.mail_user == b.mail_user
    &&& a.mail_pw == b.mail_pw
    &&& a.imap_certificate_checks == b.imap_certificate_checks
    &&& a.server_flags & DC_LP_IMAP_SOCKET_FLAGS == b.server_flags & DC_LP_IMAP_SOCKET_FLAGS
    &&& a.server_flags & DC_LP_AUTH_FLAGS == b.server_flags & DC_LP_AUTH_FLAGS
}

/// What holds of a run whenever it stands between two calls.
///
/// It has reported a progress that never went down, stayed between 1 and
/// 999 and is not above what its stage allows. It counts a login as having
/// worked exactly when it holds the settings of that login. Before the
/// logins none has worked; while the SMTP logins are tried the IMAP login
/// has worked, with settings that agree with the present ones in all that
/// an IMAP login uses; past the logins both have worked, the SMTP login
/// with the very settings that the run holds. Once the run has begun its
/// address is not empty; from the first login on its settings are fit for
/// a login; and until the user names are shortened both are there.
pub open spec fn job_wf(j: JobView) -> bool {
    &&& match j.stage {
        Stage::BeforeProbe(k) => k < PROBE_COUNT,
        Stage::Probe(k) => k < PROBE_COUNT,
        Stage::Imap(k) => k < 6,
        Stage::Smtp(k) => k < 3,
        _ => true,
    }
    &&& under_way_upto(j.trace, reported_at(j.stage))
    &&& j.imap_connected_here == (j.imap_verified is Some)
    &&& j.smtp_connected_here == (j.smtp_verified is Some)
    &&& !at_logins_or_later(j.stage) || j.stage is Imap ==> j.imap_verified is None
    &&& !past_logins(j.stage) ==> j.smtp_verified is None
    &&& j.stage is Smtp || past_logins(j.stage) ==> j.imap_verified is Some && same_imap_settings(
        j.imap_verified->0,
        j.param,
    )
    &&& past_logins(j.stage) ==> j.smtp_verified == Some(j.param)
    &&& !(j.stage is Disconnecting) ==> j.param.addr.len() > 0
    &&& at_logins_or_later(j.stage) ==> settled(j.param)
    &&& match j.stage {
        Stage::Imap(k) => k < 3 ==> users_there(j.param),
        _ => true,
    }
}

/// The table at the end of a run that began its last call with the world
/// `w`: see `finish`.
pub open spec fn end_config(w: World, success: bool) -> Map<Seq<char>, Seq<char>> {
    if success {
        saved(w, "configured_raw_"@, param_in(w.config, ""@)).config
    } else {
        saved(w, ""@, param_in(w.config, "configured_raw_"@)).config
    }
}

/// The call that led to `o` took the run `before` on as it should: a run
/// that goes on is well-formed, has its new progress added to what it
/// reported before, counts the same logins as having worked, and has left
/// table and slot as they were in `w`; a run that ends has reported a
/// complete progress, released the slot, and written what the end of a run
/// writes.
pub open spec fn carried_on(before: JobView, w: World, o: Outcome) -> bool {
    match o.job {
        Some(j) => {
            &&& job_wf(j)
            &&& j.trace == before.trace + o.progress
            &&& j.imap_verified == before.imap_verified
            &&& j.smtp_verified == before.smtp_verified
            &&& o.config == w.config
            &&& o.ongoing == w.ongoing
        },
        None => {
            &&& run_complete(before.trace + o.progress)
            &&& !o.ongoing.running
            &&& !o.ongoing.cancel_requested
            &&& match o.request {
                RequestView::Finish { success, failure, .. } => {
                    &&& success == (failure is None)
                    &&& success == (o.progress.last() == 1000)
                    &&& o.config == end_config(w, success)
                },
                _ => false,
            }
        },
    }
}

proof fn lemma_push(t: Seq<u32>, x: u32)
    requires
        under_way_upto(t, x as int),
        1 <= x <= 999,
    ensures
        under_way_upto(t.push(x), x as int),
{
    let r = t.push(x);
    assert forall|i: int, j: int| 0 <= i <= j < r.len() implies r[i] <= r[j] by {
        if j < t.len() {
            assert(r[i] == t[i] && r[j] == t[j]);
        } else if i < t.len() {
            assert(r[i] == t[i]);
            assert(t[i] <= t[t.len() - 1]);
        }
    }
    assert forall|i: int| 0 <= i < r.len() implies 1 <= #[trigger] r[i] <= 999 by {
        if i < t.len() {
            assert(r[i] == t[i]);
        }
    }
}

proof fn lemma_finish(j: JobView, w: World, failure: Option<Failure>, progress: Seq<u32>)
    requires
        under_way_upto(j.trace + progress, 999),
    ensures
        carried_on(j, w, finish(j, w, failure, progress)),
{
    let o = finish(j, w, failure, progress);
    assert((j.trace + o.progress).drop_last() =~= j.trace + progress);
}

/// What a run has reported before, with one more progress that is not
/// below it.
proof fn lemma_one_more(t: Seq<u32>, x: u32, bound: int)
    requires
        under_way_upto(t, bound),
        bound <= x,
        1 <= x <= 999,
    ensures
        under_way_upto(t + seq![x], x as int),
        under_way_upto(t + Seq::<u32>::empty(), bound),
{
    lemma_push(t, x);
    assert(t + seq![x] =~= t.push(x));
    assert(t + Seq::<u32>::empty() =~= t);
}

/// An address has a character.
pub proof fn lemma_address_not_empty(s: Seq<char>)
    requires
        address_parts(s) is Some,
    ensures
        s.len() > 0,
{
    lemma_last_index_of(s, '@');
}

/// A user name is shortened to nothing exactly where it is empty or begins
/// with `@`.
pub proof fn lemma_shortened_to_nothing(s: Seq<char>)
    ensures
        before_at(s).len() == 0 <==> s.len() == 0 || s[0] == '@',
{
    lemma_first_index_of(s, '@');
    let at = first_index_of(s, '@');
    if s.len() > 0 && s[0] == '@' {
        if at != 0 {
            assert(s[0] != '@');
        }
    }
}

/// The world in which the call that took the answer `ev` ended: the one it
/// began in, `w`, but for what the call wrote before it went on.
pub open spec fn world_after(j: JobView, w: World, ev: EventView) -> World {
    match (j.stage, ev) {
        (Stage::Oauth2, EventView::Oauth2Address(addr)) => if addr is Some && address_parts(addr->0)
            is Some {
            written(w, "addr"@, addr->0)
        } else {
            w
        },
        (Stage::Inbox, EventView::InboxSelected(ok)) => if ok && !w.ongoing.cancel_requested {
            written(saved(w, "configured_"@, j.param), "configured"@, "1"@)
        } else {
            w
        },
        _ => w,
    }
}

/// The run as the answer `ev` leaves it: a login that the answer reports
/// as having worked counts from now on, with the settings that the run
/// held when it asked for the login.
pub open spec fn job_after(j: JobView, ev: EventView) -> JobView {
    match (j.stage, ev) {
        (Stage::Imap(_), EventView::Connected(ok)) => if ok {
            JobView { imap_connected_here: true, imap_verified: Some(j.param), ..j }
        } else {
            j
        },
        (Stage::Smtp(_), EventView::Connected(ok)) => if ok {
            JobView { smtp_connected_here: true, smtp_verified: Some(j.param), ..j }
        } else {
            j
        },
        _ => j,
    }
}

/// What `lemma_step` says of the run `j` and the answer `ev`.
pub open spec fn step_carries_on(j: JobView, w: World, ev: EventView) -> bool {
    carried_on(job_after(j, ev), world_after(j, w, ev), step_spec(j, w, ev))
}

proof fn lemma_step_begin(j: JobView, w: World, ev: EventView)
    requires
        job_wf(j),
        j.stage is Disconnecting || j.stage is Entered || j.stage is Oauth2 || j.stage is Resolved,
    ensures
        step_carries_on(j, w, ev),
{
    let none = Seq::<u32>::empty();
    let bound = reported_at(j.stage);
    assert(j.trace + none =~= j.trace);
    lemma_finish(j, w, Some(Failure::Cancelled), none);
    lemma_finish(j, w, Some(Failure::UnexpectedEvent), none);
    match (j.stage, ev) {
        (Stage::Disconnecting, EventView::Disconnected) => {
            let loaded = JobView { param: param_in(w.config, ""@), ..j };
            lemma_one_more(j.trace, 1, bound);
            lemma_finish(loaded, w, Some(Failure::Cancelled), none);
            lemma_finish(loaded, w, Some(Failure::NoAddress), seq![1u32]);
        },
        (Stage::Entered, EventView::Continue) => {
            lemma_one_more(j.trace, 10, bound);
            lemma_locate(j, w);
        },
        (Stage::Oauth2, EventView::Oauth2Address(addr)) => {
            lemma_one_more(j.trace, 20, bound);
            if addr is Some && address_parts(addr->0) is Some {
                lemma_address_not_empty(addr->0);
            }
        },
        (Stage::Resolved, EventView::Continue) => {
            lemma_locate(j, w);
        },
        _ => {},
    }
}

proof fn lemma_step_search(j: JobView, w: World, ev: EventView)
    requires
        job_wf(j),
        j.stage is BeforeProbe || j.stage is Probe || j.stage is UseFound || j.stage is Defaults,
    ensures
        step_carries_on(j, w, ev),
{
    let none = Seq::<u32>::empty();
    let bound = reported_at(j.stage);
    assert(j.trace + none =~= j.trace);
    lemma_finish(j, w, Some(Failure::Cancelled), none);
    lemma_finish(j, w, Some(Failure::UnexpectedEvent), none);
    match (j.stage, ev) {
        (Stage::BeforeProbe(k), EventView::Continue) => {
            lemma_probe(j, w, k as int);
        },
        (Stage::Probe(k), EventView::Autoconfig(found)) => {
            let answered = JobView { autoconfig: found, ..j };
            lemma_finish(answered, w, Some(Failure::Cancelled), none);
            lemma_probe(answered, w, k + 1);
        },
        (Stage::UseFound, EventView::Continue) => {
            lemma_one_more(j.trace, 500, bound);
        },
        (Stage::Defaults, EventView::Continue) => {
            lemma_one_more(j.trace, 600, bound);
            let filled = JobView { param: defaults_filled(j.param, j.domain), ..j };
            lemma_default_flags(j.param.server_flags, filled.param.send_port);
            lemma_finish(filled, w, Some(Failure::IncompleteSettings), none);
        },
        _ => {},
    }
}

proof fn lemma_step_imap(j: JobView, w: World, ev: EventView)
    requires
        job_wf(j),
        j.stage is Imap,
    ensures
        step_carries_on(j, w, ev),
{
    let none = Seq::<u32>::empty();
    let bound = reported_at(j.stage);
    assert(j.trace + none =~= j.trace);
    lemma_finish(j, w, Some(Failure::Cancelled), none);
    lemma_finish(j, w, Some(Failure::UnexpectedEvent), none);
    match (j.stage, ev) {
        (Stage::Imap(k), EventView::Connected(ok)) => {
            let done = JobView { imap_connected_here: true, imap_verified: Some(j.param), ..j };
            lemma_one_more(j.trace, 800, bound);
            lemma_finish(done, w, Some(Failure::Cancelled), none);
            lemma_finish(j, w, Some(Failure::ImapConnect), none);
            match next_imap(j.autoconfig is Some, k as int) {
                Some(n) => {
                    lemma_one_more(j.trace, (640 + 10 * n) as u32, bound);
                    lemma_with_imap_socket(j.param.server_flags, DC_LP_IMAP_SOCKET_STARTTLS);
                    lemma_with_imap_socket(j.param.server_flags, DC_LP_IMAP_SOCKET_SSL);
                },
                None => {},
            }
        },
        _ => {},
    }
}

proof fn lemma_step_smtp(j: JobView, w: World, ev: EventView)
    requires
        job_wf(j),
        j.stage is Smtp,
    ensures
        step_carries_on(j, w, ev),
{
    let none = Seq::<u32>::empty();
    let bound = reported_at(j.stage);
    assert(j.trace + none =~= j.trace);
    lemma_finish(j, w, Some(Failure::Cancelled), none);
    lemma_finish(j, w, Some(Failure::UnexpectedEvent), none);
    match (j.stage, ev) {
        (Stage::Smtp(k), EventView::Connected(ok)) => {
            let done = JobView { smtp_connected_here: true, smtp_verified: Some(j.param), ..j };
            lemma_one_more(j.trace, 900, bound);
            lemma_finish(done, w, Some(Failure::Cancelled), none);
            lemma_finish(j, w, Some(Failure::SmtpConnect), none);
            if k < 2 {
                lemma_one_more(j.trace, (850 + 10 * k) as u32, bound);
                lemma_with_smtp_socket(j.param.server_flags, DC_LP_SMTP_SOCKET_STARTTLS);
            }
        },
        _ => {},
    }
}

proof fn lemma_step_end(j: JobView, w: World, ev: EventView)
    requires
        job_wf(j),
        past_logins(j.stage),
    ensures
        step_carries_on(j, w, ev),
{
    let none = Seq::<u32>::empty();
    let bound = reported_at(j.stage);
    assert(j.trace + none =~= j.trace);
    lemma_finish(j, w, Some(Failure::Cancelled), none);
    lemma_finish(j, w, Some(Failure::UnexpectedEvent), none);
    match (j.stage, ev) {
        (Stage::Inbox, EventView::InboxSelected(ok)) => {
            lemma_one_more(j.trace, 910, bound);
            lemma_finish(j, w, Some(Failure::InboxSelect), none);
        },
        (Stage::BeforeKey, EventView::Continue) => {
            lemma_one_more(j.trace, 920, bound);
        },
        (Stage::SecretKey, EventView::SecretKey(ok)) => {
            lemma_one_more(j.trace, 940, bound);
            lemma_finish(
                j,
                w,
                if ok {
                    None
                } else {
                    Some(Failure::SecretKey)
                },
                seq![940u32],
            );
        },
        _ => {},
    }
}

/// Every call takes a well-formed run on as it should.
pub proof fn lemma_step(j: JobView, w: World, ev: EventView)
    requires
        job_wf(j),
    ensures
        carried_on(job_after(j, ev), world_after(j, w, ev), step_spec(j, w, ev)),
{
    if j.stage is Imap {
        lemma_step_imap(j, w, ev);
    } else if j.stage is Smtp {
        lemma_step_smtp(j, w, ev);
    } else if past_logins(j.stage) {
        lemma_step_end(j, w, ev);
    } else if j.stage is BeforeProbe || j.stage is Probe || j.stage is UseFound
        || j.stage is Defaults {
        lemma_step_search(j, w, ev);
    } else {
        lemma_step_begin(j, w, ev);
    }
}

proof fn lemma_locate(j: JobView, w: World)
    requires
        job_wf(j),
        j.stage is Entered || j.stage is Resolved,
    ensures
        carried_on(j, w, locate(j, w)),
{
    let none = Seq::<u32>::empty();
    assert(j.trace + none =~= j.trace);
    lemma_finish(j, w, Some(Failure::BadEmailAddress), none);
    lemma_one_more(j.trace, 200, reported_at(j.stage));
}

proof fn lemma_probe(j: JobView, w: World, k: int)
    requires
        0 <= k <= PROBE_COUNT,
        !(j.stage is Disconnecting),
        !at_logins_or_later(j.stage),
        j.param.addr.len() > 0,
        j.imap_verified is None && j.smtp_verified is None,
        !j.imap_connected_here && !j.smtp_connected_here,
        under_way_upto(
            j.trace,
            if k == 0 {
                200
            } else {
                280 + 10 * k
            },
        ),
    ensures
        carried_on(j, w, probe(j, w, k)),
{
    let bound = if k == 0 {
        200
    } else {
        280 + 10 * k
    };
    if k >= PROBE_COUNT {
        lemma_one_more(j.trace, 500, bound);
    } else if k == 0 {
        lemma_one_more(j.trace, 200, bound);
    } else {
        lemma_one_more(j.trace, (290 + 10 * k) as u32, bound);
    }
}

/// A run that starts is well-formed and has reported nothing; one that is
/// refused reports 0 and nothing else.
pub proof fn lemma_start(w: World)
    ensures
        ({
            let o = start_spec(w);
            &&& o.job is Some <==> w.opened && !w.ongoing.running
            &&& o.job is Some ==> job_wf(o.job->0) && o.job->0.trace.len() == 0 && o.progress.len()
                == 0
            &&& o.job is None ==> o.progress == seq![0u32] && o.config == w.config && o.ongoing
                == w.ongoing
        }),
{
    assert(Seq::<u32>::empty() + Seq::<u32>::empty() =~= Seq::<u32>::empty());
}

/// The progress that a run has reported once it has taken the answers
/// `answers`, each in the world that the account was in when it came. A run
/// that is over takes no further answer.
pub open spec fn progress_of_run(j: JobView, answers: Seq<(World, EventView)>) -> Seq<u32>
    decreases answers.len(),
{
    if answers.len() == 0 {
        j.trace
    } else {
        let o = step_spec(j, answers[0].0, answers[0].1);
        match o.job {
            Some(next) => progress_of_run(next, answers.drop_first()),
            None => j.trace + o.progress,
        }
    }
}

/// Whether the run is over once it has taken the answers `answers`.
pub open spec fn run_is_over(j: JobView, answers: Seq<(World, EventView)>) -> bool
    decreases answers.len(),
{
    if answers.len() == 0 {
        false
    } else {
        let o = step_spec(j, answers[0].0, answers[0].1);
        match o.job {
            Some(next) => run_is_over(next, answers.drop_first()),
            None => true,
        }
    }
}

/// The progress of every run: while the run is under way, what it reports
/// never goes down and stays between 1 and 999; when it is over, it has
/// reported 0 or 1000 once, as the last thing. Only a run that was asked
/// to stop before its first step reports nothing but the final 0.
pub proof fn lemma_progress_of_every_run(j: JobView, answers: Seq<(World, EventView)>)
    requires
        job_wf(j),
    ensures
        ({
            let t = progress_of_run(j, answers);
            if run_is_over(j, answers) {
                &&& run_complete(t)
                &&& t.len() > 1 ==> t[0] >= 1
            } else {
                under_way_upto(t, 999)
            }
        }),
    decreases answers.len(),
{
    if answers.len() > 0 {
        let o = step_spec(j, answers[0].0, answers[0].1);
        lemma_step(j, answers[0].0, answers[0].1);
        match o.job {
            Some(next) => {
                lemma_progress_of_every_run(next, answers.drop_first());
            },
            None => {
                let t = j.trace + o.progress;
                if t.len() > 1 {
                    assert(t.drop_last()[0] == t[0]);
                }
            },
        }
    }
}

/// The keys of the last good settings differ from every key that a run
/// writes before it ends: the address, the mark of a configured account,
/// and the keys of the verified settings.
pub proof fn lemma_raw_keys_apart()
    ensures
        forall|i: int|
            0 <= i < field_names().len() ==> {
                &&& "configured_raw_"@ + #[trigger] field_names()[i] != "addr"@
                &&& "configured_raw_"@ + field_names()[i] != "configured"@
                &&& "configured_"@ + field_names()[i] != "configured"@
                &&& ""@ + field_names()[i] != "configured"@
                &&& !is_param_key("configured_"@, "configured_raw_"@ + field_names()[i])
                &&& !is_param_key("configured_raw_"@, "configured_"@ + field_names()[i])
            },
        "addr"@ != "configured"@,
        !is_param_key("configured_raw_"@, "configured"@),
        !is_param_key("configured_"@, "configured"@),
        !is_param_key(""@, "configured"@),
        !is_param_key("configured_raw_"@, "addr"@),
{
    reveal_strlit("configured_raw_");
    reveal_strlit("configured_");
    reveal_strlit("configured");
    reveal_strlit("addr");
    reveal_strlit("raw_");
    reveal_strlit("");
    lemma_field_name_shape();
    let names = field_names();
    let raw = "configured_raw_"@;
    let done = "configured_"@;
    assert(raw =~= done + "raw_"@);
    assert(""@ =~= Seq::<char>::empty());
    assert forall|i: int| 0 <= i < names.len() implies {
        &&& raw + #[trigger] names[i] != "addr"@
        &&& raw + names[i] != "configured"@
        &&& done + names[i] != "configured"@
        &&& ""@ + names[i] != "configured"@
        &&& !is_param_key(done, raw + names[i])
        &&& !is_param_key(raw, done + names[i])
    } by {
        let f = names[i];
        assert((raw + f).len() == 15 + f.len());
        assert((done + f).len() == 11 + f.len());
        assert(""@ + f =~= f);
        assert("configured"@[0] == 'c');
        assert forall|k: int| 0 <= k < names.len() implies raw + f != done + #[trigger] names[k]
            && done + f != raw + names[k] by {
            let g = names[k];
            if raw + f == done + g {
                assert(raw + f =~= done + ("raw_"@ + f));
                lemma_prefix_cancels(done, "raw_"@ + f, g);
                assert(("raw_"@ + f)[0] == 'r');
            }
            if done + f == raw + g {
                assert(raw + g =~= done + ("raw_"@ + g));
                lemma_prefix_cancels(done, f, "raw_"@ + g);
                assert(("raw_"@ + g)[0] == 'r');
            }
        }
    }
    assert forall|k: int| 0 <= k < names.len() implies "configured"@ != raw + #[trigger] names[k]
        && "configured"@ != done + names[k] && "configured"@ != ""@ + names[k] && "addr"@ != raw
        + names[k] by {
        let g = names[k];
        assert((raw + g).len() == 15 + g.len());
        assert((done + g).len() == 11 + g.len());
        assert(""@ + g =~= g);
        assert("configured"@[0] == 'c');
    }
}

/// A login is asked for with the settings that the run holds, and counts
/// as having worked only on the answer that says so: a run that waits for
/// the outcome of a login has asked for it with its present settings; and
/// the settings of the login that worked are those that the run held when
/// the answer came.
pub proof fn lemma_logins_use_the_settings(j: JobView, w: World, ev: EventView)
    requires
        job_wf(j),
    ensures
        ({
            let o = step_spec(j, w, ev);
            &&& o.job is Some && o.job->0.stage is Imap ==> o.request == RequestView::ConnectImap(
                o.job->0.param,
            )
            &&& o.job is Some && o.job->0.stage is Smtp ==> o.request == RequestView::ConnectSmtp(
                o.job->0.param,
            )
            &&& o.job is Some && o.job->0.imap_verified != j.imap_verified ==> j.stage is Imap
                && ev == EventView::Connected(true) && o.job->0.imap_verified == Some(j.param)
            &&& o.job is Some && o.job->0.smtp_verified != j.smtp_verified ==> j.stage is Smtp
                && ev == EventView::Connected(true) && o.job->0.smtp_verified == Some(j.param)
        }),
{
    lemma_step(j, w, ev);
}

/// The account is marked as configured only after both logins have worked,
/// and with the settings of those logins. A call changes the mark only
/// when the inbox is selected. Then an IMAP login and an SMTP login of this
/// run have worked; the settings that the call writes under `configured_`
/// are those of the SMTP login, and agree with those of the IMAP login in
/// all that an IMAP login uses.
pub proof fn lemma_configured_only_after_logins(j: JobView, w: World, ev: EventView)
    requires
        job_wf(j),
    ensures
        ({
            let o = step_spec(j, w, ev);
            raw_of(o.config, "configured"@) != raw_of(w.config, "configured"@) ==> {
                &&& j.stage == Stage::Inbox
                &&& ev == EventView::InboxSelected(true)
                &&& j.imap_verified is Some
                &&& j.smtp_verified is Some
                &&& param_in(o.config, "configured_"@) == j.smtp_verified->0
                &&& same_imap_settings(j.imap_verified->0, param_in(o.config, "configured_"@))
            }
        }),
{
    lemma_step(j, w, ev);
    lemma_raw_keys_apart();
    let o = step_spec(j, w, ev);
    let wa = world_after(j, w, ev);
    lemma_param_saved_keeps_others(
        wa.config,
        "configured_raw_"@,
        param_in(wa.config, ""@),
        "configured"@,
    );
    lemma_param_saved_keeps_others(
        wa.config,
        ""@,
        param_in(wa.config, "configured_raw_"@),
        "configured"@,
    );
    if j.stage == Stage::Inbox && ev == EventView::InboxSelected(true)
        && !w.ongoing.cancel_requested && w.writable {
        lemma_written_settings_read_back(w.config, j.param);
    }
}

/// The settings written under `configured_`, with the mark of a configured
/// account after them, are read back as they were.
proof fn lemma_written_settings_read_back(m: Map<Seq<char>, Seq<char>>, p: LoginParamView)
    ensures
        param_in(param_saved(m, "configured_"@, p).insert("configured"@, "1"@), "configured_"@)
            == p,
{
    lemma_raw_keys_apart();
    let done = "configured_"@;
    let s = param_saved(m, done, p);
    let t = s.insert("configured"@, "1"@);
    assert forall|i: int| 0 <= i < field_names().len() implies raw_of(
        t,
        done + #[trigger] field_names()[i],
    ) == raw_of(s, done + field_names()[i]) by {}
    lemma_param_in_depends_on_keys(t, s, done);
    lemma_param_read_back(m, done, p);
}

/// The last good settings outlive a run that goes on, and a run that fails
/// puts them back: while the run goes on, no call changes what is kept
/// under `configured_raw_`; and once it has failed, on a table that can be
/// written, the settings under the plain keys are those that were kept
/// under `configured_raw_` before the call.
pub proof fn lemma_failure_restores(j: JobView, w: World, ev: EventView)
    requires
        job_wf(j),
    ensures
        ({
            let o = step_spec(j, w, ev);
            &&& o.job is Some ==> param_in(o.config, "configured_raw_"@) == param_in(
                w.config,
                "configured_raw_"@,
            )
            &&& o.job is None && o.progress.last() == 0 && w.writable ==> param_in(o.config, ""@)
                == param_in(w.config, "configured_raw_"@)
        }),
{
    lemma_step(j, w, ev);
    lemma_raw_keys_apart();
    let o = step_spec(j, w, ev);
    let wa = world_after(j, w, ev);
    let raw = "configured_raw_"@;
    assert forall|i: int| 0 <= i < field_names().len() implies raw_of(
        wa.config,
        raw + #[trigger] field_names()[i],
    ) == raw_of(w.config, raw + field_names()[i]) by {
        lemma_param_saved_keeps_others(w.config, "configured_"@, j.param, raw + field_names()[i]);
    }
    lemma_param_in_depends_on_keys(wa.config, w.config, raw);
    lemma_param_read_back(wa.config, ""@, param_in(wa.config, raw));
}

/// What a successful run writes down is complete. When the inbox is
/// selected, on a table that can be written and without a request to stop,
/// the settings of the run are written under `configured_` as they are, and
/// the account is marked as configured. The settings have the address,
/// every server, port and password, and one flag of each group. Both user
/// names are there too, unless the run has shortened one to nothing, which
/// it does only to a name that begins with `@`
/// (`lemma_shortened_to_nothing`).
pub proof fn lemma_persisted_settings_complete(j: JobView, w: World)
    requires
        job_wf(j),
        j.stage == Stage::Inbox,
        w.writable,
        !w.ongoing.cancel_requested,
    ensures
        ({
            let o = step_spec(j, w, EventView::InboxSelected(true));
            let kept = param_in(o.config, "configured_"@);
            &&& o.job is Some
            &&& kept == j.param
            &&& bool_of(o.config, "configured"@)
            &&& kept.addr.len() > 0
            &&& settled(kept)
            &&& users_there(kept) ==> is_complete(kept)
        }),
{
    lemma_step(j, w, EventView::InboxSelected(true));
    lemma_raw_keys_apart();
    lemma_written_settings_read_back(w.config, j.param);
    reveal_strlit("configured");
    reveal_strlit("1");
    lemma_parse_decimal_of_decimal(1);
    assert("1"@ =~= decimal(1));
    assert(j.param.server_flags != 0) by {
        let f = j.param.server_flags;
        assert(f & 0x6i32 == 0x2i32 || f & 0x6i32 == 0x4i32 ==> f != 0i32) by (bit_vector);
    }
}

/// The user names of a run are there as long as they were not shortened:
/// a run that waits for the outcome of a login of the first round, or that
/// got its first login through, holds both.
pub proof fn lemma_users_there_until_shortened(j: JobView, w: World, k: u8)
    requires
        job_wf(j),
        j.stage == Stage::Imap(k),
        k < 3,
    ensures
        users_there(j.param),
        ({
            let o = step_spec(j, w, EventView::Connected(true));
            o.job is Some ==> users_there(o.job->0.param)
        }),
{
}

/// The steps after the settings were written down leave what was written
/// under `configured_` and the mark of a configured account as they are:
/// the step that asks for the secret key, and the end of a successful run.
pub proof fn lemma_success_keeps_verified_settings(j: JobView, w: World, ev: EventView)
    requires
        job_wf(j),
        j.stage == Stage::BeforeKey && ev == EventView::Continue || j.stage == Stage::SecretKey
            && ev == EventView::SecretKey(true),
    ensures
        ({
            let o = step_spec(j, w, ev);
            &&& j.stage == Stage::SecretKey ==> o.job is None && o.progress.last() == 1000
            &&& o.job is None && o.progress.last() == 1000 || o.job is Some ==> param_in(
                o.config,
                "configured_"@,
            ) == param_in(w.config, "configured_"@) && raw_of(o.config, "configured"@) == raw_of(
                w.config,
                "configured"@,
            )
        }),
{
    lemma_step(j, w, ev);
    lemma_raw_keys_apart();
    let o = step_spec(j, w, ev);
    let done = "configured_"@;
    let entered = param_in(w.config, ""@);
    assert forall|i: int| 0 <= i < field_names().len() implies raw_of(
        param_saved(w.config, "configured_raw_"@, entered),
        done + #[trigger] field_names()[i],
    ) == raw_of(w.config, done + field_names()[i]) by {
        lemma_param_saved_keeps_others(
            w.config,
            "configured_raw_"@,
            entered,
            done + field_names()[i],
        );
    }
    lemma_param_in_depends_on_keys(
        param_saved(w.config, "configured_raw_"@, entered),
        w.config,
        done,
    );
    lemma_param_saved_keeps_others(w.config, "configured_raw_"@, entered, "configured"@);
}

/// Where a run stands once it has taken the answers `answers`, each in the
/// world that the account was in when it came; `None` where it is over.
pub open spec fn run_after(j: JobView, answers: Seq<(World, EventView)>) -> Option<JobView>
    decreases answers.len(),
{
    if answers.len() == 0 {
        Some(j)
    } else {
        match run_after(j, answers.drop_last()) {
            Some(before) => step_spec(before, answers.last().0, answers.last().1).job,
            None => None,
        }
    }
}

/// What the call did that took the answer of number `i`.
pub open spec fn call_of(j: JobView, answers: Seq<(World, EventView)>, i: int) -> Outcome {
    step_spec(run_after(j, answers.subrange(0, i))->0, answers[i].0, answers[i].1)
}

/// A run that goes on is well-formed after every call.
pub proof fn lemma_run_stays_well(j: JobView, answers: Seq<(World, EventView)>)
    requires
        job_wf(j),
    ensures
        run_after(j, answers) is Some ==> job_wf(run_after(j, answers)->0),
    decreases answers.len(),
{
    if answers.len() > 0 {
        lemma_run_stays_well(j, answers.drop_last());
        match run_after(j, answers.drop_last()) {
            Some(before) => {
                lemma_step(before, answers.last().0, answers.last().1);
            },
            None => {},
        }
    }
}

/// The answer of number `i` said that a login had worked which the run had
/// asked for, in the call before, with the settings `p`: an IMAP login
/// where `imap` is set, else an SMTP login.
pub open spec fn login_worked(
    j: JobView,
    answers: Seq<(World, EventView)>,
    i: int,
    imap: bool,
    p: LoginParamView,
) -> bool {
    &&& 1 <= i < answers.len()
    &&& run_after(j, answers.subrange(0, i)) is Some
    &&& run_after(j, answers.subrange(0, i))->0.param == p
    &&& if imap {
        run_after(j, answers.subrange(0, i))->0.stage is Imap && call_of(j, answers, i - 1).request
            == RequestView::ConnectImap(p)
    } else {
        run_after(j, answers.subrange(0, i))->0.stage is Smtp && call_of(j, answers, i - 1).request
            == RequestView::ConnectSmtp(p)
    }
    &&& answers[i].1 == EventView::Connected(true)
}

proof fn lemma_login_worked_extends(
    j: JobView,
    answers: Seq<(World, EventView)>,
    i: int,
    imap: bool,
    p: LoginParamView,
)
    requires
        answers.len() > 0,
        login_worked(j, answers.drop_last(), i, imap, p),
    ensures
        login_worked(j, answers, i, imap, p),
{
    let prev = answers.drop_last();
    assert(prev.subrange(0, i) =~= answers.subrange(0, i));
    assert(prev.subrange(0, i - 1) =~= answers.subrange(0, i - 1));
    assert(prev[i] == answers[i]);
    assert(prev[i - 1] == answers[i - 1]);
}

/// The last answer of `answers` said that a login had worked, and the run
/// had asked for that login with the settings that it held.
proof fn lemma_last_login_worked(j: JobView, answers: Seq<(World, EventView)>, imap: bool)
    requires
        job_wf(j),
        j.stage is Disconnecting,
        answers.len() > 0,
        run_after(j, answers.drop_last()) is Some,
        answers.last().1 == EventView::Connected(true),
        if imap {
            run_after(j, answers.drop_last())->0.stage is Imap
        } else {
            run_after(j, answers.drop_last())->0.stage is Smtp
        },
    ensures
        login_worked(
            j,
            answers,
            answers.len() - 1,
            imap,
            run_after(j, answers.drop_last())->0.param,
        ),
{
    let n = answers.len() as int;
    let prev = answers.drop_last();
    let b = run_after(j, prev)->0;
    assert(prev.len() > 0);
    let pp = prev.drop_last();
    lemma_run_stays_well(j, pp);
    let bb = run_after(j, pp)->0;
    lemma_logins_use_the_settings(bb, prev.last().0, prev.last().1);
    assert(answers.subrange(0, n - 1) =~= prev);
    assert(answers.subrange(0, n - 2) =~= pp);
    assert(answers[n - 2] == prev.last());
}

/// The settings of a login that a run counts as having worked are those of
/// a login that did work: the run asked for a login with these settings,
/// and the answer to that request said that it had worked.
pub proof fn lemma_verified_logins_happened(j: JobView, answers: Seq<(World, EventView)>)
    requires
        job_wf(j),
        j.stage is Disconnecting,
    ensures
        run_after(j, answers) is Some ==> {
            let now = run_after(j, answers)->0;
            &&& now.imap_verified is Some ==> exists|i: int| #[trigger]
                login_worked(j, answers, i, true, now.imap_verified->0)
            &&& now.smtp_verified is Some ==> exists|i: int| #[trigger]
                login_worked(j, answers, i, false, now.smtp_verified->0)
        },
    decreases answers.len(),
{
    if answers.len() > 0 && run_after(j, answers) is Some {
        let prev = answers.drop_last();
        lemma_run_stays_well(j, prev);
        lemma_verified_logins_happened(j, prev);
        let b = run_after(j, prev)->0;
        let now = run_after(j, answers)->0;
        lemma_logins_use_the_settings(b, answers.last().0, answers.last().1);
        if now.imap_verified is Some {
            if now.imap_verified == b.imap_verified {
                let i = choose|i: int| #[trigger] login_worked(j, prev, i, true, b.imap_verified->0);
                lemma_login_worked_extends(j, answers, i, true, b.imap_verified->0);
            } else {
                lemma_last_login_worked(j, answers, true);
                assert(login_worked(j, answers, answers.len() - 1, true, now.imap_verified->0));
            }
        }
        if now.smtp_verified is Some {
            if now.smtp_verified == b.smtp_verified {
                let i = choose|i: int| #[trigger] login_worked(j, prev, i, false, b.smtp_verified->0);
                lemma_login_worked_extends(j, answers, i, false, b.smtp_verified->0);
            } else {
                lemma_last_login_worked(j, answers, false);
                assert(login_worked(j, answers, answers.len() - 1, false, now.smtp_verified->0));
            }
        }
    }
}

/// In every run, the account is marked as configured only after live
/// logins with the settings that are written down. Where the last call of
/// `answers` changes the mark, the run has before that asked for an IMAP
/// login and for an SMTP login, and both were answered with success; the
/// settings that this call writes under `configured_` are those of that
/// SMTP login, and agree with those of that IMAP login in all that an IMAP
/// login uses.
pub proof fn lemma_configured_after_logins_of_the_run(
    j: JobView,
    answers: Seq<(World, EventView)>,
)
    requires
        job_wf(j),
        j.stage is Disconnecting,
        answers.len() > 0,
        run_after(j, answers.drop_last()) is Some,
    ensures
        ({
            let prev = answers.drop_last();
            let o = call_of(j, answers, answers.len() - 1);
            let kept = param_in(o.config, "configured_"@);
            raw_of(o.config, "configured"@) != raw_of(answers.last().0.config, "configured"@) ==> {
                &&& exists|i: int, p: LoginParamView| #[trigger]
                    login_worked(j, prev, i, true, p) && same_imap_settings(p, kept)
                &&& exists|i: int| #[trigger] login_worked(j, prev, i, false, kept)
            }
        }),
{
    let n = answers.len() as int;
    let prev = answers.drop_last();
    assert(answers.subrange(0, n - 1) =~= prev);
    lemma_run_stays_well(j, prev);
    lemma_verified_logins_happened(j, prev);
    let b = run_after(j, prev)->0;
    lemma_configured_only_after_logins(b, answers.last().0, answers.last().1);
    let o = call_of(j, answers, n - 1);
    let kept = param_in(o.config, "configured_"@);
    if raw_of(o.config, "configured"@) != raw_of(answers.last().0.config, "configured"@) {
        let i1 = choose|i: int| #[trigger] login_worked(j, prev, i, true, b.imap_verified->0);
        assert(login_worked(j, prev, i1, true, b.imap_verified->0) && same_imap_settings(
            b.imap_verified->0,
            kept,
        ));
    }
}

/// How a run comes to its last steps: it stands before the secret key only
/// after the call that wrote the settings down, which is the call that
/// took the selected inbox without a request to stop; it waits for the
/// secret key only after it stood before it and was told to go on; and it
/// ends with success only on the answer that the secret key is there.
pub proof fn lemma_way_to_success(j: JobView, w: World, ev: EventView)
    requires
        job_wf(j),
    ensures
        ({
            let o = step_spec(j, w, ev);
            &&& o.job is Some && o.job->0.stage is BeforeKey ==> j.stage is Inbox && ev
                == EventView::InboxSelected(true) && !w.ongoing.cancel_requested && o.job->0.param
                == j.param
            &&& o.job is Some && o.job->0.stage is SecretKey ==> j.stage is BeforeKey && ev
                == EventView::Continue && o.job->0.param == j.param
            &&& o.job is None && o.progress.last() == 1000 ==> j.stage is SecretKey && ev
                == EventView::SecretKey(true)
        }),
{
    lemma_step(j, w, ev);
}

/// In every run that ends with success, what is kept under `configured_`
/// is complete. `answers` are the answers of the whole run, the last of
/// them the one that ends it. The table could be written when the settings
/// were written down, and between the last three calls the caller left
/// alone what is kept under `configured_`. Then the settings kept there at
/// the end are those with which the run selected the inbox: they have the
/// address, every server, port and password, and one flag of each group;
/// and they have both user names unless the run has shortened one to
/// nothing, which it does only to a name that begins with `@`.
pub proof fn lemma_successful_run_is_complete(j: JobView, answers: Seq<(World, EventView)>)
    requires
        job_wf(j),
        answers.len() >= 3,
        run_after(j, answers.drop_last()) is Some,
        call_of(j, answers, answers.len() - 1).job is None,
        call_of(j, answers, answers.len() - 1).progress.last() == 1000,
        answers[answers.len() - 3].0.writable,
        param_in(answers[answers.len() - 2].0.config, "configured_"@) == param_in(
            call_of(j, answers, answers.len() - 3).config,
            "configured_"@,
        ),
        param_in(answers[answers.len() - 1].0.config, "configured_"@) == param_in(
            call_of(j, answers, answers.len() - 2).config,
            "configured_"@,
        ),
    ensures
        ({
            let kept = param_in(call_of(j, answers, answers.len() - 1).config, "configured_"@);
            &&& kept == run_after(j, answers.subrange(0, answers.len() - 3))->0.param
            &&& kept.addr.len() > 0
            &&& settled(kept)
            &&& users_there(kept) ==> is_complete(kept)
        }),
{
    let n = answers.len() as int;
    let a1 = answers.subrange(0, n - 1);
    let a2 = answers.subrange(0, n - 2);
    let a3 = answers.subrange(0, n - 3);
    assert(a1 =~= answers.drop_last());
    assert(a2 =~= a1.drop_last());
    assert(a3 =~= a2.drop_last());
    assert(a1.last() == answers[n - 2]);
    assert(a2.last() == answers[n - 3]);
    lemma_run_stays_well(j, a1);
    lemma_run_stays_well(j, a2);
    lemma_run_stays_well(j, a3);
    let b1 = run_after(j, a1)->0;
    lemma_way_to_success(b1, answers[n - 1].0, answers[n - 1].1);
    let b2 = run_after(j, a2)->0;
    lemma_way_to_success(b2, answers[n - 2].0, answers[n - 2].1);
    let b3 = run_after(j, a3)->0;
    lemma_way_to_success(b3, answers[n - 3].0, answers[n - 3].1);
    lemma_persisted_settings_complete(b3, answers[n - 3].0);
    lemma_success_keeps_verified_settings(b2, answers[n - 2].0, answers[n - 2].1);
    lemma_success_keeps_verified_settings(b1, answers[n - 1].0, answers[n - 1].1);
}

} // verus!
