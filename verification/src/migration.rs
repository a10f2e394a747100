//! What opening a database has to do to it: create its tables where it is
//! new, and run the changes of every version that it has not seen yet.

use vstd::prelude::*;
use crate::decimal::{decimal, format_i32, lemma_parse_decimal_of_decimal};
use crate::schema::{
    applied, required_tables, required_tables_spec, statements, statements_spec, strs_view,
    version_at, version_of, CURRENT_VERSION, VERSION_COUNT,
};
use crate::sql::{int_of, pairs_view, Error};

verus! {

/// The stored value of the setting `show_emails` that shows all mails.
pub const SHOW_EMAILS_ALL: i32 = 2;

/// The changes of one version: statements for the database to run, then
/// settings to write to its configuration table.
pub struct MigrationStep {
    /// The version that the database has once the step is done; 0 for the
    /// creation of a new database.
    pub version: i32,
    /// The statements, in the order in which they run.
    pub statements: Vec<&'static str>,
    /// The settings to write after the statements, as key and value.
    pub settings: Vec<(String, String)>,
    /// The tables that must exist after the statements.
    pub required_tables: Vec<&'static str>,
}

pub struct MigrationStepView {
    pub version: int,
    pub statements: Seq<Seq<char>>,
    pub settings: Seq<(Seq<char>, Seq<char>)>,
    pub required_tables: Seq<Seq<char>>,
}

impl View for MigrationStep {
    type V = MigrationStepView;

    open spec fn view(&self) -> MigrationStepView {
        MigrationStepView {
            version: self.version as int,
            statements: strs_view(self.statements@),
            settings: pairs_view(self.settings@),
            required_tables: strs_view(self.required_tables@),
        }
    }
}

/// All that opening a database for writing has to do.
pub struct OpenPlan {
    /// The steps, oldest version first.
    pub steps: Vec<MigrationStep>,
    /// Whether the fingerprints of the stored peer keys are to be computed
    /// again once the steps are done.
    pub recalc_fingerprints: bool,
    /// Whether the icons of the built-in chats are to be written again once
    /// the steps are done.
    pub update_icons: bool,
}

pub struct OpenPlanView {
    pub steps: Seq<MigrationStepView>,
    pub recalc_fingerprints: bool,
    pub update_icons: bool,
}

/// The steps as their views.
pub open spec fn steps_view(steps: Seq<MigrationStep>) -> Seq<MigrationStepView> {
    steps.map_values(|s: MigrationStep| s@)
}

impl View for OpenPlan {
    type V = OpenPlanView;

    open spec fn view(&self) -> OpenPlanView {
        OpenPlanView {
            steps: steps_view(self.steps@),
            recalc_fingerprints: self.recalc_fingerprints,
            update_icons: self.update_icons,
        }
    }
}

/// The setting that records `version` as the version of the database.
pub open spec fn version_setting(version: int) -> (Seq<char>, Seq<char>) {
    ("dbversion"@, decimal(version))
}

/// The settings that the step of `version` writes. A database that was there
/// before keeps showing all mails when it passes version 50, and gets
/// `bcc_self` switched on when it passes version 59 without a value for it.
pub open spec fn settings_spec(
    version: int,
    existed: bool,
    bcc_self_unset: bool,
) -> Seq<(Seq<char>, Seq<char>)> {
    if version == 50 && existed {
        seq![("show_emails"@, decimal(SHOW_EMAILS_ALL as int)), version_setting(version)]
    } else if version == 59 && existed && bcc_self_unset {
        seq![("bcc_self"@, decimal(1)), version_setting(version)]
    } else {
        seq![version_setting(version)]
    }
}

/// The step of `version`.
pub open spec fn step_spec(version: int, existed: bool, bcc_self_unset: bool) -> MigrationStepView {
    MigrationStepView {
        version,
        statements: statements_spec(version),
        settings: settings_spec(version, existed, bcc_self_unset),
        required_tables: if version == 0 {
            required_tables_spec()
        } else {
            Seq::empty()
        },
    }
}

/// The steps of every version above `dbversion`, oldest first.
pub open spec fn pending_spec(
    dbversion: int,
    existed: bool,
    bcc_self_unset: bool,
) -> Seq<MigrationStepView> {
    Seq::new(
        (VERSION_COUNT - applied(dbversion)) as nat,
        |j: int| step_spec(version_at(applied(dbversion) + j), existed, bcc_self_unset),
    )
}

/// What opening for writing has to do. `stored` is `None` for a database
/// without a configuration table, which is new; else it is the version found
/// in that table. `bcc_self_unset` says that the table holds no number for
/// `bcc_self`.
pub open spec fn plan_spec(stored: Option<int>, bcc_self_unset: bool) -> OpenPlanView {
    match stored {
        Some(dbversion) => OpenPlanView {
            steps: pending_spec(dbversion, true, bcc_self_unset),
            recalc_fingerprints: dbversion < 34,
            update_icons: dbversion < 61,
        },
        None => OpenPlanView {
            steps: seq![step_spec(0, false, bcc_self_unset)] + pending_spec(
                0,
                false,
                bcc_self_unset,
            ),
            recalc_fingerprints: true,
            update_icons: true,
        },
    }
}

/// The table `m` after the settings were written to it, one after the other.
pub open spec fn settings_applied(
    m: Map<Seq<char>, Seq<char>>,
    settings: Seq<(Seq<char>, Seq<char>)>,
) -> Map<Seq<char>, Seq<char>>
    decreases settings.len(),
{
    if settings.len() == 0 {
        m
    } else {
        settings_applied(m, settings.drop_last()).insert(settings.last().0, settings.last().1)
    }
}

/// The table `m` after the settings of every step were written to it.
pub open spec fn plan_applied(
    m: Map<Seq<char>, Seq<char>>,
    steps: Seq<MigrationStepView>,
) -> Map<Seq<char>, Seq<char>>
    decreases steps.len(),
{
    if steps.len() == 0 {
        m
    } else {
        settings_applied(plan_applied(m, steps.drop_last()), steps.last().settings)
    }
}

/// The version that a configuration table records: the number under
/// `dbversion`, or 0 where it holds none.
pub open spec fn version_in(m: Map<Seq<char>, Seq<char>>) -> int {
    match int_of(m, "dbversion"@) {
        Some(v) => v as int,
        None => 0,
    }
}

/// How many of the versions are not above `dbversion`.
pub fn applied_count(dbversion: i32) -> (k: usize)
    ensures
        k == applied(dbversion as int),
        k <= VERSION_COUNT,
{
    let mut k: usize = 0;
    while k < VERSION_COUNT && version_of(k) <= dbversion
        invariant
            k <= VERSION_COUNT,
            forall|i: int| 0 <= i < k ==> version_at(i) <= dbversion,
        decreases VERSION_COUNT - k,
    {
        k += 1;
    }
    proof {
        if k > 0 {
            assert(version_at(k - 1) <= dbversion);
        }
    }
    k
}

/// The settings that the step of `version` writes.
fn settings_for(version: i32, existed: bool, bcc_self_unset: bool) -> (r: Vec<(String, String)>)
    ensures
        pairs_view(r@) == settings_spec(version as int, existed, bcc_self_unset),
{
    let mut r: Vec<(String, String)> = Vec::new();
    if version == 50 && existed {
        r.push(("show_emails".to_owned(), format_i32(SHOW_EMAILS_ALL)));
    } else if version == 59 && existed && bcc_self_unset {
        r.push(("bcc_self".to_owned(), format_i32(1)));
    }
    r.push(("dbversion".to_owned(), format_i32(version)));
    assert(pairs_view(r@) =~= settings_spec(version as int, existed, bcc_self_unset));
    r
}

/// The step of `version`.
pub fn step_for(version: i32, existed: bool, bcc_self_unset: bool) -> (r: MigrationStep)
    ensures
        r@ == step_spec(version as int, existed, bcc_self_unset),
{
    let required: Vec<&'static str> = if version == 0 {
        required_tables()
    } else {
        Vec::new()
    };
    let r = MigrationStep {
        version,
        statements: statements(version),
        settings: settings_for(version, existed, bcc_self_unset),
        required_tables: required,
    };
    assert(r@.required_tables =~= step_spec(version as int, existed, bcc_self_unset).required_tables);
    r
}

/// What opening for writing has to do: see `plan_spec`.
pub fn plan_for(stored: Option<i32>, bcc_self_unset: bool) -> (r: OpenPlan)
    ensures
        r@ == plan_spec(
            match stored {
                Some(v) => Some(v as int),
                None => None,
            },
            bcc_self_unset,
        ),
{
    let existed = stored.is_some();
    let dbversion: i32 = match stored {
        Some(v) => v,
        None => 0,
    };
    let mut steps: Vec<MigrationStep> = Vec::new();
    if !existed {
        steps.push(step_for(0, false, bcc_self_unset));
    }
    let ghost head = steps_view(steps@);
    let first = applied_count(dbversion);
    let mut k: usize = first;
    assert(steps_view(steps@) =~= head + pending_spec(
        dbversion as int,
        existed,
        bcc_self_unset,
    ).subrange(0, 0));
    while k < VERSION_COUNT
        invariant
            first <= k <= VERSION_COUNT,
            first == applied(dbversion as int),
            steps_view(steps@) == head + pending_spec(
                dbversion as int,
                existed,
                bcc_self_unset,
            ).subrange(0, k - first),
        decreases VERSION_COUNT - k,
    {
        let ghost before = steps_view(steps@);
        let step = step_for(version_of(k), existed, bcc_self_unset);
        steps.push(step);
        proof {
            let pending = pending_spec(dbversion as int, existed, bcc_self_unset);
            assert(steps_view(steps@) =~= before.push(step@));
            assert(pending[k - first] == step@);
            assert(pending.subrange(0, k - first + 1) =~= pending.subrange(0, k - first).push(
                step@,
            ));
            assert(head + pending.subrange(0, k - first + 1) =~= (head + pending.subrange(
                0,
                k - first,
            )).push(step@));
        }
        k += 1;
    }
    proof {
        let pending = pending_spec(dbversion as int, existed, bcc_self_unset);
        assert(pending.subrange(0, k - first) =~= pending);
        if existed {
            assert(head + pending =~= pending);
        } else {
            assert(head =~= seq![step_spec(0, false, bcc_self_unset)]);
        }
    }
    OpenPlan {
        steps,
        recalc_fingerprints: !existed || dbversion < 34,
        update_icons: !existed || dbversion < 61,
    }
}

/// Whether the tables of a new database are there: `present` holds, for each
/// required table, whether the database has it.
pub fn tables_created(present: &Vec<bool>) -> (r: Result<(), Error>)
    ensures
        r is Ok <==> forall|i: int| 0 <= i < present@.len() ==> present@[i],
        r is Err ==> r->Err_0 is SqlFailedToOpen,
{
    let mut i: usize = 0;
    while i < present.len()
        invariant
            i <= present@.len(),
            forall|j: int| 0 <= j < i ==> present@[j],
        decreases present@.len() - i,
    {
        if !present[i] {
            return Err(Error::SqlFailedToOpen);
        }
        i += 1;
    }
    Ok(())
}

/// Once the steps are done, the table records the current version.
pub proof fn lemma_plan_records_current_version(
    m: Map<Seq<char>, Seq<char>>,
    stored: Option<int>,
    bcc_self_unset: bool,
)
    requires
        stored is Some ==> stored->0 < CURRENT_VERSION,
    ensures
        plan_spec(stored, bcc_self_unset).steps.len() > 0,
        plan_spec(stored, bcc_self_unset).steps.last().version == CURRENT_VERSION,
        version_in(plan_applied(m, plan_spec(stored, bcc_self_unset).steps)) == CURRENT_VERSION,
{
    let steps = plan_spec(stored, bcc_self_unset).steps;
    let last = steps.last();
    assert(last == step_spec(CURRENT_VERSION as int, stored is Some, bcc_self_unset));
    let before = plan_applied(m, steps.drop_last());
    assert(last.settings.drop_last() =~= Seq::empty());
    assert(settings_applied(before, last.settings.drop_last()) == before);
    assert(plan_applied(m, steps) == before.insert(
        "dbversion"@,
        decimal(CURRENT_VERSION as int),
    ));
    reveal_strlit("dbversion");
    lemma_parse_decimal_of_decimal(CURRENT_VERSION as int);
}

/// Opening is idempotent: a database that was opened for writing, with all
/// steps done, has nothing left to do when it is opened again, and its table
/// stays as it is. `m` is the table as it was read at the first opening and
/// `stored` what was found in it.
pub proof fn lemma_open_twice(
    m: Map<Seq<char>, Seq<char>>,
    stored: Option<int>,
    bcc_self_unset: bool,
    bcc_self_unset_again: bool,
)
    requires
        stored is Some ==> stored->0 == version_in(m),
    ensures
        ({
            let after = plan_applied(m, plan_spec(stored, bcc_self_unset).steps);
            let again = plan_spec(Some(version_in(after)), bcc_self_unset_again);
            &&& version_in(after) >= CURRENT_VERSION
            &&& again.steps.len() == 0
            &&& !again.recalc_fingerprints
            &&& !again.update_icons
            &&& plan_applied(after, again.steps) == after
        }),
{
    if stored is Some && stored->0 >= CURRENT_VERSION {
        assert(plan_spec(stored, bcc_self_unset).steps.len() == 0);
    } else {
        lemma_plan_records_current_version(m, stored, bcc_self_unset);
    }
}

} // verus!
