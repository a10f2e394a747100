//! The configuration table of the database, as the rest of the library reads
//! and writes it: a mapping from key names to text values, with accessors for
//! numbers and flags stored as text.

use vstd::prelude::*;
use crate::decimal::{
    decimal, format_i32, format_i64, parse_i32, parse_i32_spec, parse_i64, parse_i64_spec,
};
use crate::migration::{
    plan_applied, plan_for, plan_spec, settings_applied, steps_view, version_in, MigrationStep,
    OpenPlan, OpenPlanView,
};
use crate::text::{join3, str_eq};

verus! {

/// What can go wrong at the database.
#[derive(Debug)]
pub enum Error {
    /// The database engine refused a statement; its message.
    Sql(String),
    /// No connection could be had from the pool; its message.
    ConnectionPool(String),
    /// The database is not open.
    SqlNoConnection,
    /// The database is open already.
    SqlAlreadyOpen,
    /// The tables of a new database could not be created.
    SqlFailedToOpen,
    /// Reading or writing a file failed; the message.
    Io(String),
    /// A blob could not be handled; the message.
    BlobError(String),
}

/// How a query for one value of one row ended.
#[derive(Debug)]
pub enum QueryOutcome {
    /// The row was there and held this value.
    Value(String),
    /// The query returned no row.
    NoRows,
    /// The row was there and held SQL `NULL`.
    Null,
    /// The query failed.
    Failed(Error),
}

/// One row of the configuration table.
struct ConfigRow {
    keyname: String,
    value: String,
}

/// The rows as pairs of key and value.
spec fn rows_view(rows: Seq<ConfigRow>) -> Seq<(Seq<char>, Seq<char>)> {
    rows.map_values(|r: ConfigRow| (r.keyname@, r.value@))
}

/// The mapping that a table stands for. Where a key occurs in several rows,
/// the first of them counts.
pub open spec fn table_map(rows: Seq<(Seq<char>, Seq<char>)>) -> Map<Seq<char>, Seq<char>>
    decreases rows.len(),
{
    if rows.len() == 0 {
        Map::empty()
    } else {
        table_map(rows.drop_first()).insert(rows[0].0, rows[0].1)
    }
}

/// No key occurs in two rows.
pub open spec fn keys_unique(rows: Seq<(Seq<char>, Seq<char>)>) -> bool {
    forall|i: int, j: int| 0 <= i < j < rows.len() ==> rows[i].0 != rows[j].0
}

/// No row has the key `key`.
pub open spec fn key_absent(rows: Seq<(Seq<char>, Seq<char>)>, key: Seq<char>) -> bool {
    forall|i: int| 0 <= i < rows.len() ==> (#[trigger] rows[i]).0 != key
}

proof fn lemma_table_map_absent(rows: Seq<(Seq<char>, Seq<char>)>, key: Seq<char>)
    requires
        key_absent(rows, key),
    ensures
        !table_map(rows).dom().contains(key),
    decreases rows.len(),
{
    if rows.len() > 0 {
        let rest = rows.drop_first();
        assert forall|i: int| 0 <= i < rest.len() implies (#[trigger] rest[i]).0 != key by {
            assert(rest[i] == rows[i + 1]);
        }
        lemma_table_map_absent(rest, key);
        assert(rows[0].0 != key);
    }
}

proof fn lemma_table_map_first(rows: Seq<(Seq<char>, Seq<char>)>, i: int)
    requires
        0 <= i < rows.len(),
        key_absent(rows.subrange(0, i), rows[i].0),
    ensures
        table_map(rows).dom().contains(rows[i].0),
        table_map(rows)[rows[i].0] == rows[i].1,
    decreases rows.len(),
{
    if i > 0 {
        let rest = rows.drop_first();
        assert(rows.subrange(0, i)[0] == rows[0]);
        assert(rows[0].0 != rows[i].0);
        assert forall|j: int| 0 <= j < i - 1 implies (#[trigger] rest.subrange(0, i - 1)[j]).0
            != rest[i - 1].0 by {
            assert(rest.subrange(0, i - 1)[j] == rows.subrange(0, i)[j + 1]);
        }
        lemma_table_map_first(rest, i - 1);
    }
}

/// A row added at the end counts only where its key was not there before.
pub proof fn lemma_table_map_push(rows: Seq<(Seq<char>, Seq<char>)>, k: Seq<char>, v: Seq<char>)
    ensures
        table_map(rows.push((k, v))) == if table_map(rows).dom().contains(k) {
            table_map(rows)
        } else {
            table_map(rows).insert(k, v)
        },
    decreases rows.len(),
{
    let ext = rows.push((k, v));
    if rows.len() == 0 {
        assert(ext.drop_first() =~= rows);
        assert(ext[0] == (k, v));
        assert(table_map(rows) =~= Map::<Seq<char>, Seq<char>>::empty());
        assert(table_map(ext) =~= table_map(rows).insert(k, v));
    } else {
        let rest = rows.drop_first();
        lemma_table_map_push(rest, k, v);
        assert(ext.drop_first() =~= rest.push((k, v)));
        assert(ext[0] == rows[0]);
        if table_map(rows).dom().contains(k) {
            assert(table_map(ext) =~= table_map(rows));
        } else {
            assert(table_map(ext) =~= table_map(rows).insert(k, v));
        }
    }
}

proof fn lemma_table_map_update(rows: Seq<(Seq<char>, Seq<char>)>, i: int, v: Seq<char>)
    requires
        0 <= i < rows.len(),
        keys_unique(rows),
    ensures
        table_map(rows.update(i, (rows[i].0, v))) == table_map(rows).insert(rows[i].0, v),
        keys_unique(rows.update(i, (rows[i].0, v))),
    decreases rows.len(),
{
    let k = rows[i].0;
    let upd = rows.update(i, (k, v));
    let rest = rows.drop_first();
    assert forall|a: int, b: int| 0 <= a < b < rest.len() implies rest[a].0 != rest[b].0 by {
        assert(rest[a] == rows[a + 1] && rest[b] == rows[b + 1]);
    }
    if i == 0 {
        assert(upd.drop_first() =~= rest);
        assert(table_map(upd) =~= table_map(rows).insert(k, v));
    } else {
        lemma_table_map_update(rest, i - 1, v);
        assert(upd.drop_first() =~= rest.update(i - 1, (k, v)));
        assert(upd[0] == rows[0]);
        assert(rows[0].0 != k);
        assert(table_map(upd) =~= table_map(rows).insert(k, v));
    }
}

proof fn lemma_table_map_remove(rows: Seq<(Seq<char>, Seq<char>)>, i: int)
    requires
        0 <= i < rows.len(),
        keys_unique(rows),
    ensures
        table_map(rows.remove(i)) == table_map(rows).remove(rows[i].0),
        keys_unique(rows.remove(i)),
    decreases rows.len(),
{
    let k = rows[i].0;
    let cut = rows.remove(i);
    let rest = rows.drop_first();
    assert forall|a: int, b: int| 0 <= a < b < rest.len() implies rest[a].0 != rest[b].0 by {
        assert(rest[a] == rows[a + 1] && rest[b] == rows[b + 1]);
    }
    if i == 0 {
        assert(cut =~= rest);
        assert forall|j: int| 0 <= j < rest.len() implies (#[trigger] rest[j]).0 != k by {
            assert(rest[j] == rows[j + 1]);
        }
        lemma_table_map_absent(rest, k);
        assert(table_map(cut) =~= table_map(rows).remove(k));
    } else {
        lemma_table_map_remove(rest, i - 1);
        assert(cut.drop_first() =~= rest.remove(i - 1));
        assert(cut[0] == rows[0]);
        assert(rows[0].0 != k);
        assert(table_map(cut) =~= table_map(rows).remove(k));
    }
}

/// The value that a table holds for `key`; an empty key has none.
pub open spec fn raw_of(m: Map<Seq<char>, Seq<char>>, key: Seq<char>) -> Option<Seq<char>> {
    if key.len() > 0 && m.dom().contains(key) {
        Some(m[key])
    } else {
        None
    }
}

/// The value that a table holds for `key`, read as a number of 32 bits.
pub open spec fn int_of(m: Map<Seq<char>, Seq<char>>, key: Seq<char>) -> Option<i32> {
    match raw_of(m, key) {
        Some(v) => parse_i32_spec(v),
        None => None,
    }
}

/// The value that a table holds for `key`, read as a number of 64 bits.
pub open spec fn int64_of(m: Map<Seq<char>, Seq<char>>, key: Seq<char>) -> Option<i64> {
    match raw_of(m, key) {
        Some(v) => parse_i64_spec(v),
        None => None,
    }
}

/// The value that a table holds for `key`, read as a flag: a number above
/// zero is `true`, anything else `false`.
pub open spec fn bool_of(m: Map<Seq<char>, Seq<char>>, key: Seq<char>) -> bool {
    match int_of(m, key) {
        Some(v) => v > 0,
        None => false,
    }
}

/// One write to the configuration table: the new value of a key, or `None`
/// where the key was deleted.
#[derive(Debug)]
pub struct ConfigChange {
    pub keyname: String,
    pub value: Option<String>,
}

/// The view of a text that may be missing.
pub open spec fn value_view(v: Option<String>) -> Option<Seq<char>> {
    match v {
        Some(v) => Some(v@),
        None => None,
    }
}

/// The writes as pairs of key and new value.
pub open spec fn changes_view(changes: Seq<ConfigChange>) -> Seq<(Seq<char>, Option<Seq<char>>)> {
    changes.map_values(|c: ConfigChange| (c.keyname@, value_view(c.value)))
}

/// The table `m` after one write.
pub open spec fn changed(
    m: Map<Seq<char>, Seq<char>>,
    key: Seq<char>,
    value: Option<Seq<char>>,
) -> Map<Seq<char>, Seq<char>> {
    match value {
        Some(v) => m.insert(key, v),
        None => m.remove(key),
    }
}

/// The table `m` after the writes, one after the other.
pub open spec fn replayed(
    m: Map<Seq<char>, Seq<char>>,
    changes: Seq<(Seq<char>, Option<Seq<char>>)>,
) -> Map<Seq<char>, Seq<char>>
    decreases changes.len(),
{
    if changes.len() == 0 {
        m
    } else {
        changed(replayed(m, changes.drop_last()), changes.last().0, changes.last().1)
    }
}

/// The view of a text that may be missing.
pub open spec fn text_view(v: Option<&str>) -> Option<Seq<char>> {
    match v {
        Some(v) => Some(v@),
        None => None,
    }
}

/// The configuration table of one database, and whether the database is
/// open. The table is kept in memory; what is written to it is noted, so
/// that the database can be brought up to it.
pub struct Sql {
    open: bool,
    readonly: bool,
    rows: Vec<ConfigRow>,
    pending: Vec<ConfigChange>,
    flushed: Ghost<Map<Seq<char>, Seq<char>>>,
}

impl Sql {
    /// The table holds no key twice, a closed database shows no rows, and
    /// the noted writes lead from the table of the database to this one.
    pub closed spec fn wf(&self) -> bool {
        &&& keys_unique(rows_view(self.rows@))
        &&& !self.open ==> self.rows@.len() == 0 && !self.readonly && self.pending@.len() == 0
        &&& replayed(self.flushed@, changes_view(self.pending@)) == table_map(rows_view(self.rows@))
    }

    /// The table as the database holds it: as it was when the database was
    /// opened, or when the noted writes were last taken.
    pub closed spec fn flushed(&self) -> Map<Seq<char>, Seq<char>> {
        self.flushed@
    }

    /// The writes since then, oldest first.
    pub closed spec fn pending(&self) -> Seq<(Seq<char>, Option<Seq<char>>)> {
        changes_view(self.pending@)
    }

    /// The same database at a later time: still well-formed, open or closed
    /// as before, and with nothing taken from its noted writes.
    pub open spec fn follows(&self, earlier: Sql) -> bool {
        &&& self.wf()
        &&& self.opened() == earlier.opened()
        &&& self.read_only() == earlier.read_only()
        &&& self.flushed() == earlier.flushed()
    }

    /// The noted writes lead from the table of the database to this one.
    pub proof fn lemma_pending_leads_to_config(&self)
        requires
            self.wf(),
        ensures
            replayed(self.flushed(), self.pending()) == self.config(),
    {
    }

    /// Whether the database is open.
    pub closed spec fn opened(&self) -> bool {
        self.open
    }

    /// Whether the database was opened for reading only.
    pub closed spec fn read_only(&self) -> bool {
        self.readonly
    }

    /// The configuration table: each key with its value.
    pub closed spec fn config(&self) -> Map<Seq<char>, Seq<char>> {
        table_map(rows_view(self.rows@))
    }

    /// What `get_raw_config` returns for `key`.
    pub open spec fn raw(&self, key: Seq<char>) -> Option<Seq<char>> {
        raw_of(self.config(), key)
    }

    /// What `get_raw_config_int` returns for `key`.
    pub open spec fn raw_int(&self, key: Seq<char>) -> Option<i32> {
        int_of(self.config(), key)
    }

    /// What `get_raw_config_int64` returns for `key`.
    pub open spec fn raw_int64(&self, key: Seq<char>) -> Option<i64> {
        int64_of(self.config(), key)
    }

    /// What `get_raw_config_bool` returns for `key`.
    pub open spec fn raw_bool(&self, key: Seq<char>) -> bool {
        bool_of(self.config(), key)
    }

    /// A closed database shows an empty table.
    pub proof fn lemma_closed_is_empty(&self)
        requires
            self.wf(),
            !self.opened(),
        ensures
            self.config() == Map::<Seq<char>, Seq<char>>::empty(),
            !self.read_only(),
    {
        assert(rows_view(self.rows@) =~= Seq::empty());
    }

    /// A database that is not open yet.
    pub fn new() -> (r: Sql)
        ensures
            r.wf(),
            !r.opened(),
            !r.read_only(),
            r.config() == Map::<Seq<char>, Seq<char>>::empty(),
            r.pending().len() == 0,
    {
        let r = Sql {
            open: false,
            readonly: false,
            rows: Vec::new(),
            pending: Vec::new(),
            flushed: Ghost(Map::empty()),
        };
        assert(rows_view(r.rows@) =~= Seq::empty());
        assert(r.config() =~= Map::<Seq<char>, Seq<char>>::empty());
        r
    }

    pub fn is_open(&self) -> (r: bool)
        ensures
            r == self.opened(),
    {
        self.open
    }

    /// Closes the database. Its table is no longer seen, and writes that
    /// were noted and not taken are forgotten.
    pub fn close(&mut self)
        ensures
            final(self).wf(),
            !final(self).opened(),
            !final(self).read_only(),
            final(self).config() == Map::<Seq<char>, Seq<char>>::empty(),
            final(self).pending().len() == 0,
    {
        self.open = false;
        self.readonly = false;
        self.rows = Vec::new();
        self.pending = Vec::new();
        self.flushed = Ghost(Map::empty());
        assert(rows_view(self.rows@) =~= Seq::empty());
        assert(self.config() =~= Map::<Seq<char>, Seq<char>>::empty());
    }

    /// Hands out the writes that were noted since the database was opened
    /// or since they were last taken, oldest first, for the caller to carry
    /// out on the database. Carried out one after the other on the table as
    /// the database held it, they lead to the table as it is here.
    pub fn take_changes(&mut self) -> (r: Vec<ConfigChange>)
        requires
            old(self).wf(),
        ensures
            final(self).wf(),
            final(self).opened() == old(self).opened(),
            final(self).read_only() == old(self).read_only(),
            final(self).config() == old(self).config(),
            changes_view(r@) == old(self).pending(),
            replayed(old(self).flushed(), changes_view(r@)) == old(self).config(),
            final(self).pending().len() == 0,
            final(self).flushed() == final(self).config(),
    {
        let mut taken: Vec<ConfigChange> = Vec::new();
        std::mem::swap(&mut taken, &mut self.pending);
        self.flushed = Ghost(self.config());
        taken
    }

    /// The position of the row with the key `key`.
    fn find(&self, key: &str) -> (r: Option<usize>)
        requires
            keys_unique(rows_view(self.rows@)),
        ensures
            match r {
                Some(i) => i < self.rows@.len() && self.rows@[i as int].keyname@ == key@
                    && self.config().dom().contains(key@) && self.config()[key@]
                    == self.rows@[i as int].value@,
                None => !self.config().dom().contains(key@) && key_absent(
                    rows_view(self.rows@),
                    key@,
                ),
            },
    {
        let ghost view = rows_view(self.rows@);
        let mut i: usize = 0;
        while i < self.rows.len()
            invariant
                i <= self.rows@.len(),
                view == rows_view(self.rows@),
                key_absent(view.subrange(0, i as int), key@),
            decreases self.rows@.len() - i,
        {
            if str_eq(self.rows[i].keyname.as_str(), key) {
                proof {
                    assert(view[i as int].0 == key@);
                    lemma_table_map_first(view, i as int);
                }
                return Some(i);
            }
            proof {
                let a = view.subrange(0, i as int);
                let b = view.subrange(0, i + 1);
                assert forall|j: int| 0 <= j < b.len() implies (#[trigger] b[j]).0 != key@ by {
                    if j < i {
                        assert(b[j] == a[j]);
                    }
                }
            }
            i += 1;
        }
        proof {
            assert(view.subrange(0, i as int) =~= view);
            lemma_table_map_absent(view, key@);
        }
        None
    }

    /// Writes `value` under `key`, in the row that has the key or in a new one.
    fn put(&mut self, key: &str, value: &str)
        requires
            keys_unique(rows_view(old(self).rows@)),
        ensures
            keys_unique(rows_view(final(self).rows@)),
            final(self).open == old(self).open,
            final(self).readonly == old(self).readonly,
            final(self).pending == old(self).pending,
            final(self).flushed == old(self).flushed,
            final(self).config() == old(self).config().insert(key@, value@),
    {
        let ghost before = rows_view(self.rows@);
        match self.find(key) {
            Some(i) => {
                self.rows.set(i, ConfigRow { keyname: key.to_owned(), value: value.to_owned() });
                proof {
                    lemma_table_map_update(before, i as int, value@);
                    assert(rows_view(self.rows@) =~= before.update(i as int, (key@, value@)));
                }
            },
            None => {
                self.rows.push(ConfigRow { keyname: key.to_owned(), value: value.to_owned() });
                proof {
                    let after = rows_view(self.rows@);
                    assert(after =~= before.push((key@, value@)));
                    lemma_table_map_push(before, key@, value@);
                    assert forall|a: int, b: int| 0 <= a < b < after.len() implies after[a].0
                        != after[b].0 by {
                        if b == after.len() - 1 {
                            assert(after[a] == before[a]);
                        } else {
                            assert(after[a] == before[a] && after[b] == before[b]);
                        }
                    }
                }
            },
        }
    }

    /// Takes the rows of a table as the database returned them. Where a key
    /// occurs in several rows, the first of them counts.
    fn load(&mut self, table: &Vec<(String, String)>)
        requires
            old(self).rows@.len() == 0,
        ensures
            keys_unique(rows_view(final(self).rows@)),
            final(self).open == old(self).open,
            final(self).readonly == old(self).readonly,
            final(self).pending == old(self).pending,
            final(self).flushed == old(self).flushed,
            final(self).config() == table_map(pairs_view(table@)),
    {
        let ghost input = pairs_view(table@);
        assert(rows_view(self.rows@) =~= Seq::empty());
        assert(input.subrange(0, 0) =~= Seq::empty());
        let mut i: usize = 0;
        while i < table.len()
            invariant
                i <= table@.len(),
                input == pairs_view(table@),
                self.open == old(self).open,
                self.readonly == old(self).readonly,
                self.pending == old(self).pending,
                self.flushed == old(self).flushed,
                keys_unique(rows_view(self.rows@)),
                table_map(rows_view(self.rows@)) == table_map(input.subrange(0, i as int)),
            decreases table@.len() - i,
        {
            let key = table[i].0.as_str();
            let value = table[i].1.as_str();
            proof {
                assert(input.subrange(0, i + 1) =~= input.subrange(0, i as int).push(
                    input[i as int],
                ));
                assert(input[i as int] == (key@, value@));
                lemma_table_map_push(input.subrange(0, i as int), key@, value@);
            }
            if self.find(key).is_none() {
                self.put(key, value);
            }
            i += 1;
        }
        assert(input.subrange(0, i as int) =~= input);
    }

    /// Whether a database that failed to open with `error` is to be closed:
    /// it is, unless it failed because it was open already.
    pub fn open_error_closes(error: &Error) -> (r: bool)
        ensures
            r == !(error is SqlAlreadyOpen),
    {
        match error {
            Error::SqlAlreadyOpen => false,
            _ => true,
        }
    }

    /// Writes the settings, one after the other.
    fn apply_settings(&mut self, settings: &Vec<(String, String)>)
        requires
            keys_unique(rows_view(old(self).rows@)),
        ensures
            keys_unique(rows_view(final(self).rows@)),
            final(self).open == old(self).open,
            final(self).readonly == old(self).readonly,
            final(self).pending == old(self).pending,
            final(self).flushed == old(self).flushed,
            final(self).config() == settings_applied(old(self).config(), pairs_view(settings@)),
    {
        let ghost all = pairs_view(settings@);
        assert(all.subrange(0, 0) =~= Seq::empty());
        let mut j: usize = 0;
        while j < settings.len()
            invariant
                j <= settings@.len(),
                all == pairs_view(settings@),
                keys_unique(rows_view(self.rows@)),
                self.open == old(self).open,
                self.readonly == old(self).readonly,
                self.pending == old(self).pending,
                self.flushed == old(self).flushed,
                self.config() == settings_applied(old(self).config(), all.subrange(0, j as int)),
            decreases settings@.len() - j,
        {
            proof {
                let next = all.subrange(0, j + 1);
                assert(next.drop_last() =~= all.subrange(0, j as int));
                assert(next.last() == all[j as int]);
            }
            self.put(settings[j].0.as_str(), settings[j].1.as_str());
            j += 1;
        }
        assert(all.subrange(0, j as int) =~= all);
    }

    /// Writes the settings of every step.
    fn apply_steps(&mut self, steps: &Vec<MigrationStep>)
        requires
            keys_unique(rows_view(old(self).rows@)),
        ensures
            keys_unique(rows_view(final(self).rows@)),
            final(self).open == old(self).open,
            final(self).readonly == old(self).readonly,
            final(self).pending == old(self).pending,
            final(self).flushed == old(self).flushed,
            final(self).config() == plan_applied(old(self).config(), steps_view(steps@)),
    {
        let ghost all = steps_view(steps@);
        assert(all.subrange(0, 0) =~= Seq::empty());
        let mut i: usize = 0;
        while i < steps.len()
            invariant
                i <= steps@.len(),
                all == steps_view(steps@),
                keys_unique(rows_view(self.rows@)),
                self.open == old(self).open,
                self.readonly == old(self).readonly,
                self.pending == old(self).pending,
                self.flushed == old(self).flushed,
                self.config() == plan_applied(old(self).config(), all.subrange(0, i as int)),
            decreases steps@.len() - i,
        {
            proof {
                let next = all.subrange(0, i + 1);
                assert(next.drop_last() =~= all.subrange(0, i as int));
                assert(next.last() == all[i as int]);
                assert(all[i as int].settings == pairs_view(steps@[i as int].settings@));
            }
            self.apply_settings(&steps[i].settings);
            i += 1;
        }
        assert(all.subrange(0, i as int) =~= all);
    }

    /// Opens the database. `config_table` holds the rows of its
    /// configuration table as they were read, or `None` where it has no such
    /// table yet.
    ///
    /// A database that is open already is refused with `SqlAlreadyOpen` and
    /// stays as it is. Opened for reading only, the table is taken as it was
    /// read and nothing is left to do. Opened for writing, the result lists
    /// the steps that bring the database up to date, and the table shows the
    /// settings that those steps write.
    pub fn open(&mut self, config_table: Option<Vec<(String, String)>>, readonly: bool) -> (r:
        Result<OpenPlan, Error>)
        requires
            old(self).wf(),
        ensures
            final(self).wf(),
            r is Ok <==> !old(self).opened(),
            r is Err ==> {
                &&& r->Err_0 is SqlAlreadyOpen
                &&& final(self).follows(*old(self))
                &&& final(self).config() == old(self).config()
                &&& final(self).pending() == old(self).pending()
            },
            r is Ok ==> final(self).opened() && final(self).read_only() == readonly,
            r is Ok ==> final(self).pending().len() == 0,
            r is Ok ==> final(self).flushed() == final(self).config(),
            r is Ok ==> r->Ok_0@ == open_plan_spec(config_table, readonly),
            r is Ok ==> final(self).config() == plan_applied(
                loaded_config(config_table),
                r->Ok_0@.steps,
            ),
    {
        if self.open {
            return Err(Error::SqlAlreadyOpen);
        }
        self.open = true;
        self.readonly = readonly;
        assert(rows_view(self.rows@) =~= Seq::empty());
        let existed = config_table.is_some();
        match &config_table {
            Some(table) => {
                self.load(table);
            },
            None => {},
        }
        self.flushed = Ghost(self.config());
        assert(changes_view(self.pending@) =~= Seq::empty());
        if readonly {
            let plan = OpenPlan { steps: Vec::new(), recalc_fingerprints: false, update_icons: false };
            assert(plan@.steps =~= Seq::empty());
            return Ok(plan);
        }
        let stored: Option<i32> = if existed {
            match self.get_raw_config_int("dbversion") {
                Some(v) => Some(v),
                None => Some(0),
            }
        } else {
            None
        };
        let bcc_self_unset = self.get_raw_config_int("bcc_self").is_none();
        let plan = plan_for(stored, bcc_self_unset);
        self.apply_steps(&plan.steps);
        self.flushed = Ghost(self.config());
        Ok(plan)
    }

    /// What a query for one value means to a caller that can live without
    /// it: a missing row or a `NULL` is no value and no error.
    pub fn query_get_value_result(outcome: QueryOutcome) -> (r: Result<Option<String>, Error>)
        ensures
            match outcome {
                QueryOutcome::Value(v) => r == Ok::<Option<String>, Error>(Some(v)),
                QueryOutcome::NoRows => r == Ok::<Option<String>, Error>(None),
                QueryOutcome::Null => r == Ok::<Option<String>, Error>(None),
                QueryOutcome::Failed(e) => r == Err::<Option<String>, Error>(e),
            },
    {
        match outcome {
            QueryOutcome::Value(v) => Ok(Some(v)),
            QueryOutcome::NoRows => Ok(None),
            QueryOutcome::Null => Ok(None),
            QueryOutcome::Failed(e) => Err(e),
        }
    }

    /// As `query_get_value_result`, for a caller to whom a failed query is
    /// no value either.
    pub fn query_get_value(outcome: QueryOutcome) -> (r: Option<String>)
        ensures
            match outcome {
                QueryOutcome::Value(v) => r == Some(v),
                _ => r is None,
            },
    {
        match Sql::query_get_value_result(outcome) {
            Ok(v) => v,
            Err(_) => None,
        }
    }

    /// Sets the value of `key`, or deletes the key where `value` is `None`.
    /// A closed database refuses with `SqlNoConnection`, one opened for
    /// reading only with the engine's error; the table then stays as it was.
    pub fn set_raw_config(&mut self, key: &str, value: Option<&str>) -> (r: Result<(), Error>)
        requires
            old(self).wf(),
        ensures
            final(self).follows(*old(self)),
            !old(self).opened() ==> r == Err::<(), Error>(Error::SqlNoConnection),
            old(self).opened() && old(self).read_only() ==> r is Err && r->Err_0 is Sql,
            r is Ok <==> old(self).opened() && !old(self).read_only(),
            r is Err ==> final(self).config() == old(self).config() && final(self).pending()
                == old(self).pending(),
            r is Ok ==> final(self).config() == changed(old(self).config(), key@, text_view(value)),
            r is Ok ==> final(self).pending() == old(self).pending().push(
                (key@, text_view(value)),
            ),
    {
        if !self.open {
            return Err(Error::SqlNoConnection);
        }
        if self.readonly {
            return Err(Error::Sql("attempt to write a readonly database".to_owned()));
        }
        let ghost noted = changes_view(self.pending@);
        match value {
            Some(v) => {
                self.put(key, v);
                self.pending.push(ConfigChange { keyname: key.to_owned(), value: Some(v.to_owned()) });
            },
            None => {
                let ghost before = rows_view(self.rows@);
                match self.find(key) {
                    Some(i) => {
                        self.rows.remove(i);
                        proof {
                            lemma_table_map_remove(before, i as int);
                            assert(rows_view(self.rows@) =~= before.remove(i as int));
                        }
                    },
                    None => {
                        assert(self.config() =~= self.config().remove(key@));
                    },
                }
                self.pending.push(ConfigChange { keyname: key.to_owned(), value: None });
            },
        }
        proof {
            let now = changes_view(self.pending@);
            assert(now =~= noted.push((key@, text_view(value))));
            assert(now.drop_last() =~= noted);
        }
        Ok(())
    }

    /// The value of `key`. An empty key, a missing key and a closed database
    /// give `None`.
    pub fn get_raw_config(&self, key: &str) -> (r: Option<String>)
        requires
            self.wf(),
        ensures
            r is Some <==> self.raw(key@) is Some,
            r is Some ==> r->0@ == self.raw(key@)->0,
    {
        if !self.open || key.is_empty() {
            proof {
                if !self.open {
                    self.lemma_closed_is_empty();
                }
            }
            return None;
        }
        match self.find(key) {
            Some(i) => Some(self.rows[i].value.clone()),
            None => None,
        }
    }

    /// Stores a number as its decimal text.
    pub fn set_raw_config_int(&mut self, key: &str, value: i32) -> (r: Result<(), Error>)
        requires
            old(self).wf(),
        ensures
            final(self).follows(*old(self)),
            !old(self).opened() ==> r == Err::<(), Error>(Error::SqlNoConnection),
            r is Ok <==> old(self).opened() && !old(self).read_only(),
            r is Err ==> final(self).config() == old(self).config(),
            r is Ok ==> final(self).config() == old(self).config().insert(
                key@,
                decimal(value as int),
            ),
    {
        let text = format_i32(value);
        self.set_raw_config(key, Some(text.as_str()))
    }

    /// The value of `key` read as a number; `None` where there is no value
    /// or it is no number of 32 bits.
    pub fn get_raw_config_int(&self, key: &str) -> (r: Option<i32>)
        requires
            self.wf(),
        ensures
            r == self.raw_int(key@),
    {
        match self.get_raw_config(key) {
            Some(v) => parse_i32(v.as_str()),
            None => None,
        }
    }

    /// The value of `key` read as a flag: a number above zero is `true`,
    /// anything else `false`.
    pub fn get_raw_config_bool(&self, key: &str) -> (r: bool)
        requires
            self.wf(),
        ensures
            r == self.raw_bool(key@),
    {
        match self.get_raw_config_int(key) {
            Some(v) => v > 0,
            None => false,
        }
    }

    /// Stores a flag: `true` as the text `1`, `false` by deleting the key.
    pub fn set_raw_config_bool(&mut self, key: &str, value: bool) -> (r: Result<(), Error>)
        requires
            old(self).wf(),
        ensures
            final(self).follows(*old(self)),
            !old(self).opened() ==> r == Err::<(), Error>(Error::SqlNoConnection),
            r is Ok <==> old(self).opened() && !old(self).read_only(),
            r is Err ==> final(self).config() == old(self).config(),
            r is Ok ==> final(self).config() == if value {
                old(self).config().insert(key@, "1"@)
            } else {
                old(self).config().remove(key@)
            },
    {
        if value {
            self.set_raw_config(key, Some("1"))
        } else {
            self.set_raw_config(key, None)
        }
    }

    /// Stores a number of 64 bits as its decimal text.
    pub fn set_raw_config_int64(&mut self, key: &str, value: i64) -> (r: Result<(), Error>)
        requires
            old(self).wf(),
        ensures
            final(self).follows(*old(self)),
            !old(self).opened() ==> r == Err::<(), Error>(Error::SqlNoConnection),
            r is Ok <==> old(self).opened() && !old(self).read_only(),
            r is Err ==> final(self).config() == old(self).config(),
            r is Ok ==> final(self).config() == old(self).config().insert(
                key@,
                decimal(value as int),
            ),
    {
        let text = format_i64(value);
        self.set_raw_config(key, Some(text.as_str()))
    }

    /// The value of `key` read as a number of 64 bits.
    pub fn get_raw_config_int64(&self, key: &str) -> (r: Option<i64>)
        requires
            self.wf(),
        ensures
            r == self.raw_int64(key@),
    {
        match self.get_raw_config(key) {
            Some(v) => parse_i64(v.as_str()),
            None => None,
        }
    }
}

/// The table that opening starts from: the rows as they were read, or
/// nothing where the database has no configuration table.
pub open spec fn loaded_config(config_table: Option<Vec<(String, String)>>) -> Map<
    Seq<char>,
    Seq<char>,
> {
    match config_table {
        Some(t) => table_map(pairs_view(t@)),
        None => Map::empty(),
    }
}

/// What `open` returns on a database that was closed.
pub open spec fn open_plan_spec(
    config_table: Option<Vec<(String, String)>>,
    readonly: bool,
) -> OpenPlanView {
    if readonly {
        OpenPlanView { steps: Seq::empty(), recalc_fingerprints: false, update_icons: false }
    } else {
        let loaded = loaded_config(config_table);
        plan_spec(
            if config_table is Some {
                Some(version_in(loaded))
            } else {
                None
            },
            int_of(loaded, "bcc_self"@) is None,
        )
    }
}

impl Default for Sql {
    /// A database that is not open yet.
    fn default() -> (r: Sql)
        ensures
            r.wf(),
            !r.opened(),
            !r.read_only(),
            r.config() == Map::<Seq<char>, Seq<char>>::empty(),
            r.pending().len() == 0,
    {
        Sql::new()
    }
}

/// The rows that a database returned, as pairs of key and value.
pub open spec fn pairs_view(rows: Seq<(String, String)>) -> Seq<(Seq<char>, Seq<char>)> {
    rows.map_values(|r: (String, String)| (r.0@, r.1@))
}

/// The query that finds the row of a key in the configuration table.
pub const CONFIG_SELECT: &'static str = "SELECT value FROM config WHERE keyname=?;";

/// The statement that gives the row of a key a new value.
pub const CONFIG_UPDATE: &'static str = "UPDATE config SET value=? WHERE keyname=?;";

/// The statement that adds a row for a key.
pub const CONFIG_INSERT: &'static str = "INSERT INTO config (keyname, value) VALUES (?, ?);";

/// The statement that deletes the rows of a key.
pub const CONFIG_DELETE: &'static str = "DELETE FROM config WHERE keyname=?;";

/// A statement for the database to run, with the values to bind to it.
#[derive(Debug)]
pub struct Statement {
    pub sql: &'static str,
    pub params: Vec<String>,
}

/// The texts as sequences of characters.
pub open spec fn texts_view(v: Seq<String>) -> Seq<Seq<char>> {
    v.map_values(|s: String| s@)
}

/// The statement that carries out one write on the database. A new value
/// goes into the row of the key where the table has one, and into a new row
/// where it has none; a deleted key has its rows deleted.
pub fn config_statement(change: &ConfigChange, exists: bool) -> (r: Statement)
    ensures
        match change.value {
            Some(v) => if exists {
                r.sql@ == CONFIG_UPDATE@ && texts_view(r.params@) == seq![v@, change.keyname@]
            } else {
                r.sql@ == CONFIG_INSERT@ && texts_view(r.params@) == seq![change.keyname@, v@]
            },
            None => r.sql@ == CONFIG_DELETE@ && texts_view(r.params@) == seq![change.keyname@],
        },
{
    let mut params: Vec<String> = Vec::new();
    match &change.value {
        Some(v) => {
            if exists {
                params.push(v.clone());
                params.push(change.keyname.clone());
                assert(texts_view(params@) =~= seq![v@, change.keyname@]);
                Statement { sql: CONFIG_UPDATE, params }
            } else {
                params.push(change.keyname.clone());
                params.push(v.clone());
                assert(texts_view(params@) =~= seq![change.keyname@, v@]);
                Statement { sql: CONFIG_INSERT, params }
            }
        },
        None => {
            params.push(change.keyname.clone());
            assert(texts_view(params@) =~= seq![change.keyname@]);
            Statement { sql: CONFIG_DELETE, params }
        },
    }
}

/// The query that lists the ids of the rows of `table` whose `field` has a
/// given value, newest first.
pub open spec fn rowid_query(table: Seq<char>, field: Seq<char>) -> Seq<char> {
    "SELECT id FROM "@ + table + " WHERE "@ + field + "=? ORDER BY id DESC"@
}

/// The query that lists the ids of the rows of `table` whose `field` is
/// `value` and whose `field2` is `value2`, newest first.
pub open spec fn rowid2_query(
    table: Seq<char>,
    field: Seq<char>,
    value: i64,
    field2: Seq<char>,
    value2: i32,
) -> Seq<char> {
    "SELECT id FROM "@ + table + " WHERE "@ + field + "="@ + decimal(value as int) + " AND "@
        + field2 + "="@ + decimal(value2 as int) + " ORDER BY id DESC"@
}

/// The query whose first row holds the newest id of the rows of `table`
/// whose `field` has the value that is bound to the query.
pub fn get_rowid_query(table: &str, field: &str) -> (r: String)
    ensures
        r@ == rowid_query(table@, field@),
{
    join3("SELECT id FROM ", table, " WHERE ").concat(field).concat("=? ORDER BY id DESC")
}

/// The query whose first row holds the newest id of the rows of `table`
/// whose `field` is `value` and whose `field2` is `value2`.
pub fn get_rowid2_query(table: &str, field: &str, value: i64, field2: &str, value2: i32) -> (r:
    String)
    ensures
        r@ == rowid2_query(table@, field@, value, field2@, value2),
{
    join3("SELECT id FROM ", table, " WHERE ").concat(field).concat("=").concat(
        format_i64(value).as_str(),
    ).concat(" AND ").concat(field2).concat("=").concat(format_i32(value2).as_str()).concat(
        " ORDER BY id DESC",
    )
}

/// The id of the newest row whose field has the value `value`. Each row
/// is given by its id and by the value of its field. The id that was given
/// out last is the highest, so the row with the highest id is the newest:
/// the result is the highest id among the rows with the value. `None`
/// where no row has the value.
pub fn get_rowid(rows: &Vec<(u32, String)>, value: &str) -> (r: Option<u32>)
    ensures
        r is Some <==> exists|i: int| 0 <= i < rows@.len() && (#[trigger] rows@[i]).1@ == value@,
        r is Some ==> exists|i: int|
            0 <= i < rows@.len() && (#[trigger] rows@[i]).1@ == value@ && rows@[i].0 == r->0,
        r is Some ==> forall|i: int|
            0 <= i < rows@.len() && (#[trigger] rows@[i]).1@ == value@ ==> rows@[i].0 <= r->0,
{
    let mut best: Option<u32> = None;
    let mut i: usize = 0;
    while i < rows.len()
        invariant
            i <= rows@.len(),
            best is Some <==> exists|j: int| 0 <= j < i && (#[trigger] rows@[j]).1@ == value@,
            best is Some ==> exists|j: int|
                0 <= j < i && (#[trigger] rows@[j]).1@ == value@ && rows@[j].0 == best->0,
            best is Some ==> forall|j: int|
                0 <= j < i && (#[trigger] rows@[j]).1@ == value@ ==> rows@[j].0 <= best->0,
        decreases rows@.len() - i,
    {
        if str_eq(rows[i].1.as_str(), value) {
            let id = rows[i].0;
            assert(rows@[i as int].1@ == value@ && rows@[i as int].0 == id);
            match best {
                Some(b) => {
                    if id > b {
                        best = Some(id);
                    }
                },
                None => {
                    best = Some(id);
                },
            }
        }
        i += 1;
    }
    best
}

/// The id of the newest row whose two fields have the values `value` and
/// `value2`: the highest id among the rows with both values. Each row is
/// given by its id and by the values of the two fields. `None` where no
/// row has both values.
pub fn get_rowid2(rows: &Vec<(u32, i64, i32)>, value: i64, value2: i32) -> (r: Option<u32>)
    ensures
        r is Some <==> exists|i: int|
            0 <= i < rows@.len() && (#[trigger] rows@[i]).1 == value && rows@[i].2 == value2,
        r is Some ==> exists|i: int|
            0 <= i < rows@.len() && (#[trigger] rows@[i]).1 == value && rows@[i].2 == value2
                && rows@[i].0 == r->0,
        r is Some ==> forall|i: int|
            0 <= i < rows@.len() && (#[trigger] rows@[i]).1 == value && rows@[i].2 == value2
                ==> rows@[i].0 <= r->0,
{
    let mut best: Option<u32> = None;
    let mut i: usize = 0;
    while i < rows.len()
        invariant
            i <= rows@.len(),
            best is Some <==> exists|j: int|
                0 <= j < i && (#[trigger] rows@[j]).1 == value && rows@[j].2 == value2,
            best is Some ==> exists|j: int|
                0 <= j < i && (#[trigger] rows@[j]).1 == value && rows@[j].2 == value2
                    && rows@[j].0 == best->0,
            best is Some ==> forall|j: int|
                0 <= j < i && (#[trigger] rows@[j]).1 == value && rows@[j].2 == value2
                    ==> rows@[j].0 <= best->0,
        decreases rows@.len() - i,
    {
        if rows[i].1 == value && rows[i].2 == value2 {
            let id = rows[i].0;
            assert(rows@[i as int].1 == value && rows@[i as int].2 == value2 && rows@[i as int].0
                == id);
            match best {
                Some(b) => {
                    if id > b {
                        best = Some(id);
                    }
                },
                None => {
                    best = Some(id);
                },
            }
        }
        i += 1;
    }
    best
}

} // verus!
