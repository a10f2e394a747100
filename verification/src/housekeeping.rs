//! Finding the files in the blob directory that nothing refers to any more.

use vstd::prelude::*;
use crate::text::{is_prefix, is_suffix, starts_with, str_eq, substring, ends_with};

verus! {

/// The text with which a stored reference to a file in the blob directory
/// begins.
pub const BLOBDIR: &'static str = "$BLOBDIR";

/// How many characters of a stored reference stand before the name of the
/// file: `$BLOBDIR` and the separator after it.
pub const BLOBDIR_SKIP: usize = 9;

/// A file that lives less than this many seconds is never deleted.
pub const KEEP_SECONDS: u64 = 3600;

/// A set of file names.
pub struct FileSet {
    names: Vec<String>,
}

/// The names as a set of texts.
pub open spec fn names_set(names: Seq<String>) -> Set<Seq<char>> {
    Set::new(|n: Seq<char>| exists|i: int| 0 <= i < names.len() && (#[trigger] names[i])@ == n)
}

impl View for FileSet {
    type V = Set<Seq<char>>;

    closed spec fn view(&self) -> Set<Seq<char>> {
        names_set(self.names@)
    }
}

impl Default for FileSet {
    /// The empty set.
    fn default() -> (r: FileSet)
        ensures
            r@ == Set::<Seq<char>>::empty(),
    {
        FileSet::new()
    }
}

impl FileSet {
    /// The empty set.
    pub fn new() -> (r: FileSet)
        ensures
            r@ == Set::<Seq<char>>::empty(),
    {
        let r = FileSet { names: Vec::new() };
        assert(r@ =~= Set::<Seq<char>>::empty());
        r
    }

    /// Whether `name` is in the set.
    pub fn contains(&self, name: &str) -> (r: bool)
        ensures
            r == self@.contains(name@),
    {
        let mut i: usize = 0;
        while i < self.names.len()
            invariant
                i <= self.names@.len(),
                forall|j: int| 0 <= j < i ==> (#[trigger] self.names@[j])@ != name@,
            decreases self.names@.len() - i,
        {
            if str_eq(self.names[i].as_str(), name) {
                return true;
            }
            i += 1;
        }
        false
    }

    /// Puts `name` into the set.
    pub fn insert(&mut self, name: String)
        ensures
            final(self)@ == old(self)@.insert(name@),
    {
        if !self.contains(name.as_str()) {
            let ghost before = self.names@;
            self.names.push(name);
            assert forall|n: Seq<char>| self@.contains(n) <==> old(self)@.insert(name@).contains(
                n,
            ) by {
                if names_set(before).contains(n) {
                    let i = choose|i: int| 0 <= i < before.len() && (#[trigger] before[i])@ == n;
                    assert(self.names@[i]@ == n);
                }
                if n == name@ {
                    assert(self.names@[before.len() as int]@ == n);
                }
                if self@.contains(n) {
                    let i = choose|i: int|
                        0 <= i < self.names@.len() && (#[trigger] self.names@[i])@ == n;
                    if i < before.len() {
                        assert(before[i]@ == n);
                    }
                }
            }
            assert(self@ =~= old(self)@.insert(name@));
        } else {
            assert(self@ =~= old(self)@.insert(name@));
        }
    }
}

/// The name of the file that the stored reference `file` refers to, where
/// it refers to one in the blob directory: what follows `$BLOBDIR` and the
/// separator after it.
pub open spec fn referenced_name(file: Seq<char>) -> Option<Seq<char>> {
    if is_prefix(BLOBDIR@, file) && file.len() >= BLOBDIR_SKIP {
        Some(file.subrange(BLOBDIR_SKIP as int, file.len() as int))
    } else {
        None
    }
}

/// The set `s` with the file that `file` refers to, where it refers to one.
pub open spec fn with_reference(s: Set<Seq<char>>, file: Seq<char>) -> Set<Seq<char>> {
    match referenced_name(file) {
        Some(name) => s.insert(name),
        None => s,
    }
}

/// Notes the file that the stored reference `file` refers to as in use.
/// A reference that does not begin with `$BLOBDIR` is to no file in the blob
/// directory, and is passed over.
pub fn maybe_add_file(files_in_use: &mut FileSet, file: &str)
    ensures
        final(files_in_use)@ == with_reference(old(files_in_use)@, file@),
{
    if !starts_with(file, BLOBDIR) {
        return ;
    }
    let n = file.unicode_len();
    if n < BLOBDIR_SKIP {
        return ;
    }
    files_in_use.insert(substring(file, BLOBDIR_SKIP, n));
}

/// The set `s` with the files that the given references refer to.
pub open spec fn with_references(s: Set<Seq<char>>, files: Seq<Option<String>>) -> Set<Seq<char>>
    decreases files.len(),
{
    if files.len() == 0 {
        s
    } else {
        let before = with_references(s, files.drop_last());
        match files.last() {
            Some(f) => with_reference(before, f@),
            None => before,
        }
    }
}

/// Notes the files that the rows of a table refer to as in use. `files`
/// holds, for each row, the reference that the row carries, if it carries
/// one.
pub fn maybe_add_from_param(files_in_use: &mut FileSet, files: &Vec<Option<String>>)
    ensures
        final(files_in_use)@ == with_references(old(files_in_use)@, files@),
{
    let mut i: usize = 0;
    assert(files@.subrange(0, 0) =~= Seq::empty());
    while i < files.len()
        invariant
            i <= files@.len(),
            files_in_use@ == with_references(old(files_in_use)@, files@.subrange(0, i as int)),
        decreases files@.len() - i,
    {
        proof {
            let next = files@.subrange(0, i + 1);
            assert(next.drop_last() =~= files@.subrange(0, i as int));
            assert(next.last() == files@[i as int]);
        }
        match &files[i] {
            Some(file) => {
                maybe_add_file(files_in_use, file.as_str());
            },
            None => {},
        }
        i += 1;
    }
    assert(files@.subrange(0, i as int) =~= files@);
}

/// The name to look up for the file `name`: `name` itself without a
/// suffix; with a suffix, `name` without it, where `name` is longer than the
/// suffix and ends with it.
pub open spec fn name_to_check(namespc: Option<Seq<char>>, name: Seq<char>) -> Option<Seq<char>> {
    match namespc {
        Some(suffix) => if name.len() > suffix.len() && is_suffix(suffix, name) {
            Some(name.subrange(0, name.len() - suffix.len()))
        } else {
            None
        },
        None => Some(name),
    }
}

/// Whether the file `name` is in use, under the name that it has without
/// the suffix `namespc`.
pub open spec fn in_use(
    files_in_use: Set<Seq<char>>,
    namespc: Option<Seq<char>>,
    name: Seq<char>,
) -> bool {
    match name_to_check(namespc, name) {
        Some(n) => files_in_use.contains(n),
        None => false,
    }
}

/// The view of a text that may be missing.
pub open spec fn opt_view(s: Option<&str>) -> Option<Seq<char>> {
    match s {
        Some(s) => Some(s@),
        None => None,
    }
}

/// Whether the file `name` is in use, under the name that it has without
/// the suffix `namespc_opt`.
pub fn is_file_in_use(files_in_use: &FileSet, namespc_opt: Option<&str>, name: &str) -> (r: bool)
    ensures
        r == in_use(files_in_use@, opt_view(namespc_opt), name@),
{
    match namespc_opt {
        Some(namespc) => {
            let name_len = name.unicode_len();
            let namespc_len = namespc.unicode_len();
            if name_len <= namespc_len || !ends_with(name, namespc) {
                return false;
            }
            let stem = substring(name, 0, name_len - namespc_len);
            files_in_use.contains(stem.as_str())
        },
        None => files_in_use.contains(name),
    }
}

/// A file found in the blob directory.
#[derive(Debug)]
pub struct BlobFile {
    pub name: String,
    /// How many seconds ago the file was created, where that is known.
    pub created_secs_ago: Option<u64>,
    /// How many seconds ago the file was last changed, where that is known.
    pub modified_secs_ago: Option<u64>,
    /// How many seconds ago the file was last read, where that is known.
    pub accessed_secs_ago: Option<u64>,
}

/// Whether something is referred to by the name of the file, or by that
/// name without one of the endings of the files that are made along with
/// another file.
pub open spec fn is_referenced(files_in_use: Set<Seq<char>>, name: Seq<char>) -> bool {
    in_use(files_in_use, None, name) || in_use(files_in_use, Some(".increation"@), name) || in_use(
        files_in_use,
        Some(".waveform"@),
        name,
    ) || in_use(files_in_use, Some("-preview.jpg"@), name)
}

/// Whether a time that lies `age` seconds back is less than an hour ago.
pub open spec fn within_hour(age: Option<u64>) -> bool {
    age is Some && age->0 < KEEP_SECONDS
}

/// Whether the file was created, changed or read less than an hour ago.
pub open spec fn is_recent(f: BlobFile) -> bool {
    within_hour(f.created_secs_ago) || within_hour(f.modified_secs_ago) || within_hour(
        f.accessed_secs_ago,
    )
}

/// Whether the file is to be deleted: nothing refers to it, and it is not
/// recent.
pub open spec fn is_garbage(files_in_use: Set<Seq<char>>, f: BlobFile) -> bool {
    !is_referenced(files_in_use, f.name@) && !is_recent(f)
}

/// Whether the file is to be deleted.
pub fn should_delete(files_in_use: &FileSet, file: &BlobFile) -> (r: bool)
    ensures
        r == is_garbage(files_in_use@, *file),
{
    let name = file.name.as_str();
    if is_file_in_use(files_in_use, None, name) || is_file_in_use(
        files_in_use,
        Some(".increation"),
        name,
    ) || is_file_in_use(files_in_use, Some(".waveform"), name) || is_file_in_use(
        files_in_use,
        Some("-preview.jpg"),
        name,
    ) {
        return false;
    }
    let recently_created = match file.created_secs_ago {
        Some(age) => age < KEEP_SECONDS,
        None => false,
    };
    let recently_modified = match file.modified_secs_ago {
        Some(age) => age < KEEP_SECONDS,
        None => false,
    };
    let recently_accessed = match file.accessed_secs_ago {
        Some(age) => age < KEEP_SECONDS,
        None => false,
    };
    !(recently_created || recently_modified || recently_accessed)
}

/// The files of `dir` that are to be deleted, by their places in `dir`.
pub open spec fn garbage_of(files_in_use: Set<Seq<char>>, dir: Seq<BlobFile>) -> Seq<usize>
    decreases dir.len(),
{
    if dir.len() == 0 {
        Seq::empty()
    } else {
        let before = garbage_of(files_in_use, dir.drop_last());
        if is_garbage(files_in_use, dir.last()) {
            before.push((dir.len() - 1) as usize)
        } else {
            before
        }
    }
}

/// What of the database may refer to files: for each row of the tables of
/// messages, jobs, chats and contacts the reference that the row carries,
/// if it carries one, and every value of the configuration table.
pub struct References {
    pub msgs: Vec<Option<String>>,
    pub jobs: Vec<Option<String>>,
    pub chats: Vec<Option<String>>,
    pub contacts: Vec<Option<String>>,
    pub config: Vec<Option<String>>,
}

/// The files that the database refers to.
pub open spec fn referenced_files(refs: References) -> Set<Seq<char>> {
    with_references(
        with_references(
            with_references(
                with_references(with_references(Set::empty(), refs.msgs@), refs.jobs@),
                refs.chats@,
            ),
            refs.contacts@,
        ),
        refs.config@,
    )
}

/// Collects the files that the database refers to.
pub fn files_in_use(refs: &References) -> (r: FileSet)
    ensures
        r@ == referenced_files(*refs),
{
    let mut files = FileSet::new();
    maybe_add_from_param(&mut files, &refs.msgs);
    maybe_add_from_param(&mut files, &refs.jobs);
    maybe_add_from_param(&mut files, &refs.chats);
    maybe_add_from_param(&mut files, &refs.contacts);
    maybe_add_from_param(&mut files, &refs.config);
    files
}

/// Finds the files of the blob directory that are to be deleted: those to
/// which the database does not refer, and which are an hour old or older.
/// Returns their places in `dir`, in rising order.
///
/// A file that is referred to is never among them, nor is a file that was
/// created, changed or read less than an hour ago.
pub fn housekeeping(refs: &References, dir: &Vec<BlobFile>) -> (r: Vec<usize>)
    ensures
        r@ == garbage_of(referenced_files(*refs), dir@),
        forall|k: int|
            0 <= k < r@.len() ==> (#[trigger] r@[k]) < dir@.len() && !is_referenced(
                referenced_files(*refs),
                dir@[r@[k] as int].name@,
            ) && !is_recent(dir@[r@[k] as int]),
        forall|i: int|
            0 <= i < dir@.len() && is_garbage(referenced_files(*refs), #[trigger] dir@[i])
                ==> r@.contains(i as usize),
{
    let files = files_in_use(refs);
    let mut r: Vec<usize> = Vec::new();
    let mut i: usize = 0;
    assert(dir@.subrange(0, 0) =~= Seq::empty());
    while i < dir.len()
        invariant
            i <= dir@.len(),
            files@ == referenced_files(*refs),
            r@ == garbage_of(files@, dir@.subrange(0, i as int)),
            forall|k: int|
                0 <= k < r@.len() ==> (#[trigger] r@[k]) < i && is_garbage(
                    files@,
                    dir@[r@[k] as int],
                ),
            forall|j: int|
                0 <= j < i && is_garbage(files@, #[trigger] dir@[j]) ==> r@.contains(j as usize),
        decreases dir@.len() - i,
    {
        proof {
            let next = dir@.subrange(0, i + 1);
            assert(next.drop_last() =~= dir@.subrange(0, i as int));
            assert(next.last() == dir@[i as int]);
        }
        let ghost before = r@;
        if should_delete(&files, &dir[i]) {
            r.push(i);
            proof {
                assert(r@[before.len() as int] == i);
                assert forall|j: int|
                    0 <= j < i + 1 && is_garbage(files@, #[trigger] dir@[j]) implies r@.contains(
                    j as usize,
                ) by {
                    if j < i {
                        assert(before.contains(j as usize));
                        let k = choose|k: int| 0 <= k < before.len() && before[k] == j as usize;
                        assert(r@[k] == j as usize);
                    }
                }
            }
        }
        i += 1;
    }
    assert(dir@.subrange(0, i as int) =~= dir@);
    r
}

} // verus!
