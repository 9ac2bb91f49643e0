//! Locating the migrations directory and the latest migration in a walked tree.

use vstd::prelude::*;

use crate::text::chars_of;
use crate::views::opt_view;

verus! {

/// One entry met while walking a directory tree, as plain values.
#[derive(Clone, Debug)]
pub struct FsEntry {
    /// The entry's full path.
    pub path: String,
    /// The entry is a directory.
    pub is_dir: bool,
    /// The entry is a regular file.
    pub is_file: bool,
    /// The last component of the path, if there is one.
    pub file_name: Option<String>,
    /// The extension of the file name, if there is one.
    pub extension: Option<String>,
}

/// Why a migration location could not be determined.
#[derive(Clone, Copy, Debug, PartialEq, Eq, Structural)]
pub enum ScanError {
    /// No directory named `migrations`, or no migration directory in it.
    NotFound,
}

/// The path of `e` when it is a regular file with extension `sql`.
pub open spec fn sql_file_of(e: FsEntry) -> Option<Seq<char>> {
    if e.is_file && opt_view(e.extension) == Some("sql"@) {
        Some(e.path@)
    } else {
        None
    }
}

/// The path of `e` when it is a directory named `migrations`.
pub open spec fn migration_dir_of(e: FsEntry) -> Option<Seq<char>> {
    if e.is_dir && opt_view(e.file_name) == Some("migrations"@) {
        Some(e.path@)
    } else {
        None
    }
}

fn opt_equals(o: &Option<String>, s: &str) -> (r: bool)
    ensures
        r == (opt_view(*o) == Some(s@)),
{
    match o {
        Some(v) => *v == s.to_owned(),
        None => false,
    }
}

/// Returns the path of `entry` when it is a regular `.sql` file.
pub fn is_sql_file(entry: &FsEntry) -> (r: Option<String>)
    ensures
        opt_view(r) == sql_file_of(*entry),
{
    if entry.is_file && opt_equals(&entry.extension, "sql") {
        Some(entry.path.clone())
    } else {
        None
    }
}

/// Returns the path of `entry` when it is a directory named `migrations`.
pub fn is_migration_dir(entry: &FsEntry) -> (r: Option<String>)
    ensures
        opt_view(r) == migration_dir_of(*entry),
{
    if entry.is_dir && opt_equals(&entry.file_name, "migrations") {
        Some(entry.path.clone())
    } else {
        None
    }
}

/// Returns the path of the first entry, in walking order, that is a directory
/// named `migrations`.
pub fn get_migration_directory(entries: &Vec<FsEntry>) -> (r: Result<String, ScanError>)
    ensures
        match r {
            Ok(p) => exists|i: int|
                0 <= i < entries@.len() && migration_dir_of(#[trigger] entries@[i]) == Some(p@)
                    && forall|j: int| 0 <= j < i ==> migration_dir_of(entries@[j]) is None,
            Err(e) => e == ScanError::NotFound && forall|i: int|
                0 <= i < entries@.len() ==> migration_dir_of(#[trigger] entries@[i]) is None,
        },
{
    let mut i: usize = 0;
    while i < entries.len()
        invariant
            i <= entries@.len(),
            forall|j: int| 0 <= j < i ==> migration_dir_of(#[trigger] entries@[j]) is None,
        decreases entries.len() - i,
    {
        if let Some(p) = is_migration_dir(&entries[i]) {
            return Ok(p);
        }
        i += 1;
    }
    Err(ScanError::NotFound)
}

/// Lexicographic order of character sequences, by Unicode scalar value; this is
/// the byte-wise order of their UTF-8 encodings.
pub open spec fn str_lt(a: Seq<char>, b: Seq<char>) -> bool
    decreases a.len(),
{
    if a.len() == 0 {
        b.len() > 0
    } else if b.len() == 0 {
        false
    } else if a[0] != b[0] {
        (a[0] as u32) < (b[0] as u32)
    } else {
        str_lt(a.drop_first(), b.drop_first())
    }
}

proof fn lemma_str_lt_irreflexive(a: Seq<char>)
    ensures
        !str_lt(a, a),
    decreases a.len(),
{
    if a.len() > 0 {
        lemma_str_lt_irreflexive(a.drop_first());
    }
}

proof fn lemma_str_lt_transitive(a: Seq<char>, b: Seq<char>, c: Seq<char>)
    requires
        str_lt(a, b),
        str_lt(b, c),
    ensures
        str_lt(a, c),
    decreases a.len(),
{
    if a.len() > 0 && a[0] == b[0] && b[0] == c[0] {
        lemma_str_lt_transitive(a.drop_first(), b.drop_first(), c.drop_first());
    }
}

fn str_less(a: &str, b: &str) -> (r: bool)
    ensures
        r == str_lt(a@, b@),
{
    let ac = chars_of(a);
    let bc = chars_of(b);
    let mut i: usize = 0;
    assert(a@.skip(0) =~= a@);
    assert(b@.skip(0) =~= b@);
    while i < ac.len() && i < bc.len()
        invariant
            ac@ == a@,
            bc@ == b@,
            i <= ac@.len(),
            i <= bc@.len(),
            str_lt(a@, b@) == str_lt(a@.skip(i as int), b@.skip(i as int)),
        decreases ac.len() - i,
    {
        if ac[i] != bc[i] {
            return (ac[i] as u32) < (bc[i] as u32);
        }
        assert(a@.skip(i as int).drop_first() =~= a@.skip(i + 1));
        assert(b@.skip(i as int).drop_first() =~= b@.skip(i + 1));
        i += 1;
    }
    i < bc.len()
}

/// Returns the path of `migration.sql` inside the directory of `sub_dirs` whose
/// path sorts last; the paths are expected to share one parent.
pub fn get_latest_migration_file_path(sub_dirs: &Vec<String>) -> (r: Result<String, ScanError>)
    ensures
        match r {
            Ok(p) => exists|i: int|
                0 <= i < sub_dirs@.len() && p@ == #[trigger] sub_dirs@[i]@ + "/migration.sql"@
                    && forall|j: int| 0 <= j < sub_dirs@.len() ==> !str_lt(sub_dirs@[i]@, sub_dirs@[j]@),
            Err(e) => e == ScanError::NotFound && sub_dirs@.len() == 0,
        },
{
    if sub_dirs.len() == 0 {
        return Err(ScanError::NotFound);
    }
    let mut best: usize = 0;
    let mut i: usize = 1;
    proof {
        lemma_str_lt_irreflexive(sub_dirs@[0]@);
    }
    while i < sub_dirs.len()
        invariant
            1 <= i <= sub_dirs@.len(),
            best < i,
            forall|j: int| 0 <= j < i ==> !str_lt(sub_dirs@[best as int]@, #[trigger] sub_dirs@[j]@),
        decreases sub_dirs.len() - i,
    {
        if str_less(sub_dirs[best].as_str(), sub_dirs[i].as_str()) {
            proof {
                lemma_str_lt_irreflexive(sub_dirs@[i as int]@);
                assert forall|j: int| 0 <= j < i implies !str_lt(sub_dirs@[i as int]@, #[trigger] sub_dirs@[j]@) by {
                    if str_lt(sub_dirs@[i as int]@, sub_dirs@[j]@) {
                        lemma_str_lt_transitive(sub_dirs@[best as int]@, sub_dirs@[i as int]@, sub_dirs@[j]@);
                    }
                }
            }
            best = i;
        }
        i += 1;
    }
    let mut p = sub_dirs[best].clone();
    p.append("/migration.sql");
    Ok(p)
}

} // verus!
