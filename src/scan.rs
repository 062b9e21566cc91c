use vstd::prelude::*;

use crate::text::same_text;

verus! {

/// What a directory walk found at a path.
#[derive(Debug, Clone, Copy, PartialEq, Eq, Structural)]
pub enum EntryKind {
    File,
    Directory,
    /// A symbolic link or a special file.
    Other,
    /// The walk could not look at this entry.
    Failed,
}

/// One entry reported by a directory walk.
#[derive(Debug)]
pub struct ScanEntry {
    pub path: String,
    pub kind: EntryKind,
}

/// The extension of the last component of a path, as `Path::extension` finds it.
pub uninterp spec fn extension_of(path: Seq<char>) -> Option<Seq<char>>;

/// Relies on `std::path::Path::extension`: the text after the last dot of the
/// file name, if the name has one that does not start it.
#[verifier::external_body]
pub(crate) fn path_extension(path: &str) -> (r: Option<String>)
    ensures
        r matches Some(e) ==> extension_of(path@) == Some(e@),
        r is None ==> extension_of(path@) is None,
{
    std::path::Path::new(path).extension().and_then(|e| e.to_str()).map(|e| e.to_string())
}

/// The extensions of source, manifest and documentation files.
pub open spec fn is_indexed_extension(ext: Seq<char>) -> bool {
    ext == "rs"@ || ext == "toml"@ || ext == "md"@
}

/// A path whose extension is in the allow-list.
pub open spec fn is_indexed_path(path: Seq<char>) -> bool {
    extension_of(path) matches Some(e) && is_indexed_extension(e)
}

/// An entry the index covers: a regular file with an indexed extension.
pub open spec fn is_indexed_entry(e: ScanEntry) -> bool {
    e.kind == EntryKind::File && is_indexed_path(e.path@)
}

pub fn indexed_extension(ext: &str) -> (r: bool)
    ensures
        r == is_indexed_extension(ext@),
{
    same_text(ext, "rs") || same_text(ext, "toml") || same_text(ext, "md")
}

pub fn indexed_path(path: &str) -> (r: bool)
    ensures
        r == is_indexed_path(path@),
{
    match path_extension(path) {
        Some(e) => indexed_extension(e.as_str()),
        None => false,
    }
}

/// The texts of a sequence of paths.
pub open spec fn path_views(paths: Seq<String>) -> Seq<Seq<char>> {
    paths.map_values(|p: String| p@)
}

/// The paths of the indexed entries of a walk, in walk order.
pub open spec fn indexed_paths(entries: Seq<ScanEntry>) -> Seq<Seq<char>>
    decreases entries.len(),
{
    if entries.len() == 0 {
        Seq::empty()
    } else {
        let rest = indexed_paths(entries.drop_last());
        if is_indexed_entry(entries.last()) {
            rest.push(entries.last().path@)
        } else {
            rest
        }
    }
}

/// No two entries of a walk have the same path.
pub open spec fn distinct_paths(entries: Seq<ScanEntry>) -> bool {
    forall|a: int, b: int|
        0 <= a < b < entries.len() ==> #[trigger] entries[a].path@ != #[trigger] entries[b].path@
}

/// `path` is the path of an indexed entry among the first `bound` entries.
pub open spec fn indexed_among(entries: Seq<ScanEntry>, bound: int, path: Seq<char>) -> bool {
    exists|t: int| 0 <= t < bound && #[trigger] is_indexed_entry(entries[t]) && entries[t].path@ == path
}

/// The paths of the entries that the index covers, in walk order. Entries
/// that failed, directories and other kinds are skipped.
pub fn select_indexed(entries: &Vec<ScanEntry>) -> (r: Vec<String>)
    ensures
        path_views(r@) == indexed_paths(entries@),
        distinct_paths(entries@) ==> forall|i: int, k: int|
            0 <= i < k < r@.len() ==> #[trigger] r@[i]@ != #[trigger] r@[k]@,
        forall|i: int| 0 <= i < r@.len() ==> indexed_among(entries@, entries@.len() as int, #[trigger] r@[i]@),
        forall|j: int|
            0 <= j < entries@.len() && #[trigger] is_indexed_entry(entries@[j]) ==> exists|i: int|
                0 <= i < r@.len() && #[trigger] r@[i]@ == entries@[j].path@,
{
    let mut r: Vec<String> = Vec::new();
    let n = entries.len();
    let mut j: usize = 0;
    let ghost mut picked: Seq<int> = Seq::empty();
    while j < n
        invariant
            n == entries@.len(),
            j <= n,
            path_views(r@) == indexed_paths(entries@.take(j as int)),
            picked.len() == r@.len(),
            forall|t: int| 0 <= t < picked.len() ==> 0 <= #[trigger] picked[t] < j,
            forall|t: int, u: int|
                0 <= t < u < picked.len() ==> #[trigger] picked[t] < #[trigger] picked[u],
            forall|t: int| 0 <= t < r@.len() ==> #[trigger] r@[t]@ == entries@[picked[t]].path@,
            forall|i: int| 0 <= i < r@.len() ==> indexed_among(entries@, j as int, #[trigger] r@[i]@),
            forall|t: int|
                0 <= t < j && #[trigger] is_indexed_entry(entries@[t]) ==> exists|i: int|
                    0 <= i < r@.len() && #[trigger] r@[i]@ == entries@[t].path@,
        decreases n - j,
    {
        let e = &entries[j];
        let ghost before = r@;
        assert(entries@.take(j + 1).drop_last() =~= entries@.take(j as int));
        assert(entries@.take(j + 1).last() == entries@[j as int]);
        if e.kind == EntryKind::File && indexed_path(e.path.as_str()) {
            r.push(e.path.clone());
            assert(r@[r@.len() - 1]@ == entries@[j as int].path@);
            assert(path_views(r@) =~= path_views(before).push(entries@[j as int].path@));
            proof {
                picked = picked.push(j as int);
            }
            assert forall|t: int| 0 <= t < r@.len() implies #[trigger] r@[t]@ == entries@[picked[t]].path@ by {
                if t < before.len() {
                    assert(r@[t] == before[t]);
                }
            }
        }
        assert forall|i: int| 0 <= i < r@.len() implies indexed_among(entries@, j + 1, #[trigger] r@[i]@) by {
            if i < before.len() {
                assert(r@[i] == before[i]);
                assert(indexed_among(entries@, j as int, before[i]@));
                let t = choose|t: int| 0 <= t < j && #[trigger] is_indexed_entry(entries@[t]) && entries@[t].path@ == before[i]@;
                assert(is_indexed_entry(entries@[t]));
            } else {
                assert(is_indexed_entry(entries@[j as int]));
            }
        }
        assert forall|t: int| 0 <= t < j + 1 && #[trigger] is_indexed_entry(entries@[t])
            implies exists|i: int| 0 <= i < r@.len() && #[trigger] r@[i]@ == entries@[t].path@ by {
            if t < j {
                let i = choose|i: int| 0 <= i < before.len() && #[trigger] before[i]@ == entries@[t].path@;
                assert(r@[i] == before[i]);
            } else {
                assert(r@[r@.len() - 1]@ == entries@[t].path@);
            }
        }
        j = j + 1;
    }
    assert(entries@.take(n as int) =~= entries@);
    assert forall|i: int, k: int|
        distinct_paths(entries@) && 0 <= i < k < r@.len() implies #[trigger] r@[i]@ != #[trigger] r@[k]@ by {
        assert(picked[i] < picked[k]);
        assert(entries@[picked[i]].path@ != entries@[picked[k]].path@);
    }
    r
}

} // verus!
