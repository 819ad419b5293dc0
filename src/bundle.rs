use vstd::prelude::*;

use crate::path::{comps_equal, comps_start_with, strings_view};

verus! {

/// A subdirectory that every resource bundle must hold.
#[derive(Clone, Debug, PartialEq, Eq)]
pub struct RequiredDir {
    pub name: String,
    /// The subdirectory must also hold at least one entry.
    pub non_empty: bool,
}

/// The shape of a valid resource bundle: required subdirectories and marker files.
#[derive(Clone, Debug, PartialEq, Eq)]
pub struct BundleSpec {
    pub subdirs: Vec<RequiredDir>,
    pub marker_files: Vec<String>,
}

pub struct RequiredDirView {
    pub name: Seq<char>,
    pub non_empty: bool,
}

pub struct BundleSpecView {
    pub subdirs: Seq<RequiredDirView>,
    pub marker_files: Seq<Seq<char>>,
}

impl View for RequiredDir {
    type V = RequiredDirView;

    open spec fn view(&self) -> RequiredDirView {
        RequiredDirView { name: self.name@, non_empty: self.non_empty }
    }
}

impl View for BundleSpec {
    type V = BundleSpecView;

    open spec fn view(&self) -> BundleSpecView {
        BundleSpecView {
            subdirs: self.subdirs@.map_values(|d: RequiredDir| d@),
            marker_files: strings_view(self.marker_files@),
        }
    }
}

/// The shape of the shell's own resource bundle.
pub open spec fn standard_spec() -> BundleSpecView {
    BundleSpecView {
        subdirs: seq![
            RequiredDirView { name: "animations"@, non_empty: true },
            RequiredDirView { name: "backgrounds"@, non_empty: true },
        ],
        marker_files: seq!["config.json"@, "readme.txt"@],
    }
}

impl BundleSpec {
    /// The shell's own bundle: non-empty `animations` and `backgrounds`
    /// subdirectories, and the files `config.json` and `readme.txt`.
    pub fn standard() -> (r: BundleSpec)
        ensures
            r@ == standard_spec(),
    {
        let r = BundleSpec {
            subdirs: vec![
                RequiredDir { name: String::from_str("animations"), non_empty: true },
                RequiredDir { name: String::from_str("backgrounds"), non_empty: true },
            ],
            marker_files: vec![String::from_str("config.json"), String::from_str("readme.txt")],
        };
        assert(r@.subdirs =~= standard_spec().subdirs);
        assert(r@.marker_files =~= standard_spec().marker_files);
        r
    }
}

/// One entry found below a directory, by its components relative to that directory.
#[derive(Clone, Debug, PartialEq, Eq)]
pub struct TreeEntry {
    pub rel: Vec<String>,
    pub is_dir: bool,
}

pub struct EntryView {
    pub rel: Seq<Seq<char>>,
    pub is_dir: bool,
}

impl View for TreeEntry {
    type V = EntryView;

    open spec fn view(&self) -> EntryView {
        EntryView { rel: strings_view(self.rel@), is_dir: self.is_dir }
    }
}

pub open spec fn entries_view(v: Seq<TreeEntry>) -> Seq<EntryView> {
    v.map_values(|e: TreeEntry| e@)
}

/// What was seen of a directory: whether it exists as a readable directory, and
/// every entry below it.
#[derive(Clone, Debug, PartialEq, Eq)]
pub struct DirSnapshot {
    pub present: bool,
    pub entries: Vec<TreeEntry>,
}

pub struct SnapshotView {
    pub present: bool,
    pub entries: Seq<EntryView>,
}

impl View for DirSnapshot {
    type V = SnapshotView;

    open spec fn view(&self) -> SnapshotView {
        SnapshotView { present: self.present, entries: entries_view(self.entries@) }
    }
}

/// The snapshot lists an entry at `rel` of the given kind.
pub open spec fn has_entry(entries: Seq<EntryView>, rel: Seq<Seq<char>>, is_dir: bool) -> bool {
    exists|i: int| 0 <= i < entries.len() && entries[i].rel == rel && entries[i].is_dir == is_dir
}

/// The snapshot lists an entry strictly below `rel`.
pub open spec fn has_content_under(entries: Seq<EntryView>, rel: Seq<Seq<char>>) -> bool {
    exists|i: int|
        0 <= i < entries.len() && entries[i].rel.len() > rel.len()
            && entries[i].rel.subrange(0, rel.len() as int) == rel
}

/// There is a directory at `rel` (the snapshot's own directory when `rel` is empty).
pub open spec fn dir_at(s: SnapshotView, rel: Seq<Seq<char>>) -> bool {
    if rel.len() == 0 {
        s.present
    } else {
        s.present && has_entry(s.entries, rel, true)
    }
}

pub open spec fn dir_empty_or_missing(s: SnapshotView, rel: Seq<Seq<char>>) -> bool {
    !dir_at(s, rel) || !has_content_under(s.entries, rel)
}

/// The snapshot lists a file named `name` directly in its directory.
pub open spec fn marker_present(s: SnapshotView, name: Seq<char>) -> bool {
    s.present && has_entry(s.entries, seq![name], false)
}

pub open spec fn marker_missing(spec: BundleSpecView, s: SnapshotView) -> bool {
    exists|m: int| 0 <= m < spec.marker_files.len() && !marker_present(s, #[trigger] spec.marker_files[m])
}

pub open spec fn subdir_ok(s: SnapshotView, d: RequiredDirView) -> bool {
    &&& dir_at(s, seq![d.name])
    &&& d.non_empty ==> has_content_under(s.entries, seq![d.name])
}

/// The snapshot shows a directory that satisfies the bundle spec: it exists, every
/// required subdirectory is there (and non-empty where so marked), and every
/// marker file is there.
pub open spec fn satisfies(spec: BundleSpecView, s: SnapshotView) -> bool {
    &&& s.present
    &&& forall|i: int| 0 <= i < spec.subdirs.len() ==> subdir_ok(s, #[trigger] spec.subdirs[i])
    &&& !marker_missing(spec, s)
}

/// Whether `entries` holds an entry at `rel` of the given kind.
pub fn find_entry(entries: &Vec<TreeEntry>, rel: &Vec<String>, is_dir: bool) -> (r: bool)
    ensures
        r == has_entry(entries_view(entries@), strings_view(rel@), is_dir),
{
    let ghost ev = entries_view(entries@);
    let mut i: usize = 0;
    while i < entries.len()
        invariant
            i <= entries.len(),
            ev == entries_view(entries@),
            forall|j: int|
                0 <= j < i ==> !(ev[j].rel == strings_view(rel@) && ev[j].is_dir == is_dir),
        decreases entries.len() - i,
    {
        if entries[i].is_dir == is_dir && comps_equal(&entries[i].rel, rel) {
            assert(ev[i as int].rel == strings_view(rel@));
            return true;
        }
        i = i + 1;
    }
    false
}

/// Whether `entries` holds an entry strictly below `rel`.
pub fn find_content_under(entries: &Vec<TreeEntry>, rel: &Vec<String>) -> (r: bool)
    ensures
        r == has_content_under(entries_view(entries@), strings_view(rel@)),
{
    let ghost ev = entries_view(entries@);
    let mut i: usize = 0;
    while i < entries.len()
        invariant
            i <= entries.len(),
            ev == entries_view(entries@),
            forall|j: int|
                0 <= j < i ==> !(ev[j].rel.len() > rel@.len() && ev[j].rel.subrange(
                    0,
                    rel@.len() as int,
                ) == strings_view(rel@)),
        decreases entries.len() - i,
    {
        assert(ev[i as int].rel == strings_view(entries@[i as int].rel@));
        if entries[i].rel.len() > rel.len() && comps_start_with(&entries[i].rel, rel) {
            return true;
        }
        i = i + 1;
    }
    false
}

/// Whether the directory at `rel` below the snapshot's directory is missing or
/// holds nothing.
pub fn is_dir_empty_or_missing(snapshot: &DirSnapshot, rel: &Vec<String>) -> (r: bool)
    ensures
        r == dir_empty_or_missing(snapshot@, strings_view(rel@)),
{
    let there = if rel.len() == 0 {
        snapshot.present
    } else {
        snapshot.present && find_entry(&snapshot.entries, rel, true)
    };
    !there || !find_content_under(&snapshot.entries, rel)
}

/// Whether one of the spec's marker files is absent from the snapshot.
pub fn are_important_files_missing(spec: &BundleSpec, snapshot: &DirSnapshot) -> (r: bool)
    ensures
        r == marker_missing(spec@, snapshot@),
{
    if !snapshot.present {
        proof {
            if spec.marker_files.len() > 0 {
                let first = spec@.marker_files[0];
                assert(!(snapshot@.present && has_entry(snapshot@.entries, seq![first], false)));
            }
        }
        return spec.marker_files.len() > 0;
    }
    let mut m: usize = 0;
    while m < spec.marker_files.len()
        invariant
            snapshot.present,
            m <= spec.marker_files.len(),
            forall|k: int|
                0 <= k < m ==> has_entry(
                    snapshot@.entries,
                    seq![spec@.marker_files[k]],
                    false,
                ),
        decreases spec.marker_files.len() - m,
    {
        let rel = vec![spec.marker_files[m].clone()];
        proof {
            assert(strings_view(rel@) =~= seq![spec@.marker_files[m as int]]);
        }
        if !find_entry(&snapshot.entries, &rel, false) {
            return true;
        }
        m = m + 1;
    }
    assert forall|k: int| 0 <= k < spec@.marker_files.len() implies has_entry(
        snapshot@.entries,
        seq![spec@.marker_files[k]],
        false,
    ) by {}
    false
}

/// Whether the snapshot shows a directory that satisfies `spec`.
pub fn satisfies_spec(spec: &BundleSpec, snapshot: &DirSnapshot) -> (r: bool)
    ensures
        r == satisfies(spec@, snapshot@),
{
    if !snapshot.present {
        return false;
    }
    let mut i: usize = 0;
    while i < spec.subdirs.len()
        invariant
            snapshot.present,
            i <= spec.subdirs.len(),
            forall|k: int| 0 <= k < i ==> subdir_ok(snapshot@, #[trigger] spec@.subdirs[k]),
        decreases spec.subdirs.len() - i,
    {
        let d = &spec.subdirs[i];
        let rel = vec![d.name.clone()];
        proof {
            assert(spec@.subdirs[i as int] == d@);
            assert(strings_view(rel@) =~= seq![d@.name]);
        }
        if !find_entry(&snapshot.entries, &rel, true) {
            assert(!subdir_ok(snapshot@, spec@.subdirs[i as int]));
            return false;
        }
        if d.non_empty && !find_content_under(&snapshot.entries, &rel) {
            assert(!subdir_ok(snapshot@, spec@.subdirs[i as int]));
            return false;
        }
        i = i + 1;
    }
    !are_important_files_missing(spec, snapshot)
}

} // verus!
