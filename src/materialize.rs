use vstd::prelude::*;

use crate::bundle::{
    entries_view, find_entry, has_entry, satisfies, satisfies_spec, BundleSpec, BundleSpecView,
    DirSnapshot, EntryView, RequiredDirView, SnapshotView, TreeEntry,
};
use crate::path::{strings_view, FsPath, PathView};

verus! {

/// Permission bits given to the bundle's directories: read and execute for all,
/// write for the owner.
pub const DIR_MODE: u32 = 0o755;

/// Permission bits given to the bundle's files: read for all, write for the owner.
pub const FILE_MODE: u32 = 0o644;

/// One filesystem operation of a materialization plan.
#[derive(Clone, Debug, PartialEq, Eq)]
pub enum FsAction {
    /// Create the directory and every missing ancestor.
    CreateDir { path: FsPath },
    /// Set the permission bits of an existing entry.
    SetMode { path: FsPath, mode: u32 },
    /// Copy the file `from` to `to`, replacing any file there.
    CopyFile { from: FsPath, to: FsPath },
}

pub enum ActionView {
    CreateDir { path: PathView },
    SetMode { path: PathView, mode: u32 },
    CopyFile { from: PathView, to: PathView },
}

impl View for FsAction {
    type V = ActionView;

    open spec fn view(&self) -> ActionView {
        match self {
            FsAction::CreateDir { path } => ActionView::CreateDir { path: path@ },
            FsAction::SetMode { path, mode } => ActionView::SetMode { path: path@, mode: *mode },
            FsAction::CopyFile { from, to } => ActionView::CopyFile { from: from@, to: to@ },
        }
    }
}

pub open spec fn actions_view(v: Seq<FsAction>) -> Seq<ActionView> {
    v.map_values(|a: FsAction| a@)
}

/// The embedded resource bundle: its directory and every entry below it.
#[derive(Clone, Debug, PartialEq, Eq)]
pub struct SourceBundle {
    pub root: FsPath,
    pub entries: Vec<TreeEntry>,
}

pub struct SourceView {
    pub root: PathView,
    pub entries: Seq<EntryView>,
}

impl View for SourceBundle {
    type V = SourceView;

    open spec fn view(&self) -> SourceView {
        SourceView { root: self.root@, entries: entries_view(self.entries@) }
    }
}

pub open spec fn source_view(s: Option<SourceBundle>) -> Option<SourceView> {
    match s {
        Some(b) => Some(b@),
        None => None,
    }
}

/// What to do to bring a target directory to the shape of a bundle.
///
/// The actions are carried out in order. The first `base_len` create the target
/// and its required subdirectories and set their modes; a failure to set one of
/// those modes is only reported. Any other failure ends the run with an error;
/// what was created before it stays.
#[derive(Clone, Debug, PartialEq, Eq)]
pub struct MaterializePlan {
    pub actions: Vec<FsAction>,
    pub base_len: usize,
    /// The bundle was judged incomplete and the source is copied in.
    pub copies: bool,
    /// The bundle was judged incomplete and there is no source to copy from.
    pub warning: bool,
}

/// Create a directory, then set its mode.
pub open spec fn dir_actions(p: PathView) -> Seq<ActionView> {
    seq![ActionView::CreateDir { path: p }, ActionView::SetMode { path: p, mode: DIR_MODE }]
}

/// The target and each required subdirectory, created with their mode.
pub open spec fn base_actions(subdirs: Seq<RequiredDirView>, t: PathView) -> Seq<ActionView>
    decreases subdirs.len(),
{
    if subdirs.len() == 0 {
        dir_actions(t)
    } else {
        base_actions(subdirs.drop_last(), t) + dir_actions(t.child(subdirs.last().name))
    }
}

/// The actions that copy one source entry into the target; none for an entry
/// without components.
pub open spec fn entry_actions(s: PathView, t: PathView, e: EntryView) -> Seq<ActionView> {
    if e.rel.len() == 0 {
        seq![]
    } else if e.is_dir {
        dir_actions(t.extend(e.rel))
    } else {
        seq![
            ActionView::CreateDir { path: t.extend(e.rel.drop_last()) },
            ActionView::CopyFile { from: s.extend(e.rel), to: t.extend(e.rel) },
            ActionView::SetMode { path: t.extend(e.rel), mode: FILE_MODE },
        ]
    }
}

pub open spec fn copy_actions(s: PathView, t: PathView, es: Seq<EntryView>) -> Seq<ActionView>
    decreases es.len(),
{
    if es.len() == 0 {
        seq![]
    } else {
        copy_actions(s, t, es.drop_last()) + entry_actions(s, t, es.last())
    }
}

/// Some entry of the source is not in the target snapshot with the same kind.
pub open spec fn source_not_in(snap: SnapshotView, src: SourceView) -> bool {
    exists|i: int|
        0 <= i < src.entries.len() && src.entries[i].rel.len() > 0 && !has_entry(
            snap.entries,
            src.entries[i].rel,
            src.entries[i].is_dir,
        )
}

/// The target is incomplete: it does not satisfy the spec, or it lacks part of the
/// source's file set.
pub open spec fn incomplete(spec: BundleSpecView, snap: SnapshotView, src: Option<SourceView>) -> bool {
    ||| !satisfies(spec, snap)
    ||| (src matches Some(b) && source_not_in(snap, b))
}

/// The actions of the plan for target `t`.
pub open spec fn plan_actions(
    spec: BundleSpecView,
    t: PathView,
    snap: SnapshotView,
    src: Option<SourceView>,
) -> Seq<ActionView> {
    base_actions(spec.subdirs, t) + if incomplete(spec, snap, src) && src is Some {
        copy_actions(src->0.root, t, src->0.entries)
    } else {
        seq![]
    }
}

fn push_dir_actions(out: &mut Vec<FsAction>, p: &FsPath)
    ensures
        actions_view(final(out)@) == actions_view(old(out)@) + dir_actions(p@),
{
    let ghost prev = actions_view(out@);
    out.push(FsAction::CreateDir { path: p.duplicate() });
    out.push(FsAction::SetMode { path: p.duplicate(), mode: DIR_MODE });
    assert(actions_view(out@) =~= prev + dir_actions(p@));
}

fn push_entry_actions(out: &mut Vec<FsAction>, s: &FsPath, t: &FsPath, e: &TreeEntry)
    ensures
        actions_view(final(out)@) == actions_view(old(out)@) + entry_actions(s@, t@, e@),
{
    let ghost prev = actions_view(out@);
    if e.rel.len() == 0 {
        assert(actions_view(out@) =~= prev + entry_actions(s@, t@, e@));
    } else if e.is_dir {
        push_dir_actions(out, &t.join_all(&e.rel));
    } else {
        let mut parent_rel = crate::path::copy_strings(&e.rel);
        parent_rel.pop();
        assert(strings_view(parent_rel@) =~= strings_view(e.rel@).drop_last());
        out.push(FsAction::CreateDir { path: t.join_all(&parent_rel) });
        out.push(FsAction::CopyFile { from: s.join_all(&e.rel), to: t.join_all(&e.rel) });
        out.push(FsAction::SetMode { path: t.join_all(&e.rel), mode: FILE_MODE });
        assert(actions_view(out@) =~= prev + entry_actions(s@, t@, e@));
    }
}

/// Whether some entry of the source is missing from the target snapshot.
fn find_source_not_in(snap: &DirSnapshot, src: &SourceBundle) -> (r: bool)
    ensures
        r == source_not_in(snap@, src@),
{
    let mut i: usize = 0;
    while i < src.entries.len()
        invariant
            i <= src.entries.len(),
            forall|j: int|
                0 <= j < i ==> (#[trigger] src@.entries[j]).rel.len() == 0 || has_entry(
                    snap@.entries,
                    src@.entries[j].rel,
                    src@.entries[j].is_dir,
                ),
        decreases src.entries.len() - i,
    {
        let e = &src.entries[i];
        assert(src@.entries[i as int] == e@);
        if e.rel.len() > 0 && !find_entry(&snap.entries, &e.rel, e.is_dir) {
            return true;
        }
        i = i + 1;
    }
    false
}

/// Whether the target seen in `snap` is incomplete for `spec` and the source.
pub fn bundle_incomplete(spec: &BundleSpec, snap: &DirSnapshot, src: &Option<SourceBundle>) -> (r: bool)
    ensures
        r == incomplete(spec@, snap@, source_view(*src)),
{
    if !satisfies_spec(spec, snap) {
        return true;
    }
    match src {
        Some(b) => find_source_not_in(snap, b),
        None => false,
    }
}

/// The plan that brings the directory `target`, seen as `snap`, to the shape of
/// `spec`: create it and its required subdirectories with their mode; then, when
/// the bundle is incomplete, copy every entry of the source in, directories with
/// the directory mode and files with the file mode; or, with no source, warn.
pub fn plan_materialization(
    spec: &BundleSpec,
    target: &FsPath,
    snap: &DirSnapshot,
    src: &Option<SourceBundle>,
) -> (r: MaterializePlan)
    ensures
        actions_view(r.actions@) == plan_actions(spec@, target@, snap@, source_view(*src)),
        r.base_len == base_actions(spec@.subdirs, target@).len(),
        r.copies == (incomplete(spec@, snap@, source_view(*src)) && src is Some),
        r.warning == (incomplete(spec@, snap@, source_view(*src)) && src is None),
{
    let mut actions: Vec<FsAction> = Vec::new();
    push_dir_actions(&mut actions, target);
    let mut i: usize = 0;
    while i < spec.subdirs.len()
        invariant
            i <= spec.subdirs.len(),
            actions_view(actions@) == base_actions(spec@.subdirs.subrange(0, i as int), target@),
        decreases spec.subdirs.len() - i,
    {
        let sub = target.join(spec.subdirs[i].name.as_str());
        push_dir_actions(&mut actions, &sub);
        proof {
            let ds = spec@.subdirs.subrange(0, i + 1);
            assert(ds.drop_last() =~= spec@.subdirs.subrange(0, i as int));
            assert(ds.last() == spec@.subdirs[i as int]);
        }
        i = i + 1;
    }
    assert(spec@.subdirs.subrange(0, spec@.subdirs.len() as int) =~= spec@.subdirs);
    let base_len = actions.len();
    let incomplete = bundle_incomplete(spec, snap, src);
    let ghost base = actions_view(actions@);
    match src {
        Some(b) => {
            if incomplete {
                let mut k: usize = 0;
                while k < b.entries.len()
                    invariant
                        k <= b.entries.len(),
                        actions_view(actions@) == base + copy_actions(
                            b.root@,
                            target@,
                            b@.entries.subrange(0, k as int),
                        ),
                    decreases b.entries.len() - k,
                {
                    push_entry_actions(&mut actions, &b.root, target, &b.entries[k]);
                    proof {
                        let es = b@.entries.subrange(0, k + 1);
                        assert(es.drop_last() =~= b@.entries.subrange(0, k as int));
                        assert(es.last() == b.entries@[k as int]@);
                    }
                    k = k + 1;
                }
                assert(b@.entries.subrange(0, b@.entries.len() as int) =~= b@.entries);
            } else {
                assert(actions_view(actions@) =~= base + seq![]);
            }
        },
        None => {
            assert(actions_view(actions@) =~= base + seq![]);
        },
    }
    MaterializePlan {
        actions,
        base_len,
        copies: incomplete && src.is_some(),
        warning: incomplete && src.is_none(),
    }
}

} // verus!
