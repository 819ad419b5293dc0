use vstd::prelude::*;

use crate::materialize::ActionView;
use crate::path::PathView;

verus! {

/// What a path of the model holds.
pub enum NodeView {
    Dir,
    File { content: Seq<u8> },
}

/// A filesystem: the node at each path that exists.
pub type FsView = Map<PathView, NodeView>;

pub open spec fn is_dir_in(fs: FsView, p: PathView) -> bool {
    fs.contains_key(p) && fs[p] is Dir
}

pub open spec fn is_file_in(fs: FsView, p: PathView) -> bool {
    fs.contains_key(p) && fs[p] is File
}

/// `p` and each of its ancestors is a directory.
pub open spec fn all_prefix_dirs(fs: FsView, p: PathView) -> bool {
    forall|q: PathView| #[trigger] p.is_under(q) ==> is_dir_in(fs, q)
}

/// Create `p` and each missing ancestor; this fails where one of them is a file.
pub open spec fn create_dir_all(fs: FsView, p: PathView) -> Option<FsView> {
    if exists|q: PathView| #[trigger] p.is_under(q) && is_file_in(fs, q) {
        None
    } else {
        Some(
            Map::new(
                |k: PathView| fs.contains_key(k) || p.is_under(k),
                |k: PathView|
                    if fs.contains_key(k) {
                        fs[k]
                    } else {
                        NodeView::Dir
                    },
            ),
        )
    }
}

/// The effect of one action, or `None` where it fails. Setting a mode changes
/// nothing that the model records.
pub open spec fn apply(fs: FsView, a: ActionView) -> Option<FsView> {
    match a {
        ActionView::CreateDir { path } => create_dir_all(fs, path),
        ActionView::SetMode { path, .. } => if fs.contains_key(path) {
            Some(fs)
        } else {
            None
        },
        ActionView::CopyFile { from, to } => {
            if is_file_in(fs, from) && !is_dir_in(fs, to) && (to.parent() matches Some(par)
                && is_dir_in(fs, par)) {
                Some(fs.insert(to, fs[from]))
            } else {
                None
            }
        },
    }
}

/// The effect of the actions in order; `None` where one of them fails.
pub open spec fn run(fs: FsView, acts: Seq<ActionView>) -> Option<FsView>
    decreases acts.len(),
{
    if acts.len() == 0 {
        Some(fs)
    } else {
        match run(fs, acts.drop_last()) {
            Some(f) => apply(f, acts.last()),
            None => None,
        }
    }
}

/// Neither path lies below the other.
pub open spec fn disjoint(s: PathView, t: PathView) -> bool {
    !s.is_under(t) && !t.is_under(s)
}

/// The two filesystems agree on `base` and everything below it.
pub open spec fn same_under(f: FsView, g: FsView, base: PathView) -> bool {
    forall|k: PathView|
        #[trigger] k.is_under(base) ==> (f.contains_key(k) == g.contains_key(k) && (f.contains_key(k)
            ==> f[k] == g[k]))
}

/// Nothing is removed, and no directory changes.
pub open spec fn grows(f: FsView, g: FsView) -> bool {
    &&& forall|k: PathView| #[trigger] f.contains_key(k) ==> g.contains_key(k)
    &&& forall|k: PathView| #[trigger] is_dir_in(f, k) ==> is_dir_in(g, k)
}

/// The action writes only at `t` or below it (and at the ancestors a creation adds).
pub open spec fn writes_under(a: ActionView, t: PathView) -> bool {
    match a {
        ActionView::CreateDir { path } => path.is_under(t),
        ActionView::SetMode { .. } => true,
        ActionView::CopyFile { to, .. } => to.is_under(t),
    }
}

/// Running the action again on `f` changes nothing.
pub open spec fn settled(f: FsView, a: ActionView) -> bool {
    match a {
        ActionView::CreateDir { path } => all_prefix_dirs(f, path),
        ActionView::SetMode { path, .. } => f.contains_key(path),
        ActionView::CopyFile { from, to } => {
            &&& is_file_in(f, from)
            &&& f.contains_key(to)
            &&& f[to] == f[from]
            &&& !is_dir_in(f, to)
            &&& to.parent() matches Some(par) && is_dir_in(f, par)
        },
    }
}

pub open spec fn all_settled(f: FsView, acts: Seq<ActionView>) -> bool {
    forall|i: int| 0 <= i < acts.len() ==> settled(f, #[trigger] acts[i])
}

pub proof fn lemma_under_trans(a: PathView, b: PathView, c: PathView)
    requires
        a.is_under(b),
        b.is_under(c),
    ensures
        a.is_under(c),
{
    assert(a.comps.subrange(0, c.comps.len() as int) =~= a.comps.subrange(
        0,
        b.comps.len() as int,
    ).subrange(0, c.comps.len() as int));
}

/// Two paths above a common one are one above the other.
pub proof fn lemma_under_both(k: PathView, s: PathView, t: PathView)
    requires
        k.is_under(s),
        k.is_under(t),
    ensures
        s.is_under(t) || t.is_under(s),
{
    if s.comps.len() <= t.comps.len() {
        assert(t.comps.subrange(0, s.comps.len() as int) =~= k.comps.subrange(0, s.comps.len() as int));
    } else {
        assert(s.comps.subrange(0, t.comps.len() as int) =~= k.comps.subrange(0, t.comps.len() as int));
    }
}

pub proof fn lemma_extend_under(t: PathView, rel: Seq<Seq<char>>)
    ensures
        t.extend(rel).is_under(t),
{
    assert(t.extend(rel).comps.subrange(0, t.comps.len() as int) =~= t.comps);
}

pub proof fn lemma_child_under(t: PathView, n: Seq<char>)
    ensures
        t.child(n).is_under(t),
        t.child(n) == t.extend(seq![n]),
{
    assert(t.child(n).comps.subrange(0, t.comps.len() as int) =~= t.comps);
    assert(t.child(n).comps =~= t.extend(seq![n]).comps);
}

pub proof fn lemma_extend_cancel(t: PathView, a: Seq<Seq<char>>, b: Seq<Seq<char>>)
    requires
        t.extend(a) == t.extend(b),
    ensures
        a == b,
{
    assert(a =~= t.extend(a).comps.subrange(t.comps.len() as int, t.extend(a).comps.len() as int));
    assert(b =~= t.extend(b).comps.subrange(t.comps.len() as int, t.extend(b).comps.len() as int));
}

/// A path is below itself.
pub proof fn lemma_under_refl(p: PathView)
    ensures
        p.is_under(p),
{
    assert(p.comps.subrange(0, p.comps.len() as int) =~= p.comps);
}

pub proof fn lemma_run_append(fs: FsView, a: Seq<ActionView>, b: Seq<ActionView>)
    ensures
        run(fs, a + b) == match run(fs, a) {
            Some(f) => run(f, b),
            None => None,
        },
    decreases b.len(),
{
    if b.len() == 0 {
        assert(a + b =~= a);
    } else {
        assert((a + b).drop_last() =~= a + b.drop_last());
        assert((a + b).last() == b.last());
        lemma_run_append(fs, a, b.drop_last());
    }
}

pub proof fn lemma_run_two(fs: FsView, a: ActionView, b: ActionView)
    ensures
        run(fs, seq![a, b]) == match apply(fs, a) {
            Some(f) => apply(f, b),
            None => None,
        },
{
    let e = Seq::<ActionView>::empty();
    assert(run(fs, e) == Some(fs));
    assert(seq![a].drop_last() =~= e);
    assert(seq![a].last() == a);
    assert(run(fs, seq![a]) == apply(fs, a));
    assert(seq![a, b].drop_last() =~= seq![a]);
}

pub proof fn lemma_run_three(fs: FsView, a: ActionView, b: ActionView, c: ActionView)
    ensures
        run(fs, seq![a, b, c]) == match apply(fs, a) {
            Some(f) => match apply(f, b) {
                Some(g) => apply(g, c),
                None => None,
            },
            None => None,
        },
{
    assert(seq![a, b, c].drop_last() =~= seq![a, b]);
    lemma_run_two(fs, a, b);
}

/// A successful creation leaves the path and its ancestors as directories.
pub proof fn lemma_create_makes(fs: FsView, p: PathView)
    requires
        create_dir_all(fs, p) is Some,
    ensures
        all_prefix_dirs(create_dir_all(fs, p)->0, p),
{
    let g = create_dir_all(fs, p)->0;
    assert forall|q: PathView| #[trigger] p.is_under(q) implies is_dir_in(g, q) by {
        if fs.contains_key(q) {
            assert(!is_file_in(fs, q));
        }
    }
}

/// Creating a path whose ancestors are all directories changes nothing.
pub proof fn lemma_create_noop(fs: FsView, p: PathView)
    requires
        all_prefix_dirs(fs, p),
    ensures
        create_dir_all(fs, p) == Some(fs),
{
    assert(!exists|q: PathView| #[trigger] p.is_under(q) && is_file_in(fs, q));
    let g = create_dir_all(fs, p)->0;
    assert(g =~= fs);
}

/// One action removes nothing and keeps every directory; it changes no value but
/// the one it copies to.
pub proof fn lemma_apply_grows(fs: FsView, a: ActionView)
    requires
        apply(fs, a) is Some,
    ensures
        grows(fs, apply(fs, a)->0),
        forall|k: PathView|
            #[trigger] fs.contains_key(k) && !(a matches ActionView::CopyFile { to, .. } && to == k)
                ==> apply(fs, a)->0[k] == fs[k],
{
}

pub proof fn lemma_run_grows(fs: FsView, acts: Seq<ActionView>)
    requires
        run(fs, acts) is Some,
    ensures
        grows(fs, run(fs, acts)->0),
    decreases acts.len(),
{
    if acts.len() > 0 {
        lemma_run_grows(fs, acts.drop_last());
        let m = run(fs, acts.drop_last())->0;
        lemma_apply_grows(m, acts.last());
    }
}

pub proof fn lemma_prefix_dirs_grow(f: FsView, g: FsView, p: PathView)
    requires
        all_prefix_dirs(f, p),
        grows(f, g),
    ensures
        all_prefix_dirs(g, p),
{
    assert forall|q: PathView| #[trigger] p.is_under(q) implies is_dir_in(g, q) by {
        assert(is_dir_in(f, q));
    }
}

/// An action that writes under `t` leaves what lies under a disjoint `s` alone.
pub proof fn lemma_apply_frame(fs: FsView, a: ActionView, s: PathView, t: PathView)
    requires
        apply(fs, a) is Some,
        writes_under(a, t),
        disjoint(s, t),
    ensures
        same_under(fs, apply(fs, a)->0, s),
{
    let g = apply(fs, a)->0;
    assert forall|k: PathView| #[trigger] k.is_under(s) implies (fs.contains_key(k) == g.contains_key(k)
        && (fs.contains_key(k) ==> fs[k] == g[k])) by {
        match a {
            ActionView::CreateDir { path } => {
                if path.is_under(k) {
                    lemma_under_trans(path, k, s);
                    lemma_under_both(path, s, t);
                }
            },
            ActionView::CopyFile { from, to } => {
                if to == k {
                    lemma_under_both(k, s, t);
                }
            },
            ActionView::SetMode { .. } => {},
        }
    }
}

pub proof fn lemma_run_frame(fs: FsView, acts: Seq<ActionView>, s: PathView, t: PathView)
    requires
        run(fs, acts) is Some,
        forall|i: int| 0 <= i < acts.len() ==> writes_under(#[trigger] acts[i], t),
        disjoint(s, t),
    ensures
        same_under(fs, run(fs, acts)->0, s),
    decreases acts.len(),
{
    if acts.len() > 0 {
        let init = acts.drop_last();
        assert forall|i: int| 0 <= i < init.len() implies writes_under(#[trigger] init[i], t) by {
            assert(init[i] == acts[i]);
        }
        lemma_run_frame(fs, init, s, t);
        let m = run(fs, init)->0;
        assert(writes_under(acts[acts.len() - 1], t));
        lemma_apply_frame(m, acts.last(), s, t);
    }
}

pub proof fn lemma_same_under_trans(f: FsView, g: FsView, h: FsView, base: PathView)
    requires
        same_under(f, g, base),
        same_under(g, h, base),
    ensures
        same_under(f, h, base),
{
    assert forall|k: PathView| #[trigger] k.is_under(base) implies (f.contains_key(k) == h.contains_key(k)
        && (f.contains_key(k) ==> f[k] == h[k])) by {
        assert(f.contains_key(k) == g.contains_key(k));
        assert(g.contains_key(k) == h.contains_key(k));
    }
}

/// An action already carried out is a no-op.
pub proof fn lemma_settled_noop(f: FsView, a: ActionView)
    requires
        settled(f, a),
    ensures
        apply(f, a) == Some(f),
{
    match a {
        ActionView::CreateDir { path } => {
            lemma_create_noop(f, path);
        },
        ActionView::CopyFile { from, to } => {
            assert(f.insert(to, f[from]) =~= f);
        },
        ActionView::SetMode { .. } => {},
    }
}

/// Actions that are all already carried out change nothing.
pub proof fn lemma_settled_run_noop(f: FsView, acts: Seq<ActionView>)
    requires
        all_settled(f, acts),
    ensures
        run(f, acts) == Some(f),
    decreases acts.len(),
{
    if acts.len() > 0 {
        let init = acts.drop_last();
        assert forall|i: int| 0 <= i < init.len() implies settled(f, #[trigger] init[i]) by {
            assert(init[i] == acts[i]);
        }
        lemma_settled_run_noop(f, init);
        assert(settled(f, acts[acts.len() - 1]));
        lemma_settled_noop(f, acts.last());
    }
}

pub proof fn lemma_all_settled_concat(f: FsView, a: Seq<ActionView>, b: Seq<ActionView>)
    requires
        all_settled(f, a),
        all_settled(f, b),
    ensures
        all_settled(f, a + b),
{
    assert forall|i: int| 0 <= i < (a + b).len() implies settled(f, #[trigger] (a + b)[i]) by {
        if i < a.len() {
            assert((a + b)[i] == a[i]);
        } else {
            assert((a + b)[i] == b[i - a.len()]);
        }
    }
}

} // verus!
