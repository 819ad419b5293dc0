use vstd::prelude::*;

use crate::bundle::{
    dir_at, has_content_under, has_entry, marker_missing, marker_present, satisfies, subdir_ok, BundleSpecView,
    EntryView, RequiredDirView, SnapshotView,
};
use crate::fsmodel::{
    all_prefix_dirs, all_settled, apply, create_dir_all, disjoint, grows, is_dir_in, is_file_in,
    lemma_all_settled_concat, lemma_apply_frame, lemma_apply_grows, lemma_child_under,
    lemma_create_makes, lemma_extend_cancel, lemma_extend_under, lemma_prefix_dirs_grow,
    lemma_run_append, lemma_run_grows, lemma_run_three, lemma_run_two, lemma_same_under_trans,
    lemma_settled_run_noop, lemma_under_refl, run, same_under, settled, FsView,
};
use crate::materialize::{
    base_actions, copy_actions, dir_actions, entry_actions, incomplete, plan_actions,
    source_not_in, ActionView, SourceView,
};
use crate::path::PathView;

verus! {

/// `snap` is what a listing of `t` in `fs` shows: whether `t` is a directory, and
/// every path below `t` with its kind.
pub open spec fn snapshot_of(fs: FsView, t: PathView, snap: SnapshotView) -> bool {
    &&& snap.present == is_dir_in(fs, t)
    &&& forall|i: int| 0 <= i < snap.entries.len() ==> (#[trigger] snap.entries[i]).rel.len() > 0
    &&& forall|rel: Seq<Seq<char>>, d: bool|
        rel.len() > 0 ==> (#[trigger] has_entry(snap.entries, rel, d) <==> (fs.contains_key(
            t.extend(rel),
        ) && (fs[t.extend(rel)] is Dir) == d))
}

/// The entry of the source has been carried into the target in `g`, with the
/// content that the source has in `f0`.
pub open spec fn entry_done(f0: FsView, g: FsView, s: PathView, t: PathView, e: EntryView) -> bool {
    e.rel.len() > 0 ==> if e.is_dir {
        all_prefix_dirs(g, t.extend(e.rel))
    } else {
        &&& is_file_in(f0, s.extend(e.rel))
        &&& all_prefix_dirs(g, t.extend(e.rel.drop_last()))
        &&& g.contains_key(t.extend(e.rel))
        &&& g[t.extend(e.rel)] == f0[s.extend(e.rel)]
    }
}

proof fn lemma_grows_trans(f: FsView, g: FsView, h: FsView)
    requires
        grows(f, g),
        grows(g, h),
    ensures
        grows(f, h),
{
    assert forall|k: PathView| #[trigger] f.contains_key(k) implies h.contains_key(k) by {
        assert(g.contains_key(k));
    }
    assert forall|k: PathView| #[trigger] is_dir_in(f, k) implies is_dir_in(h, k) by {
        assert(is_dir_in(g, k));
    }
}

proof fn lemma_parent_of_extend(t: PathView, rel: Seq<Seq<char>>)
    requires
        rel.len() > 0,
    ensures
        t.extend(rel).parent() == Some(t.extend(rel.drop_last())),
{
    assert((t.comps + rel).drop_last() =~= t.comps + rel.drop_last());
}

proof fn lemma_dir_actions_effect(m: FsView, p: PathView)
    requires
        run(m, dir_actions(p)) is Some,
    ensures
        run(m, dir_actions(p)) == create_dir_all(m, p),
        all_prefix_dirs(run(m, dir_actions(p))->0, p),
        grows(m, run(m, dir_actions(p))->0),
        m.contains_key(p) ==> is_dir_in(m, p),
{
    let c = ActionView::CreateDir { path: p };
    lemma_run_two(m, c, ActionView::SetMode { path: p, mode: crate::materialize::DIR_MODE });
    lemma_create_makes(m, p);
    lemma_under_refl(p);
    lemma_apply_grows(m, c);
    if m.contains_key(p) && !is_dir_in(m, p) {
        assert(p.is_under(p) && is_file_in(m, p));
    }
}

proof fn lemma_entry_effect(m: FsView, s: PathView, t: PathView, e: EntryView)
    requires
        disjoint(s, t),
        run(m, entry_actions(s, t, e)) is Some,
    ensures
        same_under(m, run(m, entry_actions(s, t, e))->0, s),
        grows(m, run(m, entry_actions(s, t, e))->0),
        entry_done(m, run(m, entry_actions(s, t, e))->0, s, t, e),
        forall|k: PathView|
            #[trigger] m.contains_key(k) && !(e.rel.len() > 0 && !e.is_dir && k == t.extend(e.rel))
                ==> run(m, entry_actions(s, t, e))->0[k] == m[k],
        e.rel.len() > 0 && !e.is_dir && m.contains_key(t.extend(e.rel)) ==> !is_dir_in(
            m,
            t.extend(e.rel),
        ),
        e.rel.len() > 0 && e.is_dir && m.contains_key(t.extend(e.rel)) ==> is_dir_in(
            m,
            t.extend(e.rel),
        ),
{
    let g = run(m, entry_actions(s, t, e))->0;
    if e.rel.len() == 0 {
        assert(run(m, Seq::<ActionView>::empty()) == Some(m));
        assert forall|k: PathView| #[trigger] k.is_under(s) implies (m.contains_key(k) == g.contains_key(k)
            && (m.contains_key(k) ==> m[k] == g[k])) by {}
    } else if e.is_dir {
        let p = t.extend(e.rel);
        lemma_extend_under(t, e.rel);
        lemma_dir_actions_effect(m, p);
        lemma_apply_frame(m, ActionView::CreateDir { path: p }, s, t);
        lemma_apply_grows(m, ActionView::CreateDir { path: p });
    } else {
        let par = t.extend(e.rel.drop_last());
        let from = s.extend(e.rel);
        let to = t.extend(e.rel);
        let c = ActionView::CreateDir { path: par };
        let cp = ActionView::CopyFile { from, to };
        lemma_run_three(m, c, cp, ActionView::SetMode { path: to, mode: crate::materialize::FILE_MODE });
        lemma_extend_under(t, e.rel.drop_last());
        lemma_extend_under(t, e.rel);
        lemma_extend_under(s, e.rel);
        let g1 = apply(m, c)->0;
        lemma_create_makes(m, par);
        lemma_apply_frame(m, c, s, t);
        lemma_apply_grows(m, c);
        assert(apply(g1, cp) is Some);
        let g2 = apply(g1, cp)->0;
        lemma_apply_frame(g1, cp, s, t);
        lemma_apply_grows(g1, cp);
        assert(g == g2);
        lemma_grows_trans(m, g1, g2);
        lemma_same_under_trans(m, g1, g2, s);
        lemma_prefix_dirs_grow(g1, g2, par);
        assert(from.is_under(s));
        assert(m.contains_key(from) == g1.contains_key(from));
        assert(is_file_in(m, from));
        if m.contains_key(to) && is_dir_in(m, to) {
            assert(is_dir_in(g1, to));
        }
    }
}

proof fn lemma_copy_effect(f0: FsView, s: PathView, t: PathView, es: Seq<EntryView>)
    requires
        disjoint(s, t),
        run(f0, copy_actions(s, t, es)) is Some,
    ensures
        same_under(f0, run(f0, copy_actions(s, t, es))->0, s),
        grows(f0, run(f0, copy_actions(s, t, es))->0),
        forall|i: int|
            0 <= i < es.len() ==> entry_done(
                f0,
                run(f0, copy_actions(s, t, es))->0,
                s,
                t,
                #[trigger] es[i],
            ),
    decreases es.len(),
{
    let g = run(f0, copy_actions(s, t, es))->0;
    if es.len() == 0 {
        assert(run(f0, Seq::<ActionView>::empty()) == Some(f0));
        assert forall|k: PathView| #[trigger] k.is_under(s) implies (f0.contains_key(k) == g.contains_key(k)
            && (f0.contains_key(k) ==> f0[k] == g[k])) by {}
    } else {
        let init = es.drop_last();
        let e = es.last();
        lemma_run_append(f0, copy_actions(s, t, init), entry_actions(s, t, e));
        lemma_copy_effect(f0, s, t, init);
        let m = run(f0, copy_actions(s, t, init))->0;
        lemma_entry_effect(m, s, t, e);
        lemma_same_under_trans(f0, m, g, s);
        lemma_grows_trans(f0, m, g);
        assert forall|i: int| 0 <= i < es.len() implies entry_done(f0, g, s, t, #[trigger] es[i]) by {
            let ei = es[i];
            if ei.rel.len() > 0 {
                let from = s.extend(ei.rel);
                let to = t.extend(ei.rel);
                lemma_extend_under(s, ei.rel);
                if i == es.len() - 1 {
                    assert(from.is_under(s));
                    assert(m.contains_key(from) == f0.contains_key(from));
                } else {
                    assert(init[i] == ei);
                    assert(entry_done(f0, m, s, t, init[i]));
                    if ei.is_dir {
                        lemma_prefix_dirs_grow(m, g, to);
                    } else {
                        lemma_prefix_dirs_grow(m, g, t.extend(ei.rel.drop_last()));
                        assert(m.contains_key(from) == f0.contains_key(from));
                        if e.rel.len() > 0 && to == t.extend(e.rel) {
                            lemma_extend_cancel(t, ei.rel, e.rel);
                            if !e.is_dir {
                                assert(g[to] == m[from]);
                            } else {
                                assert(is_dir_in(m, to));
                            }
                        } else {
                            assert(g[to] == m[to]);
                        }
                    }
                }
            }
        }
    }
}

proof fn lemma_base_effect(f0: FsView, subdirs: Seq<RequiredDirView>, t: PathView, s: PathView)
    requires
        run(f0, base_actions(subdirs, t)) is Some,
    ensures
        grows(f0, run(f0, base_actions(subdirs, t))->0),
        all_prefix_dirs(run(f0, base_actions(subdirs, t))->0, t),
        forall|i: int|
            0 <= i < subdirs.len() ==> all_prefix_dirs(
                run(f0, base_actions(subdirs, t))->0,
                t.child(#[trigger] subdirs[i].name),
            ),
        disjoint(s, t) ==> same_under(f0, run(f0, base_actions(subdirs, t))->0, s),
    decreases subdirs.len(),
{
    let g = run(f0, base_actions(subdirs, t))->0;
    lemma_under_refl(t);
    if subdirs.len() == 0 {
        lemma_dir_actions_effect(f0, t);
        if disjoint(s, t) {
            lemma_apply_frame(f0, ActionView::CreateDir { path: t }, s, t);
        }
    } else {
        let init = subdirs.drop_last();
        let p = t.child(subdirs.last().name);
        lemma_run_append(f0, base_actions(init, t), dir_actions(p));
        lemma_base_effect(f0, init, t, s);
        let m = run(f0, base_actions(init, t))->0;
        lemma_dir_actions_effect(m, p);
        lemma_child_under(t, subdirs.last().name);
        lemma_grows_trans(f0, m, g);
        lemma_prefix_dirs_grow(m, g, t);
        assert forall|i: int| 0 <= i < subdirs.len() implies all_prefix_dirs(
            g,
            t.child(#[trigger] subdirs[i].name),
        ) by {
            if i < subdirs.len() - 1 {
                assert(init[i] == subdirs[i]);
                lemma_prefix_dirs_grow(m, g, t.child(subdirs[i].name));
            }
        }
        if disjoint(s, t) {
            lemma_apply_frame(m, ActionView::CreateDir { path: p }, s, t);
            lemma_same_under_trans(f0, m, g, s);
        }
    }
}

proof fn lemma_dir_actions_settled(g: FsView, p: PathView)
    requires
        all_prefix_dirs(g, p),
    ensures
        all_settled(g, dir_actions(p)),
{
    lemma_under_refl(p);
    assert(settled(g, dir_actions(p)[0]));
    assert(settled(g, dir_actions(p)[1]));
}

proof fn lemma_base_settled(g: FsView, subdirs: Seq<RequiredDirView>, t: PathView)
    requires
        all_prefix_dirs(g, t),
        forall|i: int| 0 <= i < subdirs.len() ==> all_prefix_dirs(g, t.child(#[trigger] subdirs[i].name)),
    ensures
        all_settled(g, base_actions(subdirs, t)),
    decreases subdirs.len(),
{
    if subdirs.len() == 0 {
        lemma_dir_actions_settled(g, t);
    } else {
        let init = subdirs.drop_last();
        assert forall|i: int| 0 <= i < init.len() implies all_prefix_dirs(g, t.child(#[trigger] init[i].name)) by {
            assert(init[i] == subdirs[i]);
        }
        lemma_base_settled(g, init, t);
        assert(all_prefix_dirs(g, t.child(subdirs[subdirs.len() - 1].name)));
        lemma_dir_actions_settled(g, t.child(subdirs.last().name));
        lemma_all_settled_concat(g, base_actions(init, t), dir_actions(t.child(subdirs.last().name)));
    }
}

proof fn lemma_copy_settled(f0: FsView, g: FsView, s: PathView, t: PathView, es: Seq<EntryView>)
    requires
        same_under(f0, g, s),
        forall|i: int| 0 <= i < es.len() ==> entry_done(f0, g, s, t, #[trigger] es[i]),
    ensures
        all_settled(g, copy_actions(s, t, es)),
    decreases es.len(),
{
    if es.len() > 0 {
        let init = es.drop_last();
        let e = es.last();
        assert forall|i: int| 0 <= i < init.len() implies entry_done(f0, g, s, t, #[trigger] init[i]) by {
            assert(init[i] == es[i]);
        }
        lemma_copy_settled(f0, g, s, t, init);
        assert(entry_done(f0, g, s, t, es[es.len() - 1]));
        let acts = entry_actions(s, t, e);
        if e.rel.len() > 0 {
            if e.is_dir {
                lemma_dir_actions_settled(g, t.extend(e.rel));
            } else {
                let par = t.extend(e.rel.drop_last());
                let from = s.extend(e.rel);
                lemma_extend_under(s, e.rel);
                lemma_parent_of_extend(t, e.rel);
                lemma_under_refl(par);
                assert(from.is_under(s));
                assert(f0.contains_key(from) == g.contains_key(from));
                assert(settled(g, acts[0]));
                assert(settled(g, acts[1]));
                assert(settled(g, acts[2]));
            }
        }
        lemma_all_settled_concat(g, copy_actions(s, t, init), acts);
    }
}

/// Creating `t` or one of its children, where it already exists, changes nothing
/// at `t` or below it.
proof fn lemma_create_existing_under(f: FsView, p: PathView, t: PathView)
    requires
        create_dir_all(f, p) is Some,
        f.contains_key(p),
        f.contains_key(t),
        p.is_under(t),
        p.comps.len() <= t.comps.len() + 1,
    ensures
        same_under(f, create_dir_all(f, p)->0, t),
{
    let g = create_dir_all(f, p)->0;
    assert forall|k: PathView| #[trigger] k.is_under(t) implies (f.contains_key(k) == g.contains_key(k)
        && (f.contains_key(k) ==> f[k] == g[k])) by {
        if !f.contains_key(k) && p.is_under(k) {
            if k.comps.len() == t.comps.len() {
                assert(k.comps =~= t.comps);
                assert(k == t);
            } else {
                assert(k.comps.len() == p.comps.len());
                assert(k.comps =~= p.comps);
                assert(k == p);
            }
        }
    }
}

proof fn lemma_base_keeps_under(f0: FsView, subdirs: Seq<RequiredDirView>, t: PathView)
    requires
        is_dir_in(f0, t),
        forall|i: int| 0 <= i < subdirs.len() ==> is_dir_in(f0, t.child(#[trigger] subdirs[i].name)),
        run(f0, base_actions(subdirs, t)) is Some,
    ensures
        same_under(f0, run(f0, base_actions(subdirs, t))->0, t),
    decreases subdirs.len(),
{
    let g = run(f0, base_actions(subdirs, t))->0;
    lemma_under_refl(t);
    if subdirs.len() == 0 {
        lemma_dir_actions_effect(f0, t);
        lemma_create_existing_under(f0, t, t);
    } else {
        let init = subdirs.drop_last();
        let p = t.child(subdirs.last().name);
        assert forall|i: int| 0 <= i < init.len() implies is_dir_in(f0, t.child(#[trigger] init[i].name)) by {
            assert(init[i] == subdirs[i]);
        }
        lemma_run_append(f0, base_actions(init, t), dir_actions(p));
        lemma_base_keeps_under(f0, init, t);
        lemma_base_effect(f0, init, t, t);
        let m = run(f0, base_actions(init, t))->0;
        lemma_dir_actions_effect(m, p);
        lemma_child_under(t, subdirs.last().name);
        assert(is_dir_in(f0, t.child(subdirs[subdirs.len() - 1].name)));
        assert(p.is_under(t));
        lemma_create_existing_under(m, p, t);
        lemma_same_under_trans(f0, m, g, t);
    }
}

/// Two faithful snapshots of filesystems that agree at and below `t` show the same.
proof fn lemma_snapshots_agree(f: FsView, g: FsView, t: PathView, s1: SnapshotView, s2: SnapshotView)
    requires
        snapshot_of(f, t, s1),
        snapshot_of(g, t, s2),
        same_under(f, g, t),
    ensures
        s1.present == s2.present,
        forall|rel: Seq<Seq<char>>, d: bool|
            #[trigger] has_entry(s1.entries, rel, d) == has_entry(s2.entries, rel, d),
        forall|rel: Seq<Seq<char>>|
            #[trigger] has_content_under(s1.entries, rel) == has_content_under(s2.entries, rel),
{
    lemma_under_refl(t);
    assert forall|rel: Seq<Seq<char>>, d: bool|
        #[trigger] has_entry(s1.entries, rel, d) == has_entry(s2.entries, rel, d) by {
        lemma_extend_under(t, rel);
        if rel.len() == 0 {
            if has_entry(s1.entries, rel, d) {
                let i = choose|i: int| 0 <= i < s1.entries.len() && s1.entries[i].rel == rel && s1.entries[i].is_dir == d;
                assert(s1.entries[i].rel.len() > 0);
            }
            if has_entry(s2.entries, rel, d) {
                let i = choose|i: int| 0 <= i < s2.entries.len() && s2.entries[i].rel == rel && s2.entries[i].is_dir == d;
                assert(s2.entries[i].rel.len() > 0);
            }
        }
    }
    assert forall|rel: Seq<Seq<char>>|
        #[trigger] has_content_under(s1.entries, rel) == has_content_under(s2.entries, rel) by {
        if has_content_under(s1.entries, rel) {
            let i = choose|i: int|
                0 <= i < s1.entries.len() && s1.entries[i].rel.len() > rel.len()
                    && s1.entries[i].rel.subrange(0, rel.len() as int) == rel;
            let e = s1.entries[i];
            assert(has_entry(s1.entries, e.rel, e.is_dir));
            assert(has_entry(s2.entries, e.rel, e.is_dir));
            let j = choose|j: int| 0 <= j < s2.entries.len() && s2.entries[j].rel == e.rel && s2.entries[j].is_dir == e.is_dir;
            assert(s2.entries[j].rel.len() > rel.len());
        }
        if has_content_under(s2.entries, rel) {
            let i = choose|i: int|
                0 <= i < s2.entries.len() && s2.entries[i].rel.len() > rel.len()
                    && s2.entries[i].rel.subrange(0, rel.len() as int) == rel;
            let e = s2.entries[i];
            assert(has_entry(s2.entries, e.rel, e.is_dir));
            assert(has_entry(s1.entries, e.rel, e.is_dir));
            let j = choose|j: int| 0 <= j < s1.entries.len() && s1.entries[j].rel == e.rel && s1.entries[j].is_dir == e.is_dir;
            assert(s1.entries[j].rel.len() > rel.len());
        }
    }
}

proof fn lemma_incomplete_agree(
    spec: BundleSpecView,
    f: FsView,
    g: FsView,
    t: PathView,
    s1: SnapshotView,
    s2: SnapshotView,
    src: Option<SourceView>,
)
    requires
        snapshot_of(f, t, s1),
        snapshot_of(g, t, s2),
        same_under(f, g, t),
    ensures
        incomplete(spec, s1, src) == incomplete(spec, s2, src),
{
    lemma_snapshots_agree(f, g, t, s1, s2);
    assert forall|i: int| 0 <= i < spec.subdirs.len() implies subdir_ok(s1, #[trigger] spec.subdirs[i])
        == subdir_ok(s2, spec.subdirs[i]) by {
        let n = spec.subdirs[i].name;
        assert(has_entry(s1.entries, seq![n], true) == has_entry(s2.entries, seq![n], true));
        assert(has_content_under(s1.entries, seq![n]) == has_content_under(s2.entries, seq![n]));
    }
    assert forall|n: Seq<char>| #[trigger] marker_present(s1, n) == marker_present(s2, n) by {
        assert(has_entry(s1.entries, seq![n], false) == has_entry(s2.entries, seq![n], false));
    }
    assert(marker_missing(spec, s1) == marker_missing(spec, s2));
    assert(satisfies(spec, s1) == satisfies(spec, s2));
    if let Some(b) = src {
        assert forall|i: int| 0 <= i < b.entries.len() implies has_entry(
            s1.entries,
            (#[trigger] b.entries[i]).rel,
            b.entries[i].is_dir,
        ) == has_entry(s2.entries, b.entries[i].rel, b.entries[i].is_dir) by {}
        assert(source_not_in(s1, b) == source_not_in(s2, b));
    }
}

/// Materializing copies the whole source. Once the plan for an incomplete target
/// has run to the end, the target holds every required subdirectory, every
/// directory of the source, and every file of the source with the very content
/// it has in the source.
pub proof fn lemma_materialize_copies_source(
    fs: FsView,
    spec: BundleSpecView,
    t: PathView,
    snap: SnapshotView,
    src: SourceView,
)
    requires
        disjoint(src.root, t),
        incomplete(spec, snap, Some(src)),
        run(fs, plan_actions(spec, t, snap, Some(src))) is Some,
    ensures
        forall|i: int|
            0 <= i < spec.subdirs.len() ==> is_dir_in(
                run(fs, plan_actions(spec, t, snap, Some(src)))->0,
                t.child(#[trigger] spec.subdirs[i].name),
            ),
        forall|i: int|
            0 <= i < src.entries.len() && (#[trigger] src.entries[i]).rel.len() > 0
                && src.entries[i].is_dir ==> is_dir_in(
                run(fs, plan_actions(spec, t, snap, Some(src)))->0,
                t.extend(src.entries[i].rel),
            ),
        forall|i: int|
            0 <= i < src.entries.len() && (#[trigger] src.entries[i]).rel.len() > 0
                && !src.entries[i].is_dir ==> {
                let f = run(fs, plan_actions(spec, t, snap, Some(src)))->0;
                &&& is_file_in(fs, src.root.extend(src.entries[i].rel))
                &&& f.contains_key(t.extend(src.entries[i].rel))
                &&& f[t.extend(src.entries[i].rel)] == fs[src.root.extend(src.entries[i].rel)]
            },
{
    let base = base_actions(spec.subdirs, t);
    let copy = copy_actions(src.root, t, src.entries);
    assert(plan_actions(spec, t, snap, Some(src)) == base + copy);
    lemma_run_append(fs, base, copy);
    lemma_base_effect(fs, spec.subdirs, t, src.root);
    let m = run(fs, base)->0;
    lemma_copy_effect(m, src.root, t, src.entries);
    let f = run(m, copy)->0;
    assert forall|i: int| 0 <= i < spec.subdirs.len() implies is_dir_in(
        f,
        t.child(#[trigger] spec.subdirs[i].name),
    ) by {
        let p = t.child(spec.subdirs[i].name);
        lemma_under_refl(p);
        lemma_prefix_dirs_grow(m, f, p);
    }
    assert forall|i: int|
        0 <= i < src.entries.len() && (#[trigger] src.entries[i]).rel.len() > 0 implies (
    if src.entries[i].is_dir {
        is_dir_in(f, t.extend(src.entries[i].rel))
    } else {
        &&& is_file_in(fs, src.root.extend(src.entries[i].rel))
        &&& f.contains_key(t.extend(src.entries[i].rel))
        &&& f[t.extend(src.entries[i].rel)] == fs[src.root.extend(src.entries[i].rel)]
    }) by {
        let e = src.entries[i];
        assert(entry_done(m, f, src.root, t, e));
        lemma_under_refl(t.extend(e.rel));
        lemma_extend_under(src.root, e.rel);
        assert(src.root.extend(e.rel).is_under(src.root));
        assert(fs.contains_key(src.root.extend(e.rel)) == m.contains_key(src.root.extend(e.rel)));
    }
}

/// Materializing is idempotent: running the plan for a target a second time, as
/// computed from a faithful snapshot of what the first run left, changes nothing.
pub proof fn lemma_materialize_idempotent(
    fs: FsView,
    spec: BundleSpecView,
    t: PathView,
    snap1: SnapshotView,
    snap2: SnapshotView,
    src: Option<SourceView>,
)
    requires
        snapshot_of(fs, t, snap1),
        src matches Some(b) ==> disjoint(b.root, t),
        run(fs, plan_actions(spec, t, snap1, src)) is Some,
        snapshot_of(run(fs, plan_actions(spec, t, snap1, src))->0, t, snap2),
    ensures
        run(run(fs, plan_actions(spec, t, snap1, src))->0, plan_actions(spec, t, snap2, src))
            == Some(run(fs, plan_actions(spec, t, snap1, src))->0),
{
    let f1 = run(fs, plan_actions(spec, t, snap1, src))->0;
    let base = base_actions(spec.subdirs, t);
    let copies1 = incomplete(spec, snap1, src) && src is Some;
    let copies2 = incomplete(spec, snap2, src) && src is Some;
    let tail1 = plan_actions(spec, t, snap1, src).subrange(base.len() as int, plan_actions(spec, t, snap1, src).len() as int);
    assert(plan_actions(spec, t, snap1, src) =~= base + tail1);
    lemma_run_append(fs, base, tail1);
    let s = match src {
        Some(b) => b.root,
        None => t,
    };
    lemma_base_effect(fs, spec.subdirs, t, s);
    let m = run(fs, base)->0;
    if copies1 {
        let b = src->0;
        assert(tail1 =~= copy_actions(b.root, t, b.entries));
        lemma_copy_effect(m, b.root, t, b.entries);
        lemma_prefix_dirs_grow(m, f1, t);
        assert forall|i: int| 0 <= i < spec.subdirs.len() implies all_prefix_dirs(
            f1,
            t.child(#[trigger] spec.subdirs[i].name),
        ) by {
            lemma_prefix_dirs_grow(m, f1, t.child(spec.subdirs[i].name));
        }
        lemma_base_settled(f1, spec.subdirs, t);
        lemma_copy_settled(m, f1, b.root, t, b.entries);
        lemma_all_settled_concat(f1, base, copy_actions(b.root, t, b.entries));
        if copies2 {
            assert(plan_actions(spec, t, snap2, src) == base + copy_actions(b.root, t, b.entries));
        } else {
            assert(plan_actions(spec, t, snap2, src) =~= base);
        }
        lemma_settled_run_noop(f1, plan_actions(spec, t, snap2, src));
    } else {
        assert(tail1 =~= Seq::<ActionView>::empty());
        assert(run(m, Seq::<ActionView>::empty()) == Some(m));
        assert(f1 == m);
        lemma_base_settled(f1, spec.subdirs, t);
        if copies2 {
            // The first run copied nothing although there is a source: the target was
            // complete, so the base actions left it as it was and the second snapshot
            // judges it as the first did.
            assert(!incomplete(spec, snap1, src));
            assert(satisfies(spec, snap1));
            lemma_under_refl(t);
            assert forall|i: int| 0 <= i < spec.subdirs.len() implies is_dir_in(
                fs,
                t.child(#[trigger] spec.subdirs[i].name),
            ) by {
                let n = spec.subdirs[i].name;
                assert(subdir_ok(snap1, spec.subdirs[i]));
                assert(dir_at(snap1, seq![n]));
                assert(has_entry(snap1.entries, seq![n], true));
                lemma_child_under(t, n);
            }
            lemma_base_keeps_under(fs, spec.subdirs, t);
            lemma_incomplete_agree(spec, fs, f1, t, snap1, snap2, src);
            assert(false);
        }
        assert(plan_actions(spec, t, snap2, src) =~= base);
        lemma_settled_run_noop(f1, plan_actions(spec, t, snap2, src));
    }
}

/// A required subdirectory that must hold something but is empty makes the bundle
/// incomplete, whatever the source.
pub proof fn lemma_empty_required_dir_is_incomplete(
    spec: BundleSpecView,
    snap: SnapshotView,
    src: Option<SourceView>,
    i: int,
)
    requires
        0 <= i < spec.subdirs.len(),
        spec.subdirs[i].non_empty,
        !has_content_under(snap.entries, seq![spec.subdirs[i].name]),
    ensures
        incomplete(spec, snap, src),
{
    assert(!subdir_ok(snap, spec.subdirs[i]));
}

/// Without a source, the plan only creates the target and its required
/// subdirectories and sets their modes: a run of it removes nothing and leaves
/// every directory (an empty required one included) in place.
pub proof fn lemma_no_source_keeps_dirs(fs: FsView, spec: BundleSpecView, t: PathView, snap: SnapshotView)
    requires
        run(fs, plan_actions(spec, t, snap, None)) is Some,
    ensures
        plan_actions(spec, t, snap, None) == base_actions(spec.subdirs, t),
        grows(fs, run(fs, plan_actions(spec, t, snap, None))->0),
{
    assert(plan_actions(spec, t, snap, None) =~= base_actions(spec.subdirs, t));
    lemma_run_grows(fs, base_actions(spec.subdirs, t));
}

} // verus!
