use vstd::prelude::*;

use crate::bundle::{BundleSpecView, SnapshotView};
use crate::orchestrator::{
    migration_dirs, next, ActionView, EventView, InstallState, MigrationStage, OrchestratorView,
};
use crate::path::PathView;
use crate::platform::PolicyView;
use crate::resolver::{candidates_for, first_valid_from, resolved_dir, search_dir_of, valid_at};
use crate::script::{join_lines, line_end, move_line, script_lines, script_text, unit_of};

verus! {

/// The states reached and the actions asked for along a sequence of events.
pub open spec fn run_events(o: OrchestratorView, events: Seq<EventView>) -> (
    OrchestratorView,
    Seq<ActionView>,
)
    decreases events.len(),
{
    if events.len() == 0 {
        (o, seq![])
    } else {
        let (o1, acts) = run_events(o, events.drop_last());
        let (o2, a) = next(o1, events.last());
        (o2, acts.push(a))
    }
}

/// How many of the actions ask the host to terminate.
pub open spec fn exit_count(acts: Seq<ActionView>) -> nat
    decreases acts.len(),
{
    if acts.len() == 0 {
        0
    } else {
        exit_count(acts.drop_last()) + if acts.last() is Exit {
            1nat
        } else {
            0nat
        }
    }
}

/// Termination is asked for at most once, whatever the events: exactly once when
/// the relocation has been dispatched, never otherwise.
pub proof fn lemma_exit_at_most_once(o: OrchestratorView, events: Seq<EventView>)
    requires
        !(o.state is MigrationDispatched),
    ensures
        exit_count(run_events(o, events).1) == if run_events(o, events).0.state is MigrationDispatched {
            1nat
        } else {
            0nat
        },
        exit_count(run_events(o, events).1) <= 1,
    decreases events.len(),
{
    if events.len() > 0 {
        lemma_exit_at_most_once(o, events.drop_last());
        let (o1, acts) = run_events(o, events.drop_last());
        let (o2, a) = next(o1, events.last());
        assert(acts.push(a).drop_last() =~= acts);
    }
}

/// An executable inside the canonical install root, with a valid bundle there,
/// leaves the orchestrator in `AlreadyInstalled` whatever follows: no script is
/// written or spawned and the host is never asked to exit.
pub proof fn lemma_canonical_install_continues(
    o: OrchestratorView,
    exe: PathView,
    marker_present: bool,
    embedded: Option<PathView>,
    temp_dir: PathView,
    events: Seq<EventView>,
)
    requires
        o.state is Start,
        exe.parent() matches Some(dir) && dir.is_under(o.policy.install_root),
    ensures
        ({
            let observed = EventView::Observed {
                exe,
                canonical_bundle_valid: true,
                marker_present,
                embedded,
                temp_dir,
            };
            let (o2, acts) = run_events(o, seq![observed] + events);
            &&& o2.state is AlreadyInstalled
            &&& forall|i: int| 0 <= i < acts.len() ==> #[trigger] acts[i] is Continue
        }),
    decreases events.len(),
{
    let observed = EventView::Observed {
        exe,
        canonical_bundle_valid: true,
        marker_present,
        embedded,
        temp_dir,
    };
    if events.len() == 0 {
        assert(seq![observed] + events =~= seq![observed]);
        assert(seq![observed].drop_last() =~= Seq::<EventView>::empty());
        assert(run_events(o, Seq::<EventView>::empty()) == (o, Seq::<ActionView>::empty()));
        assert(seq![observed].last() == observed);
        let (o2, acts) = run_events(o, seq![observed]);
        assert(acts =~= seq![ActionView::Continue]);
    } else {
        lemma_canonical_install_continues(o, exe, marker_present, embedded, temp_dir, events.drop_last());
        assert((seq![observed] + events).drop_last() =~= seq![observed] + events.drop_last());
        let (o1, acts1) = run_events(o, seq![observed] + events.drop_last());
        let (o2, acts) = run_events(o, seq![observed] + events);
        assert(acts == acts1.push(ActionView::Continue));
        assert forall|i: int| 0 <= i < acts.len() implies #[trigger] acts[i] is Continue by {
            if i < acts1.len() {
                assert(acts[i] == acts1[i]);
            }
        }
    }
}

proof fn lemma_first_valid_is(spec: BundleSpecView, snaps: Seq<SnapshotView>, n: int, i: int, k: int)
    requires
        0 <= i <= k < n,
        valid_at(spec, snaps, k),
        forall|j: int| i <= j < k ==> !valid_at(spec, snaps, j),
    ensures
        first_valid_from(spec, snaps, n, i) == Some(k),
    decreases k - i,
{
    if i < k {
        lemma_first_valid_is(spec, snaps, n, i + 1, k);
    }
}

/// With the search starting in the canonical install root and a valid bundle in
/// its resource directory, the resolver returns that resource directory.
pub proof fn lemma_root_bundle_resolved(
    policy: PolicyView,
    spec: BundleSpecView,
    snaps: Seq<SnapshotView>,
)
    requires
        valid_at(spec, snaps, 0),
    ensures
        resolved_dir(policy.install_root, policy, spec, snaps) == policy.install_root.child(
            policy.resource_dir,
        ),
{
    let cands = candidates_for(policy.install_root, policy);
    lemma_first_valid_is(spec, snaps, cands.len() as int, 0, 0);
}

/// With the search starting below the canonical install root, no valid bundle in
/// that directory or beside it, and a valid bundle in the install
/// root's resource directory, the resolver returns that resource directory.
pub proof fn lemma_nested_root_bundle_resolved(
    start_dir: PathView,
    policy: PolicyView,
    spec: BundleSpecView,
    snaps: Seq<SnapshotView>,
)
    requires
        start_dir.is_under(policy.install_root),
        start_dir.comps.len() > 0,
        !valid_at(spec, snaps, 0),
        !valid_at(spec, snaps, 1),
        valid_at(spec, snaps, 2),
    ensures
        resolved_dir(start_dir, policy, spec, snaps) == policy.install_root.child(policy.resource_dir),
{
    let cands = candidates_for(start_dir, policy);
    assert(cands[2].path == policy.install_root.child(policy.resource_dir));
    lemma_first_valid_is(spec, snaps, cands.len() as int, 0, 2);
}

/// An executable installed in the canonical root (directly in it, or on macOS as
/// a bundle directly in it), with a valid bundle in the root's resource
/// directory: the search starts in the root, and the resolver returns that
/// resource directory.
pub proof fn lemma_installed_bundle_resolved(
    exe: PathView,
    policy: PolicyView,
    spec: BundleSpecView,
    snaps: Seq<SnapshotView>,
)
    requires
        search_dir_of(exe, policy.platform) == Some(policy.install_root),
        valid_at(spec, snaps, 0),
    ensures
        resolved_dir(search_dir_of(exe, policy.platform)->0, policy, spec, snaps)
            == policy.install_root.child(policy.resource_dir),
{
    lemma_root_bundle_resolved(policy, spec, snaps);
}

/// Each line occurs, as it is, in the text that joins the lines.
pub proof fn lemma_joined_text_holds_line(lines: Seq<Seq<char>>, end: Seq<char>, i: int)
    requires
        0 <= i < lines.len(),
    ensures
        exists|k: int|
            0 <= k && k + lines[i].len() <= join_lines(lines, end).len() && #[trigger] join_lines(
                lines,
                end,
            ).subrange(k, k + lines[i].len()) == lines[i],
    decreases lines.len(),
{
    let init = lines.drop_last();
    let text = join_lines(lines, end);
    let pre = join_lines(init, end);
    assert(text == pre + lines.last() + end);
    if i == lines.len() - 1 {
        let k = pre.len() as int;
        assert(text.subrange(k, k + lines[i].len()) =~= lines[i]);
    } else {
        lemma_joined_text_holds_line(init, end, i);
        assert(init[i] == lines[i]);
        let k = choose|k: int|
            0 <= k && k + init[i].len() <= pre.len() && #[trigger] pre.subrange(k, k + init[i].len())
                == init[i];
        assert(text.subrange(k, k + lines[i].len()) =~= pre.subrange(k, k + init[i].len()));
    }
}

/// An executable outside the canonical install root, without a first-run marker,
/// moves the orchestrator to `NeedsMigration`. The plan moves the application
/// tree into the root: on macOS the `.app` bundle into a directory of its name in
/// the root; elsewhere the executable's directory, whose contents go into the root
/// itself, after which the executable is started from the root. The script that
/// comes next holds, as its third line, the move from the tree's path to the root.
pub proof fn lemma_outside_root_plans_migration(
    o: OrchestratorView,
    exe: PathView,
    canonical_bundle_valid: bool,
    embedded: Option<PathView>,
    temp_dir: PathView,
)
    requires
        o.state is Start,
        exe.parent() matches Some(dir) && !dir.is_under(o.policy.install_root),
        unit_of(exe, o.policy.platform) is Some,
    ensures
        ({
            let observed = EventView::Observed {
                exe,
                canonical_bundle_valid,
                marker_present: false,
                embedded,
                temp_dir,
            };
            let (o1, a1) = next(o, observed);
            let unit = unit_of(exe, o.policy.platform)->0;
            &&& o1.state == InstallState::NeedsMigration { stage: MigrationStage::CreatingDirs }
            &&& o1.plan matches Some(p) && {
                &&& a1 == ActionView::CreateDirs { dirs: migration_dirs(o.policy.install_root, p) }
                &&& p.source == unit
                &&& o.policy.platform is MacOs ==> {
                    &&& unit == exe.ancestor(3)->0
                    &&& p.destination == o.policy.install_root.child(unit.comps.last())
                }
                &&& !(o.policy.platform is MacOs) ==> {
                    &&& unit == exe.parent()->0
                    &&& p.destination == o.policy.install_root
                    &&& p.launch == o.policy.install_root.child(exe.comps.last())
                }
                &&& script_lines(p)[2] == move_line(p)
                &&& exists|k: int|
                    0 <= k && k + move_line(p).len() <= script_text(p).len()
                        && #[trigger] script_text(p).subrange(k, k + move_line(p).len()) == move_line(p)
                &&& next(o1, EventView::Done).1 == ActionView::WriteScript {
                    path: p.script_path,
                    text: script_text(p),
                }
            }
        }),
{
    let observed = EventView::Observed {
        exe,
        canonical_bundle_valid,
        marker_present: false,
        embedded,
        temp_dir,
    };
    let p = next(o, observed).0.plan->0;
    assert(exe.comps.drop_last() =~= exe.comps.subrange(0, exe.comps.len() - 1));
    lemma_joined_text_holds_line(script_lines(p), line_end(p.platform), 2);
}

/// The relocation of an executable outside the root, carried through, asks for
/// the directories, the script, one detached start of the script, the marker
/// and, last, termination; it ends in `MigrationDispatched` with termination asked for
/// exactly once.
pub proof fn lemma_dispatch_exits_once(
    o: OrchestratorView,
    exe: PathView,
    canonical_bundle_valid: bool,
    embedded: Option<PathView>,
    temp_dir: PathView,
)
    requires
        o.state is Start,
        exe.parent() matches Some(dir) && !dir.is_under(o.policy.install_root),
        unit_of(exe, o.policy.platform) is Some,
    ensures
        ({
            let observed = EventView::Observed {
                exe,
                canonical_bundle_valid,
                marker_present: false,
                embedded,
                temp_dir,
            };
            let events = seq![observed, EventView::Done, EventView::Done, EventView::Done, EventView::Done];
            let acts = run_events(o, events).1;
            &&& run_events(o, events).0.state is MigrationDispatched
            &&& exit_count(acts) == 1
            &&& acts.len() == 5
            &&& acts[0] is CreateDirs
            &&& acts[1] is WriteScript
            &&& acts[2] is Spawn
            &&& acts[3] is WriteMarker
            &&& acts[4] is Exit
        }),
{
    let observed = EventView::Observed {
        exe,
        canonical_bundle_valid,
        marker_present: false,
        embedded,
        temp_dir,
    };
    let e0 = Seq::<EventView>::empty();
    let e1 = seq![observed];
    let e2 = seq![observed, EventView::Done];
    let e3 = seq![observed, EventView::Done, EventView::Done];
    let e4 = seq![observed, EventView::Done, EventView::Done, EventView::Done];
    let e5 = seq![observed, EventView::Done, EventView::Done, EventView::Done, EventView::Done];
    assert(e1.drop_last() =~= e0);
    assert(e2.drop_last() =~= e1);
    assert(e3.drop_last() =~= e2);
    assert(e4.drop_last() =~= e3);
    assert(e5.drop_last() =~= e4);
    assert(run_events(o, e0) == (o, Seq::<ActionView>::empty()));
    assert(e1.last() == observed);
    assert(e2.last() == EventView::Done);
    assert(e3.last() == EventView::Done);
    assert(e4.last() == EventView::Done);
    assert(e5.last() == EventView::Done);
    lemma_outside_root_plans_migration(o, exe, canonical_bundle_valid, embedded, temp_dir);
    assert(run_events(o, e1).0.state == InstallState::NeedsMigration { stage: MigrationStage::CreatingDirs });
    assert(run_events(o, e2).0.state == InstallState::NeedsMigration { stage: MigrationStage::WritingScript });
    assert(run_events(o, e3).0.state == InstallState::NeedsMigration { stage: MigrationStage::Spawning });
    assert(run_events(o, e4).0.state == InstallState::NeedsMigration { stage: MigrationStage::WritingMarker });
    assert(run_events(o, e5).0.state is MigrationDispatched);
    let acts = run_events(o, e5).1;
    assert(run_events(o, e4).1.len() == 4);
    assert(acts == run_events(o, e4).1.push(ActionView::Exit));
    assert(run_events(o, e4).1 == run_events(o, e3).1.push(run_events(o, e4).1[3]));
    assert(run_events(o, e3).1 == run_events(o, e2).1.push(run_events(o, e3).1[2]));
    assert(run_events(o, e2).1 == run_events(o, e1).1.push(run_events(o, e2).1[1]));
    lemma_exit_at_most_once(o, e5);
}

/// A relocation whose script cannot be started ends in `Failed`: no first-run
/// marker is written, so the next launch tries again, and the host is not asked
/// to exit.
pub proof fn lemma_failed_spawn_writes_no_marker(
    o: OrchestratorView,
    exe: PathView,
    canonical_bundle_valid: bool,
    embedded: Option<PathView>,
    temp_dir: PathView,
    message: Seq<char>,
)
    requires
        o.state is Start,
        exe.parent() matches Some(dir) && !dir.is_under(o.policy.install_root),
        unit_of(exe, o.policy.platform) is Some,
    ensures
        ({
            let observed = EventView::Observed {
                exe,
                canonical_bundle_valid,
                marker_present: false,
                embedded,
                temp_dir,
            };
            let events = seq![observed, EventView::Done, EventView::Done, EventView::Failed { message }];
            let acts = run_events(o, events).1;
            &&& run_events(o, events).0.state is Failed
            &&& acts.len() == 4
            &&& acts[2] is Spawn
            &&& forall|i: int| 0 <= i < acts.len() ==> !(#[trigger] acts[i] is WriteMarker) && !(acts[i] is Exit)
        }),
{
    let observed = EventView::Observed {
        exe,
        canonical_bundle_valid,
        marker_present: false,
        embedded,
        temp_dir,
    };
    let f = EventView::Failed { message };
    let e0 = Seq::<EventView>::empty();
    let e1 = seq![observed];
    let e2 = seq![observed, EventView::Done];
    let e3 = seq![observed, EventView::Done, EventView::Done];
    let e4 = seq![observed, EventView::Done, EventView::Done, f];
    assert(e1.drop_last() =~= e0);
    assert(e2.drop_last() =~= e1);
    assert(e3.drop_last() =~= e2);
    assert(e4.drop_last() =~= e3);
    assert(run_events(o, e0) == (o, Seq::<ActionView>::empty()));
    assert(e1.last() == observed);
    assert(e2.last() == EventView::Done);
    assert(e3.last() == EventView::Done);
    assert(e4.last() == f);
    lemma_outside_root_plans_migration(o, exe, canonical_bundle_valid, embedded, temp_dir);
    assert(run_events(o, e1).0.state == InstallState::NeedsMigration { stage: MigrationStage::CreatingDirs });
    assert(run_events(o, e2).0.state == InstallState::NeedsMigration { stage: MigrationStage::WritingScript });
    assert(run_events(o, e3).0.state == InstallState::NeedsMigration { stage: MigrationStage::Spawning });
    assert(run_events(o, e4).0.state is Failed);
    let acts = run_events(o, e4).1;
    assert(acts == run_events(o, e3).1.push(run_events(o, e4).1[3]));
    assert(run_events(o, e3).1 == run_events(o, e2).1.push(run_events(o, e3).1[2]));
    assert(run_events(o, e2).1 == run_events(o, e1).1.push(run_events(o, e2).1[1]));
    assert forall|i: int| 0 <= i < acts.len() implies !(#[trigger] acts[i] is WriteMarker) && !(acts[i] is Exit) by {
        if i < 3 {
            assert(acts[i] == run_events(o, e3).1[i]);
            if i < 2 {
                assert(run_events(o, e3).1[i] == run_events(o, e2).1[i]);
            }
        }
    }
}

} // verus!
