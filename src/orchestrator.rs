use vstd::prelude::*;

use crate::bundle::{BundleSpec, BundleSpecView, RequiredDirView};
use crate::path::{strings_view, FsPath, PathView};
use crate::platform::{opt_view, PlatformPolicy, PolicyView};
use crate::script::{
    migration_plan_for, plan_migration, render_script, script_text, MigrationPlan,
    MigrationPlanView,
};

verus! {

/// The step of a relocation in progress.
#[derive(Clone, Copy, Debug, PartialEq, Eq, Structural)]
pub enum MigrationStage {
    CreatingDirs,
    WritingScript,
    Spawning,
    /// The script runs; the first-run marker is written only now, so that a
    /// relocation that never started is tried again on the next launch.
    WritingMarker,
}

/// Where the first-run decision stands.
#[derive(Clone, Copy, Debug, PartialEq, Eq, Structural)]
pub enum InstallState {
    Start,
    /// The executable runs from the canonical install root.
    AlreadyInstalled,
    /// A relocation was already decided on an earlier run; the application runs
    /// where it is.
    KeptInPlace,
    NeedsMigration { stage: MigrationStage },
    /// The relocation script runs detached; the application is to exit.
    MigrationDispatched,
    /// A step failed; the application runs where it is.
    Failed,
}

/// What the host reports to the orchestrator.
#[derive(Clone, Debug, PartialEq, Eq)]
pub enum Event {
    /// What the host saw at startup.
    Observed {
        /// The executable, with symbolic links resolved.
        exe: FsPath,
        /// A bundle that satisfies the spec is in the canonical resource directory.
        canonical_bundle_valid: bool,
        /// The first-run marker is beside the executable.
        marker_present: bool,
        /// The embedded resource bundle, if there is one.
        embedded: Option<FsPath>,
        /// The directory for temporary files.
        temp_dir: FsPath,
    },
    /// The last action succeeded.
    Done,
    /// The last action failed.
    Failed { message: String },
}

/// What the host is to do next.
#[derive(Clone, Debug, PartialEq, Eq)]
pub enum Action {
    /// Go on with normal startup.
    Continue,
    /// Bring the resource bundle at `target` to shape, then go on.
    Materialize { target: FsPath },
    /// Create each directory (with its ancestors).
    CreateDirs { dirs: Vec<FsPath> },
    /// Write the script and make it executable.
    WriteScript { path: FsPath, text: String },
    /// Write the first-run marker.
    WriteMarker { path: FsPath },
    /// Start the script as a detached process that outlives this one.
    Spawn { script: FsPath },
    /// Ask the host application to terminate.
    Exit,
    /// Log the failure and go on from the current location.
    Report { message: String },
}

pub enum EventView {
    Observed {
        exe: PathView,
        canonical_bundle_valid: bool,
        marker_present: bool,
        embedded: Option<PathView>,
        temp_dir: PathView,
    },
    Done,
    Failed { message: Seq<char> },
}

pub enum ActionView {
    Continue,
    Materialize { target: PathView },
    CreateDirs { dirs: Seq<PathView> },
    WriteScript { path: PathView, text: Seq<char> },
    WriteMarker { path: PathView },
    Spawn { script: PathView },
    Exit,
    Report { message: Seq<char> },
}

impl View for Event {
    type V = EventView;

    open spec fn view(&self) -> EventView {
        match self {
            Event::Observed { exe, canonical_bundle_valid, marker_present, embedded, temp_dir } =>
                EventView::Observed {
                exe: exe@,
                canonical_bundle_valid: *canonical_bundle_valid,
                marker_present: *marker_present,
                embedded: opt_view(*embedded),
                temp_dir: temp_dir@,
            },
            Event::Done => EventView::Done,
            Event::Failed { message } => EventView::Failed { message: message@ },
        }
    }
}

pub open spec fn dirs_view(v: Seq<FsPath>) -> Seq<PathView> {
    v.map_values(|p: FsPath| p@)
}

impl View for Action {
    type V = ActionView;

    open spec fn view(&self) -> ActionView {
        match self {
            Action::Continue => ActionView::Continue,
            Action::Materialize { target } => ActionView::Materialize { target: target@ },
            Action::CreateDirs { dirs } => ActionView::CreateDirs { dirs: dirs_view(dirs@) },
            Action::WriteScript { path, text } => ActionView::WriteScript { path: path@, text: text@ },
            Action::WriteMarker { path } => ActionView::WriteMarker { path: path@ },
            Action::Spawn { script } => ActionView::Spawn { script: script@ },
            Action::Exit => ActionView::Exit,
            Action::Report { message } => ActionView::Report { message: message@ },
        }
    }
}

/// Decides, once per startup, whether the application relocates itself, and
/// drives the relocation one action at a time.
#[derive(Clone, Debug, PartialEq, Eq)]
pub struct Orchestrator {
    pub policy: PlatformPolicy,
    pub spec: BundleSpec,
    pub state: InstallState,
    pub plan: Option<MigrationPlan>,
}

pub struct OrchestratorView {
    pub policy: PolicyView,
    pub spec: BundleSpecView,
    pub state: InstallState,
    pub plan: Option<MigrationPlanView>,
}

impl View for Orchestrator {
    type V = OrchestratorView;

    open spec fn view(&self) -> OrchestratorView {
        OrchestratorView {
            policy: self.policy@,
            spec: self.spec@,
            state: self.state,
            plan: match self.plan {
                Some(p) => Some(p@),
                None => None,
            },
        }
    }
}

pub open spec fn subdir_names(subdirs: Seq<RequiredDirView>) -> Seq<Seq<char>> {
    Seq::new(subdirs.len(), |i: int| subdirs[i].name)
}

/// The directories created before the script is written: the install root, its
/// resource directory and each required subdirectory of it.
pub open spec fn migration_dirs(root: PathView, p: MigrationPlanView) -> Seq<PathView> {
    seq![root, p.resource_target] + Seq::new(
        p.subdirs.len(),
        |i: int| p.resource_target.child(p.subdirs[i]),
    )
}

pub open spec fn no_directory_message() -> Seq<char> {
    "Failed to determine the executable's directory"@
}

pub open spec fn missing_plan_message() -> Seq<char> {
    "No relocation is planned"@
}

pub open spec fn with_state(o: OrchestratorView, state: InstallState) -> OrchestratorView {
    OrchestratorView { state, ..o }
}

/// The next state and action, from the current state and an event.
pub open spec fn next(o: OrchestratorView, e: EventView) -> (OrchestratorView, ActionView) {
    match (o.state, e) {
        (
            InstallState::Start,
            EventView::Observed { exe, canonical_bundle_valid, marker_present, embedded, temp_dir },
        ) => match exe.parent() {
            None => (with_state(o, InstallState::Failed), ActionView::Report { message: no_directory_message() }),
            Some(dir) => if dir.is_under(o.policy.install_root) {
                (
                    with_state(o, InstallState::AlreadyInstalled),
                    if canonical_bundle_valid {
                        ActionView::Continue
                    } else {
                        ActionView::Materialize {
                            target: o.policy.install_root.child(o.policy.resource_dir),
                        }
                    },
                )
            } else if marker_present {
                (with_state(o, InstallState::KeptInPlace), ActionView::Continue)
            } else {
                match migration_plan_for(
                    exe,
                    o.policy,
                    subdir_names(o.spec.subdirs),
                    embedded,
                    temp_dir,
                ) {
                    None => (
                        with_state(o, InstallState::Failed),
                        ActionView::Report { message: "Failed to determine the application's location"@ },
                    ),
                    Some(p) => (
                        OrchestratorView {
                            state: InstallState::NeedsMigration { stage: MigrationStage::CreatingDirs },
                            plan: Some(p),
                            ..o
                        },
                        ActionView::CreateDirs { dirs: migration_dirs(o.policy.install_root, p) },
                    ),
                }
            },
        },
        (InstallState::NeedsMigration { stage }, EventView::Done) => match o.plan {
            None => (with_state(o, InstallState::Failed), ActionView::Report { message: missing_plan_message() }),
            Some(p) => match stage {
                MigrationStage::CreatingDirs => (
                    with_state(o, InstallState::NeedsMigration { stage: MigrationStage::WritingScript }),
                    ActionView::WriteScript { path: p.script_path, text: script_text(p) },
                ),
                MigrationStage::WritingScript => (
                    with_state(o, InstallState::NeedsMigration { stage: MigrationStage::Spawning }),
                    ActionView::Spawn { script: p.script_path },
                ),
                MigrationStage::Spawning => (
                    with_state(o, InstallState::NeedsMigration { stage: MigrationStage::WritingMarker }),
                    ActionView::WriteMarker { path: p.marker_path },
                ),
                MigrationStage::WritingMarker => (
                    with_state(o, InstallState::MigrationDispatched),
                    ActionView::Exit,
                ),
            },
        },
        // The script already runs once the marker is due: without the marker the
        // relocation still goes on, so the application exits all the same.
        (
            InstallState::NeedsMigration { stage: MigrationStage::WritingMarker },
            EventView::Failed { .. },
        ) => (with_state(o, InstallState::MigrationDispatched), ActionView::Exit),
        (InstallState::NeedsMigration { .. }, EventView::Failed { message }) => (
            with_state(o, InstallState::Failed),
            ActionView::Report { message },
        ),
        _ => (o, ActionView::Continue),
    }
}

fn names_of(spec: &BundleSpec) -> (r: Vec<String>)
    ensures
        strings_view(r@) == subdir_names(spec@.subdirs),
{
    let mut r: Vec<String> = Vec::new();
    let mut i: usize = 0;
    while i < spec.subdirs.len()
        invariant
            i <= spec.subdirs.len(),
            strings_view(r@) == subdir_names(spec@.subdirs).subrange(0, i as int),
        decreases spec.subdirs.len() - i,
    {
        let ghost prev = strings_view(r@);
        let n = spec.subdirs[i].name.clone();
        r.push(n);
        assert(strings_view(r@) =~= prev.push(n@));
        assert(spec@.subdirs[i as int] == spec.subdirs@[i as int]@);
        assert(subdir_names(spec@.subdirs).subrange(0, i + 1) =~= subdir_names(spec@.subdirs).subrange(0, i as int).push(n@));
        i = i + 1;
    }
    assert(subdir_names(spec@.subdirs).subrange(0, spec.subdirs.len() as int) =~= subdir_names(spec@.subdirs));
    r
}

fn dirs_to_create(root: &FsPath, p: &MigrationPlan) -> (r: Vec<FsPath>)
    ensures
        dirs_view(r@) == migration_dirs(root@, p@),
{
    let mut r: Vec<FsPath> = vec![root.duplicate(), p.resource_target.duplicate()];
    let ghost head = dirs_view(r@);
    assert(head =~= seq![root@, p@.resource_target]);
    let ghost subs = Seq::new(p@.subdirs.len(), |i: int| p@.resource_target.child(p@.subdirs[i]));
    let mut i: usize = 0;
    while i < p.subdirs.len()
        invariant
            i <= p.subdirs.len(),
            subs == Seq::new(p@.subdirs.len(), |i: int| p@.resource_target.child(p@.subdirs[i])),
            dirs_view(r@) == head + subs.subrange(0, i as int),
        decreases p.subdirs.len() - i,
    {
        let ghost prev = dirs_view(r@);
        let d = p.resource_target.join(p.subdirs[i].as_str());
        r.push(d);
        assert(dirs_view(r@) =~= prev.push(d@));
        assert(subs.subrange(0, i + 1) =~= subs.subrange(0, i as int).push(d@));
        i = i + 1;
    }
    assert(subs.subrange(0, p.subdirs.len() as int) =~= subs);
    r
}

impl Orchestrator {
    pub fn new(policy: PlatformPolicy, spec: BundleSpec) -> (r: Orchestrator)
        ensures
            r@ == (OrchestratorView { policy: policy@, spec: spec@, state: InstallState::Start, plan: None }),
    {
        Orchestrator { policy, spec, state: InstallState::Start, plan: None }
    }

    /// Take in `event`, move to the next state and say what the host is to do.
    pub fn step(&mut self, event: &Event) -> (r: Action)
        ensures
            (final(self)@, r@) == next(old(self)@, event@),
    {
        match (self.state, event) {
            (
                InstallState::Start,
                Event::Observed { exe, canonical_bundle_valid, marker_present, embedded, temp_dir },
            ) => {
                let dir = match exe.parent() {
                    Some(d) => d,
                    None => {
                        self.state = InstallState::Failed;
                        return Action::Report {
                            message: String::from_str("Failed to determine the executable's directory"),
                        };
                    },
                };
                if self.policy.is_canonical(&dir) {
                    self.state = InstallState::AlreadyInstalled;
                    if *canonical_bundle_valid {
                        Action::Continue
                    } else {
                        Action::Materialize {
                            target: self.policy.install_root.join(self.policy.resource_dir.as_str()),
                        }
                    }
                } else if *marker_present {
                    self.state = InstallState::KeptInPlace;
                    Action::Continue
                } else {
                    let names = names_of(&self.spec);
                    match plan_migration(exe, &self.policy, &names, embedded, temp_dir) {
                        Err(e) => {
                            self.state = InstallState::Failed;
                            Action::Report { message: e.message() }
                        },
                        Ok(p) => {
                            let dirs = dirs_to_create(&self.policy.install_root, &p);
                            self.state = InstallState::NeedsMigration {
                                stage: MigrationStage::CreatingDirs,
                            };
                            self.plan = Some(p);
                            Action::CreateDirs { dirs }
                        },
                    }
                }
            },
            (InstallState::NeedsMigration { stage }, Event::Done) => {
                let p = match &self.plan {
                    Some(p) => p,
                    None => {
                        self.state = InstallState::Failed;
                        return Action::Report { message: String::from_str("No relocation is planned") };
                    },
                };
                match stage {
                    MigrationStage::CreatingDirs => {
                        let text = render_script(p);
                        let path = p.script_path.duplicate();
                        self.state = InstallState::NeedsMigration { stage: MigrationStage::WritingScript };
                        Action::WriteScript { path, text }
                    },
                    MigrationStage::WritingScript => {
                        let script = p.script_path.duplicate();
                        self.state = InstallState::NeedsMigration { stage: MigrationStage::Spawning };
                        Action::Spawn { script }
                    },
                    MigrationStage::Spawning => {
                        let path = p.marker_path.duplicate();
                        self.state = InstallState::NeedsMigration { stage: MigrationStage::WritingMarker };
                        Action::WriteMarker { path }
                    },
                    MigrationStage::WritingMarker => {
                        self.state = InstallState::MigrationDispatched;
                        Action::Exit
                    },
                }
            },
            (InstallState::NeedsMigration { stage: MigrationStage::WritingMarker }, Event::Failed { .. }) => {
                self.state = InstallState::MigrationDispatched;
                Action::Exit
            },
            (InstallState::NeedsMigration { .. }, Event::Failed { message }) => {
                self.state = InstallState::Failed;
                Action::Report { message: message.clone() }
            },
            _ => Action::Continue,
        }
    }
}

} // verus!
