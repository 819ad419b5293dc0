use vstd::prelude::*;

use crate::bundle::{satisfies, satisfies_spec, BundleSpec, BundleSpecView, DirSnapshot, SnapshotView};
use crate::path::{path_text, FsPath, PathView};
use crate::platform::{paths_view, Platform, PlatformPolicy, PolicyView};

verus! {

/// How far up from the directory where it starts the search looks for a bundle.
pub const ANCESTOR_LEVELS: usize = 5;

/// Where a candidate resource directory comes from.
#[derive(Clone, Copy, Debug, PartialEq, Eq, Structural)]
pub enum Origin {
    /// In the directory where the search starts: the executable's directory, or
    /// the one that holds the `.app` bundle on macOS.
    ExecutableSibling,
    /// Beside the directory where the search starts.
    ParentSibling,
    /// In a per-machine install location.
    InstallDir,
    /// In a per-user application-data location.
    UserData,
    /// Beside one of that directory's further ancestors.
    Ancestor,
}

/// A directory that may hold the resource bundle, with its priority (lower is
/// preferred).
#[derive(Clone, Debug, PartialEq, Eq)]
pub struct CandidateLocation {
    pub path: FsPath,
    pub rank: u8,
    pub origin: Origin,
}

pub struct CandidateView {
    pub path: PathView,
    pub rank: u8,
    pub origin: Origin,
}

impl View for CandidateLocation {
    type V = CandidateView;

    open spec fn view(&self) -> CandidateView {
        CandidateView { path: self.path@, rank: self.rank, origin: self.origin }
    }
}

/// Why no resource directory could be reported.
#[derive(Clone, Debug, PartialEq, Eq)]
pub enum ResourceError {
    /// The executable's path is too short to hold the directory where the search starts.
    NoExecutableDirectory,
    /// The chosen directory does not exist, is not a directory or cannot be read.
    Unusable { path: String },
}

impl ResourceError {
    /// A human-readable description of the error.
    pub fn message(&self) -> (r: String)
        ensures
            self is NoExecutableDirectory ==> r@ == "Failed to get parent directory of the executable"@,
            self matches ResourceError::Unusable { path } ==> r@ == "Resource directory is not usable: "@
                + path@,
    {
        match self {
            ResourceError::NoExecutableDirectory => String::from_str(
                "Failed to get parent directory of the executable",
            ),
            ResourceError::Unusable { path } => {
                let mut m = String::from_str("Resource directory is not usable: ");
                m.append(path.as_str());
                m
            },
        }
    }
}

/// How many levels above the executable the search starts: on macOS beside the
/// bundle `Name.app/Contents/MacOS/exe`, elsewhere in the executable's directory.
pub open spec fn search_depth(platform: Platform) -> nat {
    match platform {
        Platform::MacOs => 4,
        _ => 1,
    }
}

/// The directory where the search for the executable `exe` starts, if its path is
/// long enough.
pub open spec fn search_dir_of(exe: PathView, platform: Platform) -> Option<PathView> {
    exe.ancestor(search_depth(platform))
}

/// The directory where the search for the executable `exe` starts: the
/// executable's directory, or on macOS the directory that holds the `.app`
/// bundle; `None` when the path is too short to hold it.
pub fn search_directory(exe: &FsPath, platform: Platform) -> (r: Option<FsPath>)
    ensures
        r is None <==> search_dir_of(exe@, platform) is None,
        r matches Some(d) ==> search_dir_of(exe@, platform) == Some(d@),
{
    let depth: usize = match platform {
        Platform::MacOs => 4,
        _ => 1,
    };
    exe.ancestor(depth)
}

pub open spec fn rank_of(origin: Origin) -> u8 {
    match origin {
        Origin::ExecutableSibling => 1,
        Origin::ParentSibling => 2,
        Origin::InstallDir => 3,
        Origin::UserData => 4,
        Origin::Ancestor => 5,
    }
}

/// The candidate for the resource subdirectory `res` of `dir`.
pub open spec fn candidate(dir: PathView, res: Seq<char>, origin: Origin) -> CandidateView {
    CandidateView { path: dir.child(res), rank: rank_of(origin), origin }
}

pub open spec fn candidates_view(v: Seq<CandidateLocation>) -> Seq<CandidateView> {
    v.map_values(|c: CandidateLocation| c@)
}

/// One candidate of the given origin for each of `dirs`, in order.
pub open spec fn dir_candidates(dirs: Seq<PathView>, res: Seq<char>, origin: Origin) -> Seq<
    CandidateView,
> {
    Seq::new(dirs.len(), |i: int| candidate(dirs[i], res, origin))
}

pub open spec fn ancestor_count(start_dir: PathView) -> nat {
    if start_dir.comps.len() < ANCESTOR_LEVELS {
        start_dir.comps.len()
    } else {
        ANCESTOR_LEVELS as nat
    }
}

/// The ancestor `k` levels above `p` (for `k` no greater than its depth).
pub open spec fn up(p: PathView, k: int) -> PathView {
    PathView { root: p.root, comps: p.comps.subrange(0, p.comps.len() - k) }
}

/// The candidates beside the first ancestors of the directory where the search starts.
pub open spec fn ancestor_candidates(start_dir: PathView, res: Seq<char>) -> Seq<CandidateView> {
    Seq::new(ancestor_count(start_dir), |i: int| candidate(up(start_dir, i + 1), res, Origin::Ancestor))
}

/// Every candidate, in the order in which they are tried.
pub open spec fn candidates_for(start_dir: PathView, policy: PolicyView) -> Seq<CandidateView> {
    let res = policy.resource_dir;
    let parent_part = if start_dir.comps.len() > 0 {
        seq![candidate(up(start_dir, 1), res, Origin::ParentSibling)]
    } else {
        seq![]
    };
    seq![candidate(start_dir, res, Origin::ExecutableSibling)] + parent_part + seq![
        candidate(policy.install_root, res, Origin::InstallDir),
    ] + dir_candidates(policy.other_install_dirs, res, Origin::InstallDir) + dir_candidates(
        policy.data_dirs,
        res,
        Origin::UserData,
    ) + ancestor_candidates(start_dir, res)
}

pub open spec fn snapshots_view(v: Seq<DirSnapshot>) -> Seq<SnapshotView> {
    v.map_values(|s: DirSnapshot| s@)
}

/// Candidate `i` was seen to satisfy the bundle spec.
pub open spec fn valid_at(spec: BundleSpecView, snaps: Seq<SnapshotView>, i: int) -> bool {
    0 <= i < snaps.len() && satisfies(spec, snaps[i])
}

/// The first index from `i` below `n` whose candidate is valid.
pub open spec fn first_valid_from(spec: BundleSpecView, snaps: Seq<SnapshotView>, n: int, i: int) -> Option<int>
    decreases n - i,
{
    if i >= n {
        None
    } else if valid_at(spec, snaps, i) {
        Some(i)
    } else {
        first_valid_from(spec, snaps, n, i + 1)
    }
}

/// The candidate chosen among `n`: the first valid one, else the first.
pub open spec fn chosen_index(spec: BundleSpecView, snaps: Seq<SnapshotView>, n: int) -> Option<int> {
    match first_valid_from(spec, snaps, n, 0) {
        Some(i) => Some(i),
        None => if n > 0 {
            Some(0)
        } else {
            None
        },
    }
}

/// The resource directory chosen for a search that starts in `start_dir`.
pub open spec fn resolved_dir(
    start_dir: PathView,
    policy: PolicyView,
    spec: BundleSpecView,
    snaps: Seq<SnapshotView>,
) -> PathView {
    let cands = candidates_for(start_dir, policy);
    cands[chosen_index(spec, snaps, cands.len() as int)->0].path
}

pub proof fn lemma_first_valid_from_bounds(spec: BundleSpecView, snaps: Seq<SnapshotView>, n: int, i: int)
    ensures
        first_valid_from(spec, snaps, n, i) matches Some(k) ==> i <= k < n && valid_at(spec, snaps, k)
            && forall|j: int| i <= j < k ==> !valid_at(spec, snaps, j),
        first_valid_from(spec, snaps, n, i) is None ==> forall|j: int|
            i <= j < n ==> !valid_at(spec, snaps, j),
    decreases n - i,
{
    if i < n {
        lemma_first_valid_from_bounds(spec, snaps, n, i + 1);
    }
}

fn push_dir_candidates(
    out: &mut Vec<CandidateLocation>,
    dirs: &Vec<FsPath>,
    res: &str,
    origin: Origin,
    rank: u8,
)
    requires
        rank == rank_of(origin),
    ensures
        candidates_view(final(out)@) == candidates_view(old(out)@) + dir_candidates(
            paths_view(dirs@),
            res@,
            origin,
        ),
{
    let ghost start = candidates_view(out@);
    let mut i: usize = 0;
    while i < dirs.len()
        invariant
            i <= dirs.len(),
            rank == rank_of(origin),
            candidates_view(out@) == start + dir_candidates(
                paths_view(dirs@.subrange(0, i as int)),
                res@,
                origin,
            ),
        decreases dirs.len() - i,
    {
        let ghost prev = candidates_view(out@);
        let c = CandidateLocation { path: dirs[i].join(res), rank, origin };
        assert(c@ == candidate(paths_view(dirs@)[i as int], res@, origin));
        out.push(c);
        proof {
            assert(candidates_view(out@) =~= prev.push(c@));
            assert(paths_view(dirs@.subrange(0, i + 1)) =~= paths_view(dirs@.subrange(0, i as int)).push(dirs@[i as int]@));
            assert(candidates_view(out@) =~= start + dir_candidates(
                paths_view(dirs@.subrange(0, i + 1)),
                res@,
                origin,
            ));
        }
        i = i + 1;
    }
    assert(dirs@.subrange(0, dirs@.len() as int) =~= dirs@);
}

/// Every candidate resource directory for a search that starts in `start_dir`, most
/// preferred first: in `start_dir`, beside it, in the install
/// locations, in the per-user data locations, then beside up to five ancestors.
pub fn candidate_locations(start_dir: &FsPath, policy: &PlatformPolicy) -> (r: Vec<CandidateLocation>)
    ensures
        candidates_view(r@) == candidates_for(start_dir@, policy@),
{
    let res = policy.resource_dir.as_str();
    let mut out: Vec<CandidateLocation> = Vec::new();
    out.push(CandidateLocation { path: start_dir.join(res), rank: 1, origin: Origin::ExecutableSibling });
    match start_dir.parent() {
        Some(p) => {
            out.push(CandidateLocation { path: p.join(res), rank: 2, origin: Origin::ParentSibling });
            assert(p@ == up(start_dir@, 1));
        },
        None => {},
    }
    out.push(CandidateLocation { path: policy.install_root.join(res), rank: 3, origin: Origin::InstallDir });
    let ghost head = candidates_view(out@);
    push_dir_candidates(&mut out, &policy.other_install_dirs, res, Origin::InstallDir, 3);
    push_dir_candidates(&mut out, &policy.data_dirs, res, Origin::UserData, 4);
    let ghost before = candidates_view(out@);
    let n: usize = if start_dir.comps.len() < ANCESTOR_LEVELS {
        start_dir.comps.len()
    } else {
        ANCESTOR_LEVELS
    };
    let mut k: usize = 0;
    while k < n
        invariant
            n == ancestor_count(start_dir@),
            n <= start_dir.comps.len(),
            k <= n,
            res@ == policy@.resource_dir,
            candidates_view(out@) == before + ancestor_candidates(start_dir@, res@).subrange(0, k as int),
        decreases n - k,
    {
        match start_dir.ancestor(k + 1) {
            Some(a) => {
                let ghost prev = candidates_view(out@);
                let c = CandidateLocation { path: a.join(res), rank: 5, origin: Origin::Ancestor };
                out.push(c);
                proof {
                    assert(a@ == up(start_dir@, k + 1));
                    assert(candidates_view(out@) =~= prev.push(c@));
                    assert(c@ == ancestor_candidates(start_dir@, res@)[k as int]);
                    assert(candidates_view(out@) =~= before + ancestor_candidates(start_dir@, res@).subrange(0, k + 1));
                }
            },
            None => {},
        }
        k = k + 1;
    }
    proof {
        assert(ancestor_candidates(start_dir@, res@).subrange(0, n as int) =~= ancestor_candidates(start_dir@, res@));
        assert(candidates_view(out@) =~= candidates_for(start_dir@, policy@));
    }
    out
}

/// The index of the chosen candidate: the first whose snapshot (at the same
/// index) satisfies `spec`, else the first candidate; `None` when there is none.
/// A candidate without a snapshot counts as invalid.
pub fn select_candidate(candidates: &Vec<CandidateLocation>, spec: &BundleSpec, snapshots: &Vec<DirSnapshot>) -> (r: Option<usize>)
    ensures
        r is None <==> chosen_index(spec@, snapshots_view(snapshots@), candidates@.len() as int) is None,
        r matches Some(i) ==> chosen_index(spec@, snapshots_view(snapshots@), candidates@.len() as int)
            == Some(i as int),
{
    let ghost snaps = snapshots_view(snapshots@);
    let ghost n = candidates@.len() as int;
    let mut i: usize = 0;
    while i < candidates.len()
        invariant
            i <= candidates.len(),
            n == candidates@.len(),
            snaps == snapshots_view(snapshots@),
            first_valid_from(spec@, snaps, n, 0) == first_valid_from(spec@, snaps, n, i as int),
        decreases candidates.len() - i,
    {
        if i < snapshots.len() && satisfies_spec(spec, &snapshots[i]) {
            return Some(i);
        }
        i = i + 1;
    }
    if candidates.len() > 0 {
        Some(0)
    } else {
        None
    }
}

/// The resource directory for a search that starts in `start_dir`: the first candidate of
/// `candidate_locations` whose snapshot satisfies `spec`, else the most preferred
/// candidate, which the caller may then populate.
pub fn resolve_resource_directory(
    start_dir: &FsPath,
    policy: &PlatformPolicy,
    spec: &BundleSpec,
    snapshots: &Vec<DirSnapshot>,
) -> (r: FsPath)
    ensures
        r@ == resolved_dir(start_dir@, policy@, spec@, snapshots_view(snapshots@)),
{
    let cands = candidate_locations(start_dir, policy);
    let ghost cv = candidates_view(cands@);
    let i = select_candidate(&cands, spec, snapshots);
    proof {
        lemma_first_valid_from_bounds(spec@, snapshots_view(snapshots@), cv.len() as int, 0);
    }
    match i {
        Some(i) => {
            assert(cv[i as int] == cands@[i as int]@);
            cands[i].path.duplicate()
        },
        None => {
            assert(false);
            start_dir.join(policy.resource_dir.as_str())
        },
    }
}

/// The resource directory for the executable at `exe`, as text, for the user
/// interface. `snapshots` are the snapshots of the candidates of
/// `candidate_locations` for the directory where the search starts (`search_directory`),
/// in order. Fails when the executable's path holds no such directory, or when the chosen directory was not seen as an
/// existing, readable directory.
pub fn get_public_folder_path(
    exe: &FsPath,
    policy: &PlatformPolicy,
    spec: &BundleSpec,
    snapshots: &Vec<DirSnapshot>,
) -> (r: Result<String, ResourceError>)
    ensures
        search_dir_of(exe@, policy@.platform) is None ==> r == Err::<String, ResourceError>(
            ResourceError::NoExecutableDirectory,
        ),
        search_dir_of(exe@, policy@.platform) matches Some(start_dir) ==> {
            let cands = candidates_for(start_dir, policy@);
            let snaps = snapshots_view(snapshots@);
            let i = chosen_index(spec@, snaps, cands.len() as int)->0;
            let text = path_text(cands[i].path, policy@.separator);
            &&& (i < snaps.len() && snaps[i].present) ==> (r matches Ok(s) && s@ == text)
            &&& !(i < snaps.len() && snaps[i].present) ==> (r matches Err(ResourceError::Unusable { path }) && path@ == text)
        },
{
    let start_dir = match search_directory(exe, policy.platform) {
        Some(d) => d,
        None => {
            return Err(ResourceError::NoExecutableDirectory);
        },
    };
    let cands = candidate_locations(&start_dir, policy);
    let ghost cv = candidates_view(cands@);
    let chosen = select_candidate(&cands, spec, snapshots);
    proof {
        lemma_first_valid_from_bounds(spec@, snapshots_view(snapshots@), cv.len() as int, 0);
    }
    let i = match chosen {
        Some(i) => i,
        None => {
            assert(false);
            return Err(ResourceError::NoExecutableDirectory);
        },
    };
    assert(cv[i as int] == cands@[i as int]@);
    let text = cands[i].path.render(policy.separator.as_str());
    if i < snapshots.len() && snapshots[i].present {
        Ok(text)
    } else {
        Err(ResourceError::Unusable { path: text })
    }
}

} // verus!
