use vstd::prelude::*;

use crate::path::{FsPath, PathView};

verus! {

/// The host operating systems the shell knows how to install on.
#[derive(Clone, Copy, Debug, PartialEq, Eq, Structural)]
pub enum Platform {
    Linux,
    MacOs,
    Windows,
}

/// The standard directories read from the environment, each absent when its
/// variable is unset.
#[derive(Clone, Debug, PartialEq, Eq)]
pub struct EnvDirs {
    /// `HOME` on Unix, `USERPROFILE` on Windows.
    pub home: Option<FsPath>,
    /// `XDG_DATA_HOME`.
    pub xdg_data_home: Option<FsPath>,
    /// `ProgramFiles`.
    pub program_files: Option<FsPath>,
    /// `ProgramFiles(x86)`.
    pub program_files_x86: Option<FsPath>,
    /// `APPDATA`.
    pub app_data: Option<FsPath>,
}

pub struct EnvDirsView {
    pub home: Option<PathView>,
    pub xdg_data_home: Option<PathView>,
    pub program_files: Option<PathView>,
    pub program_files_x86: Option<PathView>,
    pub app_data: Option<PathView>,
}

pub open spec fn opt_view(o: Option<FsPath>) -> Option<PathView> {
    match o {
        Some(p) => Some(p@),
        None => None,
    }
}

impl View for EnvDirs {
    type V = EnvDirsView;

    open spec fn view(&self) -> EnvDirsView {
        EnvDirsView {
            home: opt_view(self.home),
            xdg_data_home: opt_view(self.xdg_data_home),
            program_files: opt_view(self.program_files),
            program_files_x86: opt_view(self.program_files_x86),
            app_data: opt_view(self.app_data),
        }
    }
}

/// Where the application belongs on one platform, and how its paths are written.
#[derive(Clone, Debug, PartialEq, Eq)]
pub struct PlatformPolicy {
    pub platform: Platform,
    /// The canonical install root.
    pub install_root: FsPath,
    /// Further per-machine install locations, searched after the canonical root.
    pub other_install_dirs: Vec<FsPath>,
    /// Per-user application-data locations.
    pub data_dirs: Vec<FsPath>,
    /// The name of the resource subdirectory.
    pub resource_dir: String,
    /// The separator between path components.
    pub separator: String,
    /// The name of the first-run marker file placed beside the executable.
    pub marker_name: String,
}

pub struct PolicyView {
    pub platform: Platform,
    pub install_root: PathView,
    pub other_install_dirs: Seq<PathView>,
    pub data_dirs: Seq<PathView>,
    pub resource_dir: Seq<char>,
    pub separator: Seq<char>,
    pub marker_name: Seq<char>,
}

pub open spec fn paths_view(v: Seq<FsPath>) -> Seq<PathView> {
    v.map_values(|p: FsPath| p@)
}

impl View for PlatformPolicy {
    type V = PolicyView;

    open spec fn view(&self) -> PolicyView {
        PolicyView {
            platform: self.platform,
            install_root: self.install_root@,
            other_install_dirs: paths_view(self.other_install_dirs@),
            data_dirs: paths_view(self.data_dirs@),
            resource_dir: self.resource_dir@,
            separator: self.separator@,
            marker_name: self.marker_name@,
        }
    }
}

pub open spec fn or_path(o: Option<PathView>, fallback: PathView) -> PathView {
    match o {
        Some(p) => p,
        None => fallback,
    }
}

/// The path made of a root and the given components.
pub open spec fn abs_path(root: Seq<char>, comps: Seq<Seq<char>>) -> PathView {
    PathView { root, comps }
}

/// The home directory used when the environment names none.
pub open spec fn home_fallback(platform: Platform) -> PathView {
    match platform {
        Platform::Linux => abs_path(""@, seq!["home"@, "docaret"@]),
        Platform::MacOs => abs_path(""@, seq!["Users"@, "Shared"@]),
        Platform::Windows => abs_path("C:"@, seq!["Users"@, "Public"@]),
    }
}

/// The policy that `PlatformPolicy::for_platform` builds.
pub open spec fn policy_for(platform: Platform, env: EnvDirsView) -> PolicyView {
    let home = or_path(env.home, home_fallback(platform));
    match platform {
        Platform::Linux => PolicyView {
            platform,
            install_root: home.child(".anglewing"@),
            other_install_dirs: seq![],
            data_dirs: seq![
                or_path(env.xdg_data_home, home.child(".local"@).child("share"@)).child(
                    "anglewing"@,
                ),
            ],
            resource_dir: "public"@,
            separator: "/"@,
            marker_name: ".anglewing_configured"@,
        },
        Platform::MacOs => PolicyView {
            platform,
            install_root: abs_path(""@, seq!["Applications"@, "Anglewing"@]),
            other_install_dirs: seq![],
            data_dirs: seq![
                home.child("Library"@).child("Application Support"@).child("Anglewing"@),
            ],
            resource_dir: "public"@,
            separator: "/"@,
            marker_name: ".anglewing_configured"@,
        },
        Platform::Windows => PolicyView {
            platform,
            install_root: or_path(
                env.program_files,
                abs_path("C:"@, seq!["Program Files"@]),
            ).child("Anglewing"@),
            other_install_dirs: seq![
                or_path(
                    env.program_files_x86,
                    abs_path("C:"@, seq!["Program Files (x86)"@]),
                ).child("Anglewing"@),
            ],
            data_dirs: seq![
                or_path(env.app_data, home.child("AppData"@).child("Roaming"@)).child(
                    "Anglewing"@,
                ),
            ],
            resource_dir: "public"@,
            separator: "\\"@,
            marker_name: ".anglewing_configured"@,
        },
    }
}

/// The path under `root` made of the two components `a` and `b`.
fn path2(root: &str, a: &str, b: &str) -> (r: FsPath)
    ensures
        r@ == abs_path(root@, seq![a@, b@]),
{
    let r = FsPath::new(String::from_str(root), Vec::new()).join(a).join(b);
    assert(r@.comps =~= seq![a@, b@]);
    r
}

fn or_fallback(o: &Option<FsPath>, fallback: FsPath) -> (r: FsPath)
    ensures
        r@ == or_path(opt_view(*o), fallback@),
{
    match o {
        Some(p) => p.duplicate(),
        None => fallback,
    }
}

impl PlatformPolicy {
    /// The policy of `platform`, from the standard directories of the environment;
    /// each unset variable falls back to a fixed path.
    pub fn for_platform(platform: Platform, env: &EnvDirs) -> (r: PlatformPolicy)
        ensures
            r@ == policy_for(platform, env@),
    {
        let home = match platform {
            Platform::Linux => or_fallback(&env.home, path2("", "home", "docaret")),
            Platform::MacOs => or_fallback(&env.home, path2("", "Users", "Shared")),
            Platform::Windows => or_fallback(&env.home, path2("C:", "Users", "Public")),
        };
        let marker_name = String::from_str(".anglewing_configured");
        let resource_dir = String::from_str("public");
        match platform {
            Platform::Linux => {
                let data = or_fallback(&env.xdg_data_home, home.join(".local").join("share"));
                let data_dirs = vec![data.join("anglewing")];
                let r = PlatformPolicy {
                    platform,
                    install_root: home.join(".anglewing"),
                    other_install_dirs: Vec::new(),
                    data_dirs,
                    resource_dir,
                    separator: String::from_str("/"),
                    marker_name,
                };
                assert(r@.data_dirs =~= policy_for(platform, env@).data_dirs);
                assert(r@.other_install_dirs =~= policy_for(platform, env@).other_install_dirs);
                r
            },
            Platform::MacOs => {
                let data = home.join("Library").join("Application Support").join("Anglewing");
                let data_dirs = vec![data];
                let r = PlatformPolicy {
                    platform,
                    install_root: path2("", "Applications", "Anglewing"),
                    other_install_dirs: Vec::new(),
                    data_dirs,
                    resource_dir,
                    separator: String::from_str("/"),
                    marker_name,
                };
                assert(r@.data_dirs =~= policy_for(platform, env@).data_dirs);
                assert(r@.other_install_dirs =~= policy_for(platform, env@).other_install_dirs);
                r
            },
            Platform::Windows => {
                let pf = FsPath::new(String::from_str("C:"), vec![String::from_str("Program Files")]);
                assert(pf@.comps =~= seq!["Program Files"@]);
                let pf86 = FsPath::new(
                    String::from_str("C:"),
                    vec![String::from_str("Program Files (x86)")],
                );
                assert(pf86@.comps =~= seq!["Program Files (x86)"@]);
                let install_root = or_fallback(&env.program_files, pf).join("Anglewing");
                let other_install_dirs = vec![
                    or_fallback(&env.program_files_x86, pf86).join("Anglewing"),
                ];
                let data = or_fallback(&env.app_data, home.join("AppData").join("Roaming"));
                let data_dirs = vec![data.join("Anglewing")];
                let r = PlatformPolicy {
                    platform,
                    install_root,
                    other_install_dirs,
                    data_dirs,
                    resource_dir,
                    separator: String::from_str("\\"),
                    marker_name,
                };
                assert(r@.data_dirs =~= policy_for(platform, env@).data_dirs);
                assert(r@.other_install_dirs =~= policy_for(platform, env@).other_install_dirs);
                r
            },
        }
    }

    /// Whether the executable directory `exe_dir` is the canonical install root or
    /// lies below it.
    pub fn is_canonical(&self, exe_dir: &FsPath) -> (r: bool)
        ensures
            r == exe_dir@.is_under(self@.install_root),
    {
        exe_dir.starts_with(&self.install_root)
    }
}

} // verus!
