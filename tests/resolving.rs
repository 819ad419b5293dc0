use anglewing::bundle::{BundleSpec, DirSnapshot, TreeEntry};
use anglewing::path::FsPath;
use anglewing::platform::{EnvDirs, Platform, PlatformPolicy};
use anglewing::script::application_root;
use anglewing::resolver::{
    candidate_locations, get_public_folder_path, resolve_resource_directory, search_directory,
    select_candidate, Origin, ResourceError,
};

fn unix(text: &str) -> FsPath {
    FsPath::new(
        String::new(),
        text.split('/').filter(|c| !c.is_empty()).map(|c| c.to_string()).collect(),
    )
}

fn entry(rel: &str, is_dir: bool) -> TreeEntry {
    TreeEntry { rel: rel.split('/').map(|c| c.to_string()).collect(), is_dir }
}

fn valid() -> DirSnapshot {
    DirSnapshot {
        present: true,
        entries: vec![
            entry("animations", true),
            entry("animations/a.gif", false),
            entry("backgrounds", true),
            entry("backgrounds/b.png", false),
            entry("config.json", false),
            entry("readme.txt", false),
        ],
    }
}

fn absent() -> DirSnapshot {
    DirSnapshot { present: false, entries: vec![] }
}

fn linux_policy(resource_dir: &str) -> PlatformPolicy {
    let env = EnvDirs {
        home: Some(unix("/home/u")),
        xdg_data_home: None,
        program_files: None,
        program_files_x86: None,
        app_data: None,
    };
    let mut p = PlatformPolicy::for_platform(Platform::Linux, &env);
    p.resource_dir = resource_dir.to_string();
    p
}

#[test]
fn candidates_come_in_priority_order() {
    let cands = candidate_locations(&unix("/root/App/bin"), &linux_policy("resources"));
    let got: Vec<(String, u8, Origin)> =
        cands.iter().map(|c| (c.path.render("/"), c.rank, c.origin)).collect();
    assert_eq!(
        got,
        vec![
            ("/root/App/bin/resources".to_string(), 1, Origin::ExecutableSibling),
            ("/root/App/resources".to_string(), 2, Origin::ParentSibling),
            ("/home/u/.anglewing/resources".to_string(), 3, Origin::InstallDir),
            ("/home/u/.local/share/anglewing/resources".to_string(), 4, Origin::UserData),
            ("/root/App/resources".to_string(), 5, Origin::Ancestor),
            ("/root/resources".to_string(), 5, Origin::Ancestor),
            ("/resources".to_string(), 5, Origin::Ancestor),
        ]
    );
}

#[test]
fn ancestor_walk_stops_after_five_levels() {
    let cands = candidate_locations(&unix("/a/b/c/d/e/f/g"), &linux_policy("public"));
    let ancestors: Vec<String> = cands
        .iter()
        .filter(|c| c.origin == Origin::Ancestor)
        .map(|c| c.path.render("/"))
        .collect();
    assert_eq!(
        ancestors,
        vec!["/a/b/c/d/e/f/public", "/a/b/c/d/e/public", "/a/b/c/d/public", "/a/b/c/public", "/a/b/public"]
    );
}

#[test]
fn candidate_search_order_prefers_parent_sibling() {
    let policy = linux_policy("resources");
    let spec = BundleSpec::standard();
    let mut snaps = vec![absent(); 7];
    snaps[1] = valid();
    snaps[4] = valid();
    let dir = resolve_resource_directory(&unix("/root/App/bin"), &policy, &spec, &snaps);
    assert_eq!(dir, unix("/root/App/resources"));
}

#[test]
fn first_valid_candidate_wins() {
    let policy = linux_policy("public");
    let spec = BundleSpec::standard();
    let mut snaps = vec![absent(); 7];
    snaps[3] = valid();
    snaps[5] = valid();
    let cands = candidate_locations(&unix("/root/App/bin"), &policy);
    assert_eq!(select_candidate(&cands, &spec, &snaps), Some(3));
    let dir = resolve_resource_directory(&unix("/root/App/bin"), &policy, &spec, &snaps);
    assert_eq!(dir, unix("/home/u/.local/share/anglewing/public"));
}

#[test]
fn no_valid_candidate_falls_back_to_first() {
    let policy = linux_policy("public");
    let spec = BundleSpec::standard();
    let dir = resolve_resource_directory(&unix("/root/App/bin"), &policy, &spec, &vec![]);
    assert_eq!(dir, unix("/root/App/bin/public"));
    assert_eq!(select_candidate(&vec![], &spec, &vec![]), None);
}

#[test]
fn canonical_root_bundle_is_resolved() {
    let policy = linux_policy("public");
    let spec = BundleSpec::standard();
    let snaps = vec![valid()];
    let dir = resolve_resource_directory(&unix("/home/u/.anglewing"), &policy, &spec, &snaps);
    assert_eq!(dir, unix("/home/u/.anglewing/public"));
}

#[test]
fn public_folder_path_is_reported_as_text() {
    let policy = linux_policy("public");
    let spec = BundleSpec::standard();
    let mut snaps = vec![absent(); 7];
    snaps[2] = valid();
    let r = get_public_folder_path(&unix("/root/App/bin/exe"), &policy, &spec, &snaps);
    assert_eq!(r, Ok("/home/u/.anglewing/public".to_string()));
}

#[test]
fn unusable_public_folder_is_an_error() {
    let policy = linux_policy("public");
    let spec = BundleSpec::standard();
    let r = get_public_folder_path(&unix("/root/App/bin/exe"), &policy, &spec, &vec![absent(); 7]);
    assert_eq!(r, Err(ResourceError::Unusable { path: "/root/App/bin/public".to_string() }));
    let e = r.unwrap_err();
    assert_eq!(e.message(), "Resource directory is not usable: /root/App/bin/public");
}

#[test]
fn present_but_incomplete_folder_is_still_reported() {
    let policy = linux_policy("public");
    let spec = BundleSpec::standard();
    let mut snaps = vec![absent(); 7];
    snaps[0] = DirSnapshot { present: true, entries: vec![] };
    let r = get_public_folder_path(&unix("/root/App/bin/exe"), &policy, &spec, &snaps);
    assert_eq!(r, Ok("/root/App/bin/public".to_string()));
}

#[test]
fn executable_without_directory_is_an_error() {
    let policy = linux_policy("public");
    let spec = BundleSpec::standard();
    let r = get_public_folder_path(&unix("/"), &policy, &spec, &vec![]);
    assert_eq!(r, Err(ResourceError::NoExecutableDirectory));
    assert_eq!(
        ResourceError::NoExecutableDirectory.message(),
        "Failed to get parent directory of the executable"
    );
}

#[test]
fn macos_search_starts_beside_the_bundle() {
    let env = EnvDirs { home: Some(unix("/Users/u")), xdg_data_home: None, program_files: None, program_files_x86: None, app_data: None };
    let policy = PlatformPolicy::for_platform(Platform::MacOs, &env);
    let spec = BundleSpec::standard();
    let exe = unix("/Applications/Anglewing/Anglewing.app/Contents/MacOS/anglewing");
    assert_eq!(search_directory(&exe, Platform::MacOs), Some(unix("/Applications/Anglewing")));
    let cands = candidate_locations(&unix("/Applications/Anglewing"), &policy);
    assert_eq!(cands[0].path, unix("/Applications/Anglewing/public"));
    assert_eq!(cands[1].path, unix("/Applications/public"));
    let mut snaps = vec![absent(); cands.len()];
    snaps[0] = valid();
    let r = get_public_folder_path(&exe, &policy, &spec, &snaps);
    assert_eq!(r, Ok("/Applications/Anglewing/public".to_string()));
    let r = get_public_folder_path(&exe, &policy, &spec, &vec![DirSnapshot { present: true, entries: vec![] }]);
    assert_eq!(r, Ok("/Applications/Anglewing/public".to_string()));
    let r = get_public_folder_path(&unix("/MacOS/anglewing"), &policy, &spec, &vec![]);
    assert_eq!(r, Err(ResourceError::NoExecutableDirectory));
}

#[test]
fn macos_app_elsewhere_falls_back_beside_the_bundle() {
    let env = EnvDirs { home: Some(unix("/Users/u")), xdg_data_home: None, program_files: None, program_files_x86: None, app_data: None };
    let policy = PlatformPolicy::for_platform(Platform::MacOs, &env);
    let spec = BundleSpec::standard();
    let exe = unix("/Users/u/Downloads/Anglewing.app/Contents/MacOS/anglewing");
    let start = search_directory(&exe, Platform::MacOs).unwrap();
    assert_eq!(start, unix("/Users/u/Downloads"));
    let dir = resolve_resource_directory(&start, &policy, &spec, &vec![]);
    assert_eq!(dir, unix("/Users/u/Downloads/public"));
    let r = get_public_folder_path(&exe, &policy, &spec, &vec![]);
    assert_eq!(r, Err(ResourceError::Unusable { path: "/Users/u/Downloads/public".to_string() }));
}

#[test]
fn search_starts_in_the_executable_directory_elsewhere() {
    assert_eq!(search_directory(&unix("/opt/app/exe"), Platform::Linux), Some(unix("/opt/app")));
    assert_eq!(search_directory(&unix("/"), Platform::Windows), None);
}

#[test]
fn application_root_elsewhere_is_the_executable_directory() {
    assert_eq!(application_root(&unix("/opt/app/exe"), Platform::Linux), Some(unix("/opt/app")));
    assert_eq!(application_root(&unix("/exe"), Platform::Windows), None);
}
