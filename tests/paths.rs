use anglewing::path::FsPath;
use anglewing::platform::{EnvDirs, Platform, PlatformPolicy};

fn unix(text: &str) -> FsPath {
    FsPath::new(
        String::new(),
        text.split('/').filter(|c| !c.is_empty()).map(|c| c.to_string()).collect(),
    )
}

fn no_env() -> EnvDirs {
    EnvDirs { home: None, xdg_data_home: None, program_files: None, program_files_x86: None, app_data: None }
}

#[test]
fn render_unix_path() {
    assert_eq!(unix("/root/App/bin").render("/"), "/root/App/bin");
    assert_eq!(unix("/").render("/"), "/");
}

#[test]
fn render_windows_path() {
    let p = FsPath::new("C:".to_string(), vec!["Program Files".to_string(), "Anglewing".to_string()]);
    assert_eq!(p.render("\\"), "C:\\Program Files\\Anglewing");
}

#[test]
fn join_parent_and_file_name() {
    let p = unix("/root/App");
    let q = p.join("bin");
    assert_eq!(q, unix("/root/App/bin"));
    assert_eq!(q.parent(), Some(p.clone()));
    assert_eq!(q.file_name(), Some("bin".to_string()));
    assert_eq!(unix("/").parent(), None);
    assert_eq!(unix("/").file_name(), None);
    assert_eq!(q.join_all(&vec!["a".to_string(), "b".to_string()]), unix("/root/App/bin/a/b"));
}

#[test]
fn ancestors_by_level() {
    let p = unix("/a/b/c");
    assert_eq!(p.ancestor(0), Some(unix("/a/b/c")));
    assert_eq!(p.ancestor(2), Some(unix("/a")));
    assert_eq!(p.ancestor(3), Some(unix("/")));
    assert_eq!(p.ancestor(4), None);
}

#[test]
fn starts_with_compares_components() {
    assert!(unix("/a/b/c").starts_with(&unix("/a/b")));
    assert!(unix("/a/b").starts_with(&unix("/a/b")));
    assert!(!unix("/a/bc").starts_with(&unix("/a/b")));
    assert!(!unix("/a").starts_with(&unix("/a/b")));
    let drive = FsPath::new("D:".to_string(), vec!["a".to_string()]);
    let other = FsPath::new("C:".to_string(), vec!["a".to_string()]);
    assert!(!drive.starts_with(&other));
}

#[test]
fn linux_policy_uses_home_or_fallback() {
    let p = PlatformPolicy::for_platform(Platform::Linux, &no_env());
    assert_eq!(p.install_root, unix("/home/docaret/.anglewing"));
    assert_eq!(p.data_dirs, vec![unix("/home/docaret/.local/share/anglewing")]);
    assert_eq!(p.resource_dir, "public");
    let mut env = no_env();
    env.home = Some(unix("/home/ann"));
    env.xdg_data_home = Some(unix("/data"));
    let p = PlatformPolicy::for_platform(Platform::Linux, &env);
    assert_eq!(p.install_root, unix("/home/ann/.anglewing"));
    assert_eq!(p.data_dirs, vec![unix("/data/anglewing")]);
}

#[test]
fn windows_policy_falls_back_to_program_files() {
    let p = PlatformPolicy::for_platform(Platform::Windows, &no_env());
    assert_eq!(p.install_root.render("\\"), "C:\\Program Files\\Anglewing");
    assert_eq!(p.other_install_dirs[0].render("\\"), "C:\\Program Files (x86)\\Anglewing");
    assert_eq!(p.data_dirs[0].render("\\"), "C:\\Users\\Public\\AppData\\Roaming\\Anglewing");
    assert_eq!(p.separator, "\\");
}

#[test]
fn macos_policy_installs_under_applications() {
    let p = PlatformPolicy::for_platform(Platform::MacOs, &no_env());
    assert_eq!(p.install_root, unix("/Applications/Anglewing"));
    assert!(p.is_canonical(&unix("/Applications/Anglewing/App.app/Contents/MacOS")));
    assert!(!p.is_canonical(&unix("/Applications/App.app/Contents/MacOS")));
}
