use anglewing::bundle::BundleSpec;
use anglewing::orchestrator::{Action, Event, InstallState, MigrationStage, Orchestrator};
use anglewing::path::FsPath;
use anglewing::platform::{EnvDirs, Platform, PlatformPolicy};
use anglewing::script::{
    escape_text, plan_migration, render_script, render_script_lines, Quoting, RelocationError,
};

fn unix(text: &str) -> FsPath {
    FsPath::new(
        String::new(),
        text.split('/').filter(|c| !c.is_empty()).map(|c| c.to_string()).collect(),
    )
}

fn win(text: &str) -> FsPath {
    let mut parts = text.split('\\');
    let root = parts.next().unwrap().to_string();
    FsPath::new(root, parts.filter(|c| !c.is_empty()).map(|c| c.to_string()).collect())
}

fn env_home(home: FsPath) -> EnvDirs {
    EnvDirs { home: Some(home), xdg_data_home: None, program_files: None, program_files_x86: None, app_data: None }
}

fn linux() -> Orchestrator {
    let policy = PlatformPolicy::for_platform(Platform::Linux, &env_home(unix("/home/u")));
    Orchestrator::new(policy, BundleSpec::standard())
}

fn observed(exe: FsPath, valid: bool, marker: bool, embedded: Option<FsPath>) -> Event {
    Event::Observed {
        exe,
        canonical_bundle_valid: valid,
        marker_present: marker,
        embedded,
        temp_dir: unix("/tmp"),
    }
}

#[test]
fn canonical_install_with_valid_bundle_continues() {
    let mut o = linux();
    let a = o.step(&observed(unix("/home/u/.anglewing/anglewing"), true, false, None));
    assert_eq!(a, Action::Continue);
    assert_eq!(o.state, InstallState::AlreadyInstalled);
    for e in [Event::Done, Event::Failed { message: "x".to_string() }, Event::Done] {
        assert_eq!(o.step(&e), Action::Continue);
    }
    assert_eq!(o.state, InstallState::AlreadyInstalled);
    assert_eq!(o.plan, None);
}

#[test]
fn canonical_install_with_incomplete_bundle_materializes() {
    let mut o = linux();
    let a = o.step(&observed(unix("/home/u/.anglewing/bin/anglewing"), false, false, None));
    assert_eq!(a, Action::Materialize { target: unix("/home/u/.anglewing/public") });
    assert_eq!(o.state, InstallState::AlreadyInstalled);
}

#[test]
fn recorded_decision_keeps_app_in_place() {
    let mut o = linux();
    let a = o.step(&observed(unix("/opt/tools/anglewing"), false, true, None));
    assert_eq!(a, Action::Continue);
    assert_eq!(o.state, InstallState::KeptInPlace);
}

#[test]
fn outside_root_needs_migration() {
    let mut o = linux();
    let a = o.step(&observed(unix("/opt/anglewing/anglewing"), true, false, None));
    assert_eq!(
        a,
        Action::CreateDirs {
            dirs: vec![
                unix("/home/u/.anglewing"),
                unix("/home/u/.anglewing/public"),
                unix("/home/u/.anglewing/public/animations"),
                unix("/home/u/.anglewing/public/backgrounds"),
            ]
        }
    );
    assert_eq!(o.state, InstallState::NeedsMigration { stage: MigrationStage::CreatingDirs });
    let plan = o.plan.clone().unwrap();
    assert_eq!(plan.source, unix("/opt/anglewing"));
    assert_eq!(plan.destination, unix("/home/u/.anglewing"));
    assert_eq!(plan.launch, unix("/home/u/.anglewing/anglewing"));
    assert_eq!(plan.fallback, unix("/opt/anglewing/anglewing"));
    let lines = render_script_lines(&plan);
    assert_eq!(lines[2], "cp -R \"/opt/anglewing/.\" \"/home/u/.anglewing\" && rm -rf \"/opt/anglewing\"");
    assert_eq!(lines[5], "echo \"Warning: no embedded resource bundle\"");
}

#[test]
fn temporary_download_migration_dispatches_once() {
    let mut o = linux();
    let exe = unix("/tmp/downloads/anglewing");
    let embedded = Some(unix("/tmp/downloads/public"));
    let mut actions = vec![o.step(&observed(exe, true, false, embedded))];
    for _ in 0..6 {
        actions.push(o.step(&Event::Done));
    }
    let expected_script = "#!/bin/bash\n\
sleep 2\n\
cp -R \"/tmp/downloads/.\" \"/home/u/.anglewing\" && rm -rf \"/tmp/downloads\"\n\
mkdir -p \"/home/u/.anglewing/public/animations\"\n\
mkdir -p \"/home/u/.anglewing/public/backgrounds\"\n\
echo Resource bundle in place\n\
chmod -R 755 \"/home/u/.anglewing\"\n\
chmod -R u=rwX,go=rX \"/home/u/.anglewing/public\"\n\
if [ -x \"/home/u/.anglewing/anglewing\" ]; then nohup \"/home/u/.anglewing/anglewing\" >/dev/null 2>&1 & else nohup \"/tmp/downloads/anglewing\" >/dev/null 2>&1 & fi\n\
rm \"$0\"\n\
exit 0\n";
    assert_eq!(
        actions[1],
        Action::WriteScript { path: unix("/tmp/anglewing_install_script.sh"), text: expected_script.to_string() }
    );
    assert_eq!(actions[2], Action::Spawn { script: unix("/tmp/anglewing_install_script.sh") });
    assert_eq!(actions[3], Action::WriteMarker { path: unix("/tmp/downloads/.anglewing_configured") });
    assert_eq!(actions[4], Action::Exit);
    assert_eq!(actions[5], Action::Continue);
    assert_eq!(actions.iter().filter(|a| **a == Action::Exit).count(), 1);
    assert_eq!(o.state, InstallState::MigrationDispatched);
}

#[test]
fn embedded_bundle_outside_the_tree_is_copied() {
    let policy = PlatformPolicy::for_platform(Platform::Linux, &env_home(unix("/home/u")));
    let names = vec!["animations".to_string()];
    let embedded = Some(unix("/usr/share/anglewing/public"));
    let plan = plan_migration(&unix("/tmp/d/anglewing"), &policy, &names, &embedded, &unix("/tmp")).unwrap();
    assert_eq!(plan.resource_source, Some(unix("/usr/share/anglewing/public")));
    let lines = render_script_lines(&plan);
    assert_eq!(
        lines[4],
        "if [ -d \"/usr/share/anglewing/public\" ]; then cp -R \"/usr/share/anglewing/public/.\" \"/home/u/.anglewing/public\"; fi"
    );
}

#[test]
fn special_characters_in_paths_are_escaped() {
    assert_eq!(escape_text(Quoting::Shell, "a$b\"c`d\\e f"), "a\\$b\\\"c\\`d\\\\e f");
    assert_eq!(escape_text(Quoting::Batch, "50% off"), "50%% off");
    assert_eq!(escape_text(Quoting::PowerShell, "O'Brien 5%"), "O''Brien 5%%");
    assert_eq!(escape_text(Quoting::Shell, ""), "");
    let policy = PlatformPolicy::for_platform(Platform::Linux, &env_home(unix("/home/u")));
    let plan = plan_migration(&unix("/tmp/$(reboot)/anglewing"), &policy, &vec![], &None, &unix("/tmp")).unwrap();
    let lines = render_script_lines(&plan);
    assert_eq!(lines[2], "cp -R \"/tmp/\\$(reboot)/.\" \"/home/u/.anglewing\" && rm -rf \"/tmp/\\$(reboot)\"");
}

#[test]
fn failed_step_reports_and_stays() {
    let mut o = linux();
    o.step(&observed(unix("/tmp/downloads/anglewing"), true, false, None));
    assert_eq!(o.step(&Event::Done), Action::WriteScript {
        path: unix("/tmp/anglewing_install_script.sh"),
        text: render_script(o.plan.as_ref().unwrap()),
    });
    let a = o.step(&Event::Failed { message: "Failed to write installation script".to_string() });
    assert_eq!(a, Action::Report { message: "Failed to write installation script".to_string() });
    assert_eq!(o.state, InstallState::Failed);
    assert_eq!(o.step(&Event::Done), Action::Continue);
}

#[test]
fn executable_without_directory_fails() {
    let mut o = linux();
    let a = o.step(&observed(unix("/"), true, false, None));
    assert_eq!(a, Action::Report { message: "Failed to determine the executable's directory".to_string() });
    assert_eq!(o.state, InstallState::Failed);
}

#[test]
fn macos_bundle_moves_into_install_root() {
    let policy = PlatformPolicy::for_platform(Platform::MacOs, &env_home(unix("/Users/u")));
    let exe = unix("/Users/u/Downloads/Anglewing.app/Contents/MacOS/anglewing");
    let embedded = Some(unix("/Users/u/Downloads/Anglewing.app/Contents/Resources/public"));
    let names = vec!["animations".to_string(), "backgrounds".to_string()];
    let plan = plan_migration(&exe, &policy, &names, &embedded, &unix("/tmp")).unwrap();
    assert_eq!(plan.source, unix("/Users/u/Downloads/Anglewing.app"));
    assert_eq!(plan.destination, unix("/Applications/Anglewing/Anglewing.app"));
    assert_eq!(
        plan.resource_source,
        Some(unix("/Applications/Anglewing/Anglewing.app/Contents/Resources/public"))
    );
    assert_eq!(plan.resource_target, unix("/Applications/Anglewing/public"));
    assert_eq!(plan.launch, unix("/Applications/Anglewing/Anglewing.app"));
    assert_eq!(plan.fallback, unix("/Users/u/Downloads/Anglewing.app"));
    let lines = render_script_lines(&plan);
    assert_eq!(lines[2], "mv \"/Users/u/Downloads/Anglewing.app\" \"/Applications/Anglewing/Anglewing.app\"");
    assert_eq!(
        lines[8],
        "if [ -e \"/Applications/Anglewing/Anglewing.app\" ]; then open \"/Applications/Anglewing/Anglewing.app\"; else open \"/Users/u/Downloads/Anglewing.app\"; fi"
    );
}

#[test]
fn macos_short_path_cannot_be_relocated() {
    let policy = PlatformPolicy::for_platform(Platform::MacOs, &env_home(unix("/Users/u")));
    let names = vec![];
    let r = plan_migration(&unix("/MacOS/anglewing"), &policy, &names, &None, &unix("/tmp"));
    assert_eq!(r, Err(RelocationError::NoApplicationUnit));
    let mut o = Orchestrator::new(policy, BundleSpec::standard());
    let a = o.step(&observed(unix("/MacOS/anglewing"), true, false, None));
    assert_eq!(a, Action::Report { message: RelocationError::NoApplicationUnit.message() });
    assert_eq!(RelocationError::NoApplicationUnit.message(), "Failed to determine the application's location");
    assert_eq!(o.state, InstallState::Failed);
}

#[test]
fn windows_script_uses_batch_syntax() {
    let env = EnvDirs {
        home: Some(win("C:\\Users\\u")),
        xdg_data_home: None,
        program_files: None,
        program_files_x86: None,
        app_data: None,
    };
    let policy = PlatformPolicy::for_platform(Platform::Windows, &env);
    let exe = win("C:\\Users\\u\\Downloads\\Anglewing\\anglewing.exe");
    let names = vec!["animations".to_string()];
    let embedded = Some(win("C:\\Users\\u\\Downloads\\Anglewing\\public"));
    let plan = plan_migration(&exe, &policy, &names, &embedded, &win("C:\\Temp")).unwrap();
    assert_eq!(plan.script_path, win("C:\\Temp\\anglewing_install.bat"));
    assert_eq!(plan.source, win("C:\\Users\\u\\Downloads\\Anglewing"));
    assert_eq!(plan.destination, win("C:\\Program Files\\Anglewing"));
    assert_eq!(plan.resource_source, Some(win("C:\\Program Files\\Anglewing\\public")));
    let lines = render_script_lines(&plan);
    assert_eq!(lines[0], "@echo off");
    assert_eq!(
        lines[2],
        "robocopy \"C:\\Users\\u\\Downloads\\Anglewing\" \"C:\\Program Files\\Anglewing\" /E /MOVE"
    );
    assert_eq!(
        lines[3],
        "if not exist \"C:\\Program Files\\Anglewing\\public\\animations\" mkdir \"C:\\Program Files\\Anglewing\\public\\animations\""
    );
    assert_eq!(lines[4], "echo Resource bundle in place");
    assert!(lines[5].contains("$s.TargetPath = 'C:\\Program Files\\Anglewing\\anglewing.exe'"));
    assert_eq!(
        lines[6],
        "if exist \"C:\\Program Files\\Anglewing\\anglewing.exe\" (start \"\" \"C:\\Program Files\\Anglewing\\anglewing.exe\") else (start \"\" \"C:\\Users\\u\\Downloads\\Anglewing\\anglewing.exe\")"
    );
    assert_eq!(lines[lines.len() - 1], "exit");
    let text = render_script(&plan);
    assert!(text.starts_with("@echo off\r\ntimeout /t 2 /nobreak > nul\r\n"));
    assert!(text.ends_with("del \"%~f0\"\r\nexit\r\n"));
}

#[test]
fn failed_spawn_leaves_no_marker() {
    let mut o = linux();
    let mut actions = vec![o.step(&observed(unix("/tmp/downloads/anglewing"), true, false, None))];
    actions.push(o.step(&Event::Done));
    actions.push(o.step(&Event::Done));
    assert_eq!(actions[2], Action::Spawn { script: unix("/tmp/anglewing_install_script.sh") });
    let a = o.step(&Event::Failed { message: "Failed to execute installation script".to_string() });
    assert_eq!(a, Action::Report { message: "Failed to execute installation script".to_string() });
    assert_eq!(o.state, InstallState::Failed);
    assert!(!actions.iter().any(|a| matches!(a, Action::WriteMarker { .. })));
    assert_eq!(o.step(&Event::Done), Action::Continue);
}

#[test]
fn failed_marker_still_exits_once() {
    let mut o = linux();
    o.step(&observed(unix("/tmp/downloads/anglewing"), true, false, None));
    o.step(&Event::Done);
    o.step(&Event::Done);
    assert!(matches!(o.step(&Event::Done), Action::WriteMarker { .. }));
    let a = o.step(&Event::Failed { message: "Failed to create configuration marker".to_string() });
    assert_eq!(a, Action::Exit);
    assert_eq!(o.state, InstallState::MigrationDispatched);
    assert_eq!(o.step(&Event::Done), Action::Continue);
}
