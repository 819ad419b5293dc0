use std::collections::BTreeMap;

use anglewing::bundle::{BundleSpec, DirSnapshot, TreeEntry};
use anglewing::materialize::{
    bundle_incomplete, plan_materialization, FsAction, MaterializePlan, SourceBundle, DIR_MODE,
    FILE_MODE,
};
use anglewing::path::FsPath;

#[derive(Clone, Debug, PartialEq)]
enum Node {
    Dir,
    File(Vec<u8>),
}

type Fs = BTreeMap<Vec<String>, Node>;

fn comps(text: &str) -> Vec<String> {
    text.split('/').filter(|c| !c.is_empty()).map(|c| c.to_string()).collect()
}

fn unix(text: &str) -> FsPath {
    FsPath::new(String::new(), comps(text))
}

fn add_dir(fs: &mut Fs, text: &str) {
    let c = comps(text);
    for k in 0..=c.len() {
        fs.entry(c[..k].to_vec()).or_insert(Node::Dir);
    }
}

fn add_file(fs: &mut Fs, text: &str, content: &[u8]) {
    let c = comps(text);
    add_dir(fs, &format!("/{}", c[..c.len() - 1].join("/")));
    fs.insert(c, Node::File(content.to_vec()));
}

/// Carries the actions out on the in-memory filesystem, stopping at the first failure.
fn run(fs: &mut Fs, plan: &MaterializePlan) -> Result<(), String> {
    for a in &plan.actions {
        match a {
            FsAction::CreateDir { path } => {
                for k in 0..=path.comps.len() {
                    let q = path.comps[..k].to_vec();
                    match fs.get(&q) {
                        Some(Node::File(_)) => return Err(format!("file in the way: {:?}", q)),
                        Some(Node::Dir) => {}
                        None => {
                            fs.insert(q, Node::Dir);
                        }
                    }
                }
            }
            FsAction::SetMode { path, .. } => {
                if !fs.contains_key(&path.comps) {
                    return Err(format!("no such entry: {:?}", path.comps));
                }
            }
            FsAction::CopyFile { from, to } => {
                let content = match fs.get(&from.comps) {
                    Some(Node::File(c)) => c.clone(),
                    _ => return Err(format!("no source file: {:?}", from.comps)),
                };
                let parent = to.comps[..to.comps.len() - 1].to_vec();
                if fs.get(&parent) != Some(&Node::Dir) || fs.get(&to.comps) == Some(&Node::Dir) {
                    return Err(format!("cannot copy to {:?}", to.comps));
                }
                fs.insert(to.comps.clone(), Node::File(content));
            }
        }
    }
    Ok(())
}

fn snapshot(fs: &Fs, dir: &FsPath) -> DirSnapshot {
    let n = dir.comps.len();
    let entries = fs
        .iter()
        .filter(|(k, _)| k.len() > n && k[..n] == dir.comps[..])
        .map(|(k, v)| TreeEntry { rel: k[n..].to_vec(), is_dir: *v == Node::Dir })
        .collect();
    DirSnapshot { present: fs.get(&dir.comps) == Some(&Node::Dir), entries }
}

fn source_fs() -> Fs {
    let mut fs = Fs::new();
    add_file(&mut fs, "/opt/app/public/animations/a.gif", b"GIF89a");
    add_file(&mut fs, "/opt/app/public/animations/loops/b.gif", b"loop");
    add_file(&mut fs, "/opt/app/public/backgrounds/c.png", b"\x89PNG");
    add_file(&mut fs, "/opt/app/public/config.json", b"{}");
    add_file(&mut fs, "/opt/app/public/readme.txt", b"read me");
    add_dir(&mut fs, "/home/u");
    fs
}

fn source(fs: &Fs) -> SourceBundle {
    let root = unix("/opt/app/public");
    SourceBundle { entries: snapshot(fs, &root).entries, root }
}

fn materialize(fs: &mut Fs, target: &FsPath, src: &Option<SourceBundle>) -> MaterializePlan {
    let spec = BundleSpec::standard();
    let plan = plan_materialization(&spec, target, &snapshot(fs, target), src);
    run(fs, &plan).unwrap();
    plan
}

#[test]
fn materialize_copies_every_file() {
    let mut fs = source_fs();
    let src = Some(source(&fs));
    let target = unix("/home/u/.anglewing/public");
    let plan = materialize(&mut fs, &target, &src);
    assert!(plan.copies);
    assert!(!plan.warning);
    for sub in ["animations", "backgrounds", "animations/loops"] {
        assert_eq!(fs.get(&comps(&format!("/home/u/.anglewing/public/{}", sub))), Some(&Node::Dir));
    }
    let files = ["animations/a.gif", "animations/loops/b.gif", "backgrounds/c.png", "config.json", "readme.txt"];
    for f in files {
        let copied = fs.get(&comps(&format!("/home/u/.anglewing/public/{}", f)));
        let in_source = fs.get(&comps(&format!("/opt/app/public/{}", f)));
        assert!(matches!(copied, Some(Node::File(_))));
        assert_eq!(copied, in_source);
    }
    assert!(!bundle_incomplete(&BundleSpec::standard(), &snapshot(&fs, &target), &src));
}

#[test]
fn materialize_twice_equals_once() {
    let mut fs = source_fs();
    let src = Some(source(&fs));
    let target = unix("/home/u/.anglewing/public");
    materialize(&mut fs, &target, &src);
    let once = fs.clone();
    let plan = materialize(&mut fs, &target, &src);
    assert!(!plan.copies);
    assert_eq!(fs, once);
}

#[test]
fn materialize_twice_without_source_equals_once() {
    let mut fs = source_fs();
    let target = unix("/home/u/.anglewing/public");
    let first = materialize(&mut fs, &target, &None);
    assert!(first.warning);
    let once = fs.clone();
    let second = materialize(&mut fs, &target, &None);
    assert!(second.warning);
    assert_eq!(fs, once);
}

#[test]
fn plan_lists_actions_in_order() {
    let mut fs = Fs::new();
    add_file(&mut fs, "/src/config.json", b"{}");
    add_dir(&mut fs, "/src/extra");
    let root = unix("/src");
    let src = Some(SourceBundle { entries: snapshot(&fs, &root).entries, root });
    let t = unix("/t");
    let plan = plan_materialization(&BundleSpec::standard(), &t, &snapshot(&fs, &t), &src);
    let expected = vec![
        FsAction::CreateDir { path: unix("/t") },
        FsAction::SetMode { path: unix("/t"), mode: DIR_MODE },
        FsAction::CreateDir { path: unix("/t/animations") },
        FsAction::SetMode { path: unix("/t/animations"), mode: DIR_MODE },
        FsAction::CreateDir { path: unix("/t/backgrounds") },
        FsAction::SetMode { path: unix("/t/backgrounds"), mode: DIR_MODE },
        FsAction::CreateDir { path: unix("/t") },
        FsAction::CopyFile { from: unix("/src/config.json"), to: unix("/t/config.json") },
        FsAction::SetMode { path: unix("/t/config.json"), mode: FILE_MODE },
        FsAction::CreateDir { path: unix("/t/extra") },
        FsAction::SetMode { path: unix("/t/extra"), mode: DIR_MODE },
    ];
    assert_eq!(plan.actions, expected);
    assert_eq!(plan.base_len, 6);
    assert_eq!(DIR_MODE, 0o755);
    assert_eq!(FILE_MODE, 0o644);
}

#[test]
fn empty_required_subdir_triggers_copy() {
    let mut fs = source_fs();
    add_file(&mut fs, "/home/u/.anglewing/public/backgrounds/c.png", b"\x89PNG");
    add_file(&mut fs, "/home/u/.anglewing/public/config.json", b"{}");
    add_file(&mut fs, "/home/u/.anglewing/public/readme.txt", b"read me");
    add_dir(&mut fs, "/home/u/.anglewing/public/animations");
    let target = unix("/home/u/.anglewing/public");
    let src = Some(source(&fs));
    let plan = materialize(&mut fs, &target, &src);
    assert!(plan.copies);
    assert_eq!(
        fs.get(&comps("/home/u/.anglewing/public/animations/a.gif")),
        Some(&Node::File(b"GIF89a".to_vec()))
    );
}

#[test]
fn empty_required_subdir_without_source_warns() {
    let mut fs = Fs::new();
    add_file(&mut fs, "/home/u/.anglewing/public/backgrounds/c.png", b"\x89PNG");
    add_file(&mut fs, "/home/u/.anglewing/public/config.json", b"{}");
    add_file(&mut fs, "/home/u/.anglewing/public/readme.txt", b"read me");
    add_dir(&mut fs, "/home/u/.anglewing/public/animations");
    let target = unix("/home/u/.anglewing/public");
    let plan = materialize(&mut fs, &target, &None);
    assert!(plan.warning);
    assert!(!plan.copies);
    assert_eq!(plan.actions.len(), plan.base_len);
    assert_eq!(fs.get(&comps("/home/u/.anglewing/public/animations")), Some(&Node::Dir));
}

#[test]
fn missing_source_file_in_target_makes_bundle_incomplete() {
    let mut fs = source_fs();
    let target = unix("/home/u/.anglewing/public");
    let src = Some(source(&fs));
    materialize(&mut fs, &target, &src);
    fs.remove(&comps("/home/u/.anglewing/public/animations/loops/b.gif"));
    let spec = BundleSpec::standard();
    assert!(bundle_incomplete(&spec, &snapshot(&fs, &target), &src));
    assert!(!bundle_incomplete(&spec, &snapshot(&fs, &target), &None));
}
