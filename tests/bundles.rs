use anglewing::bundle::{
    are_important_files_missing, is_dir_empty_or_missing, satisfies_spec, BundleSpec, DirSnapshot,
    TreeEntry,
};

fn entry(rel: &str, is_dir: bool) -> TreeEntry {
    TreeEntry { rel: rel.split('/').map(|c| c.to_string()).collect(), is_dir }
}

fn rel(text: &str) -> Vec<String> {
    text.split('/').filter(|c| !c.is_empty()).map(|c| c.to_string()).collect()
}

fn full_bundle() -> DirSnapshot {
    DirSnapshot {
        present: true,
        entries: vec![
            entry("animations", true),
            entry("animations/a.gif", false),
            entry("backgrounds", true),
            entry("backgrounds/b.png", false),
            entry("config.json", false),
            entry("readme.txt", false),
        ],
    }
}

#[test]
fn full_bundle_satisfies_standard_spec() {
    let spec = BundleSpec::standard();
    assert!(satisfies_spec(&spec, &full_bundle()));
    assert!(!are_important_files_missing(&spec, &full_bundle()));
}

#[test]
fn missing_marker_file_is_reported() {
    let spec = BundleSpec::standard();
    let mut snap = full_bundle();
    snap.entries.retain(|e| e.rel != vec!["readme.txt".to_string()]);
    assert!(are_important_files_missing(&spec, &snap));
    assert!(!satisfies_spec(&spec, &snap));
}

#[test]
fn marker_that_is_a_directory_does_not_count() {
    let spec = BundleSpec::standard();
    let mut snap = full_bundle();
    snap.entries.retain(|e| e.rel != vec!["config.json".to_string()]);
    snap.entries.push(entry("config.json", true));
    assert!(are_important_files_missing(&spec, &snap));
}

#[test]
fn empty_required_subdirectory_fails_spec() {
    let spec = BundleSpec::standard();
    let mut snap = full_bundle();
    snap.entries.retain(|e| e.rel != rel("animations/a.gif"));
    assert!(!satisfies_spec(&spec, &snap));
    assert!(is_dir_empty_or_missing(&snap, &rel("animations")));
    assert!(!is_dir_empty_or_missing(&snap, &rel("backgrounds")));
}

#[test]
fn empty_subdirectory_passes_when_not_marked() {
    let mut spec = BundleSpec::standard();
    spec.subdirs[0].non_empty = false;
    let mut snap = full_bundle();
    snap.entries.retain(|e| e.rel != rel("animations/a.gif"));
    assert!(satisfies_spec(&spec, &snap));
}

#[test]
fn absent_directory_is_empty_or_missing() {
    let missing = DirSnapshot { present: false, entries: vec![] };
    assert!(is_dir_empty_or_missing(&missing, &vec![]));
    let empty = DirSnapshot { present: true, entries: vec![] };
    assert!(is_dir_empty_or_missing(&empty, &vec![]));
    assert!(!is_dir_empty_or_missing(&full_bundle(), &vec![]));
    assert!(is_dir_empty_or_missing(&full_bundle(), &rel("sounds")));
    assert!(!satisfies_spec(&BundleSpec::standard(), &missing));
    assert!(are_important_files_missing(&BundleSpec::standard(), &missing));
}
