use lasso_zen_bre::diagnostics::Diagnostic;
use lasso_zen_bre::paths::PathComponent;
use lasso_zen_bre::scan::{DecisionScan, EntryKind, ScanEntry};

fn normal(s: &str) -> PathComponent {
    PathComponent::Normal(s.to_string())
}

fn at(parts: &[&str]) -> Vec<PathComponent> {
    let mut p = vec![PathComponent::RootDir, normal("ws")];
    for s in parts {
        p.push(normal(s));
    }
    p
}

fn entry(parts: &[&str], kind: EntryKind) -> ScanEntry {
    let name = parts.last().copied().unwrap_or("").as_bytes().to_vec();
    ScanEntry { path: at(parts), file_name: name, kind }
}

fn codes(scan: DecisionScan) -> Vec<String> {
    match scan.finish() {
        Ok(_) => panic!("the scan must be refused"),
        Err(e) => e.diagnostics.into_iter().map(|d: Diagnostic| d.code).collect(),
    }
}

#[test]
fn accepted_models_come_out_in_path_order() {
    let mut scan = DecisionScan::new(at(&[]), 100, 1000, 10);
    assert_eq!(scan.next_directory(), Some(at(&[])));
    scan.observe(entry(&["zeta.json"], EntryKind::File { len: 5 }));
    scan.observe(entry(&["rules"], EntryKind::Directory));
    scan.observe(entry(&["alpha.json"], EntryKind::File { len: 5 }));
    assert_eq!(scan.next_directory(), Some(at(&["rules"])));
    scan.observe(entry(&["rules", "b.json"], EntryKind::File { len: 5 }));
    scan.observe(entry(&["rules", "a.json"], EntryKind::File { len: 5 }));
    assert_eq!(scan.next_directory(), None);
    let paths = scan.finish().ok().expect("the scan is accepted");
    assert_eq!(
        paths,
        vec![
            at(&["alpha.json"]),
            at(&["rules", "a.json"]),
            at(&["rules", "b.json"]),
            at(&["zeta.json"]),
        ]
    );
}

#[test]
fn directories_are_walked_last_in_first_out() {
    let mut scan = DecisionScan::new(at(&[]), 100, 1000, 10);
    assert!(scan.next_directory().is_some());
    scan.observe(entry(&["a"], EntryKind::Directory));
    scan.observe(entry(&["b"], EntryKind::Directory));
    assert_eq!(scan.next_directory(), Some(at(&["b"])));
    assert_eq!(scan.next_directory(), Some(at(&["a"])));
    assert_eq!(scan.next_directory(), None);
}

#[test]
fn symbolic_links_are_rejected() {
    let mut scan = DecisionScan::new(at(&[]), 100, 1000, 10);
    scan.observe(entry(&["escape.json"], EntryKind::Symlink));
    assert_eq!(codes(scan), vec!["symlink_not_allowed".to_string()]);
}

#[test]
fn unreadable_entries_and_other_files_are_refused() {
    let mut scan = DecisionScan::new(at(&[]), 100, 1000, 10);
    scan.observe(entry(&["x"], EntryKind::Unreadable));
    scan.observe(entry(&["y"], EntryKind::MetadataUnreadable));
    scan.observe(entry(&["fifo"], EntryKind::Other));
    scan.observe(entry(&["notes.txt"], EntryKind::File { len: 1 }));
    scan.observe(entry(&["json"], EntryKind::File { len: 1 }));
    assert_eq!(
        codes(scan),
        vec![
            "directory_entry_unreadable".to_string(),
            "model_metadata_unreadable".to_string(),
            "unsupported_file_type".to_string(),
            "unsupported_file_type".to_string(),
            "unsupported_file_type".to_string(),
        ]
    );
}

#[test]
fn size_limits_are_enforced() {
    let mut scan = DecisionScan::new(at(&[]), 10, 15, 10);
    scan.observe(entry(&["big.json"], EntryKind::File { len: 11 }));
    scan.observe(entry(&["a.json"], EntryKind::File { len: 10 }));
    scan.observe(entry(&["b.json"], EntryKind::File { len: 6 }));
    assert_eq!(codes(scan), vec!["model_too_large".to_string(), "registry_too_large".to_string()]);
}

#[test]
fn the_byte_total_saturates() {
    let mut scan = DecisionScan::new(at(&[]), u64::MAX, u64::MAX, 10);
    scan.observe(entry(&["a.json"], EntryKind::File { len: u64::MAX - 1 }));
    scan.observe(entry(&["b.json"], EntryKind::File { len: 5 }));
    assert!(scan.finish().is_ok());
}

#[test]
fn the_model_count_is_limited() {
    let mut scan = DecisionScan::new(at(&[]), 10, 100, 2);
    scan.observe(entry(&["a.json"], EntryKind::File { len: 1 }));
    scan.observe(entry(&["b.json"], EntryKind::File { len: 1 }));
    scan.observe(entry(&["c.json"], EntryKind::File { len: 1 }));
    assert_eq!(codes(scan), vec!["too_many_models".to_string()]);
}

#[test]
fn an_unreadable_directory_refuses_the_workspace_alone() {
    let mut scan = DecisionScan::new(at(&[]), 10, 100, 2);
    scan.observe(entry(&["x"], EntryKind::Symlink));
    let e = scan.directory_unreadable();
    assert_eq!(
        e.diagnostics,
        vec![Diagnostic { decision_id: None, code: "decisions_directory_unreadable".to_string() }]
    );
}

#[test]
fn a_gitkeep_file_is_not_a_model_and_is_refused() {
    let mut scan = DecisionScan::new(at(&[]), 100, 1000, 10);
    scan.observe(entry(&[".gitkeep"], EntryKind::File { len: 0 }));
    scan.observe(entry(&["a.json"], EntryKind::File { len: 5 }));
    assert_eq!(codes(scan), vec!["unsupported_file_type".to_string()]);
}
