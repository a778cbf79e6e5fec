use pulp::{
    plan_smart_destination, plan_smart_destination_with_policy, ArchiveEntry, ArchiveError, CollisionPolicy, EntryId,
    EntryKind, EntryName,
};

fn file(name: &str) -> ArchiveEntry {
    ArchiveEntry::file(EntryId::new(1), EntryName::new(name).expect("valid test name"), Some(4))
}

fn directory(name: &str) -> ArchiveEntry {
    ArchiveEntry::new(EntryId::new(1), EntryName::new(name).expect("valid test name"), EntryKind::Directory)
}

fn none() -> Vec<String> {
    Vec::new()
}

#[test]
fn one_file_is_extracted_into_the_current_directory() {
    let plan = plan_smart_destination("report", &[file("report.txt")], &none()).expect("plan should succeed");
    assert_eq!(plan.destination_name, "");
    assert_eq!(plan.entries[0].destination_name.as_str(), "report.txt");
}

#[test]
fn one_top_level_directory_is_preserved() {
    let entries = vec![directory("project"), file("project/src/main.rs")];
    let plan = plan_smart_destination("archive", &entries, &none()).expect("plan should succeed");
    assert_eq!(plan.destination_name, "");
    assert_eq!(plan.entries[1].destination_name.as_str(), "project/src/main.rs");
}

#[test]
fn multiple_top_level_entries_use_archive_stem() {
    let entries = vec![file("a.txt"), file("b.txt")];
    let plan = plan_smart_destination("archive", &entries, &none()).expect("plan should succeed");
    assert_eq!(plan.destination_name, "archive");
    assert_eq!(plan.entries[1].destination_name.as_str(), "archive/b.txt");
}

#[test]
fn existing_stem_gets_a_numbered_suffix() {
    let existing = vec![String::from("archive"), String::from("archive (2)")];
    let plan = plan_smart_destination("archive", &[file("a.txt"), file("b.txt")], &existing).expect("plan should succeed");
    assert_eq!(plan.destination_name, "archive (3)");
}

#[test]
fn duplicate_entries_are_rejected_before_execution() {
    let entries = vec![file("same"), file("same")];
    let error = plan_smart_destination("archive", &entries, &none()).expect_err("duplicates must be rejected");
    assert!(matches!(error, ArchiveError::PolicyViolation(_)));
}

#[test]
fn invalid_stem_does_not_become_a_filesystem_path() {
    let error = plan_smart_destination("../outside", &[file("a")], &none()).expect_err("path-like stems must be rejected");
    assert!(matches!(error, ArchiveError::InvalidInput(_)));
}

#[test]
fn auto_rename_never_lands_on_an_existing_name() {
    let existing = vec![String::from("bundle"), String::from("bundle (2)"), String::from("bundle (4)")];
    let plan = plan_smart_destination_with_policy("bundle", &[file("a"), file("b")], &existing, CollisionPolicy::AutoRename)
        .expect("plan should succeed");
    assert!(!existing.contains(&plan.destination_name));
    assert_eq!(plan.destination_name, "bundle (3)");
}

#[test]
fn single_file_plan_counts_files_and_declared_bytes() {
    let plan = plan_smart_destination("report", &[file("report.txt")], &none()).expect("plan should succeed");
    assert_eq!(plan.file_count(), 1);
    assert_eq!(plan.declared_bytes(), 4);
}
