use pulp::desktop::archive::LoadedArchive;
use pulp::desktop::browser::{
    ancestors_expanded, child_name, completed_message_key, count_text, folder_rows, is_cancellation, level_names,
    toggle_folder, visible_rows, JobProgress, Selection,
};
use pulp::desktop::i18n::MessageKey;
use pulp::{ArchiveEntry, EntryId, EntryKind, EntryName, OperationKind, OperationReport, ProgressEvent};

fn entry(id: u64, name: &str, kind: EntryKind) -> ArchiveEntry {
    ArchiveEntry::new(EntryId::new(id), EntryName::parse(name).expect("valid name"), kind)
}

fn archive() -> LoadedArchive {
    LoadedArchive {
        path: "sample.zip".to_string(),
        entries: vec![
            entry(0, "b.txt", EntryKind::File),
            entry(1, "docs/readme.md", EntryKind::File),
            entry(2, "Apps", EntryKind::Directory),
            entry(3, "a.txt", EntryKind::File),
            entry(4, "docs/api/index.html", EntryKind::File),
            entry(5, "B.txt", EntryKind::File),
            entry(6, "a.txt", EntryKind::File),
        ],
    }
}

fn names(v: &[String]) -> Vec<&str> {
    v.iter().map(String::as_str).collect()
}

#[test]
fn children_of_a_folder() {
    assert_eq!(child_name("", "docs/api/index.html").as_deref(), Some("docs"));
    assert_eq!(child_name("docs", "docs/api/index.html").as_deref(), Some("docs/api"));
    assert_eq!(child_name("docs", "docs"), None);
    assert_eq!(child_name("docs", "documents/x"), None);
    let mut level = level_names(&archive().entries, "");
    level.sort();
    assert_eq!(names(&level), vec!["Apps", "B.txt", "a.txt", "b.txt", "docs"]);
}

#[test]
fn visible_rows_list_folders_first_then_files_by_name() {
    let rows = visible_rows(&archive(), "");
    let shown: Vec<(&str, EntryKind, u64)> =
        rows.iter().map(|row| (row.name.as_str(), row.entry.kind, row.entry.id.get())).collect();
    assert_eq!(
        shown,
        vec![
            ("Apps", EntryKind::Directory, u64::MAX),
            ("docs", EntryKind::Directory, u64::MAX),
            ("a.txt", EntryKind::File, 3),
            ("a.txt", EntryKind::File, 6),
            ("B.txt", EntryKind::File, 5),
            ("b.txt", EntryKind::File, 0),
        ]
    );
    assert_eq!(rows[1].entry.name.as_str(), "docs");
    let inner = visible_rows(&archive(), "docs");
    let shown: Vec<&str> = inner.iter().map(|row| row.name.as_str()).collect();
    assert_eq!(shown, vec!["api", "readme.md"]);
    assert_eq!(inner[0].entry.name.as_str(), "docs/api");
}

#[test]
fn the_tree_shows_folders_below_expanded_ones() {
    let collapsed = folder_rows(&archive(), &Vec::new());
    let shown: Vec<(&str, &str, usize, bool)> =
        collapsed.iter().map(|row| (row.prefix.as_str(), row.label.as_str(), row.depth, row.expanded)).collect();
    assert_eq!(shown, vec![("Apps", "Apps", 0, false), ("docs", "docs", 0, false)]);
    let open = folder_rows(&archive(), &vec!["docs".to_string()]);
    let shown: Vec<(&str, &str, usize, bool)> =
        open.iter().map(|row| (row.prefix.as_str(), row.label.as_str(), row.depth, row.expanded)).collect();
    assert_eq!(
        shown,
        vec![("Apps", "Apps", 0, false), ("docs", "docs", 0, true), ("docs/api", "api", 1, false)]
    );
    assert!(ancestors_expanded("docs/api", &vec!["docs".to_string()]));
    assert!(!ancestors_expanded("docs/api/v1", &vec!["docs".to_string()]));
    assert!(ancestors_expanded("top", &Vec::new()));
}

#[test]
fn selection_follows_clicks_ranges_and_select_all() {
    let visible = vec!["a".to_string(), "b".to_string(), "c".to_string(), "d".to_string()];
    let mut selection = Selection::new();
    selection.begin("b", &visible, false, false);
    assert_eq!(names(&selection.selected), vec!["b"]);
    selection.begin("d", &visible, true, false);
    let mut picked = selection.selected.clone();
    picked.sort();
    assert_eq!(names(&picked), vec!["b", "c", "d"]);
    assert_eq!(selection.anchor.as_deref(), Some("b"));
    selection.begin("c", &visible, false, true);
    let mut picked = selection.selected.clone();
    picked.sort();
    assert_eq!(names(&picked), vec!["b", "d"]);
    selection.end();
    selection.extend("a", &visible);
    let mut picked = selection.selected.clone();
    picked.sort();
    assert_eq!(names(&picked), vec!["b", "d"]);
    assert!(!selection.dragging);

    selection.select_all(&visible);
    let mut picked = selection.selected.clone();
    picked.sort();
    picked.dedup();
    assert_eq!(names(&picked), vec!["a", "b", "c", "d"]);
    selection.select_all(&visible);
    assert!(selection.selected.is_empty());
    selection.clear();
    assert!(selection.anchor.is_none());
}

#[test]
fn folders_toggle_but_the_root_stays() {
    let mut expanded = Vec::new();
    toggle_folder(&mut expanded, "docs");
    assert_eq!(names(&expanded), vec!["docs"]);
    toggle_folder(&mut expanded, "docs");
    assert!(expanded.is_empty());
    toggle_folder(&mut expanded, "");
    assert!(expanded.is_empty());
}

#[test]
fn progress_events_update_the_status() {
    let mut progress = JobProgress { kind: OperationKind::List, processed: 7, total: Some(9), current: None };
    assert!(progress.apply(ProgressEvent::Started { operation: OperationKind::Extract, total_bytes: None }).is_none());
    assert_eq!((progress.kind, progress.processed, progress.total), (OperationKind::Extract, 0, None));
    progress.apply(ProgressEvent::Bytes { delta: 5, processed: 5, total: Some(10) });
    progress.apply(ProgressEvent::Bytes { delta: 1, processed: 6, total: None });
    assert_eq!((progress.processed, progress.total), (6, Some(10)));
    progress.apply(ProgressEvent::EntryStarted {
        id: EntryId::new(1),
        name: EntryName::parse("docs/readme.md").expect("valid name"),
        size: None,
    });
    assert_eq!(progress.current.as_deref(), Some("docs/readme.md"));
    assert_eq!(progress.apply(ProgressEvent::Warning("careful".to_string())).as_deref(), Some("careful"));
    let mut report = OperationReport::new(OperationKind::Extract);
    report.bytes_read = 3;
    report.bytes_written = 11;
    progress.apply(ProgressEvent::Finished(report));
    assert_eq!(progress.processed, 11);
}

#[test]
fn completion_messages_and_counts() {
    assert_eq!(completed_message_key(OperationKind::Update), MessageKey::CreationCompleted);
    assert_eq!(completed_message_key(OperationKind::Detect), MessageKey::ArchiveOpened);
    assert!(is_cancellation(false, "operation cancelled"));
    assert!(is_cancellation(true, "disk full"));
    assert!(!is_cancellation(false, "disk full"));
    assert_eq!(count_text(12, "objects"), "12 objects");
}
