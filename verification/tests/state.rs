use pulp::desktop::archive::LoadedArchive;
use pulp::desktop::i18n::{I18n, Locale};
use pulp::desktop::settings::SettingsFile;
use pulp::desktop::state::{JobOutcome, WorkspaceState};
use pulp::{ArchiveEntry, EntryId, EntryKind, EntryName, OperationKind, OperationReport, ProgressEvent};

fn i18n() -> I18n {
    let english = "ready: Ready\nopening_archive: Opening archive\nwarning: Warning\nerror: Error\n\
archive_opened: Archive opened\nobjects: objects\noperation_cancelled: Operation cancelled\n\
extraction_completed: Extraction completed\n";
    I18n::from_sources(Locale::En, english, english).expect("valid catalog")
}

fn archive() -> LoadedArchive {
    let entry = |id: u64, name: &str| {
        ArchiveEntry::new(EntryId::new(id), EntryName::parse(name).expect("valid"), EntryKind::File)
    };
    LoadedArchive { path: "a.zip".to_string(), entries: vec![entry(0, "a.txt"), entry(1, "docs/b.txt")] }
}

#[test]
fn an_opened_archive_is_shown_from_its_root() {
    let text = i18n();
    let mut state = WorkspaceState::new(&text);
    assert_eq!(state.status, "Ready");
    state.start_job(OperationKind::List, &text);
    assert!(state.is_busy());
    assert_eq!(state.status, "Opening archive");
    state.apply_progress(ProgressEvent::Warning("slow disk".to_string()), &text);
    assert_eq!(state.status, "Warning: slow disk");
    state.navigate_to("docs".to_string());
    state.toggle_folder("docs");
    state.finish_job(JobOutcome::Archive(archive()), false, &text);
    assert!(!state.is_busy());
    assert_eq!(state.status, "Archive opened \u{b7} 2 objects");
    assert_eq!(state.current_prefix, "");
    assert!(state.expanded.is_empty());
    assert_eq!(state.archive.as_ref().map(|a| a.entries.len()), Some(2));
}

#[test]
fn closing_waits_for_the_running_job() {
    let text = i18n();
    let mut state = WorkspaceState::new(&text);
    state.finish_job(JobOutcome::Archive(archive()), false, &text);
    state.start_job(OperationKind::Extract, &text);
    state.close_archive(&text);
    assert!(state.archive.is_some());
    let mut report = OperationReport::new(OperationKind::Extract);
    report.entries_completed = 5;
    state.finish_job(JobOutcome::Report(report), false, &text);
    assert_eq!(state.status, "Extraction completed \u{b7} 5 objects");
    state.close_archive(&text);
    assert!(state.archive.is_none());
    assert_eq!(state.status, "Ready");
}

#[test]
fn failures_and_cancellations_reach_the_status_line() {
    let text = i18n();
    let mut state = WorkspaceState::new(&text);
    state.start_job(OperationKind::Extract, &text);
    state.finish_job(JobOutcome::Failed("disk full".to_string()), false, &text);
    assert_eq!(state.status, "Error: disk full");
    state.start_job(OperationKind::Extract, &text);
    state.finish_job(JobOutcome::Failed("disk full".to_string()), true, &text);
    assert_eq!(state.status, "Operation cancelled");
    state.start_job(OperationKind::Test, &text);
    state.finish_job(JobOutcome::Failed("operation cancelled".to_string()), false, &text);
    assert_eq!(state.status, "Operation cancelled");
    state.open_settings();
    assert!(state.settings_open);
    state.close_settings(&text);
    assert!(!state.settings_open);
    assert_eq!(state.status, "Ready");
}

#[test]
fn select_all_takes_the_folder_on_display() {
    let text = i18n();
    let mut state = WorkspaceState::new(&text);
    state.select_all();
    assert!(state.selection.selected.is_empty());
    state.finish_job(JobOutcome::Archive(archive()), false, &text);
    state.select_all();
    let mut selected = state.selection.selected.clone();
    selected.sort();
    assert_eq!(selected, vec!["a.txt".to_string(), "docs".to_string()]);
    state.select_all();
    assert!(state.selection.selected.is_empty());
    state.navigate_to("docs".to_string());
    state.select_all();
    assert_eq!(state.selection.selected, vec!["docs/b.txt".to_string()]);
}

#[test]
fn a_refused_settings_edit_keeps_the_previous_settings() {
    let english = "error: Error\nsettings_saved: Settings saved\nready: Ready\n";
    let text = I18n::from_sources(Locale::En, english, english).expect("valid catalog");
    let mut state = WorkspaceState::new(&text);
    let previous = SettingsFile::default();
    let mut edited = SettingsFile::default();
    edited.archive.compression_level = 12;
    let kept = state.settings_after_edit(&text, previous, edited, Some("invalid settings value: level".to_string()));
    assert_eq!(kept.archive.compression_level, SettingsFile::default().archive.compression_level);
    assert_eq!(state.status, "Error: invalid settings value: level");
    let mut edited = SettingsFile::default();
    edited.archive.compression_level = 3;
    let kept = state.settings_after_edit(&text, SettingsFile::default(), edited, None);
    assert_eq!(kept.archive.compression_level, 3);
    assert_eq!(state.status, "Settings saved");
}
