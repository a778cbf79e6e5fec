use pulp::filesystem::{
    ensure_directory_entry, existing_path_error, finish_plan, next_entry_id, plan_sink_entry, prepare_link_destination,
    restore_plan, source_name, split_unix_nanos, unix_nanos, DirectoryAction, FinishPlan, PendingKind, SinkPlan,
};
use pulp::{
    primary_volume_name, ArchiveEntry, ArchiveError, EntryId, EntryKind, EntryName, EntryOutcome, ExtractionPolicy,
    LinkPolicy, MetadataPolicy, OverwritePolicy, PathState, SpecialFilePolicy,
};

#[test]
fn split_volume_names_resolve_to_the_primary_volume() {
    assert_eq!(primary_volume_name("data.7z.002").as_deref(), Some("data.7z.001"));
    assert_eq!(primary_volume_name("data.z01").as_deref(), Some("data.zip"));
    assert_eq!(primary_volume_name("backup.part2.rar").as_deref(), Some("backup.part1.rar"));
    assert_eq!(primary_volume_name("backup.PART12.RAR").as_deref(), Some("backup.part01.RAR"));
    assert_eq!(primary_volume_name("old.r07").as_deref(), Some("old.rar"));
    assert_eq!(primary_volume_name("disk.0042").as_deref(), Some("disk.0001"));
    assert_eq!(primary_volume_name("notes.txt"), None);
    assert_eq!(primary_volume_name("plain"), None);
}

fn entry(name: &str, kind: EntryKind) -> ArchiveEntry {
    ArchiveEntry::new(EntryId::new(0), EntryName::new(name).expect("valid"), kind)
}

fn preserve() -> ExtractionPolicy {
    ExtractionPolicy { links: LinkPolicy::Preserve, special_files: SpecialFilePolicy::Reject, metadata: MetadataPolicy::RestoreSafe }
}

#[test]
fn sinks_follow_the_overwrite_policy() {
    let file = entry("a.txt", EntryKind::File);
    let policy = ExtractionPolicy::default();
    assert!(matches!(plan_sink_entry(&file, &policy, "out/a.txt", PathState::Missing, OverwritePolicy::Error), Ok(SinkPlan::WriteFile)));
    match plan_sink_entry(&file, &policy, "out/a.txt", PathState::Other, OverwritePolicy::Error) {
        Err(ArchiveError::PolicyViolation(m)) => assert_eq!(m, "destination already exists: out/a.txt"),
        other => panic!("unexpected {other:?}"),
    }
    assert!(matches!(plan_sink_entry(&file, &policy, "out/a.txt", PathState::Other, OverwritePolicy::Skip), Ok(SinkPlan::Skip)));
    assert!(matches!(plan_sink_entry(&file, &policy, "out/a.txt", PathState::Directory, OverwritePolicy::Replace), Err(ArchiveError::PolicyViolation(_))));
    let dir = entry("d", EntryKind::Directory);
    assert!(matches!(plan_sink_entry(&dir, &policy, "out/d", PathState::Directory, OverwritePolicy::Error), Ok(SinkPlan::Directory(DirectoryAction::Keep))));
    assert_eq!(ensure_directory_entry("out/d", PathState::Other, OverwritePolicy::Replace).ok(), Some(DirectoryAction::ReplaceNode));
}

#[test]
fn links_need_the_preserve_policy_and_a_valid_target() {
    let mut link = entry("l", EntryKind::Symlink);
    link.link_target = Some("target/file".to_string());
    match plan_sink_entry(&link, &ExtractionPolicy::default(), "out/l", PathState::Missing, OverwritePolicy::Error) {
        Err(ArchiveError::PolicyViolation(m)) => assert_eq!(m, "symbolic link extraction is disabled: l"),
        other => panic!("unexpected {other:?}"),
    }
    match plan_sink_entry(&link, &preserve(), "out/l", PathState::Other, OverwritePolicy::Replace) {
        Ok(SinkPlan::Link { target, hard, replace }) => {
            assert_eq!(target.as_str(), "target/file");
            assert!(!hard);
            assert!(replace);
        },
        other => panic!("unexpected {other:?}"),
    }
    let mut hard = entry("h", EntryKind::Hardlink);
    hard.link_target = Some("../x".to_string());
    assert!(matches!(plan_sink_entry(&hard, &preserve(), "out/h", PathState::Missing, OverwritePolicy::Error), Err(ArchiveError::PathViolation(_))));
    assert!(matches!(prepare_link_destination("out/h", PathState::Other, OverwritePolicy::Skip), Err(ArchiveError::PolicyViolation(_))));
    let special = entry("dev", EntryKind::Special);
    assert!(matches!(plan_sink_entry(&special, &preserve(), "out/dev", PathState::Missing, OverwritePolicy::Error), Err(ArchiveError::PolicyViolation(_))));
}

#[test]
fn finishing_publishes_or_cleans_up() {
    let written = EntryOutcome::Written { bytes: 1 };
    assert_eq!(finish_plan(written, PendingKind::File, OverwritePolicy::Error, true), FinishPlan::RefuseExisting);
    assert_eq!(finish_plan(written, PendingKind::File, OverwritePolicy::Replace, true), FinishPlan::Publish);
    assert_eq!(finish_plan(written, PendingKind::Directory, OverwritePolicy::Error, false), FinishPlan::DirectoryMetadata);
    assert_eq!(finish_plan(EntryOutcome::Failed, PendingKind::File, OverwritePolicy::Error, false), FinishPlan::Cleanup);
    let mut file = entry("a", EntryKind::File);
    file.posix_attributes = Some(0o104755);
    file.modified = Some(5);
    assert_eq!(restore_plan(&file, &preserve(), true), (Some(0o4755), Some(5)));
    assert_eq!(restore_plan(&file, &ExtractionPolicy::default(), true).1, if ExtractionPolicy::default().metadata == MetadataPolicy::RestoreSafe { Some(5) } else { None });
    assert!(matches!(existing_path_error("x"), ArchiveError::PolicyViolation(m) if m == "destination already exists: x"));
}

#[test]
fn source_names_and_identifiers() {
    assert_eq!(source_name(Some("photos")), "photos");
    assert_eq!(source_name(Some("..")), "content");
    assert_eq!(source_name(None), "content");
    let mut next = 5;
    assert_eq!(next_entry_id(&mut next).ok(), Some(EntryId::new(5)));
    assert_eq!(next, 6);
    let mut last = u64::MAX;
    assert!(matches!(next_entry_id(&mut last), Err(ArchiveError::ResourceLimit { .. })));
    assert_eq!(last, u64::MAX);
}

#[test]
fn metadata_is_restored_only_when_asked() {
    let mut file = entry("a", EntryKind::File);
    file.posix_attributes = Some(0o100644);
    file.modified = Some(1_700_000_000_000_000_000);
    assert_eq!(restore_plan(&file, &preserve(), false), (None, None));
    assert_eq!(restore_plan(&file, &preserve(), true), (Some(0o644), Some(1_700_000_000_000_000_000)));
    let skip = ExtractionPolicy { metadata: MetadataPolicy::Ignore, ..preserve() };
    assert_eq!(restore_plan(&file, &skip, true), (None, None));
}

#[test]
fn unix_nanoseconds_split_into_seconds_and_a_positive_rest() {
    assert_eq!(split_unix_nanos(1_500_000_000), (1, 500_000_000));
    assert_eq!(split_unix_nanos(-1), (-1, 999_999_999));
    assert_eq!(split_unix_nanos(-2_000_000_000), (-2, 0));
    assert_eq!(split_unix_nanos(0), (0, 0));
}

#[test]
fn distances_from_the_epoch_clamp_to_the_signed_range() {
    assert_eq!(unix_nanos(true, 42), 42);
    assert_eq!(unix_nanos(false, 42), -42);
    assert_eq!(unix_nanos(true, u128::MAX), i64::MAX);
    assert_eq!(unix_nanos(false, u128::MAX), -i64::MAX);
}
