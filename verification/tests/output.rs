use pulp::output::{
    capability_text, created_line, detection_answer, entries_line, entry_line, extracted_line, format_line,
    method_line, provider_header, verified_line,
};
use pulp::{
    ArchiveEntry, ArchiveError, ArchiveFormatId, CompressionMethod, DetectionCandidate, DetectionMethod,
    DetectionResult, EntryId, EntryKind, EntryName, FormatCapability, FormatDescriptor,
};

fn descriptor(id: &str) -> FormatDescriptor {
    FormatDescriptor::new(
        ArchiveFormatId::new(id),
        id,
        vec![id.to_string(), "alt".to_string()],
        vec![FormatCapability::List, FormatCapability::Extract, FormatCapability::HeaderEncryption],
    )
}

#[test]
fn capabilities_print_by_their_names() {
    for capability in [
        FormatCapability::List,
        FormatCapability::Extract,
        FormatCapability::Test,
        FormatCapability::Create,
        FormatCapability::Update,
        FormatCapability::Password,
        FormatCapability::HeaderEncryption,
        FormatCapability::Solid,
        FormatCapability::MultiVolume,
        FormatCapability::StreamingInput,
        FormatCapability::StreamingOutput,
        FormatCapability::SeekableInput,
        FormatCapability::SeekableOutput,
        FormatCapability::Transparent,
    ] {
        assert_eq!(capability_text(capability), format!("{capability:?}"));
    }
}

#[test]
fn handler_and_method_tables() {
    assert_eq!(provider_header(42), "Format7zF: embedded static provider (42 formats)");
    assert_eq!(format_line(&descriptor("7z")), "7z\t7z\t[7z,alt]\tList,Extract,HeaderEncryption");
    let mut method = CompressionMethod::new("030101", "LZMA");
    method.can_decode = false;
    assert_eq!(method_line(&method), "030101\tdecode=false encode=true\tLZMA");
}

#[test]
fn listed_entries_show_kind_size_and_name() {
    let mut file = ArchiveEntry::new(EntryId::new(1), EntryName::parse("docs/a.txt").expect("valid"), EntryKind::File);
    file.size = Some(12);
    assert_eq!(entry_line(&file), "File\t12\tdocs/a.txt");
    let directory = ArchiveEntry::new(EntryId::new(2), EntryName::parse("docs").expect("valid"), EntryKind::Directory);
    assert_eq!(entry_line(&directory), format!("{:?}\t-\tdocs", EntryKind::Directory));
    assert_eq!(entries_line(2), "2 entries");
}

#[test]
fn detection_answers_one_handler_or_refuses() {
    let candidate = |id: &str| DetectionCandidate { descriptor: descriptor(id), method: DetectionMethod::Provider };
    assert_eq!(detection_answer(DetectionResult::Detected(Box::new(candidate("zip"))), "a.zip").expect("one"), "zip");
    match detection_answer(DetectionResult::Ambiguous(vec![candidate("tar"), candidate("zip")]), "a.bin") {
        Err(ArchiveError::InvalidInput(message)) => assert_eq!(message, "archive format is ambiguous: tar, zip"),
        other => panic!("unexpected {other:?}"),
    }
    match detection_answer(DetectionResult::Unknown, "a.bin") {
        Err(ArchiveError::UnsupportedFormat(message)) => assert_eq!(message, "could not detect archive format for a.bin"),
        other => panic!("unexpected {other:?}"),
    }
}

#[test]
fn finished_operations_are_summarised() {
    assert_eq!(verified_line("a.7z", Some(&ArchiveFormatId::new("7z"))), "verified: a.7z (7z)");
    assert_eq!(verified_line("a.7z", None), "verified: a.7z (unknown)");
    assert_eq!(extracted_line("a.7z", "out/a"), "extracted: a.7z -> out/a");
    assert_eq!(created_line("b.zip", &ArchiveFormatId::new("zip"), 1024), "created: b.zip (zip, 1024 bytes)");
}
