use std::sync::{Arc, Mutex};

use pulp::native::callbacks::{
    check_extract_write, check_source_read, progress_due, entry_from_native, fill_source_info, finish_outcome, native_operation_error,
    password_reason, CallbackCommon, ExtractState, ListState, SourceState,
};
use pulp::native::decoder::{
    detected_format, detection_ids, inner_format, native_call_outcome, probe_opened, remaining_indices,
    selected_indices, stream_copy_outcome, transparent_content, untested_indices, LayerEntries, NativeCall,
    SingleEntrySink,
};
use pulp::native::encoder::{admit_source_entry, check_create_options, finish_update_report, native_update_options};
use pulp::native::ffi::{self, NativeEntryInfo};
use pulp::native::loader::{error_message, native_status_error};
use pulp::native::streams::{keep_first, seek_target, transfer_count, SeekTarget};
use pulp::native::metadata::{
    build_formats, build_methods, guid_id, license_for_name, signature_list, split_extensions, unique_id, OwnedFormat,
    OwnedMethod,
};
use pulp::{
    ArchiveEntry, ArchiveError, ArchiveFormatId, CancellationToken, CompressionMethod, CreateOptions, DetectionCandidate,
    DetectionMethod, DetectionResult, EntryId, EntryKind, EntryName, EntryOutcome, ExtractOptions, FormatCapability,
    FormatDescriptor, MetadataOnlySink, OperationContext, OperationKind, OperationReport, Password, PasswordReason, ProgressEvent,
    ResourceLimitKind, ResourceLimits, EntrySource, ProgressReporter, PasswordProvider, VolumeProvider,
};

#[test]
fn repeated_native_password_callbacks_reuse_the_same_password() {
    assert_eq!(password_reason(0), PasswordReason::Header);
    assert_eq!(password_reason(1), PasswordReason::Data);
    assert_eq!(password_reason(1), password_reason(1));
}

#[test]
fn progress_reports_cumulative_thresholds_and_completion() {
    let events = Arc::new(Mutex::new(Vec::new()));
    let recorded = Arc::clone(&events);
    let context = OperationContext::new().with_progress(move |event| {
        recorded.lock().expect("progress mutex").push(event);
    });
    let mut common = CallbackCommon::new(&context, OperationKind::Extract);

    assert_eq!(common.progress(2 * 1024 * 1024, 0, 1), ffi::PULP7Z_OK);
    common.last_progress_at = Some(std::time::Instant::now());
    assert_eq!(common.progress(2 * 1024 * 1024, 512 * 1024, 1), ffi::PULP7Z_OK);
    assert_eq!(common.progress(2 * 1024 * 1024, 1024 * 1024, 1), ffi::PULP7Z_OK);
    common.last_progress_at = Some(std::time::Instant::now());
    assert_eq!(common.progress(2 * 1024 * 1024, 1536 * 1024, 1), ffi::PULP7Z_OK);
    assert_eq!(common.progress(2 * 1024 * 1024, 2 * 1024 * 1024, 1), ffi::PULP7Z_OK);

    let events = events.lock().expect("progress mutex");
    let bytes = events
        .iter()
        .filter_map(|event| match event {
            ProgressEvent::Bytes { delta, processed, .. } => Some((*delta, *processed)),
            _ => None,
        })
        .collect::<Vec<_>>();
    assert_eq!(bytes, [(0, 0), (1024 * 1024, 1024 * 1024), (1024 * 1024, 2 * 1024 * 1024)]);
}

#[test]
fn progress_checks_cancellation_before_coalescing() {
    let cancellation = CancellationToken::new();
    cancellation.cancel();
    let context = OperationContext::new().with_cancellation(cancellation);
    let mut common = CallbackCommon::new(&context, OperationKind::Extract);

    assert_eq!(common.progress(10 * 1024 * 1024, 1, 1), ffi::PULP7Z_CALLBACK_ERROR);
    assert!(common.error.is_some());
}

#[test]
fn native_stream_totals_are_not_exposed_as_operation_progress() {
    let events = Arc::new(Mutex::new(Vec::new()));
    let recorded = Arc::clone(&events);
    let context = OperationContext::new().with_progress(move |event| {
        recorded.lock().expect("progress mutex").push(event);
    });
    let mut common = CallbackCommon::new(&context, OperationKind::Extract);

    common.progress(4 * 1024 * 1024, 0, 1);
    common.last_progress_at = Some(std::time::Instant::now());
    common.progress(4 * 1024 * 1024, 4 * 1024 * 1024, 1);
    common.last_progress_at = Some(std::time::Instant::now());
    common.progress(2 * 1024 * 1024, 2 * 1024 * 1024, 1);

    let bytes = events
        .lock()
        .expect("progress mutex")
        .iter()
        .filter_map(|event| match event {
            ProgressEvent::Bytes { processed, total, .. } => Some((*processed, *total)),
            _ => None,
        })
        .collect::<Vec<_>>();
    assert_eq!(bytes, [(0, None), (4 * 1024 * 1024, None), (4 * 1024 * 1024, None)]);
}

#[test]
fn progress_reports_again_after_the_interval() {
    let events = Arc::new(Mutex::new(Vec::new()));
    let recorded = Arc::clone(&events);
    let context = OperationContext::new().with_progress(move |event| {
        recorded.lock().expect("progress mutex").push(event);
    });
    let mut common = CallbackCommon::new(&context, OperationKind::Extract);
    common.progress(0, 0, 1);
    common.last_progress_at = Some(std::time::Instant::now() - std::time::Duration::from_millis(80));
    common.progress(0, 10, 1);
    assert_eq!(events.lock().expect("progress mutex").len(), 2);
    assert_eq!(common.progress_processed, 10);
}

fn transparent_descriptor() -> FormatDescriptor {
    FormatDescriptor::new(
        ArchiveFormatId::new("wrapper"),
        "wrapper",
        vec!["wrap".to_string()],
        vec![FormatCapability::List, FormatCapability::Extract, FormatCapability::Transparent],
    )
}

fn entry(name: &str, kind: EntryKind) -> ArchiveEntry {
    ArchiveEntry::new(EntryId::new(0), EntryName::parse(name).expect("test entry name should be valid"), kind)
}

#[test]
fn transparent_layers_accept_named_single_streams() {
    let descriptor = transparent_descriptor();
    let entries = [entry("payload.tar", EntryKind::File)];
    assert_eq!(transparent_content(Some(&descriptor), &entries).map(|value| value.name.as_str()), Some("payload.tar"));
}

#[test]
fn transparent_layers_reject_directories_and_multiple_entries() {
    let descriptor = transparent_descriptor();
    let directory = [entry("payload", EntryKind::Directory)];
    let multiple = [entry("first", EntryKind::File), entry("second", EntryKind::File)];
    assert!(transparent_content(Some(&descriptor), &directory).is_none());
    assert!(transparent_content(Some(&descriptor), &multiple).is_none());
}

fn info(path: &[u8]) -> NativeEntryInfo {
    let mut info = NativeEntryInfo::empty(7);
    info.path = path.to_vec();
    info
}

#[test]
fn native_items_become_entries_with_their_metadata() {
    let mut item = info(b"dir\\file.txt");
    item.has_size = 1;
    item.size = 12;
    item.has_crc = 1;
    item.crc = 0x0403_0201;
    item.method = b"LZMA2".to_vec();
    let entry = entry_from_native(&item).expect("valid item");
    assert_eq!(entry.id, EntryId::new(7));
    assert_eq!(entry.name.as_str(), "dir/file.txt");
    assert_eq!(entry.kind, EntryKind::File);
    assert_eq!(entry.size, Some(12));
    let checksum = entry.checksum.expect("crc present");
    assert_eq!(checksum.algorithm, "CRC32");
    assert_eq!(checksum.value, vec![1, 2, 3, 4]);
    assert_eq!(entry.method.as_deref(), Some("LZMA2"));
}

#[test]
fn native_links_and_bad_names() {
    let mut hard = info(b"link");
    hard.link_kind = 2;
    hard.link_target = b"target".to_vec();
    assert_eq!(entry_from_native(&hard).expect("valid").kind, EntryKind::Hardlink);
    let mut soft = info(b"link");
    soft.link_target = b"target".to_vec();
    assert_eq!(entry_from_native(&soft).expect("valid").kind, EntryKind::Symlink);
    let bad = info(b"../escape");
    assert!(matches!(entry_from_native(&bad), Err(ArchiveError::PathViolation(_))));
    let lossy = info(b"caf\xe9");
    assert_eq!(entry_from_native(&lossy).expect("valid").name.as_str(), "caf\u{fffd}");
}

#[test]
fn source_items_describe_files_and_refuse_links() {
    let mut file = entry("docs/a.txt", EntryKind::File);
    file.size = Some(3);
    file.attributes = Some(u64::MAX);
    let described = fill_source_info(&file, 4).expect("files are accepted");
    assert_eq!(described.index, 4);
    assert_eq!(described.path, b"docs/a.txt".to_vec());
    assert_eq!((described.has_size, described.size), (1, 3));
    assert_eq!((described.has_attrib, described.attrib), (1, u32::MAX));
    let link = entry("l", EntryKind::Symlink);
    assert!(matches!(fill_source_info(&link, 0), Err(ArchiveError::InvalidInput(_))));
}

#[test]
fn native_results_map_to_errors() {
    assert!(matches!(native_operation_error(9), ArchiveError::WrongPassword));
    match native_operation_error(3) {
        ArchiveError::DataError(m) => assert_eq!(m, "native extraction result 3"),
        other => panic!("unexpected {other:?}"),
    }
    assert!(matches!(native_operation_error(4), ArchiveError::Native { status: 4, .. }));
    assert!(matches!(
        native_operation_error(1),
        ArchiveError::UnsupportedOperation { operation: OperationKind::Extract, format: None }
    ));
}

#[test]
fn extraction_writes_are_bounded() {
    let limits = ResourceLimits { max_entry_bytes: 10, max_total_bytes: 15, ..ResourceLimits::default() };
    let mut declared = entry("a", EntryKind::File);
    declared.size = Some(5);
    assert!(check_extract_write(&declared, 0, 5, 0, &limits).is_ok());
    assert!(matches!(check_extract_write(&declared, 3, 3, 0, &limits), Err(ArchiveError::DataError(_))));
    let open = entry("b", EntryKind::File);
    assert!(matches!(
        check_extract_write(&open, 8, 3, 0, &limits),
        Err(ArchiveError::ResourceLimit { kind: ResourceLimitKind::EntryBytes, .. })
    ));
    assert!(matches!(
        check_extract_write(&open, 0, 6, 10, &limits),
        Err(ArchiveError::ResourceLimit { kind: ResourceLimitKind::TotalBytes, .. })
    ));
}

#[test]
fn source_reads_are_bounded() {
    let limits = ResourceLimits { max_entry_bytes: 10, max_total_bytes: 12, ..ResourceLimits::default() };
    let mut declared = entry("a", EntryKind::File);
    declared.size = Some(4);
    assert_eq!(check_source_read(&declared, 1, 3, 0, &limits).ok(), Some((4, 3)));
    assert!(matches!(check_source_read(&declared, 2, 3, 0, &limits), Err(ArchiveError::InvalidInput(_))));
    let open = entry("b", EntryKind::File);
    assert!(matches!(
        check_source_read(&open, 0, 11, 0, &limits),
        Err(ArchiveError::ResourceLimit { kind: ResourceLimitKind::EntryBytes, .. })
    ));
    assert!(matches!(
        check_source_read(&open, 0, 5, 10, &limits),
        Err(ArchiveError::ResourceLimit { kind: ResourceLimitKind::TotalBytes, .. })
    ));
}

#[test]
fn finished_entries_report_their_outcome() {
    assert_eq!(finish_outcome(0, 2, 9), EntryOutcome::Written { bytes: 9 });
    assert_eq!(finish_outcome(0, 1, 9), EntryOutcome::Skipped);
    assert_eq!(finish_outcome(2, 2, 9), EntryOutcome::Failed);
}

#[test]
fn accepted_entries_count_against_the_limits() {
    let context = OperationContext::new().with_limits(ResourceLimits {
        max_entries: 1,
        max_total_bytes: 10,
        ..ResourceLimits::default()
    });
    let mut common = CallbackCommon::new(&context, OperationKind::List);
    let mut big = entry("big", EntryKind::File);
    big.size = Some(11);
    match common.accept_entry(&big) {
        Err(ArchiveError::ResourceLimit { kind: ResourceLimitKind::TotalBytes, message }) => {
            assert_eq!(message, "entries declare 11 bytes, maximum is 10")
        },
        other => panic!("unexpected {other:?}"),
    }
    let mut small = entry("small", EntryKind::File);
    small.size = Some(4);
    assert!(common.accept_entry(&small).is_ok());
    assert_eq!(common.declared_bytes, 4);
}

#[test]
fn listing_counts_visited_entries() {
    let context = OperationContext::new();
    let mut state = ListState::new(&context);
    let mut visitor = LayerEntries::default();
    assert_eq!(state.visit_entry(&mut visitor, &info(b"a.txt")), ffi::PULP7Z_OK);
    assert_eq!(state.visit_entry(&mut visitor, &info(b"/abs")), ffi::PULP7Z_CALLBACK_ERROR);
    assert_eq!(visitor.entries.len(), 1);
    let error = state.finish().expect_err("the bad name is kept");
    assert!(matches!(error, ArchiveError::PathViolation(_)));
}

#[test]
fn extraction_state_tracks_the_current_entry() {
    let context = OperationContext::new();
    let mut state: ExtractState<'_, ()> = ExtractState::new(&context, false);
    let mut sink = MetadataOnlySink;
    assert_eq!(state.begin_entry(&mut sink, &info(b"a.txt"), 0), (ffi::PULP7Z_OK, 1));
    assert_eq!(state.finish_entry(&mut sink, 0, 0), ffi::PULP7Z_OK);
    assert_eq!(state.finish_entry(&mut sink, 0, 0), ffi::PULP7Z_CALLBACK_ERROR);
    let report = state.finish();
    assert!(matches!(report, Err(ArchiveError::Internal(_))));
}

#[test]
fn single_entry_sink_writes_only_its_entry() {
    let context = OperationContext::new();
    let mut state: ExtractState<'_, Vec<u8>> = ExtractState::new(&context, false);
    let mut sink = SingleEntrySink::new(7, Vec::new());
    assert_eq!(state.begin_entry(&mut sink, &info(b"payload"), 0), (ffi::PULP7Z_OK, 2));
    assert_eq!(state.check_write(4), ffi::PULP7Z_OK);
    assert_eq!(state.record_write(4, 4), ffi::PULP7Z_OK);
    assert_eq!(state.finish_entry(&mut sink, 0, 4), ffi::PULP7Z_OK);
    assert!(sink.completed);
    assert_eq!(state.finish().expect("no error").bytes_written, 4);
}

#[test]
fn source_state_offers_indexed_entries() {
    let context = OperationContext::new();
    let entries = vec![entry("a", EntryKind::File)];
    let mut state: SourceState<'_, ()> =
        SourceState::new(entries, &context, OperationKind::Create, Some(Password::new("pw".to_string())));
    let (status, described) = state.entry_info(0);
    assert_eq!(status, ffi::PULP7Z_OK);
    assert_eq!(described.expect("described").path, b"a".to_vec());
    assert_eq!(state.entry_info(3).0, ffi::PULP7Z_CALLBACK_ERROR);
    let (status, secret) = state.password(0, 1, 1);
    assert_eq!(status, ffi::PULP7Z_CALLBACK_ERROR);
    assert!(secret.is_none());
}

#[test]
fn selected_indices_are_sorted_without_repeats() {
    let options = ExtractOptions { selected: Some(vec![EntryId::new(5), EntryId::new(1), EntryId::new(5)]), ..ExtractOptions::default() };
    assert_eq!(selected_indices(&options).expect("fits"), vec![1, 5]);
    let wide = ExtractOptions { selected: Some(vec![EntryId::new(u64::MAX)]), ..ExtractOptions::default() };
    assert!(matches!(selected_indices(&wide), Err(ArchiveError::InvalidInput(_))));
    assert!(selected_indices(&ExtractOptions::default()).expect("all").is_empty());
}

#[test]
fn probing_skips_tested_handlers() {
    let formats = vec![transparent_descriptor(), FormatDescriptor::new(ArchiveFormatId::new("zip"), "zip", vec![], vec![])];
    let mut tested = vec![false, false];
    let ids = [ArchiveFormatId::new("zip"), ArchiveFormatId::new("zip"), ArchiveFormatId::new("none")];
    assert_eq!(untested_indices(&formats, &ids, &mut tested), vec![1]);
    assert_eq!(tested, vec![false, true]);
    assert_eq!(remaining_indices(&tested), vec![0]);
    let candidate = DetectionCandidate { descriptor: transparent_descriptor(), method: DetectionMethod::Provider };
    let ids = detection_ids(DetectionResult::Detected(Box::new(candidate)));
    assert_eq!(ids, vec![ArchiveFormatId::new("wrapper")]);
}

#[test]
fn error_records_give_their_text_or_the_fallback() {
    let mut record = [0_u8; 512];
    record[..4].copy_from_slice(b"oops");
    assert_eq!(error_message(&record).as_deref(), Some("oops"));
    assert_eq!(error_message(&[0_u8; 512]), None);
    match native_status_error(-4, &[0_u8; 512], "listing failed") {
        ArchiveError::Native { status, message } => {
            assert_eq!(status, -4);
            assert_eq!(message, "listing failed");
        },
        other => panic!("unexpected {other:?}"),
    }
}

fn owned_format(index: u32, name: &str, update: bool) -> OwnedFormat {
    OwnedFormat {
        index,
        class_id: Some([index as u8; 16]),
        flags: 0,
        update,
        name: name.to_string(),
        extensions: vec![name.to_lowercase()],
        add_extensions: vec![],
        signature_offset: 0,
        signature: vec![],
        multi_signature: vec![],
    }
}

#[test]
fn handler_records_become_descriptors() {
    let methods = vec![CompressionMethod::new("lzma2", "LZMA2"), CompressionMethod::new("rot", "ROT")];
    let mut rar = owned_format(3, "Rar", true);
    rar.flags = 1 | 1024;
    let formats = build_formats(&vec![owned_format(1, "7z", true), rar, owned_format(70000, "7z", false)], &methods);
    assert_eq!(formats[0].id.as_str(), "7z");
    assert!(formats[0].supports(FormatCapability::Create));
    assert!(formats[0].supports(FormatCapability::Solid));
    assert_eq!(formats[0].methods.len(), 1);
    assert!(!formats[1].supports(FormatCapability::Create));
    assert!(formats[1].supports(FormatCapability::Password));
    assert_eq!(
        formats[1].diagnostics,
        vec![
            "handler preserves archive names".to_string(),
            "handler exposes symbolic-link metadata".to_string(),
            "RAR writing is disabled by the unRAR license".to_string(),
        ]
    );
    assert_eq!(formats[1].license.as_ref().expect("license").id, "unrar-restriction");
    assert_eq!(formats[2].id.as_str(), "7z-70000");
    assert_eq!(formats[2].priority, u16::MAX);
}

#[test]
fn method_records_get_unique_identifiers() {
    let owned = vec![
        OwnedMethod { index: 0, id: None, decoder: true, encoder: true, name: "LZMA".into(), description: "".into() },
        OwnedMethod { index: 1, id: None, decoder: true, encoder: false, name: "lzma".into(), description: "alt".into() },
        OwnedMethod { index: 2, id: Some([0xab; 16]), decoder: false, encoder: false, name: " ".into(), description: "".into() },
        OwnedMethod { index: 3, id: None, decoder: false, encoder: false, name: "".into(), description: "".into() },
    ];
    let methods = build_methods(&owned);
    assert_eq!(methods[0].id, "lzma");
    assert_eq!(methods[1].id, "lzma-1");
    assert_eq!(methods[1].name, "lzma \u{2014} alt");
    assert!(!methods[1].can_encode);
    assert_eq!(methods[2].id, "ab".repeat(16));
    assert_eq!(methods[3].id, "method-3");
}

#[test]
fn metadata_helpers_split_and_name() {
    assert_eq!(split_extensions("7z;zip, tar\tgz;;".to_string()), vec!["7z", "zip", "tar", "gz"]);
    assert_eq!(guid_id([0x0f; 16]), "0f".repeat(16));
    let mut used = vec!["a".to_string()];
    assert_eq!(unique_id(" A ", 9, &mut used), "a-9");
    assert_eq!(used, vec!["a".to_string(), "a-9".to_string()]);
    assert_eq!(license_for_name("Rar5").id, "unrar-restriction");
    assert_eq!(license_for_name("zip").id, "7zip-lgpl");
    let mut format = owned_format(0, "multi", false);
    format.signature = vec![1, 2];
    format.multi_signature = vec![2, 9, 9, 0, 5];
    let signatures = signature_list(&format);
    assert_eq!(signatures.len(), 2);
    assert_eq!(signatures[1].bytes, vec![9, 9]);
}

#[test]
fn update_options_are_converted_for_the_provider() {
    let options = CreateOptions {
        compression_method: Some("lzma2".to_string()),
        compression_level: Some(u32::MAX),
        solid: Some(false),
        header_encryption: true,
        ..CreateOptions::default()
    };
    let native = native_update_options(&options).expect("short method name");
    assert_eq!(native.method, b"lzma2".to_vec());
    assert_eq!(native.method_len, 5);
    assert_eq!(native.level, i32::MAX);
    assert_eq!(native.solid, 0);
    assert_eq!(native.header_encryption, 1);
    let defaults = native_update_options(&CreateOptions::default()).expect("defaults");
    assert_eq!((defaults.level, defaults.solid, defaults.header_encryption), (-1, -1, -1));
    let volumes = CreateOptions { volume_size: Some(1), ..CreateOptions::default() };
    assert!(matches!(check_create_options(&volumes), Err(ArchiveError::Unsupported(_))));
}

#[test]
fn long_native_diagnostics_are_bounded() {
    let error = ArchiveError::native(1, "x".repeat(5000));
    match error {
        ArchiveError::Native { message, .. } => assert_eq!(message.len(), 4096),
        other => panic!("unexpected {other:?}"),
    }
}

#[test]
fn probe_results_pick_one_handler() {
    let candidate = DetectionCandidate { descriptor: transparent_descriptor(), method: DetectionMethod::Provider };
    let detected = DetectionResult::Detected(Box::new(candidate.clone()));
    assert_eq!(detected_format(detected).expect("one handler"), ArchiveFormatId::new("wrapper"));
    match detected_format(DetectionResult::Unknown) {
        Err(ArchiveError::UnsupportedFormat(message)) => assert_eq!(message, "no Format7zF handler could open the archive"),
        other => panic!("unexpected {other:?}"),
    }
    match detected_format(DetectionResult::Ambiguous(vec![candidate.clone(), candidate.clone()])) {
        Err(ArchiveError::UnsupportedFormat(message)) => {
            assert_eq!(message, "multiple Format7zF handlers opened the archive")
        },
        other => panic!("unexpected {other:?}"),
    }
    assert_eq!(inner_format(DetectionResult::Detected(Box::new(candidate.clone()))), Some(ArchiveFormatId::new("wrapper")));
    assert_eq!(inner_format(DetectionResult::Ambiguous(vec![candidate])), None);
    assert!(probe_opened(ffi::PULP7Z_OK, true));
    assert!(probe_opened(ffi::PULP7Z_PASSWORD_DECLINED, true));
    assert!(!probe_opened(ffi::PULP7Z_OK, false));
    assert!(!probe_opened(-4, true));
}

#[test]
fn native_calls_report_the_first_failure() {
    let report = OperationReport::default();
    let ok = native_call_outcome(NativeCall::List, None, Ok(report.clone()), ffi::PULP7Z_OK, &[0_u8; 512]);
    assert_eq!(ok.expect("listing succeeded").entries_seen, 0);
    let stream = native_call_outcome(NativeCall::List, Some(ArchiveError::WrongPassword), Err(ArchiveError::Cancelled), -4, &[0_u8; 512]);
    assert!(matches!(stream, Err(ArchiveError::WrongPassword)));
    let state = native_call_outcome(NativeCall::Extract, None, Err(ArchiveError::Cancelled), -4, &[0_u8; 512]);
    assert!(matches!(state, Err(ArchiveError::Cancelled)));
    match native_call_outcome(NativeCall::Create, None, Ok(report.clone()), -4, &[0_u8; 512]) {
        Err(ArchiveError::Native { status, message }) => {
            assert_eq!(status, -4);
            assert_eq!(message, "Format7zF archive creation failed");
        },
        other => panic!("unexpected {other:?}"),
    }
    let mut record = [0_u8; 512];
    record[..3].copy_from_slice(b"bad");
    match native_call_outcome(NativeCall::Extract, None, Ok(report), -2, &record) {
        Err(ArchiveError::Native { message, .. }) => assert_eq!(message, "bad"),
        other => panic!("unexpected {other:?}"),
    }
}

#[test]
fn stream_copies_fall_back_or_fail_in_order() {
    let report = OperationReport::default();
    let empty = [0_u8; 512];
    assert!(matches!(
        stream_copy_outcome(Some(ArchiveError::WrongPassword), true, 8, None, Ok(report.clone()), ffi::PULP7Z_OK, &empty),
        Err(ArchiveError::WrongPassword)
    ));
    match stream_copy_outcome(None, true, 8, Some(ArchiveError::Cancelled), Ok(report.clone()), ffi::PULP7Z_OK, &empty) {
        Err(ArchiveError::ResourceLimit { kind, message }) => {
            assert_eq!(kind, ResourceLimitKind::EntryBytes);
            assert_eq!(message, "nested archive stream exceeds the configured limit of 8 bytes");
        },
        other => panic!("unexpected {other:?}"),
    }
    assert!(matches!(
        stream_copy_outcome(None, false, 8, Some(ArchiveError::Cancelled), Err(ArchiveError::WrongPassword), 0, &empty),
        Err(ArchiveError::Cancelled)
    ));
    assert!(matches!(
        stream_copy_outcome(None, false, 8, None, Err(ArchiveError::WrongPassword), 0, &empty),
        Err(ArchiveError::WrongPassword)
    ));
    assert_eq!(
        stream_copy_outcome(None, false, 8, None, Ok(report.clone()), ffi::PULP7Z_STREAM_UNAVAILABLE, &empty).ok(),
        Some(false)
    );
    assert_eq!(stream_copy_outcome(None, false, 8, None, Ok(report.clone()), ffi::PULP7Z_OK, &empty).ok(), Some(true));
    match stream_copy_outcome(None, false, 8, None, Ok(report), -4, &empty) {
        Err(ArchiveError::Native { message, .. }) => assert_eq!(message, "Format7z entry stream copy failed"),
        other => panic!("unexpected {other:?}"),
    }
}

#[test]
fn stream_callbacks_seek_count_and_keep_the_first_failure() {
    assert_eq!(seek_target(5, 0), Some(SeekTarget::Start(5)));
    assert_eq!(seek_target(-1, 0), None);
    assert_eq!(seek_target(-3, 1), Some(SeekTarget::Current(-3)));
    assert_eq!(seek_target(-4, 2), Some(SeekTarget::End(-4)));
    assert_eq!(seek_target(0, 3), None);
    assert_eq!(transfer_count(3, 3, true).ok(), Some(3));
    match transfer_count(4, 3, false) {
        Err(ArchiveError::Internal(message)) => assert_eq!(message, "writer returned too many bytes"),
        other => panic!("unexpected {other:?}"),
    }
    let mut slot = None;
    assert_eq!(keep_first(&mut slot, ArchiveError::WrongPassword), ffi::PULP7Z_CALLBACK_ERROR);
    assert_eq!(keep_first(&mut slot, ArchiveError::Cancelled), ffi::PULP7Z_CALLBACK_ERROR);
    assert!(matches!(slot, Some(ArchiveError::WrongPassword)));
}

#[test]
fn source_entries_are_admitted_against_the_limits() {
    let limits = ResourceLimits { max_entries: 2, max_total_bytes: 10, ..ResourceLimits::default() };
    let mut file = entry("a.txt", EntryKind::File);
    file.size = Some(4);
    assert_eq!(admit_source_entry(0, 3, &file, &limits).ok(), Some(7));
    assert!(matches!(admit_source_entry(0, 7, &file, &limits), Err(ArchiveError::ResourceLimit { kind: ResourceLimitKind::TotalBytes, .. })));
    assert!(matches!(admit_source_entry(2, 0, &file, &limits), Err(ArchiveError::ResourceLimit { kind: ResourceLimitKind::Entries, .. })));
    let sizeless = entry("b.txt", EntryKind::File);
    match admit_source_entry(0, 0, &sizeless, &limits) {
        Err(ArchiveError::InvalidInput(message)) => assert_eq!(message, "regular file entry 'b.txt' must provide its size"),
        other => panic!("unexpected {other:?}"),
    }
    let link = entry("c", EntryKind::Symlink);
    match admit_source_entry(0, 0, &link, &limits) {
        Err(ArchiveError::InvalidInput(message)) => {
            assert_eq!(message, "Format7zF creation does not yet encode link or special entry 'c'")
        },
        other => panic!("unexpected {other:?}"),
    }
    assert_eq!(admit_source_entry(1, 10, &entry("d", EntryKind::Directory), &limits).ok(), Some(10));
}

#[test]
fn writes_need_an_entry_and_an_output() {
    let context = OperationContext::new();
    let mut state: ExtractState<'_, Vec<u8>> = ExtractState::new(&context, false);
    assert_eq!(state.check_write(0), ffi::PULP7Z_OK);
    assert_eq!(state.check_write(4), ffi::PULP7Z_CALLBACK_ERROR);
    assert!(matches!(state.finish(), Err(ArchiveError::Internal(m)) if m == "native wrote without a current entry"));

    let mut state: ExtractState<'_, ()> = ExtractState::new(&context, false);
    let mut sink = MetadataOnlySink;
    assert_eq!(state.begin_entry(&mut sink, &info(b"a.txt"), 0), (ffi::PULP7Z_OK, 1));
    assert_eq!(state.check_write(0), ffi::PULP7Z_OK);
    assert_eq!(state.check_write(4), ffi::PULP7Z_CALLBACK_ERROR);
    assert!(matches!(state.finish(), Err(ArchiveError::Internal(m)) if m == "native wrote without a selected output"));
}

struct OpenedNames {
    opened: Vec<String>,
}

impl EntrySource for OpenedNames {
    type Reader = Vec<u8>;

    fn next<R: ProgressReporter, P: PasswordProvider, V: VolumeProvider>(
        &mut self,
        _context: &OperationContext<R, P, V>,
    ) -> Result<Option<ArchiveEntry>, ArchiveError> {
        Ok(None)
    }

    fn open<R: ProgressReporter, P: PasswordProvider, V: VolumeProvider>(
        &mut self,
        entry: &ArchiveEntry,
        _context: &OperationContext<R, P, V>,
    ) -> Result<Vec<u8>, ArchiveError> {
        self.opened.push(entry.name.as_str().to_string());
        Ok(b"content".to_vec())
    }
}

#[test]
fn reads_open_the_requested_entry_once() {
    let context = OperationContext::new();
    let entries = vec![entry("a", EntryKind::File), entry("b", EntryKind::File)];
    let mut state: SourceState<'_, Vec<u8>> = SourceState::new(entries, &context, OperationKind::Create, None);
    let mut source = OpenedNames { opened: Vec::new() };
    assert_eq!(state.prepare_read(&mut source, 1, 0), ffi::PULP7Z_OK);
    assert!(source.opened.is_empty());
    assert_eq!(state.prepare_read(&mut source, 1, 4), ffi::PULP7Z_OK);
    assert_eq!(source.opened, vec!["b".to_string()]);
    assert_eq!(state.reader_index, Some(1));
    assert_eq!(state.prepare_read(&mut source, 1, 4), ffi::PULP7Z_OK);
    assert_eq!(source.opened, vec!["b".to_string()]);
    assert_eq!(state.prepare_read(&mut source, 5, 4), ffi::PULP7Z_CALLBACK_ERROR);
}

#[test]
fn error_records_give_their_own_text() {
    let mut record = [0_u8; 512];
    record[..6].copy_from_slice(b"broken");
    match native_status_error(-2, &record, "listing failed") {
        ArchiveError::Native { status, message } => {
            assert_eq!(status, -2);
            assert_eq!(message, "broken");
        },
        other => panic!("unexpected {other:?}"),
    }
}

#[test]
fn progress_is_due_when_owed_or_after_the_interval() {
    let mib = 1024 * 1024;
    assert!(progress_due(true, 0, 0, 0, None));
    assert!(!progress_due(false, mib - 1, 10 * mib, mib - 1, Some(49)));
    assert!(progress_due(false, mib - 1, 10 * mib, mib - 1, Some(50)));
    assert!(progress_due(false, mib, 10 * mib, mib, Some(0)));
    assert!(progress_due(false, 1, 10, 10, Some(0)));
    assert!(!progress_due(false, 1, 0, 10, Some(0)));
}

#[test]
fn update_reports_keep_their_notes() {
    let mut report = OperationReport::new(OperationKind::Update);
    report.entries_seen = 3;
    report.warnings.push("kept".to_string());
    report.diagnostics.push("noted".to_string());
    let done = finish_update_report(report, ArchiveFormatId::new("7z"), 99);
    assert_eq!(done.format, Some(ArchiveFormatId::new("7z")));
    assert_eq!(done.bytes_written, 99);
    assert_eq!(done.entries_seen, 3);
    assert_eq!(done.warnings, vec!["kept".to_string()]);
    assert_eq!(done.diagnostics, vec!["noted".to_string()]);
}
