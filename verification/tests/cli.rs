use pulp::cli::{archive_stem, destination_listing, parse_compression_level, require_format, resolve_output_format};
use pulp::native::metadata::{OwnedFormat, RuntimeMetadata, metadata_from};
use pulp::{ArchiveEngine, ArchiveError, ArchiveFormatId, FormatCapability, FormatDescriptor, PathState};

#[test]
fn bounds_creation_compression_level() {
    assert_eq!(parse_compression_level("9"), Ok(9));
    assert!(parse_compression_level("10").is_err());
}

#[test]
fn compression_level_messages_name_the_input() {
    assert_eq!(parse_compression_level("+7"), Ok(7));
    assert_eq!(
        parse_compression_level("abc"),
        Err("compression level must be an integer from 0 to 9, got \"abc\"".to_string())
    );
    assert_eq!(
        parse_compression_level("12"),
        Err("compression level must be an integer from 0 to 9, got 12".to_string())
    );
    assert!(parse_compression_level("").is_err());
    assert!(parse_compression_level("-1").is_err());
}

fn writable(id: &str, extensions: &[&str]) -> FormatDescriptor {
    FormatDescriptor::new(
        ArchiveFormatId::new(id),
        id,
        extensions.iter().map(|e| e.to_string()).collect(),
        vec![FormatCapability::List, FormatCapability::Create],
    )
}

fn engine(formats: Vec<FormatDescriptor>) -> ArchiveEngine {
    ArchiveEngine::from_metadata(RuntimeMetadata { formats, methods: Vec::new() }).ok().expect("handlers present")
}

#[test]
fn output_format_follows_the_extension() {
    let mut read_only = writable("rar", &["rar"]);
    read_only.capabilities = vec![FormatCapability::List];
    let engine = engine(vec![writable("zip", &["zip"]), writable("7z", &["7z"]), read_only]);
    assert_eq!(resolve_output_format(&engine, "out/archive.ZIP", None).expect("zip").as_str(), "zip");
    assert!(matches!(resolve_output_format(&engine, "out.rar", None), Err(ArchiveError::UnsupportedFormat(_))));
    assert_eq!(resolve_output_format(&engine, "out.rar", Some(" 7Z ")).expect("explicit").as_str(), "7z");
    assert!(matches!(require_format(&engine, "tar"), Err(ArchiveError::UnsupportedFormat(m)) if m == "tar"));
}

#[test]
fn ambiguous_output_formats_are_listed() {
    let engine = engine(vec![writable("zip", &["zip"]), writable("zipx", &["zip"])]);
    match resolve_output_format(&engine, "a.zip", None) {
        Err(ArchiveError::InvalidInput(m)) => assert_eq!(m, "output format is ambiguous: zip, zipx"),
        other => panic!("unexpected {other:?}"),
    }
}

#[test]
fn engines_need_handlers() {
    assert!(ArchiveEngine::from_metadata(RuntimeMetadata { formats: Vec::new(), methods: Vec::new() }).is_err());
    let formats = vec![OwnedFormat {
        index: 0,
        class_id: None,
        flags: 0,
        update: true,
        name: "Zip".into(),
        extensions: vec!["zip".into()],
        add_extensions: vec![],
        signature_offset: 0,
        signature: b"PK".to_vec(),
        multi_signature: vec![],
    }];
    let engine = ArchiveEngine::from_metadata(metadata_from(&formats, &Vec::new())).ok().expect("one handler");
    assert_eq!(engine.info().name, "Format7zF");
    assert_eq!(engine.formats()[0].id.as_str(), "zip");
    assert!(engine.require_format(&ArchiveFormatId::new("zip"), pulp::OperationKind::Create).is_ok());
}

#[test]
fn archive_stems_follow_file_stem() {
    assert_eq!(archive_stem(Some("data.tar.gz")), "data.tar");
    assert_eq!(archive_stem(Some(".hidden")), ".hidden");
    assert_eq!(archive_stem(Some("plain")), "plain");
    assert_eq!(archive_stem(Some("")), "archive");
    assert_eq!(archive_stem(None), "archive");
}

#[test]
fn extraction_destinations_must_be_directories() {
    assert_eq!(destination_listing("out", PathState::Missing).ok(), Some(false));
    assert_eq!(destination_listing("out", PathState::Directory).ok(), Some(true));
    assert!(matches!(destination_listing("out", PathState::Other), Err(ArchiveError::PolicyViolation(_))));
}
