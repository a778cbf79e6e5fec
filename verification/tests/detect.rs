use pulp::detect::{extension_hint, hint_from_prefix};
use pulp::{ArchiveFormatId, DetectionResult, FormatCapability, FormatDescriptor, FormatDetector, Signature};

fn descriptor(id: &str, signature: &[u8]) -> FormatDescriptor {
    let mut descriptor =
        FormatDescriptor::new(ArchiveFormatId::new(id), id, vec![id.to_string()], vec![FormatCapability::List]);
    descriptor.signatures.push(Signature { offset: 0, bytes: signature.to_vec() });
    descriptor
}

#[test]
fn detects_signature_before_extension() {
    let formats = [descriptor("zip", b"PK")];
    let result = FormatDetector::new(&formats).detect(&b"PK data"[..], Some("archive.bin"));
    let DetectionResult::Detected(candidate) = result else {
        panic!("expected detected format");
    };
    assert_eq!(candidate.descriptor.id, ArchiveFormatId::new("zip"));
}

#[test]
fn detects_extension_hint_when_no_signature_matches() {
    let formats = [descriptor("zip", b"PK")];
    let result = FormatDetector::new(&formats).detect(&b"not zip"[..], Some("archive.ZIP"));
    assert!(matches!(result, DetectionResult::Detected(_)));
}

#[test]
fn detection_reads_only_the_configured_probe_window() {
    let input = vec![0_u8; 32 * 1024];
    let detector = FormatDetector::new(&[]).with_max_probe_bytes(4096);
    let result = detector.detect(&input, None);
    assert!(matches!(result, DetectionResult::Unknown));
    assert_eq!(detector.max_probe_bytes(), 4096);
}

#[test]
fn signature_past_the_probe_window_is_not_seen() {
    let mut formats = [descriptor("late", b"LATE")];
    formats[0].signatures[0].offset = 100;
    let mut input = vec![0_u8; 200];
    input[100..104].copy_from_slice(b"LATE");
    let wide = FormatDetector::new(&formats).detect(&input, None);
    assert!(matches!(wide, DetectionResult::Detected(_)));
    let narrow = FormatDetector::new(&formats).with_max_probe_bytes(64).detect(&input, None);
    assert!(matches!(narrow, DetectionResult::Unknown));
}

#[test]
fn two_equal_signatures_are_ambiguous() {
    let formats = [descriptor("one", b"AB"), descriptor("two", b"AB")];
    let result = FormatDetector::new(&formats).detect(&b"ABCD"[..], None);
    let DetectionResult::Ambiguous(candidates) = result else {
        panic!("expected an ambiguous result");
    };
    assert_eq!(candidates.len(), 2);
}

#[test]
fn infer_is_only_a_magic_hint_and_wins_over_a_wrong_suffix() {
    let samples = [
        (&b"PK\x03\x04archive"[..], "zip"),
        (&b"7z\xBC\xAF\x27\x1Carchive"[..], "7z"),
        (&b"Rar!\x1A\x07\x00archive"[..], "rar"),
        (&b"Rar!\x1A\x07\x01\x00archive"[..], "rar"),
        (&[0_u8; 512][..], "tar"),
        (&b"\x1F\x8B\x08archive"[..], "gz"),
        (&b"BZh9archive"[..], "bz2"),
        (&b"\xFD7zXZ\x00archive"[..], "xz"),
        (&b"\x28\xB5\x2F\xFDarchive"[..], "zst"),
    ];

    for (bytes, extension) in samples {
        let mut bytes = bytes.to_vec();
        if extension == "tar" {
            bytes[257..262].copy_from_slice(b"ustar");
        }
        let hint = hint_from_prefix(&bytes, Some("renamed.bin"));
        assert_eq!(hint.extension.as_deref(), Some(extension));
        assert_eq!(hint.kind.as_deref(), Some("archive"));
        assert!(hint.has_magic());
        assert_eq!(hint.filename_extension.as_deref(), Some("bin"));
    }
}

#[test]
fn unknown_magic_does_not_reject_a_file_or_erase_its_suffix_hint() {
    let hint = hint_from_prefix(b"not an archive", Some("unknown.BIN"));
    assert_eq!(hint.extension.as_deref(), Some("bin"));
    assert!(!hint.has_magic());
    assert_eq!(extension_hint("dir.d/file"), None);
}

#[test]
fn format_identifiers_are_trimmed_and_lower_cased() {
    assert_eq!(ArchiveFormatId::new("  ZIP ").as_str(), "zip");
    let again = ArchiveFormatId::new(ArchiveFormatId::new(" 7Z ").as_str());
    assert_eq!(again.as_str(), "7z");
}
