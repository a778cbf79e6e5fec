use pulp::entry::EntryNameError;
use pulp::{
    ArchiveEntry, ArchiveError, CancellationToken, EntryId, EntryKind, EntryName, OperationContext, Password,
    ResourceLimits, PACKAGE_NAME, PasswordReason, PasswordRequest,
};

#[test]
fn exposes_the_library_package_name() {
    assert_eq!(PACKAGE_NAME, "pulp");
}

#[test]
fn entry_names_are_normalized_and_checked() {
    assert_eq!(EntryName::parse("a\\b/").expect("valid").as_str(), "a/b");
    assert!(matches!(EntryName::parse(""), Err(EntryNameError::Empty)));
    assert!(EntryName::parse("/etc/passwd").is_err());
    assert!(EntryName::parse("a/../b").is_err());
    let name = EntryName::parse("x/y").expect("valid");
    assert_eq!(EntryName::parse(name.as_str()).expect("valid again"), name);
    assert_eq!(name.components(), vec!["x".to_string(), "y".to_string()]);
}

#[test]
fn cancellation_is_shared_by_contexts() {
    let token = CancellationToken::new();
    let context = OperationContext::new().with_cancellation(token.clone());
    let internal = context.without_progress();
    assert!(!internal.is_cancelled());
    token.cancel();
    assert!(internal.is_cancelled());
    assert!(matches!(context.check_cancelled(), Err(ArchiveError::Cancelled)));
}

#[test]
fn entries_are_checked_against_limits() {
    let context = OperationContext::new().with_limits(ResourceLimits { max_path_bytes: 3, ..ResourceLimits::default() });
    let entry = ArchiveEntry::new(EntryId::new(1), EntryName::new("abcd").expect("valid"), EntryKind::File);
    match context.validate_entry(&entry) {
        Err(ArchiveError::ResourceLimit { message, .. }) => assert_eq!(message, "entry path is 4 bytes, maximum is 3"),
        other => panic!("unexpected {other:?}"),
    }
}

#[test]
fn passwords_keep_their_bytes() {
    let password = Password::new("p\u{e4}ss".to_string());
    assert_eq!(password.as_bytes(), "p\u{e4}ss".as_bytes());
    assert_eq!(password.len(), 5);
    assert_eq!(password.clone().as_str(), Ok("p\u{e4}ss"));
}

#[test]
fn long_diagnostics_are_cut_at_the_last_character_boundary() {
    let cut_inside = format!("{}é", "a".repeat(4095));
    match ArchiveError::backend("adapter", cut_inside) {
        ArchiveError::Backend { component, message } => {
            assert_eq!(component, "adapter");
            assert_eq!(message, "a".repeat(4095));
        },
        other => panic!("unexpected {other:?}"),
    }
    let cut_between = format!("{}é", "a".repeat(4096));
    match ArchiveError::native(7, cut_between) {
        ArchiveError::Native { status, message } => {
            assert_eq!(status, 7);
            assert_eq!(message, "a".repeat(4096));
        },
        other => panic!("unexpected {other:?}"),
    }
    match ArchiveError::native(7, "short".to_string()) {
        ArchiveError::Native { message, .. } => assert_eq!(message, "short"),
        other => panic!("unexpected {other:?}"),
    }
}

#[test]
fn identifiers_order_as_their_numbers() {
    assert!(EntryId::new(3) < EntryId::new(10));
    assert_eq!(EntryId::new(7).partial_cmp(&EntryId::new(7)), Some(std::cmp::Ordering::Equal));
    assert_eq!(EntryId::new(9).cmp(&EntryId::new(2)), std::cmp::Ordering::Greater);
    assert_eq!(EntryId::new(42).get(), 42);
}

#[test]
fn a_fresh_context_answers_nothing() {
    let context = OperationContext::new();
    assert!(!context.is_cancelled());
    assert!(context.archive_name().is_none());
    let request = PasswordRequest { reason: PasswordReason::Header, attempt: 1 };
    assert!(matches!(context.request_password(request), Ok(None)));
    assert!(matches!(context.open_volume("a.7z.002"), Err(ArchiveError::VolumeNotFound(n)) if n == "a.7z.002"));
}
