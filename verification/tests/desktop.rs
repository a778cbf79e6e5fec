use std::sync::mpsc;

use pulp::desktop::archive::{creation_formats, row_id, row_id_of_hash, same_or_descendant, selection_includes, sort_by_id, FormatOption};
use pulp::desktop::i18n::{locale_from_language, I18n, Locale, MessageKey};
use pulp::desktop::password::{cached_answer, remember_answer, PasswordPrompt, PasswordResponder};
use pulp::desktop::settings::{LanguagePreference, OverwriteSetting, SettingsError, SettingsFile};
use pulp::desktop::workspace::{default_archive_name, format_for_output, kind_message_key, names_between};
use pulp::native::metadata::RuntimeMetadata;
use pulp::{
    ArchiveEngine, ArchiveEntry, ArchiveFormatId, CompressionMethod, EntryId, EntryKind, EntryName, FormatCapability,
    FormatDescriptor, LinkPolicy, MetadataPolicy, OverwritePolicy, Password, PasswordReason, PasswordRequest,
};

#[test]
fn directory_selection_respects_component_boundaries() {
    assert!(same_or_descendant("docs/readme.md", "docs"));
    assert!(!same_or_descendant("documentation/readme.md", "docs"));
}

#[test]
fn selections_cover_ancestors_and_descendants() {
    let selected = vec!["docs/api".to_string()];
    assert!(selection_includes(&selected, "docs"));
    assert!(selection_includes(&selected, "docs/api/index.html"));
    assert!(!selection_includes(&selected, "docs/apis"));
    assert!(selection_includes(&Vec::new(), "anything"));
}

#[test]
fn password_responder_answers_a_request_only_once() {
    let (sender, receiver) = mpsc::channel();
    let responder = PasswordResponder::new(sender);

    assert!(responder.send(Some(Password::new("secret".to_string()))));
    assert!(!responder.send(None));
    assert_eq!(
        receiver
            .recv()
            .expect("the first response should arrive")
            .expect("the first response should contain a password")
            .as_str(),
        Ok("secret")
    );
    assert!(receiver.try_recv().is_err());
}

#[test]
fn prompt_responders_share_one_answer() {
    let (sender, receiver) = mpsc::channel();
    let prompt = PasswordPrompt { request: PasswordRequest { reason: PasswordReason::Data, attempt: 1 }, response: sender };
    let first = prompt.responder();
    let second = first.clone();
    assert!(second.send(None));
    assert!(!first.send(None));
    assert!(receiver.recv().expect("one answer").is_none());
    let other = prompt.into_responder();
    assert!(other.send(None));
}

#[test]
fn password_cache_is_reused_until_retry() {
    let mut cached = None;
    let header = PasswordRequest { reason: PasswordReason::Header, attempt: 1 };
    assert!(cached_answer(&mut cached, &header).is_none());
    remember_answer(&mut cached, &Some(Password::new("secret".to_string())));
    let again = cached_answer(&mut cached, &PasswordRequest { reason: PasswordReason::Data, attempt: 1 });
    assert_eq!(again.expect("cached").as_str(), Ok("secret"));
    let retry = PasswordRequest { reason: PasswordReason::Retry, attempt: 2 };
    assert!(cached_answer(&mut cached, &retry).is_none());
    assert!(cached.is_none());
}

#[test]
fn message_keys_and_catalog_fallbacks() {
    assert_eq!(MessageKey::OpenArchive.as_str(), "open_archive");
    let english = "open_archive: Open archive\nready: Ready\n";
    let chinese = "open_archive: \u{6253}\u{5f00}\n";
    let catalog = I18n::from_sources(Locale::ZhCn, english, chinese).expect("both are mappings");
    assert_eq!(catalog.text(MessageKey::OpenArchive), "\u{6253}\u{5f00}");
    assert_eq!(catalog.text(MessageKey::Ready), "Ready");
    assert_eq!(catalog.text(MessageKey::CloseArchive), "close archive");
    assert!(I18n::from_sources(Locale::En, "- a\n- b\n", chinese).is_none());
    assert_eq!(locale_from_language(Some("ZH_CN.UTF-8")), Locale::ZhCn);
    assert_eq!(locale_from_language(None), Locale::En);
}

#[test]
fn default_settings_validate_and_convert() {
    let settings = SettingsFile::default();
    assert!(settings.validate().is_ok());
    assert_eq!(settings.resource_limits().max_path_bytes, 16384);
    assert_eq!(settings.extraction_policy().links, LinkPolicy::Reject);
    assert_eq!(settings.extraction_policy().metadata, MetadataPolicy::RestoreSafe);
    assert_eq!(settings.overwrite_policy(), OverwritePolicy::Error);
    assert_eq!(settings.ui.language, LanguagePreference::System);
}

#[test]
fn invalid_settings_are_refused() {
    let mut settings = SettingsFile::default();
    settings.schema_version = 2;
    assert!(matches!(settings.validate(), Err(SettingsError::UnsupportedSchema(2))));
    let mut settings = SettingsFile::default();
    settings.archive.default_format = "zip file".to_string();
    assert!(matches!(settings.validate(), Err(SettingsError::InvalidValue(_))));
    let mut settings = SettingsFile::default();
    settings.security.max_path_bytes = 16385;
    assert!(matches!(settings.validate(), Err(SettingsError::InvalidValue(_))));
    let mut settings = SettingsFile::default();
    settings.extraction.overwrite = OverwriteSetting::Skip;
    assert_eq!(settings.overwrite_policy(), OverwritePolicy::Skip);
}

fn descriptor(id: &str, extensions: &[&str], create: bool) -> FormatDescriptor {
    let mut capabilities = vec![FormatCapability::List];
    if create {
        capabilities.push(FormatCapability::Create);
    }
    let mut d = FormatDescriptor::new(
        ArchiveFormatId::new(id),
        id,
        extensions.iter().map(|e| e.to_string()).collect(),
        capabilities,
    );
    d.methods = vec![CompressionMethod::new("deflate", "Deflate")];
    d
}

#[test]
fn creation_choices_are_sorted_writable_handlers() {
    let engine = ArchiveEngine::from_metadata(RuntimeMetadata {
        formats: vec![descriptor("zip", &[".zip"], true), descriptor("7z", &["*", "7z"], true), descriptor("rar", &["rar"], false)],
        methods: Vec::new(),
    })
    .ok()
    .expect("handlers present");
    let options = creation_formats(&engine);
    let ids = options.iter().map(|o| o.id.as_str().to_string()).collect::<Vec<_>>();
    assert_eq!(ids, vec!["7z", "zip"]);
    assert_eq!(options[0].extension, "7z");
    assert_eq!(options[1].extension, "zip");
    assert_eq!(options[1].methods, vec!["deflate".to_string()]);
}

fn option(id: &str, extension: &str) -> FormatOption {
    FormatOption { id: ArchiveFormatId::new(id), name: id.to_string(), extension: extension.to_string(), methods: vec![] }
}

#[test]
fn new_archive_names_and_formats() {
    let options = vec![option("zip", "zip"), option("7z", "7z")];
    assert_eq!(format_for_output(&options, Some("7Z"), "zip").as_str(), "7z");
    assert_eq!(format_for_output(&options, Some("tar"), "Zip").as_str(), "zip");
    assert_eq!(format_for_output(&options, None, "7z").as_str(), "7z");
    assert_eq!(default_archive_name(&options, "7Z"), "archive.7z");
    assert_eq!(default_archive_name(&options, "tar"), "archive.zip");
    assert_eq!(default_archive_name(&Vec::new(), "tar"), "archive.tar");
}

#[test]
fn range_selection_is_inclusive_in_both_directions() {
    let names = ["a", "b", "c", "d"].into_iter().map(str::to_owned).collect::<Vec<_>>();
    assert_eq!(names_between(&names, "a", "c"), vec!["a", "b", "c"]);
    assert_eq!(names_between(&names, "d", "b"), vec!["b", "c", "d"]);
    assert_eq!(names_between(&names, "x", "b"), vec!["b"]);
}

#[test]
fn row_identifiers_are_stable() {
    let entry = ArchiveEntry::new(EntryId::new(3), EntryName::new("a/b").expect("valid"), EntryKind::File);
    let first = row_id(&entry);
    assert!(first.starts_with("entry-"));
    assert!(first["entry-".len()..].chars().all(|c| c.is_ascii_hexdigit()));
    assert_eq!(first, row_id(&entry));
    assert_eq!(kind_message_key(EntryKind::Symlink), MessageKey::SymbolicLink);
}

#[test]
fn sorting_by_identifier_keeps_equal_identifiers_in_order() {
    let named = |id: &str, name: &str| FormatOption {
        id: ArchiveFormatId::new(id),
        name: name.to_string(),
        extension: id.to_string(),
        methods: vec![],
    };
    let sorted = sort_by_id(vec![named("zip", "first"), named("7z", "a"), named("zip", "second"), named("tar", "t"), named("7z", "b")]);
    let order: Vec<(&str, &str)> = sorted.iter().map(|o| (o.id.as_str(), o.name.as_str())).collect();
    assert_eq!(order, vec![("7z", "a"), ("7z", "b"), ("tar", "t"), ("zip", "first"), ("zip", "second")]);
}

#[test]
fn row_identifiers_spell_the_hash_in_lowercase_hex() {
    assert_eq!(row_id_of_hash(0), "entry-0");
    assert_eq!(row_id_of_hash(255), "entry-ff");
    assert_eq!(row_id_of_hash(0x1a2b), "entry-1a2b");
    assert_eq!(row_id_of_hash(u64::MAX), "entry-ffffffffffffffff");
}
