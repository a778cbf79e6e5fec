//! Message catalogs for the desktop application.

use std::collections::HashMap;

use vstd::prelude::*;

use crate::text::{has_prefix, lower_seq, lower_chars, chars_of, replace_char, replace_chars, str_eq, string_of};

verus! {

/// Locales shipped with Pulp.
#[derive(Clone, Copy, Debug, PartialEq, Eq, Structural)]
pub enum Locale {
    /// English, used as the fallback locale.
    En,
    /// Simplified Chinese.
    ZhCn,
}

impl Default for Locale {
    fn default() -> (r: Self)
        ensures
            r == Locale::En,
    {
        Locale::En
    }
}

/// The locale for a language setting such as `LANG`: Chinese when it begins
/// with "zh" in any case, English otherwise or when there is none.
pub open spec fn locale_of_language(language: Option<Seq<char>>) -> Locale {
    match language {
        Some(l) => if has_prefix(lower_seq(l), "zh"@) {
            Locale::ZhCn
        } else {
            Locale::En
        },
        None => Locale::En,
    }
}

/// Selects a locale from a language setting.
pub fn locale_from_language(language: Option<&str>) -> (r: Locale)
    ensures
        r == locale_of_language(match language {
            Some(l) => Some(l@),
            None => None,
        }),
{
    match language {
        Some(l) => {
            let lower = lower_chars(&chars_of(l));
            if crate::text::starts_with(&lower, &chars_of("zh")) {
                Locale::ZhCn
            } else {
                Locale::En
            }
        },
        None => Locale::En,
    }
}

/// Stable message identifiers used by views and menus.
#[derive(Clone, Copy, Debug, PartialEq, Eq, Hash, Structural)]
pub enum MessageKey {
    /// The "file" message.
    File,
    /// The "edit" message.
    Edit,
    /// The "view" message.
    View,
    /// The "help" message.
    Help,
    /// The "about_pulp" message.
    AboutPulp,
    /// The "open_archive" message.
    OpenArchive,
    /// The "new_archive" message.
    NewArchive,
    /// The "extract_to" message.
    ExtractTo,
    /// The "test" message.
    Test,
    /// The "close_archive" message.
    CloseArchive,
    /// The "cancel_operation" message.
    CancelOperation,
    /// The "select_all" message.
    SelectAll,
    /// The "open_settings" message.
    OpenSettings,
    /// The "back" message.
    Back,
    /// The "restore_defaults" message.
    RestoreDefaults,
    /// The "quick_extract" message.
    QuickExtract,
    /// The "stop_operation" message.
    StopOperation,
    /// The "search_settings" message.
    SearchSettings,
    /// The "open_or_create_archive" message.
    OpenOrCreateArchive,
    /// The "drop_archive_here" message.
    DropArchiveHere,
    /// The "ready" message.
    Ready,
    /// The "no_archive_open" message.
    NoArchiveOpen,
    /// The "opening_archive" message.
    OpeningArchive,
    /// The "archive_opened" message.
    ArchiveOpened,
    /// The "extraction_completed" message.
    ExtractionCompleted,
    /// The "creation_completed" message.
    CreationCompleted,
    /// The "test_completed" message.
    TestCompleted,
    /// The "operation_cancelled" message.
    OperationCancelled,
    /// The "processing" message.
    Processing,
    /// The "extracting" message.
    Extracting,
    /// The "creating" message.
    Creating,
    /// The "testing" message.
    Testing,
    /// The "name" message.
    Name,
    /// The "size" message.
    Size,
    /// The "packed_size" message.
    PackedSize,
    /// The "type" message.
    Type,
    /// The "directory" message.
    Directory,
    /// The "file_entry" message.
    FileEntry,
    /// The "symbolic_link" message.
    SymbolicLink,
    /// The "hard_link" message.
    HardLink,
    /// The "special_file" message.
    SpecialFile,
    /// The "objects" message.
    Objects,
    /// The "empty_archive" message.
    EmptyArchive,
    /// The "general" message.
    General,
    /// The "compression" message.
    Compression,
    /// The "extraction" message.
    Extraction,
    /// The "security" message.
    Security,
    /// The "other" message.
    Other,
    /// The "theme" message.
    Theme,
    /// The "language" message.
    Language,
    /// The "system" message.
    System,
    /// The "light" message.
    Light,
    /// The "dark" message.
    Dark,
    /// The "english" message.
    English,
    /// The "simplified_chinese" message.
    SimplifiedChinese,
    /// The "default_list_mode" message.
    DefaultListMode,
    /// The "compact_layout" message.
    CompactLayout,
    /// The "details" message.
    Details,
    /// The "list" message.
    List,
    /// The "show_folder_pane" message.
    ShowFolderPane,
    /// The "show_archive_path" message.
    ShowArchivePath,
    /// The "smart_extraction" message.
    SmartExtraction,
    /// The "restore_metadata" message.
    RestoreMetadata,
    /// The "overwrite_policy" message.
    OverwritePolicy,
    /// The "ask_before_replacing" message.
    AskBeforeReplacing,
    /// The "replace_existing" message.
    ReplaceExisting,
    /// The "skip_existing" message.
    SkipExisting,
    /// The "reject_links" message.
    RejectLinks,
    /// The "default_format" message.
    DefaultFormat,
    /// The "compression_level" message.
    CompressionLevel,
    /// The "compression_method" message.
    CompressionMethod,
    /// The "provider_default" message.
    ProviderDefault,
    /// The "test_after_create" message.
    TestAfterCreate,
    /// The "settings_saved" message.
    SettingsSaved,
    /// The "select_destination" message.
    SelectDestination,
    /// The "source_paths" message.
    SourcePaths,
    /// The "password_required" message.
    PasswordRequired,
    /// The "password_prompt" message.
    PasswordPrompt,
    /// The "wrong_password" message.
    WrongPassword,
    /// The "warning" message.
    Warning,
    /// The "error" message.
    Error,
}

/// The catalog key of a message.
pub open spec fn message_id(key: MessageKey) -> Seq<char> {
    match key {
        MessageKey::File => "file"@,
        MessageKey::Edit => "edit"@,
        MessageKey::View => "view"@,
        MessageKey::Help => "help"@,
        MessageKey::AboutPulp => "about_pulp"@,
        MessageKey::OpenArchive => "open_archive"@,
        MessageKey::NewArchive => "new_archive"@,
        MessageKey::ExtractTo => "extract_to"@,
        MessageKey::Test => "test"@,
        MessageKey::CloseArchive => "close_archive"@,
        MessageKey::CancelOperation => "cancel_operation"@,
        MessageKey::SelectAll => "select_all"@,
        MessageKey::OpenSettings => "open_settings"@,
        MessageKey::Back => "back"@,
        MessageKey::RestoreDefaults => "restore_defaults"@,
        MessageKey::QuickExtract => "quick_extract"@,
        MessageKey::StopOperation => "stop_operation"@,
        MessageKey::SearchSettings => "search_settings"@,
        MessageKey::OpenOrCreateArchive => "open_or_create_archive"@,
        MessageKey::DropArchiveHere => "drop_archive_here"@,
        MessageKey::Ready => "ready"@,
        MessageKey::NoArchiveOpen => "no_archive_open"@,
        MessageKey::OpeningArchive => "opening_archive"@,
        MessageKey::ArchiveOpened => "archive_opened"@,
        MessageKey::ExtractionCompleted => "extraction_completed"@,
        MessageKey::CreationCompleted => "creation_completed"@,
        MessageKey::TestCompleted => "test_completed"@,
        MessageKey::OperationCancelled => "operation_cancelled"@,
        MessageKey::Processing => "processing"@,
        MessageKey::Extracting => "extracting"@,
        MessageKey::Creating => "creating"@,
        MessageKey::Testing => "testing"@,
        MessageKey::Name => "name"@,
        MessageKey::Size => "size"@,
        MessageKey::PackedSize => "packed_size"@,
        MessageKey::Type => "type"@,
        MessageKey::Directory => "directory"@,
        MessageKey::FileEntry => "file_entry"@,
        MessageKey::SymbolicLink => "symbolic_link"@,
        MessageKey::HardLink => "hard_link"@,
        MessageKey::SpecialFile => "special_file"@,
        MessageKey::Objects => "objects"@,
        MessageKey::EmptyArchive => "empty_archive"@,
        MessageKey::General => "general"@,
        MessageKey::Compression => "compression"@,
        MessageKey::Extraction => "extraction"@,
        MessageKey::Security => "security"@,
        MessageKey::Other => "other"@,
        MessageKey::Theme => "theme"@,
        MessageKey::Language => "language"@,
        MessageKey::System => "system"@,
        MessageKey::Light => "light"@,
        MessageKey::Dark => "dark"@,
        MessageKey::English => "english"@,
        MessageKey::SimplifiedChinese => "simplified_chinese"@,
        MessageKey::DefaultListMode => "default_list_mode"@,
        MessageKey::CompactLayout => "compact_layout"@,
        MessageKey::Details => "details"@,
        MessageKey::List => "list"@,
        MessageKey::ShowFolderPane => "show_folder_pane"@,
        MessageKey::ShowArchivePath => "show_archive_path"@,
        MessageKey::SmartExtraction => "smart_extraction"@,
        MessageKey::RestoreMetadata => "restore_metadata"@,
        MessageKey::OverwritePolicy => "overwrite_policy"@,
        MessageKey::AskBeforeReplacing => "ask_before_replacing"@,
        MessageKey::ReplaceExisting => "replace_existing"@,
        MessageKey::SkipExisting => "skip_existing"@,
        MessageKey::RejectLinks => "reject_links"@,
        MessageKey::DefaultFormat => "default_format"@,
        MessageKey::CompressionLevel => "compression_level"@,
        MessageKey::CompressionMethod => "compression_method"@,
        MessageKey::ProviderDefault => "provider_default"@,
        MessageKey::TestAfterCreate => "test_after_create"@,
        MessageKey::SettingsSaved => "settings_saved"@,
        MessageKey::SelectDestination => "select_destination"@,
        MessageKey::SourcePaths => "source_paths"@,
        MessageKey::PasswordRequired => "password_required"@,
        MessageKey::PasswordPrompt => "password_prompt"@,
        MessageKey::WrongPassword => "wrong_password"@,
        MessageKey::Warning => "warning"@,
        MessageKey::Error => "error"@,
    }
}

impl MessageKey {
    /// The catalog key of this message.
    pub fn as_str(self) -> (r: &'static str)
        ensures
            r@ == message_id(self),
    {
        match self {
            MessageKey::File => "file",
            MessageKey::Edit => "edit",
            MessageKey::View => "view",
            MessageKey::Help => "help",
            MessageKey::AboutPulp => "about_pulp",
            MessageKey::OpenArchive => "open_archive",
            MessageKey::NewArchive => "new_archive",
            MessageKey::ExtractTo => "extract_to",
            MessageKey::Test => "test",
            MessageKey::CloseArchive => "close_archive",
            MessageKey::CancelOperation => "cancel_operation",
            MessageKey::SelectAll => "select_all",
            MessageKey::OpenSettings => "open_settings",
            MessageKey::Back => "back",
            MessageKey::RestoreDefaults => "restore_defaults",
            MessageKey::QuickExtract => "quick_extract",
            MessageKey::StopOperation => "stop_operation",
            MessageKey::SearchSettings => "search_settings",
            MessageKey::OpenOrCreateArchive => "open_or_create_archive",
            MessageKey::DropArchiveHere => "drop_archive_here",
            MessageKey::Ready => "ready",
            MessageKey::NoArchiveOpen => "no_archive_open",
            MessageKey::OpeningArchive => "opening_archive",
            MessageKey::ArchiveOpened => "archive_opened",
            MessageKey::ExtractionCompleted => "extraction_completed",
            MessageKey::CreationCompleted => "creation_completed",
            MessageKey::TestCompleted => "test_completed",
            MessageKey::OperationCancelled => "operation_cancelled",
            MessageKey::Processing => "processing",
            MessageKey::Extracting => "extracting",
            MessageKey::Creating => "creating",
            MessageKey::Testing => "testing",
            MessageKey::Name => "name",
            MessageKey::Size => "size",
            MessageKey::PackedSize => "packed_size",
            MessageKey::Type => "type",
            MessageKey::Directory => "directory",
            MessageKey::FileEntry => "file_entry",
            MessageKey::SymbolicLink => "symbolic_link",
            MessageKey::HardLink => "hard_link",
            MessageKey::SpecialFile => "special_file",
            MessageKey::Objects => "objects",
            MessageKey::EmptyArchive => "empty_archive",
            MessageKey::General => "general",
            MessageKey::Compression => "compression",
            MessageKey::Extraction => "extraction",
            MessageKey::Security => "security",
            MessageKey::Other => "other",
            MessageKey::Theme => "theme",
            MessageKey::Language => "language",
            MessageKey::System => "system",
            MessageKey::Light => "light",
            MessageKey::Dark => "dark",
            MessageKey::English => "english",
            MessageKey::SimplifiedChinese => "simplified_chinese",
            MessageKey::DefaultListMode => "default_list_mode",
            MessageKey::CompactLayout => "compact_layout",
            MessageKey::Details => "details",
            MessageKey::List => "list",
            MessageKey::ShowFolderPane => "show_folder_pane",
            MessageKey::ShowArchivePath => "show_archive_path",
            MessageKey::SmartExtraction => "smart_extraction",
            MessageKey::RestoreMetadata => "restore_metadata",
            MessageKey::OverwritePolicy => "overwrite_policy",
            MessageKey::AskBeforeReplacing => "ask_before_replacing",
            MessageKey::ReplaceExisting => "replace_existing",
            MessageKey::SkipExisting => "skip_existing",
            MessageKey::RejectLinks => "reject_links",
            MessageKey::DefaultFormat => "default_format",
            MessageKey::CompressionLevel => "compression_level",
            MessageKey::CompressionMethod => "compression_method",
            MessageKey::ProviderDefault => "provider_default",
            MessageKey::TestAfterCreate => "test_after_create",
            MessageKey::SettingsSaved => "settings_saved",
            MessageKey::SelectDestination => "select_destination",
            MessageKey::SourcePaths => "source_paths",
            MessageKey::PasswordRequired => "password_required",
            MessageKey::PasswordPrompt => "password_prompt",
            MessageKey::WrongPassword => "wrong_password",
            MessageKey::Warning => "warning",
            MessageKey::Error => "error",
        }
    }
}

/// The text an association list gives `key`: the first pair with that key.
pub open spec fn lookup(pairs: Seq<(String, String)>, key: Seq<char>) -> Option<Seq<char>>
    decreases pairs.len(),
{
    if pairs.len() == 0 {
        None
    } else if pairs[0].0@ == key {
        Some(pairs[0].1@)
    } else {
        lookup(pairs.drop_first(), key)
    }
}

/// The mapping that `serde_yaml::from_str::<HashMap<String, String>>` reads
/// from a document, or `None` when it refuses the document.
pub uninterp spec fn yaml_catalog(source: Seq<char>) -> Option<Map<Seq<char>, Seq<char>>>;

/// `pairs` holds exactly the entries of `m`.
pub open spec fn pairs_hold(pairs: Seq<(String, String)>, m: Map<Seq<char>, Seq<char>>) -> bool {
    forall|k: Seq<char>|
        #![trigger lookup(pairs, k)]
        (lookup(pairs, k) is Some <==> m.dom().contains(k)) && (lookup(pairs, k) matches Some(t) ==> t == m[k])
}

/// Reads a YAML mapping of strings, as `serde_yaml::from_str` into a
/// `HashMap<String, String>`, and lists its entries. The order of the list
/// is the hash map's and is not stated.
#[verifier::external_body]
fn read_yaml_catalog(source: &str) -> (r: Option<Vec<(String, String)>>)
    ensures
        match yaml_catalog(source@) {
            None => r is None,
            Some(m) => r matches Some(v) && pairs_hold(v@, m),
        },
{
    match serde_yaml::from_str::<HashMap<String, String>>(source) {
        Ok(map) => Some(map.into_iter().collect()),
        Err(_) => None,
    }
}

/// A localized message catalog with its English fallback.
#[derive(Debug)]
pub struct I18n {
    messages: Vec<(String, String)>,
    fallback: Vec<(String, String)>,
}

fn copy_pairs(v: &Vec<(String, String)>) -> (r: Vec<(String, String)>)
    ensures
        r@ == v@,
{
    let mut out: Vec<(String, String)> = Vec::new();
    let mut i: usize = 0;
    while i < v.len()
        invariant
            i <= v.len(),
            out@ == v@.take(i as int),
        decreases v.len() - i,
    {
        let (a, b) = &v[i];
        out.push((a.clone(), b.clone()));
        i = i + 1;
        assert(out@ =~= v@.take(i as int));
    }
    assert(v@.take(i as int) =~= v@);
    out
}

fn find_text(pairs: &Vec<(String, String)>, key: &str) -> (r: Option<String>)
    ensures
        match lookup(pairs@, key@) {
            Some(t) => r matches Some(s) && s@ == t,
            None => r is None,
        },
{
    let mut i: usize = 0;
    assert(pairs@.subrange(0, pairs@.len() as int) =~= pairs@);
    while i < pairs.len()
        invariant
            i <= pairs.len(),
            lookup(pairs@, key@) == lookup(pairs@.subrange(i as int, pairs@.len() as int), key@),
        decreases pairs.len() - i,
    {
        let ghost rest = pairs@.subrange(i as int, pairs@.len() as int);
        assert(rest.drop_first() =~= pairs@.subrange(i as int + 1, pairs@.len() as int));
        if str_eq(pairs[i].0.as_str(), key) {
            return Some(pairs[i].1.clone());
        }
        i = i + 1;
    }
    None
}

impl I18n {
    /// The catalog of the chosen locale.
    pub closed spec fn messages_view(&self) -> Seq<(String, String)> {
        self.messages@
    }

    /// The English catalog.
    pub closed spec fn fallback_view(&self) -> Seq<(String, String)> {
        self.fallback@
    }

    /// The text shown for `key`: the locale's message, else the English
    /// one, else the key with underscores turned into spaces.
    pub open spec fn text_of(&self, key: MessageKey) -> Seq<char> {
        match lookup(self.messages_view(), message_id(key)) {
            Some(t) => t,
            None => match lookup(self.fallback_view(), message_id(key)) {
                Some(t) => t,
                None => replace_char(message_id(key), '_', ' '),
            },
        }
    }

    /// Loads the catalogs of a locale from the English and Chinese YAML
    /// documents; `None` when a needed document is not a mapping of strings.
    pub fn from_sources(locale: Locale, english: &str, chinese: &str) -> (r: Option<I18n>)
        ensures
            match yaml_catalog(english@) {
                None => r is None,
                Some(en) => match locale {
                    Locale::En => r matches Some(c) && pairs_hold(c.messages_view(), en) && pairs_hold(c.fallback_view(), en),
                    Locale::ZhCn => match yaml_catalog(chinese@) {
                        None => r is None,
                        Some(zh) => r matches Some(c) && pairs_hold(c.messages_view(), zh) && pairs_hold(c.fallback_view(), en),
                    },
                },
            },
    {
        let fallback = match read_yaml_catalog(english) {
            Some(v) => v,
            None => {
                return None;
            },
        };
        let messages = match locale {
            Locale::En => copy_pairs(&fallback),
            Locale::ZhCn => match read_yaml_catalog(chinese) {
                Some(v) => v,
                None => {
                    return None;
                },
            },
        };
        Some(I18n { messages, fallback })
    }

    /// Resolves a message key, falling back to English, and then to the key
    /// with its underscores turned into spaces.
    pub fn text(&self, key: MessageKey) -> (r: String)
        ensures
            r@ == self.text_of(key),
    {
        let id = key.as_str();
        match find_text(&self.messages, id) {
            Some(t) => t,
            None => match find_text(&self.fallback, id) {
                Some(t) => t,
                None => string_of(&replace_chars(&chars_of(id), '_', ' ')),
            },
        }
    }
}

impl Clone for I18n {
    fn clone(&self) -> (r: Self)
        ensures
            r.messages_view() == self.messages_view(),
            r.fallback_view() == self.fallback_view(),
    {
        I18n { messages: copy_pairs(&self.messages), fallback: copy_pairs(&self.fallback) }
    }
}

} // verus!
