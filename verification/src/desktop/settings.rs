//! The desktop application's preferences and their checks.

use vstd::prelude::*;

use crate::filesystem::OverwritePolicy;
use crate::limits::ResourceLimits;
use crate::policy::{ExtractionPolicy, LinkPolicy, MetadataPolicy, SpecialFilePolicy};
use crate::text::{chars_of, owned, trim, trim_chars};

verus! {

#[verifier::external_type_specification]
#[verifier::external_body]
pub struct ExTomlDeError(toml::de::Error);

#[verifier::external_type_specification]
#[verifier::external_body]
pub struct ExTomlSerError(toml::ser::Error);

/// The settings schema this version reads and writes.
pub const SCHEMA_VERSION: u32 = 1;

/// The largest accepted path limit.
pub const MAX_PATH_LIMIT: u64 = 16384;

/// Theme selected by the user.
#[derive(Clone, Copy, Debug, PartialEq, Eq, Structural)]
pub enum ThemePreference {
    /// Follow the system appearance.
    System,
    /// Always use the light theme.
    Light,
    /// Always use the dark theme.
    Dark,
}

/// Language selected by the user.
#[derive(Clone, Copy, Debug, PartialEq, Eq, Structural)]
pub enum LanguagePreference {
    /// Follow the system locale.
    System,
    /// Use English.
    English,
    /// Use Simplified Chinese.
    ZhCn,
}

/// Archive list layout.
#[derive(Clone, Copy, Debug, PartialEq, Eq, Structural)]
pub enum ListMode {
    /// Show only names.
    List,
    /// Show name, unpacked size, packed size and type.
    Details,
}

/// Existing-path behavior during extraction.
#[derive(Clone, Copy, Debug, PartialEq, Eq, Structural)]
pub enum OverwriteSetting {
    /// Ask by refusing the operation until the caller chooses a policy.
    Error,
    /// Replace regular files and links.
    Replace,
    /// Leave existing paths untouched.
    Skip,
}

impl Default for ThemePreference {
    fn default() -> (r: Self)
        ensures
            r == ThemePreference::System,
    {
        ThemePreference::System
    }
}

impl Default for LanguagePreference {
    fn default() -> (r: Self)
        ensures
            r == LanguagePreference::System,
    {
        LanguagePreference::System
    }
}

impl Default for ListMode {
    fn default() -> (r: Self)
        ensures
            r == ListMode::Details,
    {
        ListMode::Details
    }
}

impl Default for OverwriteSetting {
    fn default() -> (r: Self)
        ensures
            r == OverwriteSetting::Error,
    {
        OverwriteSetting::Error
    }
}

/// UI presentation preferences.
#[derive(Clone, Copy, Debug, PartialEq, Eq, Structural)]
pub struct UiSettings {
    /// Theme selection.
    pub theme: ThemePreference,
    /// Locale selection.
    pub language: LanguagePreference,
    /// Use shorter archive rows.
    pub compact_layout: bool,
    /// Keep the archive's host path in the breadcrumb.
    pub show_archive_path: bool,
    /// Show the resizable folder tree beside the entry list.
    pub show_folder_pane: bool,
    /// Initial list presentation.
    pub list_mode: ListMode,
}

impl Default for UiSettings {
    fn default() -> (r: Self)
        ensures
            r == (UiSettings {
                theme: ThemePreference::System,
                language: LanguagePreference::System,
                compact_layout: false,
                show_archive_path: true,
                show_folder_pane: true,
                list_mode: ListMode::Details,
            }),
    {
        UiSettings {
            theme: ThemePreference::System,
            language: LanguagePreference::System,
            compact_layout: false,
            show_archive_path: true,
            show_folder_pane: true,
            list_mode: ListMode::Details,
        }
    }
}

/// Defaults for archive creation.
#[derive(Debug, PartialEq, Eq)]
pub struct ArchiveSettings {
    /// Handler identifier used when the output extension is not decisive.
    pub default_format: String,
    /// Optional provider compression method.
    pub compression_method: Option<String>,
    /// Compression level from 0 to 9.
    pub compression_level: u8,
    /// Verify the archive after creation.
    pub test_after_create: bool,
}

impl Clone for ArchiveSettings {
    fn clone(&self) -> (r: Self)
        ensures
            r == *self,
    {
        ArchiveSettings {
            default_format: self.default_format.clone(),
            compression_method: crate::entry::copy_opt_string(&self.compression_method),
            compression_level: self.compression_level,
            test_after_create: self.test_after_create,
        }
    }
}

impl Default for ArchiveSettings {
    fn default() -> (r: Self)
        ensures
            r.default_format@ == "zip"@,
            r.compression_method is None,
            r.compression_level == 5,
            r.test_after_create,
    {
        ArchiveSettings {
            default_format: owned("zip"),
            compression_method: None,
            compression_level: 5,
            test_after_create: true,
        }
    }
}

/// Extraction preferences.
#[derive(Clone, Copy, Debug, PartialEq, Eq, Structural)]
pub struct ExtractionSettings {
    /// Choose a safe, predictable directory from archive contents.
    pub smart: bool,
    /// Behavior when a destination already exists.
    pub overwrite: OverwriteSetting,
    /// Restore safe timestamps and POSIX modes.
    pub restore_metadata: bool,
}

impl Default for ExtractionSettings {
    fn default() -> (r: Self)
        ensures
            r == (ExtractionSettings { smart: true, overwrite: OverwriteSetting::Error, restore_metadata: true }),
    {
        ExtractionSettings { smart: true, overwrite: OverwriteSetting::Error, restore_metadata: true }
    }
}

/// Extraction safety settings.
#[derive(Clone, Copy, Debug, PartialEq, Eq, Structural)]
pub struct SecuritySettings {
    /// Reject symbolic and hard links.
    pub reject_links: bool,
    /// Maximum number of entries.
    pub max_entries: u64,
    /// Maximum unpacked size of one entry.
    pub max_entry_bytes: u64,
    /// Maximum total unpacked bytes.
    pub max_total_bytes: u64,
    /// Maximum UTF-8 path bytes.
    pub max_path_bytes: u64,
    /// Maximum path depth.
    pub max_depth: u64,
}

/// The default safety settings.
pub open spec fn default_security() -> SecuritySettings {
    SecuritySettings {
        reject_links: true,
        max_entries: 1000000,
        max_entry_bytes: 17179869184,
        max_total_bytes: 68719476736,
        max_path_bytes: 16384,
        max_depth: 1024,
    }
}

impl Default for SecuritySettings {
    fn default() -> (r: Self)
        ensures
            r == default_security(),
    {
        SecuritySettings {
            reject_links: true,
            max_entries: 1000000,
            max_entry_bytes: 17179869184,
            max_total_bytes: 68719476736,
            max_path_bytes: 16384,
            max_depth: 1024,
        }
    }
}

/// Complete persisted desktop configuration.
#[derive(Debug, PartialEq, Eq)]
pub struct SettingsFile {
    /// Schema version used to validate future migrations.
    pub schema_version: u32,
    /// Presentation preferences.
    pub ui: UiSettings,
    /// Archive creation defaults.
    pub archive: ArchiveSettings,
    /// Extraction behavior.
    pub extraction: ExtractionSettings,
    /// Safety limits and link policy.
    pub security: SecuritySettings,
}

impl Clone for SettingsFile {
    fn clone(&self) -> (r: Self)
        ensures
            r == *self,
    {
        SettingsFile {
            schema_version: self.schema_version,
            ui: self.ui,
            archive: self.archive.clone(),
            extraction: self.extraction,
            security: self.security,
        }
    }
}

/// The shipped defaults.
pub open spec fn is_default_settings(s: SettingsFile) -> bool {
    &&& s.schema_version == SCHEMA_VERSION
    &&& s.archive.default_format@ == "zip"@
    &&& s.archive.compression_method is None
    &&& s.archive.compression_level == 5
    &&& s.archive.test_after_create
    &&& s.extraction == (ExtractionSettings { smart: true, overwrite: OverwriteSetting::Error, restore_metadata: true })
    &&& s.security == default_security()
}

impl Default for SettingsFile {
    fn default() -> (r: Self)
        ensures
            is_default_settings(r),
    {
        SettingsFile {
            schema_version: SCHEMA_VERSION,
            ui: UiSettings::default(),
            archive: ArchiveSettings::default(),
            extraction: ExtractionSettings::default(),
            security: SecuritySettings::default(),
        }
    }
}

/// Failure while reading or writing settings.
#[derive(Debug)]
pub enum SettingsError {
    /// The settings file could not be read or written.
    Io(std::io::Error),
    /// The TOML document was invalid.
    Parse(toml::de::Error),
    /// The settings value could not be serialized.
    Serialize(toml::ser::Error),
    /// A future schema was encountered.
    UnsupportedSchema(u32),
    /// A setting violates its documented range.
    InvalidValue(String),
}

/// ASCII letter or digit.
pub open spec fn is_ascii_alnum(c: char) -> bool {
    ('a' <= c && c <= 'z') || ('A' <= c && c <= 'Z') || ('0' <= c && c <= '9')
}

/// A handler identifier: not blank, made of ASCII letters, digits and `-`.
pub open spec fn is_handler_identifier(s: Seq<char>) -> bool {
    trim(s).len() > 0 && forall|i: int| 0 <= i < s.len() ==> is_ascii_alnum(#[trigger] s[i]) || s[i] == '-'
}

/// The safety limits are positive and the path limit is at most 16384.
pub open spec fn limits_in_range(s: SecuritySettings) -> bool {
    s.max_entries != 0 && s.max_entry_bytes != 0 && s.max_total_bytes != 0 && s.max_path_bytes != 0
        && s.max_path_bytes <= MAX_PATH_LIMIT && s.max_depth != 0
}

/// The message for an out-of-range compression level.
pub open spec fn level_range_text() -> Seq<char> {
    "archive.compression_level must be between 0 and 9"@
}

/// The message for a default format that is no identifier.
pub open spec fn format_identifier_text() -> Seq<char> {
    "archive.default_format must be a handler identifier"@
}

/// The message for limits out of range.
pub open spec fn limits_range_text() -> Seq<char> {
    "security limits must be positive and max_path_bytes must not exceed 16384"@
}

/// The first problem of some settings: the schema, the level, the default
/// format, the limits, in that order.
pub open spec fn settings_problem(s: SettingsFile) -> Option<Result<u32, Seq<char>>> {
    if s.schema_version != SCHEMA_VERSION {
        Some(Ok(s.schema_version))
    } else if s.archive.compression_level > 9 {
        Some(Err(level_range_text()))
    } else if !is_handler_identifier(s.archive.default_format@) {
        Some(Err(format_identifier_text()))
    } else if !limits_in_range(s.security) {
        Some(Err(limits_range_text()))
    } else {
        None
    }
}

fn identifier_chars(v: &[char]) -> (r: bool)
    ensures
        r == forall|i: int| 0 <= i < v@.len() ==> is_ascii_alnum(#[trigger] v@[i]) || v@[i] == '-',
{
    let mut i: usize = 0;
    while i < v.len()
        invariant
            i <= v.len(),
            forall|j: int| 0 <= j < i ==> is_ascii_alnum(#[trigger] v@[j]) || v@[j] == '-',
        decreases v.len() - i,
    {
        let c = v[i];
        if !((c >= 'a' && c <= 'z') || (c >= 'A' && c <= 'Z') || (c >= '0' && c <= '9') || c == '-') {
            assert(!(is_ascii_alnum(v@[i as int]) || v@[i as int] == '-'));
            return false;
        }
        i = i + 1;
    }
    true
}

impl SettingsFile {
    /// Validates values consumed by the archive library.
    pub fn validate(&self) -> (r: Result<(), SettingsError>)
        ensures
            match settings_problem(*self) {
                None => r is Ok,
                Some(Ok(v)) => r matches Err(SettingsError::UnsupportedSchema(x)) && x == v,
                Some(Err(m)) => r matches Err(SettingsError::InvalidValue(x)) && x@ == m,
            },
    {
        if self.schema_version != SCHEMA_VERSION {
            return Err(SettingsError::UnsupportedSchema(self.schema_version));
        }
        if self.archive.compression_level > 9 {
            return Err(SettingsError::InvalidValue(owned("archive.compression_level must be between 0 and 9")));
        }
        let chars = chars_of(self.archive.default_format.as_str());
        let trimmed = trim_chars(&chars);
        if trimmed.len() == 0 || !identifier_chars(&chars) {
            return Err(SettingsError::InvalidValue(owned("archive.default_format must be a handler identifier")));
        }
        let s = &self.security;
        if s.max_entries == 0 || s.max_entry_bytes == 0 || s.max_total_bytes == 0 || s.max_path_bytes == 0
            || s.max_path_bytes > MAX_PATH_LIMIT || s.max_depth == 0 {
            return Err(SettingsError::InvalidValue(owned(
                "security limits must be positive and max_path_bytes must not exceed 16384",
            )));
        }
        Ok(())
    }

    /// Converts the settings into core resource limits.
    pub fn resource_limits(&self) -> (r: ResourceLimits)
        ensures
            r.max_entries == self.security.max_entries,
            r.max_entry_bytes == self.security.max_entry_bytes,
            r.max_total_bytes == self.security.max_total_bytes,
            r.max_path_bytes == self.security.max_path_bytes as usize,
            r.max_depth == self.security.max_depth as usize,
    {
        #[verifier::truncate]
        let path = self.security.max_path_bytes as usize;
        #[verifier::truncate]
        let depth = self.security.max_depth as usize;
        ResourceLimits {
            max_entries: self.security.max_entries,
            max_entry_bytes: self.security.max_entry_bytes,
            max_total_bytes: self.security.max_total_bytes,
            max_path_bytes: path,
            max_depth: depth,
        }
    }

    /// Converts the settings into the core extraction policy.
    pub fn extraction_policy(&self) -> (r: ExtractionPolicy)
        ensures
            r.links == (if self.security.reject_links { LinkPolicy::Reject } else { LinkPolicy::Preserve }),
            r.special_files == SpecialFilePolicy::Reject,
            r.metadata == (if self.extraction.restore_metadata { MetadataPolicy::RestoreSafe } else { MetadataPolicy::Ignore }),
    {
        ExtractionPolicy {
            links: if self.security.reject_links { LinkPolicy::Reject } else { LinkPolicy::Preserve },
            special_files: SpecialFilePolicy::Reject,
            metadata: if self.extraction.restore_metadata { MetadataPolicy::RestoreSafe } else { MetadataPolicy::Ignore },
        }
    }

    /// Converts the saved overwrite preference into the filesystem policy.
    pub fn overwrite_policy(&self) -> (r: OverwritePolicy)
        ensures
            r == match self.extraction.overwrite {
                OverwriteSetting::Error => OverwritePolicy::Error,
                OverwriteSetting::Replace => OverwritePolicy::Replace,
                OverwriteSetting::Skip => OverwritePolicy::Skip,
            },
    {
        match self.extraction.overwrite {
            OverwriteSetting::Error => OverwritePolicy::Error,
            OverwriteSetting::Replace => OverwritePolicy::Replace,
            OverwriteSetting::Skip => OverwritePolicy::Skip,
        }
    }
}

/// The shipped defaults pass validation, so a missing settings file never
/// yields settings that `validate` refuses.
pub proof fn law_defaults_are_valid(s: SettingsFile)
    requires
        is_default_settings(s),
    ensures
        settings_problem(s) is None,
{
    reveal_strlit("zip");
    assert(trim("zip"@) == "zip"@) by {
        assert(!crate::text::is_white('z'));
        assert(!crate::text::is_white('p'));
    }
}

} // verus!
