//! Locale selection for the command-line application.

use vstd::prelude::*;

use crate::text::{has_prefix, replace_char, replace_chars, str_eq, string_of, trim, trim_chars, chars_of, starts_with};

verus! {

/// Locales the command line can be switched to.
#[derive(Clone, Copy, Debug, PartialEq, Eq, Structural)]
pub enum CliLocale {
    /// Follow the system locale.
    System,
    /// English.
    En,
    /// Simplified Chinese (zh-CN).
    ZhCn,
}

/// The text that `str::to_lowercase` makes of a string.
pub uninterp spec fn unicode_lowercase(s: Seq<char>) -> Seq<char>;

/// Lower-cases by the Unicode rules, as `str::to_lowercase`.
#[verifier::external_body]
pub(crate) fn to_lowercase(s: &str) -> (r: String)
    ensures
        r@ == unicode_lowercase(s@),
{
    s.to_lowercase()
}

/// The normalized form of a locale tag: trimmed, underscores turned into
/// hyphens, lower-cased.
pub open spec fn normalized_tag(input: Seq<char>) -> Seq<char> {
    unicode_lowercase(replace_char(trim(input), '_', '-'))
}

/// Normalizes a locale tag for matching.
pub fn normalize_locale_tag(input: &str) -> (r: String)
    ensures
        r@ == normalized_tag(input@),
{
    let replaced = string_of(&replace_chars(&trim_chars(&chars_of(input)), '_', '-'));
    to_lowercase(replaced.as_str())
}

/// The locale named by a normalized tag.
pub open spec fn locale_of_tag(norm: Seq<char>) -> Option<CliLocale> {
    if norm == "system"@ || norm == "auto"@ {
        Some(CliLocale::System)
    } else if norm == "en"@ || norm == "en-us"@ {
        Some(CliLocale::En)
    } else if norm == "zh"@ || norm == "zh-cn"@ || norm == "zh-hans"@ {
        Some(CliLocale::ZhCn)
    } else {
        None
    }
}

/// Parses a locale argument: "system" or "auto", "en" or "en-us", "zh",
/// "zh-cn" or "zh-hans", in any case and with `_` for `-`.
pub fn parse_locale_arg(s: &str) -> (r: Option<CliLocale>)
    ensures
        r == locale_of_tag(normalized_tag(s@)),
{
    let norm = normalize_locale_tag(s);
    let n = norm.as_str();
    if str_eq(n, "system") || str_eq(n, "auto") {
        Some(CliLocale::System)
    } else if str_eq(n, "en") || str_eq(n, "en-us") {
        Some(CliLocale::En)
    } else if str_eq(n, "zh") || str_eq(n, "zh-cn") || str_eq(n, "zh-hans") {
        Some(CliLocale::ZhCn)
    } else {
        None
    }
}

/// The supported locale for the system's locale tag: Chinese tags give
/// "zh-CN", everything else, or no tag, "en".
pub open spec fn system_choice(raw: Option<Seq<char>>) -> Seq<char> {
    match raw {
        None => "en"@,
        Some(t) => {
            let norm = normalized_tag(t);
            if norm == "zh"@ || norm == "zh-cn"@ || norm == "zh-hans"@ {
                "zh-CN"@
            } else if norm == "en"@ || norm == "en-us"@ {
                "en"@
            } else if has_prefix(norm, "zh"@) {
                "zh-CN"@
            } else {
                "en"@
            }
        },
    }
}

/// Maps the system's locale tag to a supported locale.
pub fn system_locale_choice(raw: Option<&str>) -> (r: &'static str)
    ensures
        r@ == system_choice(match raw {
            Some(t) => Some(t@),
            None => None,
        }),
{
    let t = match raw {
        None => {
            return "en";
        },
        Some(t) => t,
    };
    let norm = normalize_locale_tag(t);
    let n = norm.as_str();
    if str_eq(n, "zh") || str_eq(n, "zh-cn") || str_eq(n, "zh-hans") {
        "zh-CN"
    } else if str_eq(n, "en") || str_eq(n, "en-us") {
        "en"
    } else if starts_with(&chars_of(n), &chars_of("zh")) {
        "zh-CN"
    } else {
        "en"
    }
}

/// The system's locale tag, as `sys_locale::get_locale`. It depends on the
/// environment: nothing is stated of it.
#[verifier::external_body]
fn system_locale_tag() -> Option<String> {
    sys_locale::get_locale()
}

/// Selects the supported locale that follows the system.
pub fn select_system_locale_supported() -> (r: &'static str)
    ensures
        r@ == "en"@ || r@ == "zh-CN"@,
{
    let raw = system_locale_tag();
    match &raw {
        Some(t) => system_locale_choice(Some(t.as_str())),
        None => system_locale_choice(None),
    }
}

/// The locale that a choice puts into effect, given the system's tag for
/// `System`.
pub fn locale_for_choice(choice: CliLocale, system: Option<&str>) -> (r: &'static str)
    ensures
        choice == CliLocale::En ==> r@ == "en"@,
        choice == CliLocale::ZhCn ==> r@ == "zh-CN"@,
        choice == CliLocale::System ==> r@ == system_choice(match system {
            Some(t) => Some(t@),
            None => None,
        }),
{
    match choice {
        CliLocale::En => "en",
        CliLocale::ZhCn => "zh-CN",
        CliLocale::System => system_locale_choice(system),
    }
}

} // verus!
