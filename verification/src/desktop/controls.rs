//! The logic of the desktop controls: the breadcrumb above the archive
//! list, the compression level field and the settings search.

use vstd::prelude::*;

use crate::cli::{bounded_digits, digits_value};
use crate::desktop::browser::{joined, push_component};
use crate::desktop::archive::FormatOption;
use crate::desktop::i18n::{I18n, MessageKey};
use crate::desktop::settings::{LanguagePreference, ListMode, OverwriteSetting, ThemePreference};
use crate::desktop::workspace::{find_option, option_index};
use crate::entry::{split_components, split_text};
use crate::locale::{to_lowercase, unicode_lowercase};
use crate::text::{all_digits, chars_of, owned, str_eq, views};

verus! {

/// The non-empty components of a folder path.
pub open spec fn path_parts(prefix: Seq<char>) -> Seq<Seq<char>> {
    split_components(prefix).filter(|c: Seq<char>| c.len() > 0)
}

/// One step of the breadcrumb.
#[derive(Debug)]
pub struct Crumb {
    /// What the step shows.
    pub label: String,
    /// The folder it opens; empty for the archive's root.
    pub target: String,
    /// Whether it is the folder on display.
    pub current: bool,
}

/// The breadcrumb of the folder `prefix`: the archive, current at the root,
/// then one step per non-empty component, opening the path up to it.
pub fn breadcrumb(archive_label: &str, prefix: &str) -> (r: Vec<Crumb>)
    ensures
        r@.len() == path_parts(prefix@).len() + 1,
        r@[0].label@ == archive_label@,
        r@[0].target@ == Seq::<char>::empty(),
        r@[0].current == (prefix@.len() == 0),
        forall|k: int| 0 <= k < path_parts(prefix@).len() ==> {
            &&& #[trigger] r@[k + 1].label@ == path_parts(prefix@)[k]
            &&& r@[k + 1].target@ == joined(path_parts(prefix@).take(k + 1))
            &&& !r@[k + 1].current
        },
{
    broadcast use Seq::lemma_filter_push;
    let parts = split_text(prefix);
    let ghost cs = split_components(prefix@);
    let ghost pred = |c: Seq<char>| c.len() > 0;
    let mut out: Vec<Crumb> = Vec::new();
    out.push(Crumb { label: owned(archive_label), target: String::new(), current: chars_of(prefix).len() == 0 });
    let mut current = String::new();
    let mut i: usize = 0;
    proof {
        reveal(Seq::filter);
        assert(cs.take(0) =~= Seq::<Seq<char>>::empty());
        assert(cs.take(0).filter(pred) =~= Seq::<Seq<char>>::empty());
        assert(Seq::<Seq<char>>::empty().take(0) =~= Seq::<Seq<char>>::empty());
    }
    while i < parts.len()
        invariant
            i <= parts.len(),
            parts@.len() == cs.len(),
            cs == split_components(prefix@),
            pred == (|c: Seq<char>| c.len() > 0),
            forall|k: int| 0 <= k < parts@.len() ==> #[trigger] parts@[k]@ == cs[k],
            out@.len() == cs.take(i as int).filter(pred).len() + 1,
            out@[0].label@ == archive_label@,
            out@[0].target@ == Seq::<char>::empty(),
            out@[0].current == (prefix@.len() == 0),
            current@ == joined(cs.take(i as int).filter(pred)),
            forall|k: int| 0 <= k < cs.take(i as int).filter(pred).len() ==> {
                &&& #[trigger] out@[k + 1].label@ == cs.take(i as int).filter(pred)[k]
                &&& out@[k + 1].target@ == joined(cs.take(i as int).filter(pred).take(k + 1))
                &&& !out@[k + 1].current
            },
        decreases parts.len() - i,
    {
        let ghost kept = cs.take(i as int).filter(pred);
        let ghost before = out@;
        assert(cs.take(i + 1) =~= cs.take(i as int).push(cs[i as int]));
        proof {
            cs.take(i as int).lemma_filter_push(cs[i as int], pred);
            assert(parts@[i as int]@ == cs[i as int]);
        }
        if chars_of(parts[i].as_str()).len() > 0 {
            assert(pred(cs[i as int]));
            assert(cs.take(i + 1).filter(pred) == kept.push(cs[i as int]));
            assert(kept.push(cs[i as int]).take(kept.len() as int) =~= kept);
            push_component(&mut current, parts[i].as_str(), Ghost(kept));
            assert(kept.push(cs[i as int]).take(kept.len() as int + 1) =~= kept.push(cs[i as int]));
            out.push(Crumb { label: parts[i].clone(), target: current.clone(), current: false });
            proof {
                assert forall|k: int| 0 <= k < kept.len() + 1 implies {
                    &&& #[trigger] out@[k + 1].label@ == kept.push(cs[i as int])[k]
                    &&& out@[k + 1].target@ == joined(kept.push(cs[i as int]).take(k + 1))
                    &&& !out@[k + 1].current
                } by {
                    if k < kept.len() {
                        assert(out@[k + 1] == before[k + 1]);
                        assert(kept.push(cs[i as int]).take(k + 1) =~= kept.take(k + 1));
                    }
                }
                let grown = cs.take(i + 1).filter(pred);
                assert(grown == kept.push(cs[i as int]));
                assert forall|k: int| 0 <= k < grown.len() implies {
                    &&& #[trigger] out@[k + 1].label@ == grown[k]
                    &&& out@[k + 1].target@ == joined(grown.take(k + 1))
                    &&& !out@[k + 1].current
                } by {
                    assert(out@[k + 1].label@ == kept.push(cs[i as int])[k]);
                }
            }
        } else {
            assert(!pred(cs[i as int]));
            assert(cs.take(i + 1).filter(pred) == kept);
            assert forall|k: int| 0 <= k < cs.take(i + 1).filter(pred).len() implies {
                &&& #[trigger] out@[k + 1].label@ == cs.take(i + 1).filter(pred)[k]
                &&& out@[k + 1].target@ == joined(cs.take(i + 1).filter(pred).take(k + 1))
                &&& !out@[k + 1].current
            } by {
                assert(out@[k + 1].label@ == kept[k]);
            }
        }
        i = i + 1;
    }
    proof {
        assert(cs.take(parts.len() as int) =~= cs);
    }
    out
}

/// What `u8::from_str` accepts: an optional `+` and at least one decimal
/// digit, with a value that fits.
pub open spec fn parsed_u8(s: Seq<char>) -> Option<u8> {
    let d = if s.len() > 0 && s[0] == '+' {
        s.drop_first()
    } else {
        s
    };
    if d.len() > 0 && all_digits(d) && digits_value(d) <= u8::MAX {
        Some(digits_value(d) as u8)
    } else {
        None
    }
}

/// What `i16::from_str` accepts: an optional `+` or `-` and at least one
/// decimal digit, with a value that fits.
pub open spec fn parsed_i16(s: Seq<char>) -> Option<i16> {
    if s.len() > 0 && s[0] == '-' {
        let d = s.drop_first();
        if d.len() > 0 && all_digits(d) && digits_value(d) <= 32768 {
            Some((0 - digits_value(d)) as i16)
        } else {
            None
        }
    } else {
        let d = if s.len() > 0 && s[0] == '+' {
            s.drop_first()
        } else {
            s
        };
        if d.len() > 0 && all_digits(d) && digits_value(d) <= 32767 {
            Some(digits_value(d) as i16)
        } else {
            None
        }
    }
}

/// Parses a decimal `u8`, as `str::parse::<u8>`: an optional `+` sign
/// followed by digits, the value at most 255.
fn parse_u8(s: &str) -> (r: Option<u8>)
    ensures
        r == parsed_u8(s@),
{
    let v = chars_of(s);
    let start: usize = if v.len() > 0 && v[0] == '+' { 1 } else { 0 };
    assert(start == 1 ==> v@.subrange(1, v@.len() as int) =~= s@.drop_first());
    assert(start == 0 ==> v@.subrange(0, v@.len() as int) =~= s@);
    match bounded_digits(&v, start, 255) {
        Some(n) => Some(n as u8),
        None => None,
    }
}

/// Parses a decimal `i16`, as `str::parse::<i16>`: an optional `-` or `+`
/// sign followed by digits, the value within -32768 to 32767.
fn parse_i16(s: &str) -> (r: Option<i16>)
    ensures
        r == parsed_i16(s@),
{
    let v = chars_of(s);
    if v.len() > 0 && v[0] == '-' {
        assert(v@.subrange(1, v@.len() as int) =~= s@.drop_first());
        match bounded_digits(&v, 1, 32768) {
            Some(n) => Some((0i32 - (n as i32)) as i16),
            None => None,
        }
    } else {
        let start: usize = if v.len() > 0 && v[0] == '+' { 1 } else { 0 };
        assert(start == 1 ==> v@.subrange(1, v@.len() as int) =~= s@.drop_first());
        assert(start == 0 ==> v@.subrange(0, v@.len() as int) =~= s@);
        match bounded_digits(&v, start, 32767) {
            Some(n) => Some(n as i16),
            None => None,
        }
    }
}

/// The level a typed value sets: the number held at 9, or nothing for text
/// that is not a `u8`.
pub fn typed_level(text: &str) -> (r: Option<u8>)
    ensures
        r == match parsed_u8(text@) {
            Some(v) => Some(if v > 9 {
                9u8
            } else {
                v
            }),
            None => None::<u8>,
        },
{
    match parse_u8(text) {
        Some(v) => Some(if v > 9 { 9 } else { v }),
        None => None,
    }
}

/// The level after a step button: the typed value, or 0 when it is not an
/// `i16`, moved by `delta` and held between 0 and 9.
pub fn stepped_level(text: &str, delta: i8) -> (r: u8)
    ensures
        ({
            let current: int = match parsed_i16(text@) {
                Some(v) => v as int,
                None => 0,
            };
            let moved = current + delta;
            r == (if moved < 0 {
                0
            } else if moved > 9 {
                9
            } else {
                moved
            })
        }),
{
    let current: i16 = match parse_i16(text) {
        Some(v) => v,
        None => 0,
    };
    let moved: i32 = current as i32 + delta as i32;
    if moved < 0 {
        0
    } else if moved > 9 {
        9
    } else {
        moved as u8
    }
}

/// `s` holds `q` as a contiguous part.
pub open spec fn has_part(s: Seq<char>, q: Seq<char>) -> bool {
    exists|i: int| 0 <= i <= s.len() - q.len() && #[trigger] s.subrange(i, i + q.len()) == q
}

/// Whether `s` holds `q`, as `str::contains`.
fn contains_part(s: &[char], q: &[char]) -> (r: bool)
    ensures
        r == has_part(s@, q@),
{
    if q.len() > s.len() {
        return false;
    }
    let mut i: usize = 0;
    while i <= s.len() - q.len()
        invariant
            q.len() <= s.len(),
            i <= s.len() - q.len() + 1,
            forall|j: int| 0 <= j < i ==> #[trigger] s@.subrange(j, j + q@.len()) != q@,
        decreases s.len() - q.len() + 1 - i,
    {
        let mut k: usize = 0;
        while k < q.len() && s[i + k] == q[k]
            invariant
                q.len() <= s.len(),
                i <= s.len() - q.len(),
                k <= q.len(),
                forall|m: int| 0 <= m < k ==> s@[i + m] == q@[m],
            decreases q.len() - k,
        {
            k = k + 1;
        }
        if k == q.len() {
            assert(s@.subrange(i as int, i + q@.len()) =~= q@);
            return true;
        }
        assert(s@.subrange(i as int, i + q@.len())[k as int] != q@[k as int]);
        i = i + 1;
    }
    false
}

/// Whether a page shows for a search: every page for an empty query, else
/// a page one of whose labels, lower-cased, holds the query.
pub open spec fn section_shown(section: SettingsSection, query: Seq<char>, i18n: I18n) -> bool {
    query.len() == 0 || exists|k: int|
        0 <= k < section_labels(section).len() && has_part(
            unicode_lowercase(i18n.text_of(#[trigger] section_labels(section)[k])),
            query,
        )
}

/// The pages of the settings window, in the order of its sidebar.
pub open spec fn all_sections() -> Seq<SettingsSection> {
    seq![
        SettingsSection::General,
        SettingsSection::Compression,
        SettingsSection::Extraction,
        SettingsSection::Security,
        SettingsSection::Other,
    ]
}

/// A page of the settings window.
#[derive(Clone, Copy, Debug, PartialEq, Eq, Structural)]
pub enum SettingsSection {
    /// Appearance and layout.
    General,
    /// Archive creation.
    Compression,
    /// Extraction.
    Extraction,
    /// Safety limits.
    Security,
    /// Everything else.
    Other,
}

/// The labels a settings page holds.
pub open spec fn section_labels(section: SettingsSection) -> Seq<MessageKey> {
    match section {
        SettingsSection::General => seq![
            MessageKey::General,
            MessageKey::Theme,
            MessageKey::Language,
            MessageKey::CompactLayout,
            MessageKey::ShowFolderPane,
            MessageKey::ShowArchivePath,
            MessageKey::DefaultListMode,
        ],
        SettingsSection::Compression => seq![
            MessageKey::Compression,
            MessageKey::DefaultFormat,
            MessageKey::CompressionMethod,
            MessageKey::CompressionLevel,
            MessageKey::TestAfterCreate,
        ],
        SettingsSection::Extraction => seq![
            MessageKey::Extraction,
            MessageKey::SmartExtraction,
            MessageKey::RestoreMetadata,
            MessageKey::OverwritePolicy,
        ],
        SettingsSection::Security => seq![MessageKey::Security, MessageKey::RejectLinks],
        SettingsSection::Other => seq![MessageKey::Other, MessageKey::RestoreDefaults],
    }
}

impl SettingsSection {
    /// The labels of the page.
    pub fn labels(self) -> (r: Vec<MessageKey>)
        ensures
            r@ == section_labels(self),
    {
        let r = match self {
            SettingsSection::General => vec![
                MessageKey::General,
                MessageKey::Theme,
                MessageKey::Language,
                MessageKey::CompactLayout,
                MessageKey::ShowFolderPane,
                MessageKey::ShowArchivePath,
                MessageKey::DefaultListMode,
            ],
            SettingsSection::Compression => vec![
                MessageKey::Compression,
                MessageKey::DefaultFormat,
                MessageKey::CompressionMethod,
                MessageKey::CompressionLevel,
                MessageKey::TestAfterCreate,
            ],
            SettingsSection::Extraction => vec![
                MessageKey::Extraction,
                MessageKey::SmartExtraction,
                MessageKey::RestoreMetadata,
                MessageKey::OverwritePolicy,
            ],
            SettingsSection::Security => vec![MessageKey::Security, MessageKey::RejectLinks],
            SettingsSection::Other => vec![MessageKey::Other, MessageKey::RestoreDefaults],
        };
        assert(r@ =~= section_labels(self));
        r
    }

    /// Whether the page shows for a search: every page for an empty query,
    /// else a page one of whose labels, lower-cased, holds the query.
    pub fn matches(self, query: &str, i18n: &I18n) -> (r: bool)
        ensures
            r == section_shown(self, query@, *i18n),
    {
        let q = chars_of(query);
        if q.len() == 0 {
            return true;
        }
        let labels = self.labels();
        let mut i: usize = 0;
        while i < labels.len()
            invariant
                i <= labels.len(),
                labels@ == section_labels(self),
                q@ == query@,
                forall|k: int| 0 <= k < i ==> !has_part(unicode_lowercase(i18n.text_of(#[trigger] labels@[k])), query@),
            decreases labels.len() - i,
        {
            let text = i18n.text(labels[i]);
            let lower = to_lowercase(text.as_str());
            if contains_part(&chars_of(lower.as_str()), &q) {
                return true;
            }
            i = i + 1;
        }
        false
    }
}

/// What a menu entry does.
#[derive(Clone, Copy, Debug, PartialEq, Eq, Structural)]
pub enum MenuAction {
    OpenArchive,
    NewArchive,
    ExtractTo,
    TestArchive,
    CloseArchive,
    CancelOperation,
    SelectAll,
    OpenSettings,
    RestoreDefaults,
    ToggleFolderPane,
    ToggleArchivePath,
    AboutPulp,
}

/// The action of a menu entry built from its label alone: opening,
/// creating, extracting and restoring the defaults; no other label has one.
pub fn menu_action_for_label(label: MessageKey) -> (r: Option<MenuAction>)
    ensures
        r == (match label {
            MessageKey::OpenArchive => Some(MenuAction::OpenArchive),
            MessageKey::NewArchive => Some(MenuAction::NewArchive),
            MessageKey::ExtractTo => Some(MenuAction::ExtractTo),
            MessageKey::RestoreDefaults => Some(MenuAction::RestoreDefaults),
            _ => None,
        }),
{
    match label {
        MessageKey::OpenArchive => Some(MenuAction::OpenArchive),
        MessageKey::NewArchive => Some(MenuAction::NewArchive),
        MessageKey::ExtractTo => Some(MenuAction::ExtractTo),
        MessageKey::RestoreDefaults => Some(MenuAction::RestoreDefaults),
        _ => None,
    }
}

/// One entry of a settings dropdown: the value stored and the text shown.
#[derive(Debug)]
pub struct Choice {
    /// The value stored when the entry is picked.
    pub value: String,
    /// The text shown for it.
    pub label: String,
}

/// The value that stands for a theme in its dropdown.
pub open spec fn theme_value(t: ThemePreference) -> Seq<char> {
    match t {
        ThemePreference::System => "system"@,
        ThemePreference::Light => "light"@,
        ThemePreference::Dark => "dark"@,
    }
}

/// The theme a dropdown value picks; any other value follows the system.
pub open spec fn theme_of_value(v: Seq<char>) -> ThemePreference {
    if v == "light"@ {
        ThemePreference::Light
    } else if v == "dark"@ {
        ThemePreference::Dark
    } else {
        ThemePreference::System
    }
}

/// The value that stands for a language in its dropdown.
pub open spec fn language_value(l: LanguagePreference) -> Seq<char> {
    match l {
        LanguagePreference::System => "system"@,
        LanguagePreference::English => "en"@,
        LanguagePreference::ZhCn => "zh_cn"@,
    }
}

/// The language a dropdown value picks; any other value follows the system.
pub open spec fn language_of_value(v: Seq<char>) -> LanguagePreference {
    if v == "en"@ {
        LanguagePreference::English
    } else if v == "zh_cn"@ {
        LanguagePreference::ZhCn
    } else {
        LanguagePreference::System
    }
}

/// The value that stands for a list layout in its dropdown.
pub open spec fn list_mode_value(m: ListMode) -> Seq<char> {
    match m {
        ListMode::Details => "details"@,
        ListMode::List => "list"@,
    }
}

/// The layout a dropdown value picks; any other value shows details.
pub open spec fn list_mode_of_value(v: Seq<char>) -> ListMode {
    if v == "list"@ {
        ListMode::List
    } else {
        ListMode::Details
    }
}

/// The value that stands for an overwrite behaviour in its dropdown.
pub open spec fn overwrite_value(o: OverwriteSetting) -> Seq<char> {
    match o {
        OverwriteSetting::Error => "error"@,
        OverwriteSetting::Replace => "replace"@,
        OverwriteSetting::Skip => "skip"@,
    }
}

/// The behaviour a dropdown value picks; any other value refuses.
pub open spec fn overwrite_of_value(v: Seq<char>) -> OverwriteSetting {
    if v == "replace"@ {
        OverwriteSetting::Replace
    } else if v == "skip"@ {
        OverwriteSetting::Skip
    } else {
        OverwriteSetting::Error
    }
}

/// The value that stands for a compression method: the method, or
/// "default" for the provider's own choice.
pub open spec fn method_value(m: Option<Seq<char>>) -> Seq<char> {
    match m {
        Some(v) => v,
        None => "default"@,
    }
}

/// The method a dropdown value picks: none for "default".
pub open spec fn method_of_value(v: Seq<char>) -> Option<Seq<char>> {
    if v == "default"@ {
        None
    } else {
        Some(v)
    }
}

/// The dropdown value of a theme.
pub fn theme_choice(t: ThemePreference) -> (r: &'static str)
    ensures
        r@ == theme_value(t),
{
    match t {
        ThemePreference::System => "system",
        ThemePreference::Light => "light",
        ThemePreference::Dark => "dark",
    }
}

/// The theme picked by a dropdown value.
pub fn theme_from_choice(v: &str) -> (r: ThemePreference)
    ensures
        r == theme_of_value(v@),
{
    if str_eq(v, "light") {
        ThemePreference::Light
    } else if str_eq(v, "dark") {
        ThemePreference::Dark
    } else {
        ThemePreference::System
    }
}

/// The dropdown value of a language.
pub fn language_choice(l: LanguagePreference) -> (r: &'static str)
    ensures
        r@ == language_value(l),
{
    match l {
        LanguagePreference::System => "system",
        LanguagePreference::English => "en",
        LanguagePreference::ZhCn => "zh_cn",
    }
}

/// The language picked by a dropdown value.
pub fn language_from_choice(v: &str) -> (r: LanguagePreference)
    ensures
        r == language_of_value(v@),
{
    if str_eq(v, "en") {
        LanguagePreference::English
    } else if str_eq(v, "zh_cn") {
        LanguagePreference::ZhCn
    } else {
        LanguagePreference::System
    }
}

/// The dropdown value of a list layout.
pub fn list_mode_choice(m: ListMode) -> (r: &'static str)
    ensures
        r@ == list_mode_value(m),
{
    match m {
        ListMode::Details => "details",
        ListMode::List => "list",
    }
}

/// The list layout picked by a dropdown value.
pub fn list_mode_from_choice(v: &str) -> (r: ListMode)
    ensures
        r == list_mode_of_value(v@),
{
    if str_eq(v, "list") {
        ListMode::List
    } else {
        ListMode::Details
    }
}

/// The dropdown value of an overwrite behaviour.
pub fn overwrite_choice(o: OverwriteSetting) -> (r: &'static str)
    ensures
        r@ == overwrite_value(o),
{
    match o {
        OverwriteSetting::Error => "error",
        OverwriteSetting::Replace => "replace",
        OverwriteSetting::Skip => "skip",
    }
}

/// The overwrite behaviour picked by a dropdown value.
pub fn overwrite_from_choice(v: &str) -> (r: OverwriteSetting)
    ensures
        r == overwrite_of_value(v@),
{
    if str_eq(v, "replace") {
        OverwriteSetting::Replace
    } else if str_eq(v, "skip") {
        OverwriteSetting::Skip
    } else {
        OverwriteSetting::Error
    }
}

/// The dropdown value of a compression method setting.
pub fn method_choice(m: Option<&str>) -> (r: String)
    ensures
        r@ == method_value(
            match m {
                Some(v) => Some(v@),
                None => None,
            },
        ),
{
    match m {
        Some(v) => owned(v),
        None => owned("default"),
    }
}

/// The compression method setting picked by a dropdown value.
pub fn method_from_choice(v: &str) -> (r: Option<String>)
    ensures
        match r {
            Some(t) => method_of_value(v@) == Some(t@),
            None => method_of_value(v@) is None,
        },
{
    if str_eq(v, "default") {
        None
    } else {
        Some(owned(v))
    }
}

/// Every dropdown value is read back as the setting it was written from;
/// a compression method named "default" alone reads back as the
/// provider's default.
pub proof fn law_choices_read_back(
    t: ThemePreference,
    l: LanguagePreference,
    m: ListMode,
    o: OverwriteSetting,
    method: Option<Seq<char>>,
)
    ensures
        theme_of_value(theme_value(t)) == t,
        language_of_value(language_value(l)) == l,
        list_mode_of_value(list_mode_value(m)) == m,
        overwrite_of_value(overwrite_value(o)) == o,
        method != Some("default"@) ==> method_of_value(method_value(method)) == method,
{
    reveal_strlit("system");
    reveal_strlit("light");
    reveal_strlit("dark");
    reveal_strlit("en");
    reveal_strlit("zh_cn");
    reveal_strlit("details");
    reveal_strlit("list");
    reveal_strlit("error");
    reveal_strlit("replace");
    reveal_strlit("skip");
    reveal_strlit("default");
    assert("system"@.len() != "light"@.len());
    assert("system"@ != "light"@);
    assert("system"@.len() != "dark"@.len());
    assert("light"@.len() != "dark"@.len());
    assert("system"@.len() != "en"@.len());
    assert("system"@.len() != "zh_cn"@.len());
    assert("zh_cn"@.len() != "en"@.len());
    assert("details"@.len() != "list"@.len());
    assert("details"@ != "list"@);
    assert("error"@.len() != "replace"@.len());
    assert("error"@.len() != "skip"@.len());
}

/// The format entries of the default format dropdown: each option's
/// identifier and name, or ZIP alone when there is none.
pub open spec fn format_choices_hold(options: Seq<FormatOption>, r: Seq<Choice>) -> bool {
    if options.len() == 0 {
        r.len() == 1 && r[0].value@ == "zip"@ && r[0].label@ == "ZIP"@
    } else {
        r.len() == options.len() && forall|k: int|
            0 <= k < options.len() ==> (#[trigger] r[k]).value@ == options[k].id@ && r[k].label@ == options[k].name@
    }
}

/// The entries of the default format dropdown.
pub fn format_choices(options: &Vec<FormatOption>) -> (r: Vec<Choice>)
    ensures
        format_choices_hold(options@, r@),
{
    let mut r: Vec<Choice> = Vec::new();
    if options.len() == 0 {
        r.push(Choice { value: owned("zip"), label: owned("ZIP") });
        return r;
    }
    let mut i: usize = 0;
    while i < options.len()
        invariant
            i <= options.len(),
            r@.len() == i,
            forall|k: int|
                0 <= k < i ==> (#[trigger] r@[k]).value@ == options@[k].id@ && r@[k].label@ == options@[k].name@,
        decreases options.len() - i,
    {
        r.push(Choice { value: owned(options[i].id.as_str()), label: options[i].name.clone() });
        i = i + 1;
    }
    r
}

/// The entries of the compression method dropdown: the provider's default,
/// then the writable methods of the first format whose identifier is the
/// default format's ignoring ASCII case.
pub open spec fn method_choices_hold(
    options: Seq<FormatOption>,
    selected: Seq<char>,
    default_label: Seq<char>,
    r: Seq<Choice>,
) -> bool {
    let k = option_index(options, selected, true);
    let methods = if k < 0 {
        Seq::<Seq<char>>::empty()
    } else {
        views(options[k].methods@)
    };
    &&& r.len() == methods.len() + 1
    &&& r[0].value@ == "default"@
    &&& r[0].label@ == default_label
    &&& forall|j: int| 0 <= j < methods.len() ==> (#[trigger] r[j + 1]).value@ == methods[j] && r[j + 1].label@ == methods[j]
}

/// The entries of the compression method dropdown.
pub fn method_choices(options: &Vec<FormatOption>, selected: &str, default_label: &str) -> (r: Vec<Choice>)
    ensures
        method_choices_hold(options@, selected@, default_label@, r@),
{
    let mut r: Vec<Choice> = Vec::new();
    r.push(Choice { value: owned("default"), label: owned(default_label) });
    let k = match find_option(options, selected, true) {
        Some(k) => k,
        None => {
            return r;
        },
    };
    let methods = &options[k].methods;
    let mut i: usize = 0;
    while i < methods.len()
        invariant
            i <= methods.len(),
            r@.len() == i + 1,
            r@[0].value@ == "default"@,
            r@[0].label@ == default_label@,
            forall|j: int|
                0 <= j < i ==> (#[trigger] r@[j + 1]).value@ == methods@[j]@ && r@[j + 1].label@ == methods@[j]@,
        decreases methods.len() - i,
    {
        r.push(Choice { value: methods[i].clone(), label: methods[i].clone() });
        i = i + 1;
    }
    r
}

/// Whether a dropdown entry stores `value` and shows the text of `key`.
pub open spec fn shows(c: Choice, value: Seq<char>, i18n: I18n, key: MessageKey) -> bool {
    c.value@ == value && c.label@ == i18n.text_of(key)
}

fn choice(value: &str, i18n: &I18n, key: MessageKey) -> (r: Choice)
    ensures
        shows(r, value@, *i18n, key),
{
    Choice { value: owned(value), label: i18n.text(key) }
}

/// The entries of the theme dropdown: the system's, light and dark.
pub fn theme_choices(i18n: &I18n) -> (r: Vec<Choice>)
    ensures
        r@.len() == 3,
        shows(r@[0], theme_value(ThemePreference::System), *i18n, MessageKey::System),
        shows(r@[1], theme_value(ThemePreference::Light), *i18n, MessageKey::Light),
        shows(r@[2], theme_value(ThemePreference::Dark), *i18n, MessageKey::Dark),
{
    let mut r: Vec<Choice> = Vec::new();
    r.push(choice(theme_choice(ThemePreference::System), i18n, MessageKey::System));
    r.push(choice(theme_choice(ThemePreference::Light), i18n, MessageKey::Light));
    r.push(choice(theme_choice(ThemePreference::Dark), i18n, MessageKey::Dark));
    r
}

/// The entries of the language dropdown: the system's, English and
/// Simplified Chinese.
pub fn language_choices(i18n: &I18n) -> (r: Vec<Choice>)
    ensures
        r@.len() == 3,
        shows(r@[0], language_value(LanguagePreference::System), *i18n, MessageKey::System),
        shows(r@[1], language_value(LanguagePreference::English), *i18n, MessageKey::English),
        shows(r@[2], language_value(LanguagePreference::ZhCn), *i18n, MessageKey::SimplifiedChinese),
{
    let mut r: Vec<Choice> = Vec::new();
    r.push(choice(language_choice(LanguagePreference::System), i18n, MessageKey::System));
    r.push(choice(language_choice(LanguagePreference::English), i18n, MessageKey::English));
    r.push(choice(language_choice(LanguagePreference::ZhCn), i18n, MessageKey::SimplifiedChinese));
    r
}

/// The entries of the list layout dropdown: details, then names only.
pub fn list_mode_choices(i18n: &I18n) -> (r: Vec<Choice>)
    ensures
        r@.len() == 2,
        shows(r@[0], list_mode_value(ListMode::Details), *i18n, MessageKey::Details),
        shows(r@[1], list_mode_value(ListMode::List), *i18n, MessageKey::List),
{
    let mut r: Vec<Choice> = Vec::new();
    r.push(choice(list_mode_choice(ListMode::Details), i18n, MessageKey::Details));
    r.push(choice(list_mode_choice(ListMode::List), i18n, MessageKey::List));
    r
}

/// The entries of the overwrite dropdown: ask, replace, skip.
pub fn overwrite_choices(i18n: &I18n) -> (r: Vec<Choice>)
    ensures
        r@.len() == 3,
        shows(r@[0], overwrite_value(OverwriteSetting::Error), *i18n, MessageKey::AskBeforeReplacing),
        shows(r@[1], overwrite_value(OverwriteSetting::Replace), *i18n, MessageKey::ReplaceExisting),
        shows(r@[2], overwrite_value(OverwriteSetting::Skip), *i18n, MessageKey::SkipExisting),
{
    let mut r: Vec<Choice> = Vec::new();
    r.push(choice(overwrite_choice(OverwriteSetting::Error), i18n, MessageKey::AskBeforeReplacing));
    r.push(choice(overwrite_choice(OverwriteSetting::Replace), i18n, MessageKey::ReplaceExisting));
    r.push(choice(overwrite_choice(OverwriteSetting::Skip), i18n, MessageKey::SkipExisting));
    r
}

/// The quick button of the title bar: none while the settings are open or
/// no archive is, otherwise stopping the running operation or, when none
/// runs, extracting next to the archive; given by its tooltip.
pub fn quick_button(settings_open: bool, archive_open: bool, busy: bool) -> (r: Option<MessageKey>)
    ensures
        r == if settings_open || !archive_open {
            None
        } else if busy {
            Some(MessageKey::StopOperation)
        } else {
            Some(MessageKey::QuickExtract)
        },
{
    if settings_open || !archive_open {
        None
    } else if busy {
        Some(MessageKey::StopOperation)
    } else {
        Some(MessageKey::QuickExtract)
    }
}

/// The pages the sidebar lists for what was typed in the search field:
/// those shown for the typed text lower-cased, in sidebar order.
pub fn visible_sections(search: &str, i18n: &I18n) -> (r: Vec<SettingsSection>)
    ensures
        r@ == all_sections().filter(|s: SettingsSection| section_shown(s, unicode_lowercase(search@), *i18n)),
{
    let query = to_lowercase(search);
    let all = vec![
        SettingsSection::General,
        SettingsSection::Compression,
        SettingsSection::Extraction,
        SettingsSection::Security,
        SettingsSection::Other,
    ];
    assert(all@ =~= all_sections());
    let ghost pred = |s: SettingsSection| section_shown(s, unicode_lowercase(search@), *i18n);
    let mut r: Vec<SettingsSection> = Vec::new();
    let mut i: usize = 0;
    while i < all.len()
        invariant
            i <= all.len(),
            all@ == all_sections(),
            query@ == unicode_lowercase(search@),
            pred == (|s: SettingsSection| section_shown(s, unicode_lowercase(search@), *i18n)),
            r@ == all@.take(i as int).filter(pred),
        decreases all.len() - i,
    {
        let section = all[i];
        let shown = section.matches(query.as_str(), i18n);
        proof {
            assert(all@.take(i + 1).drop_last() =~= all@.take(i as int));
            assert(all@.take(i + 1).last() == section);
            assert(pred(section) == shown);
            reveal(Seq::filter);
        }
        if shown {
            r.push(section);
        }
        i = i + 1;
    }
    assert(all@.take(all.len() as int) =~= all@);
    r
}

/// The appearance the desktop environment reports.
#[derive(Clone, Copy, Debug, PartialEq, Eq, Structural)]
pub enum ReportedAppearance {
    /// A dark appearance.
    Dark,
    /// A light appearance.
    Light,
    /// No preference.
    Unspecified,
}

/// The theme the window takes.
#[derive(Clone, Copy, Debug, PartialEq, Eq, Structural)]
pub enum WindowTheme {
    /// The light theme.
    Light,
    /// The dark theme.
    Dark,
    /// Whatever the toolkit reads from the system.
    SystemAppearance,
}

/// The window's theme: the chosen one, or for the system's, what the
/// desktop environment reports; when it reports nothing, or could not be
/// asked, the toolkit follows the system itself.
pub fn window_theme(preference: ThemePreference, reported: Option<ReportedAppearance>) -> (r: WindowTheme)
    ensures
        r == match preference {
            ThemePreference::Light => WindowTheme::Light,
            ThemePreference::Dark => WindowTheme::Dark,
            ThemePreference::System => match reported {
                Some(ReportedAppearance::Dark) => WindowTheme::Dark,
                Some(ReportedAppearance::Light) => WindowTheme::Light,
                _ => WindowTheme::SystemAppearance,
            },
        },
{
    match preference {
        ThemePreference::Light => WindowTheme::Light,
        ThemePreference::Dark => WindowTheme::Dark,
        ThemePreference::System => match reported {
            Some(ReportedAppearance::Dark) => WindowTheme::Dark,
            Some(ReportedAppearance::Light) => WindowTheme::Light,
            _ => WindowTheme::SystemAppearance,
        },
    }
}

/// Decimal text is read as `str::parse` reads `u8` and `i16`: a non-empty
/// run of ASCII digits, leading zeros included, after an optional sign (`+`,
/// or also `-` for `i16`), gives its value, negated after `-`, when that lies
/// in the type's range, and nothing otherwise.
pub proof fn law_small_decimals_parse(sign: Seq<char>, d: Seq<char>)
    requires
        sign == Seq::<char>::empty() || sign == seq!['+'] || sign == seq!['-'],
        d.len() > 0,
        forall|i: int| 0 <= i < d.len() ==> '0' <= #[trigger] d[i] <= '9',
    ensures
        sign != seq!['-'] ==> parsed_u8(sign + d) == (
            if digits_value(d) <= 255 { Some(digits_value(d) as u8) } else { None::<u8> }),
        sign == seq!['-'] ==> parsed_u8(sign + d) is None,
        sign != seq!['-'] ==> parsed_i16(sign + d) == (
            if digits_value(d) <= 32767 { Some(digits_value(d) as i16) } else { None::<i16> }),
        sign == seq!['-'] ==> parsed_i16(sign + d) == (
            if digits_value(d) <= 32768 { Some((0 - digits_value(d)) as i16) } else { None::<i16> }),
{
    let s = sign + d;
    assert(all_digits(d)) by {
        assert forall|i: int| 0 <= i < d.len() implies crate::text::is_digit(#[trigger] d[i]) by {
            assert('0' <= d[i] <= '9');
        }
    }
    if sign.len() == 1 {
        assert(s.drop_first() =~= d);
        assert(s[0] == sign[0]);
    } else {
        assert(s =~= d);
        assert(s[0] == d[0]);
    }
    if sign == seq!['-'] {
        assert(!crate::text::is_digit(s[0]));
    }
}

} // verus!
