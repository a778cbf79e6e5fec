use pulp::desktop::archive::FormatOption;
use pulp::desktop::controls::{
    breadcrumb, format_choices, language_choice, language_from_choice, list_mode_choice, list_mode_from_choice,
    menu_action_for_label, method_choice, quick_button, method_choices, method_from_choice, overwrite_choice, overwrite_from_choice,
    stepped_level, theme_choice, theme_choices, theme_from_choice, typed_level, visible_sections, MenuAction,
    ReportedAppearance, SettingsSection, WindowTheme, window_theme,
};
use pulp::desktop::i18n::{I18n, Locale, MessageKey};
use pulp::desktop::settings::{LanguagePreference, ListMode, OverwriteSetting, ThemePreference};
use pulp::ArchiveFormatId;

#[test]
fn breadcrumbs_step_through_the_folder_path() {
    let crumbs = breadcrumb("archive.zip", "docs//api/");
    let shown: Vec<(&str, &str, bool)> =
        crumbs.iter().map(|crumb| (crumb.label.as_str(), crumb.target.as_str(), crumb.current)).collect();
    assert_eq!(shown, vec![("archive.zip", "", false), ("docs", "docs", false), ("api", "docs/api", false)]);
    let root = breadcrumb("archive.zip", "");
    assert_eq!(root.len(), 1);
    assert!(root[0].current);
}

#[test]
fn compression_levels_are_held_between_zero_and_nine() {
    assert_eq!(typed_level("7"), Some(7));
    assert_eq!(typed_level("+42"), Some(9));
    assert_eq!(typed_level("300"), None);
    assert_eq!(typed_level("x"), None);
    assert_eq!(stepped_level("5", 1), 6);
    assert_eq!(stepped_level("9", 1), 9);
    assert_eq!(stepped_level("0", -1), 0);
    assert_eq!(stepped_level("junk", 1), 1);
    assert_eq!(stepped_level("-40", 1), 0);
}

#[test]
fn settings_search_matches_lower_cased_labels() {
    let english = "theme: Colour Theme\nreject_links: Reject Links\n";
    let i18n = I18n::from_sources(Locale::En, english, english).expect("valid catalog");
    assert!(SettingsSection::General.matches("colour", &i18n));
    assert!(!SettingsSection::General.matches("Colour", &i18n));
    assert!(SettingsSection::Security.matches("links", &i18n));
    assert!(SettingsSection::Other.matches("restore", &i18n));
    assert!(!SettingsSection::Extraction.matches("colour", &i18n));
    assert!(SettingsSection::Extraction.matches("", &i18n));
    assert_eq!(SettingsSection::Security.labels().len(), 2);
}

#[test]
fn only_the_labelled_menu_entries_have_actions() {
    assert_eq!(menu_action_for_label(MessageKey::OpenArchive), Some(MenuAction::OpenArchive));
    assert_eq!(menu_action_for_label(MessageKey::NewArchive), Some(MenuAction::NewArchive));
    assert_eq!(menu_action_for_label(MessageKey::ExtractTo), Some(MenuAction::ExtractTo));
    assert_eq!(menu_action_for_label(MessageKey::RestoreDefaults), Some(MenuAction::RestoreDefaults));
    assert_eq!(menu_action_for_label(MessageKey::Ready), None);
}

#[test]
fn dropdown_values_read_back_as_their_settings() {
    for theme in [ThemePreference::System, ThemePreference::Light, ThemePreference::Dark] {
        assert_eq!(theme_from_choice(theme_choice(theme)), theme);
    }
    for language in [LanguagePreference::System, LanguagePreference::English, LanguagePreference::ZhCn] {
        assert_eq!(language_from_choice(language_choice(language)), language);
    }
    for mode in [ListMode::Details, ListMode::List] {
        assert_eq!(list_mode_from_choice(list_mode_choice(mode)), mode);
    }
    for overwrite in [OverwriteSetting::Error, OverwriteSetting::Replace, OverwriteSetting::Skip] {
        assert_eq!(overwrite_from_choice(overwrite_choice(overwrite)), overwrite);
    }
    assert_eq!(language_choice(LanguagePreference::ZhCn), "zh_cn");
    assert_eq!(theme_from_choice("purple"), ThemePreference::System);
    assert_eq!(overwrite_from_choice("ask"), OverwriteSetting::Error);
    assert_eq!(method_choice(None), "default");
    assert_eq!(method_from_choice("default"), None);
    assert_eq!(method_from_choice("LZMA2"), Some("LZMA2".to_string()));
}

#[test]
fn format_and_method_dropdowns_follow_the_writable_formats() {
    let english = "system: System\nlight: Light\ndark: Dark\nprovider_default: Provider default\n";
    let i18n = I18n::from_sources(Locale::En, english, english).expect("valid catalog");
    let none = format_choices(&vec![]);
    assert_eq!((none[0].value.as_str(), none[0].label.as_str()), ("zip", "ZIP"));
    let options = vec![
        FormatOption {
            id: ArchiveFormatId::new("7z"),
            name: "7-Zip".to_string(),
            extension: "7z".to_string(),
            methods: vec!["LZMA2".to_string(), "PPMd".to_string()],
        },
        FormatOption { id: ArchiveFormatId::new("zip"), name: "ZIP".to_string(), extension: "zip".to_string(), methods: vec![] },
    ];
    let formats: Vec<(String, String)> =
        format_choices(&options).into_iter().map(|choice| (choice.value, choice.label)).collect();
    assert_eq!(formats, vec![("7z".to_string(), "7-Zip".to_string()), ("zip".to_string(), "ZIP".to_string())]);
    let methods: Vec<String> =
        method_choices(&options, "7Z", "Provider default").into_iter().map(|choice| choice.value).collect();
    assert_eq!(methods, vec!["default".to_string(), "LZMA2".to_string(), "PPMd".to_string()]);
    assert_eq!(method_choices(&options, "tar", "Provider default").len(), 1);
    let themes: Vec<String> = theme_choices(&i18n).into_iter().map(|choice| choice.label).collect();
    assert_eq!(themes, vec!["System".to_string(), "Light".to_string(), "Dark".to_string()]);
}

#[test]
fn the_quick_button_stops_a_running_operation() {
    assert_eq!(quick_button(true, true, false), None);
    assert_eq!(quick_button(false, false, false), None);
    assert_eq!(quick_button(false, true, false), Some(MessageKey::QuickExtract));
    assert_eq!(quick_button(false, true, true), Some(MessageKey::StopOperation));
}

#[test]
fn the_sidebar_lists_the_pages_matching_the_search() {
    let english = "theme: Colour Theme\nreject_links: Reject Links\n";
    let i18n = I18n::from_sources(Locale::En, english, english).expect("valid catalog");
    assert_eq!(visible_sections("COLOUR", &i18n), vec![SettingsSection::General]);
    assert_eq!(visible_sections("", &i18n).len(), 5);
    assert_eq!(visible_sections("links", &i18n), vec![SettingsSection::Security]);
}

#[test]
fn the_system_theme_follows_the_reported_appearance() {
    assert_eq!(window_theme(ThemePreference::Dark, Some(ReportedAppearance::Light)), WindowTheme::Dark);
    assert_eq!(window_theme(ThemePreference::Light, None), WindowTheme::Light);
    assert_eq!(window_theme(ThemePreference::System, Some(ReportedAppearance::Dark)), WindowTheme::Dark);
    assert_eq!(window_theme(ThemePreference::System, Some(ReportedAppearance::Light)), WindowTheme::Light);
    assert_eq!(window_theme(ThemePreference::System, Some(ReportedAppearance::Unspecified)), WindowTheme::SystemAppearance);
    assert_eq!(window_theme(ThemePreference::System, None), WindowTheme::SystemAppearance);
}
