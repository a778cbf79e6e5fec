use pulp::locale::{
    locale_for_choice, normalize_locale_tag, parse_locale_arg, select_system_locale_supported, system_locale_choice,
    CliLocale,
};

#[test]
fn parse_locale_arg_variants() {
    assert_eq!(parse_locale_arg("system"), Some(CliLocale::System));
    assert_eq!(parse_locale_arg("AUTO"), Some(CliLocale::System));

    assert_eq!(parse_locale_arg("en"), Some(CliLocale::En));
    assert_eq!(parse_locale_arg("en-US"), Some(CliLocale::En));
    assert_eq!(parse_locale_arg("en_us"), Some(CliLocale::En));

    assert_eq!(parse_locale_arg("zh"), Some(CliLocale::ZhCn));
    assert_eq!(parse_locale_arg("zh-CN"), Some(CliLocale::ZhCn));
    assert_eq!(parse_locale_arg("zh_cn"), Some(CliLocale::ZhCn));
    assert_eq!(parse_locale_arg("zh-Hans"), Some(CliLocale::ZhCn));

    assert_eq!(parse_locale_arg("fr"), None);
}

#[test]
fn normalize_locale_tag_basic() {
    assert_eq!(normalize_locale_tag(" en_US "), "en-us");
    assert_eq!(normalize_locale_tag("zh-CN"), "zh-cn");
}

#[test]
fn system_locales_fall_back_to_english() {
    assert_eq!(system_locale_choice(None), "en");
    assert_eq!(system_locale_choice(Some("zh_HK")), "zh-CN");
    assert_eq!(system_locale_choice(Some("de_DE")), "en");
    assert_eq!(locale_for_choice(CliLocale::ZhCn, Some("en_US")), "zh-CN");
    assert_eq!(locale_for_choice(CliLocale::System, Some("zh-Hans")), "zh-CN");
    let chosen = select_system_locale_supported();
    assert!(chosen == "en" || chosen == "zh-CN");
}
