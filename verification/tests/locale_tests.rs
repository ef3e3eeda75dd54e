use baker::locale::{
    apply_locale, locale_from_reply, normalize_locale, save_result, ScriptReply, DEFAULT_LOCALE,
    EN_US_LOCALE, SAVE_FAILED_MESSAGE, ZH_CN_LOCALE,
};

#[test]
fn supported_locales_are_kept() {
    assert_eq!(normalize_locale("zh-CN"), ZH_CN_LOCALE);
    assert_eq!(normalize_locale("en-US"), EN_US_LOCALE);
}

#[test]
fn surrounding_whitespace_is_ignored() {
    assert_eq!(normalize_locale("  en-US\n"), "en-US");
    assert_eq!(normalize_locale("\tzh-CN "), "zh-CN");
}

#[test]
fn unknown_locales_fall_back_to_default() {
    assert_eq!(normalize_locale("fr-FR"), DEFAULT_LOCALE);
    assert_eq!(normalize_locale("en-us"), "zh-CN");
    assert_eq!(normalize_locale(""), "zh-CN");
    assert_eq!(normalize_locale("en - US"), "zh-CN");
}

#[test]
fn normalizing_twice_changes_nothing() {
    for s in ["en-US", " en-US ", "xx", "", "zh-CN"] {
        let once = normalize_locale(s);
        assert_eq!(normalize_locale(once), once);
    }
}

#[test]
fn apply_locale_returns_the_normalized_locale() {
    assert_eq!(apply_locale(" en-US "), "en-US");
    assert_eq!(apply_locale("de"), "zh-CN");
}

#[test]
fn stored_locale_is_read_back() {
    assert_eq!(locale_from_reply(&ScriptReply::Text("en-US".to_string())), "en-US");
    assert_eq!(locale_from_reply(&ScriptReply::Text("klingon".to_string())), "zh-CN");
    assert_eq!(locale_from_reply(&ScriptReply::Other), "zh-CN");
    assert_eq!(locale_from_reply(&ScriptReply::Bool(true)), "zh-CN");
}

#[test]
fn saved_locale_reads_back_the_same() {
    for s in ["en-US", " en-US", "zh-CN", "??"] {
        let stored = normalize_locale(s).to_string();
        assert_eq!(locale_from_reply(&ScriptReply::Text(stored)), normalize_locale(s));
    }
}

#[test]
fn save_succeeds_only_on_true() {
    assert_eq!(save_result(&ScriptReply::Bool(true)), Ok(()));
    assert_eq!(
        save_result(&ScriptReply::Text("QuotaExceededError".to_string())),
        Err("QuotaExceededError".to_string())
    );
    assert_eq!(save_result(&ScriptReply::Bool(false)), Err(SAVE_FAILED_MESSAGE.to_string()));
    assert_eq!(
        save_result(&ScriptReply::Other),
        Err("failed to save locale to localStorage".to_string())
    );
}
