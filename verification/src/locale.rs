//! The interface languages: which locale a user's choice or a stored value
//! stands for, and how the reply of the browser's storage script is read.

use vstd::prelude::*;
use vstd::string::*;
use crate::text::{str_eq, trim, trimmed};

verus! {

/// The locale used when none, or an unknown one, is given.
pub const DEFAULT_LOCALE: &'static str = "zh-CN";

/// Simplified Chinese.
pub const ZH_CN_LOCALE: &'static str = "zh-CN";

/// American English.
pub const EN_US_LOCALE: &'static str = "en-US";

/// The message of a failed save when the storage script gave no text of its own.
pub const SAVE_FAILED_MESSAGE: &'static str = "failed to save locale to localStorage";

/// The locale that `s` stands for: `s` without surrounding whitespace when that
/// is a supported locale, the default locale otherwise.
pub open spec fn normalized_locale(s: Seq<char>) -> Seq<char> {
    let t = trimmed(s);
    if t == "zh-CN"@ {
        "zh-CN"@
    } else if t == "en-US"@ {
        "en-US"@
    } else {
        "zh-CN"@
    }
}

/// A supported locale.
pub open spec fn is_supported_locale(s: Seq<char>) -> bool {
    s == "zh-CN"@ || s == "en-US"@
}

/// The supported locale that `locale` names, or the default one.
pub fn normalize_locale(locale: &str) -> (r: &'static str)
    ensures
        r@ == normalized_locale(locale@),
        is_supported_locale(r@),
{
    let t = trim(locale);
    if str_eq(t, ZH_CN_LOCALE) {
        ZH_CN_LOCALE
    } else if str_eq(t, EN_US_LOCALE) {
        EN_US_LOCALE
    } else {
        DEFAULT_LOCALE
    }
}

/// Makes `locale` the locale that translations are looked up in.
///
/// Calls `rust_i18n::set_locale`, which stores the text in the crate's
/// process-wide current locale. Nothing is stated: the call returns nothing
/// and the library keeps no model of that global.
#[verifier::external_body]
fn set_translation_locale(locale: &str) {
    rust_i18n::set_locale(locale)
}

/// Normalises `locale`, makes the result the current translation locale and
/// returns it.
pub fn apply_locale(locale: &str) -> (r: &'static str)
    ensures
        r@ == normalized_locale(locale@),
        is_supported_locale(r@),
{
    let r = normalize_locale(locale);
    set_translation_locale(r);
    r
}

/// What the browser's storage script answered, as far as the locale logic
/// reads it: a boolean, a text, or any other value.
pub enum ScriptReply {
    Bool(bool),
    Text(String),
    Other,
}

/// The locale that a stored value stands for: a text is normalised, anything
/// else (nothing stored, storage unavailable) gives the default locale.
pub open spec fn stored_locale(reply: ScriptReply) -> Seq<char> {
    match reply {
        ScriptReply::Text(t) => normalized_locale(t@),
        _ => "zh-CN"@,
    }
}

/// The locale to use after reading the stored one.
pub fn locale_from_reply(reply: &ScriptReply) -> (r: &'static str)
    ensures
        r@ == stored_locale(*reply),
        is_supported_locale(r@),
{
    match reply {
        ScriptReply::Text(t) => normalize_locale(t.as_str()),
        _ => DEFAULT_LOCALE,
    }
}

/// How a save ended: it succeeded when the script answered `true`; otherwise
/// the error is the script's text, or a fixed message when it gave none.
pub open spec fn save_outcome(reply: ScriptReply) -> Result<(), Seq<char>> {
    match reply {
        ScriptReply::Bool(true) => Ok(()),
        ScriptReply::Text(t) => Err(t@),
        _ => Err("failed to save locale to localStorage"@),
    }
}

/// Reads the answer of the storage script after a save.
pub fn save_result(reply: &ScriptReply) -> (r: Result<(), String>)
    ensures
        match (r, save_outcome(*reply)) {
            (Ok(()), Ok(())) => true,
            (Err(e), Err(m)) => e@ == m,
            _ => false,
        },
{
    match reply {
        ScriptReply::Bool(true) => Ok(()),
        ScriptReply::Text(t) => Err(t.clone()),
        _ => Err(String::from_str(SAVE_FAILED_MESSAGE)),
    }
}

/// Normalising a locale twice gives what normalising it once gave.
pub proof fn lemma_normalize_idempotent(s: Seq<char>)
    ensures
        normalized_locale(normalized_locale(s)) == normalized_locale(s),
{
    reveal_strlit("zh-CN");
    reveal_strlit("en-US");
    let n = normalized_locale(s);
    assert(crate::text::trim_start(n) == n);
    assert(crate::text::trim_end(n) == n);
}

/// A locale that was saved reads back as the same locale: what is stored is
/// the normalised locale, and reading a stored text normalises it again.
pub proof fn lemma_saved_locale_reads_back(s: Seq<char>, stored: String)
    requires
        stored@ == normalized_locale(s),
    ensures
        stored_locale(ScriptReply::Text(stored)) == normalized_locale(s),
{
    lemma_normalize_idempotent(s);
}

} // verus!
