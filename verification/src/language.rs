//! The system locale, written in the format of `locale.conf(5)`.

use vstd::prelude::*;
use vstd::string::*;

use crate::paths::{join_below, joined};

verus! {

/// The language the installed system uses.
#[derive(Debug, Clone)]
pub struct Language {
    pub lang: String,
}

impl Language {
    /// The name under which this module is reported.
    pub fn name(&self) -> (n: &'static str)
        ensures
            n@ == "Language"@,
    {
        "Language"
    }
}

/// Whether `s` ends with `suffix`.
pub open spec fn has_suffix(s: Seq<char>, suffix: Seq<char>) -> bool {
    s.len() >= suffix.len() && s.subrange(s.len() - suffix.len(), s.len() as int) == suffix
}

/// The language code without a trailing `.UTF-8` or, failing that, `.utf8`.
pub open spec fn without_utf8_suffix(language: Seq<char>) -> Seq<char> {
    if has_suffix(language, ".UTF-8"@) {
        language.subrange(0, language.len() - ".UTF-8"@.len())
    } else if has_suffix(language, ".utf8"@) {
        language.subrange(0, language.len() - ".utf8"@.len())
    } else {
        language
    }
}

/// The content of `/etc/locale.conf` for `language`: a UTF-8 locale for
/// `LANG` and `LC_MESSAGES`, and the bare language for gettext's `LANGUAGE`.
pub open spec fn locale_conf_text(language: Seq<char>) -> Seq<char> {
    let bare = without_utf8_suffix(language);
    let locale = bare + ".UTF-8"@;
    "LANG="@ + locale + "\nLANGUAGE="@ + bare + "\nLC_MESSAGES="@ + locale + "\n"@
}

/// Whether `s` ends with `suffix`.
fn ends_with(s: &str, suffix: &str) -> (res: bool)
    ensures
        res == has_suffix(s@, suffix@),
{
    let len = s.unicode_len();
    let suffix_len = suffix.unicode_len();
    if len < suffix_len {
        return false;
    }
    let tail = s.substring_char(len - suffix_len, len);
    String::from_str(tail) == String::from_str(suffix)
}

/// The `locale.conf(5)` content for `language`, which may already carry a
/// `.UTF-8` or `.utf8` suffix; the suffix is never doubled.
pub fn locale_conf(language: &str) -> (text: String)
    ensures
        text@ == locale_conf_text(language@),
{
    let len = language.unicode_len();
    let bare: &str = if ends_with(language, ".UTF-8") {
        language.substring_char(0, len - ".UTF-8".unicode_len())
    } else if ends_with(language, ".utf8") {
        language.substring_char(0, len - ".utf8".unicode_len())
    } else {
        language
    };
    let mut locale = String::from_str(bare);
    locale.append(".UTF-8");
    let mut text = String::from_str("LANG=");
    text.append(locale.as_str());
    text.append("\nLANGUAGE=");
    text.append(bare);
    text.append("\nLC_MESSAGES=");
    text.append(locale.as_str());
    text.append("\n");
    text
}

/// Naming a language with a `.UTF-8` or `.utf8` suffix gives the same
/// configuration as naming it without, for a language that does not itself
/// end in such a suffix.
pub proof fn lemma_utf8_suffix_is_not_duplicated(language: Seq<char>)
    requires
        !has_suffix(language, ".UTF-8"@),
        !has_suffix(language, ".utf8"@),
    ensures
        locale_conf_text(language + ".UTF-8"@) == locale_conf_text(language),
        locale_conf_text(language + ".utf8"@) == locale_conf_text(language),
{
    reveal_strlit(".UTF-8");
    reveal_strlit(".utf8");
    let a = language + ".UTF-8"@;
    assert(a.subrange(a.len() - 6, a.len() as int) =~= ".UTF-8"@);
    assert(a.subrange(0, a.len() - 6) =~= language);
    let b = language + ".utf8"@;
    assert(b.subrange(b.len() - 5, b.len() as int) =~= ".utf8"@);
    assert(b.subrange(0, b.len() - 5) =~= language);
    if b.len() >= 6 {
        assert(b.subrange(b.len() - 6, b.len() as int)[1] == '.');
        assert(".UTF-8"@[1] == 'U');
    }
}

/// Where the locale configuration of the system rooted at `root` lives.
pub open spec fn locale_conf_file(root: Seq<char>) -> Seq<char> {
    joined(root, "etc/locale.conf"@)
}

/// Where the locale configuration of the system rooted at `root` lives:
/// `etc/locale.conf` below that root.
pub fn locale_conf_path(root: &str) -> (path: String)
    ensures
        path@ == locale_conf_file(root@),
{
    join_below(root, "etc/locale.conf")
}

/// The configuration sets `LANG` and `LC_MESSAGES` to the bare language
/// followed by `.UTF-8`, and gettext's `LANGUAGE` to the bare language,
/// where the bare language is the given one without one trailing `.UTF-8`
/// (or, failing that, `.utf8`), and the given one itself when it has
/// neither suffix.
pub proof fn lemma_locale_conf_names_the_bare_language(language: Seq<char>)
    ensures
        ({
            let bare = without_utf8_suffix(language);
            {
                &&& locale_conf_text(language) == "LANG="@ + bare + ".UTF-8"@ + "\nLANGUAGE="@
                    + bare + "\nLC_MESSAGES="@ + bare + ".UTF-8"@ + "\n"@
                &&& has_suffix(language, ".UTF-8"@) ==> language == bare + ".UTF-8"@
                &&& !has_suffix(language, ".UTF-8"@) && has_suffix(language, ".utf8"@) ==> language
                    == bare + ".utf8"@
                &&& !has_suffix(language, ".UTF-8"@) && !has_suffix(language, ".utf8"@) ==> bare
                    == language
            }
        }),
{
    let bare = without_utf8_suffix(language);
    let len = language.len() as int;
    if has_suffix(language, ".UTF-8"@) {
        let k = len - ".UTF-8"@.len();
        assert(language =~= language.subrange(0, k) + language.subrange(k, len));
    } else if has_suffix(language, ".utf8"@) {
        let k = len - ".utf8"@.len();
        assert(language =~= language.subrange(0, k) + language.subrange(k, len));
    }
    assert(locale_conf_text(language) =~= "LANG="@ + bare + ".UTF-8"@ + "\nLANGUAGE="@ + bare
        + "\nLC_MESSAGES="@ + bare + ".UTF-8"@ + "\n"@);
    assert({
        &&& locale_conf_text(language) == "LANG="@ + bare + ".UTF-8"@ + "\nLANGUAGE="@ + bare
            + "\nLC_MESSAGES="@ + bare + ".UTF-8"@ + "\n"@
        &&& has_suffix(language, ".UTF-8"@) ==> language == bare + ".UTF-8"@
        &&& !has_suffix(language, ".UTF-8"@) && has_suffix(language, ".utf8"@) ==> language == bare
            + ".utf8"@
        &&& !has_suffix(language, ".UTF-8"@) && !has_suffix(language, ".utf8"@) ==> bare == language
    });
}

} // verus!
