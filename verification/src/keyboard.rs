//! System-wide XKB keyboard configuration, written in the X.org format that
//! `systemd-localed` reads.

use vstd::prelude::*;
use vstd::string::*;

use crate::paths::{join_below, joined};

verus! {

/// Persist the system-wide XKB source selected by the installer.
#[derive(Debug, Clone)]
pub struct Keyboard {
    pub layout: String,
    pub variant: Option<String>,
}

impl Keyboard {
    /// The name under which this module is reported.
    pub fn name(&self) -> (n: &'static str)
        ensures
            n@ == "Keyboard"@,
    {
        "Keyboard"
    }
}

/// A character that may appear in an XKB layout or variant name.
pub open spec fn is_component_char(c: char) -> bool {
    ||| ('a' <= c && c <= 'z')
    ||| ('A' <= c && c <= 'Z')
    ||| ('0' <= c && c <= '9')
    ||| c == '_'
    ||| c == '-'
}

/// A non-empty name made only of ASCII letters, digits, `_` and `-`.
pub open spec fn is_valid_component(s: Seq<char>) -> bool {
    &&& s.len() > 0
    &&& forall|i: int| 0 <= i < s.len() ==> #[trigger] is_component_char(s[i])
}

/// Whether `value` can be placed inside a quoted X.org option value
/// without changing the structure of the configuration.
pub fn valid_component(value: &str) -> (ok: bool)
    ensures
        ok == is_valid_component(value@),
{
    let len = value.unicode_len();
    if len == 0 {
        return false;
    }
    let mut i: usize = 0;
    while i < len
        invariant
            len == value@.len(),
            0 <= i <= len,
            forall|j: int| 0 <= j < i ==> #[trigger] is_component_char(value@[j]),
        decreases len - i,
    {
        let c = value.get_char(i);
        let ok = ('a' <= c && c <= 'z') || ('A' <= c && c <= 'Z') || ('0' <= c && c <= '9')
            || c == '_' || c == '-';
        if !ok {
            assert(!is_component_char(value@[i as int]));
            return false;
        }
        i = i + 1;
    }
    true
}

/// The X.org input-class section that selects `layout` and `variant` for
/// every keyboard, in the form `systemd-localed` writes and reads.
pub open spec fn xorg_config_text(layout: Seq<char>, variant: Seq<char>) -> Seq<char> {
    "Section \"InputClass\"\n\tIdentifier \"system-keyboard\"\n\tMatchIsKeyboard \"on\"\n\tOption \"XkbLayout\" \""@
        + layout + "\"\n\tOption \"XkbVariant\" \""@ + variant + "\"\nEndSection\n"@
}

/// The variant a keyboard configuration names: none is the empty variant.
pub open spec fn variant_text(variant: Option<Seq<char>>) -> Seq<char> {
    match variant {
        Some(v) => v,
        None => Seq::empty(),
    }
}

/// The X.org keyboard configuration for `layout` and `variant`; a missing
/// variant is written as the empty one.
pub fn xorg_config(layout: &str, variant: Option<&str>) -> (text: String)
    ensures
        text@ == xorg_config_text(
            layout@,
            match variant {
                Some(v) => v@,
                None => Seq::empty(),
            },
        ),
{
    let mut text = String::from_str(
        "Section \"InputClass\"\n\tIdentifier \"system-keyboard\"\n\tMatchIsKeyboard \"on\"\n\tOption \"XkbLayout\" \"",
    );
    text.append(layout);
    text.append("\"\n\tOption \"XkbVariant\" \"");
    match variant {
        Some(v) => text.append(v),
        None => {},
    }
    text.append("\"\nEndSection\n");
    text
}

/// Why a keyboard configuration was refused.
#[derive(Debug, Clone, Copy, PartialEq, Eq, Structural)]
pub enum KeyboardError {
    /// The layout or the variant is not a valid XKB name.
    InvalidLayoutOrVariant,
}

impl Keyboard {
    /// Whether the layout and, when there is one, the variant are valid names.
    pub open spec fn spec_is_valid(self) -> bool {
        &&& is_valid_component(self.layout@)
        &&& match self.variant {
            Some(v) => is_valid_component(v@),
            None => true,
        }
    }

    /// The content of `/etc/X11/xorg.conf.d/00-keyboard.conf` for this
    /// keyboard; refused when the layout or the variant could escape the
    /// quoted values of the configuration.
    pub fn xorg_keyboard_conf(&self) -> (res: Result<String, KeyboardError>)
        ensures
            match res {
                Ok(text) => {
                    &&& self.spec_is_valid()
                    &&& text@ == xorg_config_text(
                        self.layout@,
                        variant_text(
                            match self.variant {
                                Some(v) => Some(v@),
                                None => None,
                            },
                        ),
                    )
                },
                Err(KeyboardError::InvalidLayoutOrVariant) => !self.spec_is_valid(),
            },
    {
        let variant_ok = match &self.variant {
            Some(v) => valid_component(v.as_str()),
            None => true,
        };
        if !valid_component(self.layout.as_str()) || !variant_ok {
            return Err(KeyboardError::InvalidLayoutOrVariant);
        }
        let variant: Option<&str> = match &self.variant {
            Some(v) => Some(v.as_str()),
            None => None,
        };
        Ok(xorg_config(self.layout.as_str(), variant))
    }
}

/// A valid XKB name holds no quote, backslash or line break, so it cannot
/// end the quoted option value it is written into.
pub proof fn lemma_valid_component_stays_quoted(s: Seq<char>)
    requires
        is_valid_component(s),
    ensures
        !s.contains('"'),
        !s.contains('\\'),
        !s.contains('\n'),
{
    if s.contains('"') {
        let i = choose|i: int| 0 <= i < s.len() && s[i] == '"';
        assert(is_component_char(s[i]));
    }
    if s.contains('\\') {
        let i = choose|i: int| 0 <= i < s.len() && s[i] == '\\';
        assert(is_component_char(s[i]));
    }
    if s.contains('\n') {
        let i = choose|i: int| 0 <= i < s.len() && s[i] == '\n';
        assert(is_component_char(s[i]));
    }
}

/// Where the keyboard configuration of the system rooted at `root` lives.
pub open spec fn xorg_keyboard_conf_file(root: Seq<char>) -> Seq<char> {
    joined(root, "etc/X11/xorg.conf.d/00-keyboard.conf"@)
}

/// Where the keyboard configuration of the system rooted at `root` lives:
/// `etc/X11/xorg.conf.d/00-keyboard.conf` below that root.
pub fn xorg_keyboard_conf_path(root: &str) -> (path: String)
    ensures
        path@ == xorg_keyboard_conf_file(root@),
{
    join_below(root, "etc/X11/xorg.conf.d/00-keyboard.conf")
}

/// A name is accepted exactly when it is non-empty and each of its
/// characters is an ASCII letter (`a`–`z`, `A`–`Z`), an ASCII digit, `_`
/// or `-`, by code point; in particular every non-empty name of lowercase
/// letters only is accepted.
pub proof fn lemma_valid_names_are_ascii_alphanumerics_underscore_and_dash(s: Seq<char>)
    ensures
        is_valid_component(s) <==> {
            &&& s.len() > 0
            &&& forall|i: int|
                0 <= i < s.len() ==> {
                    let code = #[trigger] s[i] as int;
                    ||| 0x61 <= code <= 0x7a
                    ||| 0x41 <= code <= 0x5a
                    ||| 0x30 <= code <= 0x39
                    ||| code == 0x5f
                    ||| code == 0x2d
                }
        },
        s.len() > 0 && (forall|i: int| 0 <= i < s.len() ==> 0x61 <= #[trigger] (s[i] as int) <= 0x7a)
            ==> is_valid_component(s),
{
    assert forall|i: int| 0 <= i < s.len() implies is_component_char(s[i]) <==> {
        let code = #[trigger] s[i] as int;
        ||| 0x61 <= code <= 0x7a
        ||| 0x41 <= code <= 0x5a
        ||| 0x30 <= code <= 0x39
        ||| code == 0x5f
        ||| code == 0x2d
    } by {}
}

} // verus!
