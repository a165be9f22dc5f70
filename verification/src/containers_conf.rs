//! The `containers.conf(5)` override that makes image copies stage their
//! temporary files on the target filesystem rather than in the live system.

use vstd::prelude::*;
use vstd::string::*;

verus! {

/// How one character is written inside a TOML basic string: backslash and
/// double quote are escaped with a backslash.
pub open spec fn escape_char(c: char) -> Seq<char> {
    if c == '\\' {
        seq!['\\', '\\']
    } else if c == '"' {
        seq!['\\', '"']
    } else {
        seq![c]
    }
}

/// `s` written inside a TOML basic string.
pub open spec fn toml_escaped(s: Seq<char>) -> Seq<char>
    decreases s.len(),
{
    if s.len() == 0 {
        Seq::empty()
    } else {
        escape_char(s[0]) + toml_escaped(s.drop_first())
    }
}

/// What a TOML reader takes from the inside of a basic string whose only
/// escapes are `\\` and `\"`: none when a bare `"` would end the string
/// early, or when a backslash starts any other escape or ends the text.
pub open spec fn toml_unescaped(s: Seq<char>) -> Option<Seq<char>>
    decreases s.len(),
{
    if s.len() == 0 {
        Some(Seq::empty())
    } else if s[0] == '"' {
        None
    } else if s[0] == '\\' {
        if s.len() >= 2 && (s[1] == '\\' || s[1] == '"') {
            match toml_unescaped(s.subrange(2, s.len() as int)) {
                Some(rest) => Some(seq![s[1]] + rest),
                None => None,
            }
        } else {
            None
        }
    } else {
        match toml_unescaped(s.drop_first()) {
            Some(rest) => Some(seq![s[0]] + rest),
            None => None,
        }
    }
}

proof fn lemma_escaped_push(s: Seq<char>, c: char)
    ensures
        toml_escaped(s.push(c)) == toml_escaped(s) + escape_char(c),
    decreases s.len(),
{
    if s.len() == 0 {
        assert(s.push(c).drop_first() =~= Seq::<char>::empty());
        assert(toml_escaped(Seq::<char>::empty()) == Seq::<char>::empty());
        assert(toml_escaped(s.push(c)) =~= escape_char(c));
    } else {
        lemma_escaped_push(s.drop_first(), c);
        assert(s.push(c).drop_first() =~= s.drop_first().push(c));
        assert(toml_escaped(s.push(c)) =~= toml_escaped(s) + escape_char(c));
    }
}

/// Escape `value` for use inside a TOML basic string.
pub fn toml_escape(value: &str) -> (escaped: String)
    ensures
        escaped@ == toml_escaped(value@),
{
    let len = value.unicode_len();
    let mut escaped = String::new();
    let mut i: usize = 0;
    while i < len
        invariant
            len == value@.len(),
            0 <= i <= len,
            escaped@ == toml_escaped(value@.take(i as int)),
        decreases len - i,
    {
        let c = value.get_char(i);
        let ghost before = escaped@;
        if c == '\\' {
            escaped.append("\\\\");
            proof {
                reveal_strlit("\\\\");
            }
            assert("\\\\"@ =~= escape_char(c));
        } else if c == '"' {
            escaped.append("\\\"");
            proof {
                reveal_strlit("\\\"");
            }
            assert("\\\""@ =~= escape_char(c));
        } else {
            let one = value.substring_char(i, i + 1);
            escaped.append(one);
            assert(one@ =~= escape_char(c));
        }
        assert(escaped@ == before + escape_char(c));
        proof {
            assert(value@.take(i + 1) =~= value@.take(i as int).push(c));
            lemma_escaped_push(value@.take(i as int), c);
            assert(escaped@ =~= toml_escaped(value@.take(i + 1)));
        }
        i = i + 1;
    }
    proof {
        assert(value@.take(len as int) =~= value@);
    }
    escaped
}

/// The `containers.conf` content that points `image_copy_tmp_dir` at
/// `tmp_dir`, quoted as a TOML basic string.
pub open spec fn containers_conf_text(tmp_dir: Seq<char>) -> Seq<char> {
    "[engine]\nimage_copy_tmp_dir = \""@ + toml_escaped(tmp_dir) + "\"\n"@
}

/// The `containers.conf` content that stages image copies in `tmp_dir`.
pub fn containers_conf(tmp_dir: &str) -> (text: String)
    ensures
        text@ == containers_conf_text(tmp_dir@),
{
    let mut text = String::from_str("[engine]\nimage_copy_tmp_dir = \"");
    let escaped = toml_escape(tmp_dir);
    text.append(escaped.as_str());
    text.append("\"\n");
    text
}

/// A TOML reader gives back exactly the escaped value: the escaped text
/// holds no bare quote that would end the string early, and escaping loses
/// nothing.
pub proof fn lemma_toml_escape_round_trip(s: Seq<char>)
    ensures
        toml_unescaped(toml_escaped(s)) == Some(s),
    decreases s.len(),
{
    if s.len() > 0 {
        let rest = s.drop_first();
        lemma_toml_escape_round_trip(rest);
        let e = toml_escaped(s);
        let er = toml_escaped(rest);
        assert(e == escape_char(s[0]) + er);
        if s[0] == '\\' || s[0] == '"' {
            assert(e.subrange(2, e.len() as int) =~= er);
            assert(toml_unescaped(e) == Some(seq![s[0]] + rest));
        } else {
            assert(e.drop_first() =~= er);
            assert(toml_unescaped(e) == Some(seq![s[0]] + rest));
        }
        assert(s =~= seq![s[0]] + rest);
    }
}

/// A TOML reader of the override gets back exactly the given directory:
/// the text is the `[engine]` table setting `image_copy_tmp_dir` to a
/// basic string whose content reads back as `tmp_dir`, for every `tmp_dir`.
pub proof fn lemma_containers_conf_reads_back_the_directory(tmp_dir: Seq<char>)
    ensures
        exists|e: Seq<char>|
            {
                &&& containers_conf_text(tmp_dir) == "[engine]\nimage_copy_tmp_dir = \""@ + e
                    + "\"\n"@
                &&& #[trigger] toml_unescaped(e) == Some(tmp_dir)
            },
{
    lemma_toml_escape_round_trip(tmp_dir);
    let e = toml_escaped(tmp_dir);
    assert(toml_unescaped(e) == Some(tmp_dir));
}

} // verus!
