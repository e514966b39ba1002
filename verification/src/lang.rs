//! Supported languages and the parsing of short language tags.

use vstd::prelude::*;

verus! {

/// Supported languages.
#[derive(Clone, Copy, Debug, PartialEq, Eq, Hash, Structural)]
pub enum Lang {
    En,
    It,
    Ar,
    Ru,
    Zh,
}

/// An ASCII capital letter mapped to its small form; anything else is kept.
pub open spec fn lower_char(c: char) -> char {
    if 'A' <= c && c <= 'Z' {
        ((c as int) + 32) as char
    } else {
        c
    }
}

/// The language named by a two-character tag, compared without regard to
/// ASCII case; anything else names no language.
pub open spec fn parse_lang_spec(s: Seq<char>) -> Option<Lang> {
    if s.len() == 2 {
        let c0 = lower_char(s[0]);
        let c1 = lower_char(s[1]);
        if c0 == 'i' && c1 == 't' {
            Some(Lang::It)
        } else if c0 == 'e' && c1 == 'n' {
            Some(Lang::En)
        } else if c0 == 'a' && c1 == 'r' {
            Some(Lang::Ar)
        } else if c0 == 'r' && c1 == 'u' {
            Some(Lang::Ru)
        } else if c0 == 'z' && c1 == 'h' {
            Some(Lang::Zh)
        } else {
            None
        }
    } else {
        None
    }
}

fn ascii_lower(c: char) -> (r: char)
    ensures
        r == lower_char(c),
{
    if 'A' <= c && c <= 'Z' {
        (((c as u8) + 32) as char)
    } else {
        c
    }
}

/// Parse a short language tag into `Lang`.
pub fn parse_lang(s: &str) -> (r: Option<Lang>)
    ensures
        r == parse_lang_spec(s@),
{
    if s.unicode_len() != 2 {
        return None;
    }
    let c0 = ascii_lower(s.get_char(0));
    let c1 = ascii_lower(s.get_char(1));
    if c0 == 'i' && c1 == 't' {
        Some(Lang::It)
    } else if c0 == 'e' && c1 == 'n' {
        Some(Lang::En)
    } else if c0 == 'a' && c1 == 'r' {
        Some(Lang::Ar)
    } else if c0 == 'r' && c1 == 'u' {
        Some(Lang::Ru)
    } else if c0 == 'z' && c1 == 'h' {
        Some(Lang::Zh)
    } else {
        None
    }
}

/// The tag of each language, as written in the persisted message files.
pub open spec fn lang_tag_spec(l: Lang) -> Seq<char> {
    match l {
        Lang::En => seq!['e', 'n'],
        Lang::It => seq!['i', 't'],
        Lang::Ar => seq!['a', 'r'],
        Lang::Ru => seq!['r', 'u'],
        Lang::Zh => seq!['z', 'h'],
    }
}

/// Return the short tag for a `Lang` variant.
pub fn lang_tag(l: &Lang) -> (r: &'static str)
    ensures
        r@ == lang_tag_spec(*l),
{
    proof {
        reveal_strlit("en");
        reveal_strlit("it");
        reveal_strlit("ar");
        reveal_strlit("ru");
        reveal_strlit("zh");
    }
    let r: &'static str = match l {
        Lang::En => "en",
        Lang::It => "it",
        Lang::Ar => "ar",
        Lang::Ru => "ru",
        Lang::Zh => "zh",
    };
    proof {
        assert(r@ =~= lang_tag_spec(*l));
    }
    r
}

} // verus!
