//! The keyword vocabulary. Every comparison ignores ASCII case.
use vstd::prelude::*;
use crate::text::{eq_ic, eq_ignore_case, literal, marked, strip_marks, strip_markers};

verus! {

/// The lexeme spells `k` up to ASCII case.
pub open spec fn is_kw(s: Seq<char>, k: &str) -> bool {
    eq_ic(s, k@)
}

pub open spec fn hai(s: Seq<char>) -> bool { is_kw(s, "#HAI") }
pub open spec fn bai(s: Seq<char>) -> bool { is_kw(s, "#KTHXBYE") }
pub open spec fn obtw(s: Seq<char>) -> bool { is_kw(s, "#OBTW") }
pub open spec fn tldr(s: Seq<char>) -> bool { is_kw(s, "#TLDR") }
pub open spec fn maek(s: Seq<char>) -> bool { is_kw(s, "#MAEK") }
pub open spec fn oic(s: Seq<char>) -> bool { is_kw(s, "#OIC") }
pub open spec fn gimmeh(s: Seq<char>) -> bool { is_kw(s, "#GIMMEH") }
pub open spec fn mkay(s: Seq<char>) -> bool { is_kw(s, "#MKAY") }
pub open spec fn ihaz(s: Seq<char>) -> bool { is_kw(s, "#I") }
pub open spec fn itiz(s: Seq<char>) -> bool { is_kw(s, "#IT") }
pub open spec fn lemme(s: Seq<char>) -> bool { is_kw(s, "#LEMME") }

/// One of the eight keywords that are written with the marker.
pub open spec fn marked_keyword(s: Seq<char>) -> bool {
    hai(s) || bai(s) || obtw(s) || tldr(s) || maek(s) || oic(s) || gimmeh(s) || mkay(s)
}

/// A kind name or the second word of a two-word phrase.
pub open spec fn kind_name(s: Seq<char>) -> bool {
    is_kw(s, "HEAD") || is_kw(s, "PARAGRAF") || is_kw(s, "BOLD") || is_kw(s, "ITALICS")
        || is_kw(s, "LIST") || is_kw(s, "ITEM") || is_kw(s, "SOUNDZ") || is_kw(s, "VIDZ")
        || is_kw(s, "HAZ") || is_kw(s, "IZ") || is_kw(s, "SEE")
}

/// A lexeme the vocabulary knows: a marked keyword, or a kind name after any
/// number of markers.
pub open spec fn known(s: Seq<char>) -> bool {
    marked_keyword(s) || kind_name(strip_marks(s))
}

/// The first word of a two-word phrase, whose second word a later stage checks.
pub open spec fn phrase_start(s: Seq<char>) -> bool {
    ihaz(s) || itiz(s) || lemme(s)
}

/// A lexeme the lexer accepts: a marked one must be known or start a phrase,
/// and any other must hold no marker at all.
pub open spec fn valid_lexeme(s: Seq<char>) -> bool {
    if marked(s) {
        known(s) || phrase_start(s)
    } else {
        !s.contains('#')
    }
}

/// The lexeme spells `k` up to ASCII case.
pub fn kw(s: &str, k: &str) -> (r: bool)
    ensures
        r == is_kw(s@, k),
{
    eq_ignore_case(s, k)
}

pub fn is_marked_keyword(s: &str) -> (r: bool)
    ensures
        r == marked_keyword(s@),
{
    kw(s, "#HAI") || kw(s, "#KTHXBYE") || kw(s, "#OBTW") || kw(s, "#TLDR") || kw(s, "#MAEK")
        || kw(s, "#OIC") || kw(s, "#GIMMEH") || kw(s, "#MKAY")
}

pub fn is_kind_name(s: &str) -> (r: bool)
    ensures
        r == kind_name(s@),
{
    kw(s, "HEAD") || kw(s, "PARAGRAF") || kw(s, "BOLD") || kw(s, "ITALICS") || kw(s, "LIST")
        || kw(s, "ITEM") || kw(s, "SOUNDZ") || kw(s, "VIDZ") || kw(s, "HAZ") || kw(s, "IZ")
        || kw(s, "SEE")
}

pub fn is_known(s: &str) -> (r: bool)
    ensures
        r == known(s@),
{
    is_marked_keyword(s) || is_kind_name(strip_markers(s))
}

pub fn is_phrase_start(s: &str) -> (r: bool)
    ensures
        r == phrase_start(s@),
{
    kw(s, "#I") || kw(s, "#IT") || kw(s, "#LEMME")
}

fn has_marker(s: &str) -> (r: bool)
    ensures
        r == s@.contains('#'),
{
    let n = s.unicode_len();
    let mut i: usize = 0;
    while i < n
        invariant
            n == s@.len(),
            i <= n,
            forall|j: int| 0 <= j < i ==> s@[j] != '#',
        decreases n - i,
    {
        if s.get_char(i) == '#' {
            return true;
        }
        i += 1;
    }
    false
}

pub fn is_valid_lexeme(s: &str) -> (r: bool)
    ensures
        r == valid_lexeme(s@),
{
    if crate::text::starts_with_marker(s) {
        is_known(s) || is_phrase_start(s)
    } else {
        !has_marker(s)
    }
}

/// Every word of the vocabulary has at least one character.
pub proof fn lemma_words_nonempty()
    ensures
        "#HAI"@.len() > 0, "#KTHXBYE"@.len() > 0, "#OBTW"@.len() > 0, "#TLDR"@.len() > 0,
        "#MAEK"@.len() > 0, "#OIC"@.len() > 0, "#GIMMEH"@.len() > 0, "#MKAY"@.len() > 0,
        "#I"@.len() > 0, "#IT"@.len() > 0, "#LEMME"@.len() > 0, "HEAD"@.len() > 0,
        "PARAGRAF"@.len() > 0, "BOLD"@.len() > 0, "ITALICS"@.len() > 0, "LIST"@.len() > 0,
        "ITEM"@.len() > 0, "SOUNDZ"@.len() > 0, "VIDZ"@.len() > 0, "NEWLINE"@.len() > 0,
        "TITLE"@.len() > 0, "HAZ"@.len() > 0, "IZ"@.len() > 0, "SEE"@.len() > 0,
{
    reveal_strlit("#HAI");
    reveal_strlit("#KTHXBYE");
    reveal_strlit("#OBTW");
    reveal_strlit("#TLDR");
    reveal_strlit("#MAEK");
    reveal_strlit("#OIC");
    reveal_strlit("#GIMMEH");
    reveal_strlit("#MKAY");
    reveal_strlit("#I");
    reveal_strlit("#IT");
    reveal_strlit("#LEMME");
    reveal_strlit("HEAD");
    reveal_strlit("PARAGRAF");
    reveal_strlit("BOLD");
    reveal_strlit("ITALICS");
    reveal_strlit("LIST");
    reveal_strlit("ITEM");
    reveal_strlit("SOUNDZ");
    reveal_strlit("VIDZ");
    reveal_strlit("NEWLINE");
    reveal_strlit("TITLE");
    reveal_strlit("HAZ");
    reveal_strlit("IZ");
    reveal_strlit("SEE");
}

} // verus!
