//! The grammar of the language, as one spec function per nonterminal.
//!
//! Each function reads the token texts `t` from position `p` and gives the
//! position after the nonterminal, or the syntax error at the first token
//! that does not fit. Positions at or past the end read as the empty text.
use vstd::prelude::*;
use crate::text::literal;
use crate::vocab::{bai, gimmeh, hai, ihaz, is_kw, itiz, lemme, maek, mkay, obtw, oic, tldr};

verus! {

/// What the parser expected where it stopped.
#[derive(Clone, Copy, Debug, PartialEq, Eq, Structural)]
pub enum Expected {
    FileStart,
    FileEnd,
    EndOfInput,
    CommentOpen,
    CommentClose,
    BlockOpen,
    BlockKind,
    HeadKind,
    ParagraphKind,
    ListKind,
    BlockClose,
    InlineOpen,
    InlineKind,
    TitleKind,
    BoldKind,
    ItalicsKind,
    ItemKind,
    NewlineKind,
    InlineClose,
    Text,
    Address,
    VariableName,
    VariableValue,
    Haz,
    It,
    Iz,
    Lemme,
    See,
    BodyItem,
    ParagraphItem,
}

/// A token sequence that the grammar rejects: where, and what was expected.
#[derive(Clone, Copy, Debug, PartialEq, Eq, Structural)]
pub struct SyntaxError {
    pub position: usize,
    pub expected: Expected,
}

/// The token at `p`, or the empty text past the end.
pub open spec fn cur(t: Seq<Seq<char>>, p: int) -> Seq<char> {
    if 0 <= p < t.len() {
        t[p]
    } else {
        seq![]
    }
}

pub open spec fn fail(p: int, e: Expected) -> Result<int, SyntaxError> {
    Err(SyntaxError { position: p as usize, expected: e })
}

/// The token at `p` spells `k` up to ASCII case.
pub open spec fn kw_at(t: Seq<Seq<char>>, p: int, k: &str) -> bool {
    is_kw(cur(t, p), k)
}

/// The first position at or after `p` that holds no literal.
pub open spec fn lits_end(t: Seq<Seq<char>>, p: int) -> int
    decreases t.len() - p,
{
    if 0 <= p < t.len() && literal(t[p]) {
        lits_end(t, p + 1)
    } else {
        p
    }
}

pub proof fn lemma_lits_end_after(t: Seq<Seq<char>>, p: int)
    ensures
        lits_end(t, p) >= p,
    decreases t.len() - p,
{
    if 0 <= p < t.len() && literal(t[p]) {
        lemma_lits_end_after(t, p + 1);
    }
}

/// `comment ::= #OBTW TEXT* #TLDR`
pub open spec fn comment(t: Seq<Seq<char>>, p: int) -> Result<int, SyntaxError> {
    if !obtw(cur(t, p)) {
        fail(p, Expected::CommentOpen)
    } else {
        let q = lits_end(t, p + 1);
        if tldr(cur(t, q)) {
            Ok(q + 1)
        } else {
            fail(q, Expected::CommentClose)
        }
    }
}

/// `title ::= #GIMMEH TITLE TEXT* #MKAY`
pub open spec fn title(t: Seq<Seq<char>>, p: int) -> Result<int, SyntaxError> {
    if !gimmeh(cur(t, p)) {
        fail(p, Expected::InlineOpen)
    } else if !kw_at(t, p + 1, "TITLE") {
        fail(p + 1, Expected::TitleKind)
    } else {
        let q = lits_end(t, p + 2);
        if mkay(cur(t, q)) {
            Ok(q + 1)
        } else {
            fail(q, Expected::InlineClose)
        }
    }
}

/// `head ::= #MAEK HEAD title #OIC`
pub open spec fn head(t: Seq<Seq<char>>, p: int) -> Result<int, SyntaxError> {
    if !maek(cur(t, p)) {
        fail(p, Expected::BlockOpen)
    } else if !kw_at(t, p + 1, "HEAD") {
        fail(p + 1, Expected::HeadKind)
    } else {
        match title(t, p + 2) {
            Err(e) => Err(e),
            Ok(q) => if oic(cur(t, q)) {
                Ok(q + 1)
            } else {
                fail(q, Expected::BlockClose)
            },
        }
    }
}

/// `bold ::= #GIMMEH BOLD TEXT+ #MKAY` and `italic ::= #GIMMEH ITALICS TEXT+ #MKAY`,
/// with the kind name `k`.
pub open spec fn emphasis(t: Seq<Seq<char>>, p: int, k: &str, e: Expected) -> Result<int, SyntaxError> {
    if !gimmeh(cur(t, p)) {
        fail(p, Expected::InlineOpen)
    } else if !kw_at(t, p + 1, k) {
        fail(p + 1, e)
    } else if !literal(cur(t, p + 2)) {
        fail(p + 2, Expected::Text)
    } else {
        let q = lits_end(t, p + 3);
        if mkay(cur(t, q)) {
            Ok(q + 1)
        } else {
            fail(q, Expected::InlineClose)
        }
    }
}

pub open spec fn bold(t: Seq<Seq<char>>, p: int) -> Result<int, SyntaxError> {
    emphasis(t, p, "BOLD", Expected::BoldKind)
}

pub open spec fn italics(t: Seq<Seq<char>>, p: int) -> Result<int, SyntaxError> {
    emphasis(t, p, "ITALICS", Expected::ItalicsKind)
}

/// `audio ::= #GIMMEH SOUNDZ ADDRESS #MKAY` and `video ::= #GIMMEH VIDZ ADDRESS #MKAY`,
/// with the kind name `k`.
pub open spec fn media(t: Seq<Seq<char>>, p: int, k: &str, e: Expected) -> Result<int, SyntaxError> {
    if !gimmeh(cur(t, p)) {
        fail(p, Expected::InlineOpen)
    } else if !kw_at(t, p + 1, k) {
        fail(p + 1, e)
    } else if !literal(cur(t, p + 2)) {
        fail(p + 2, Expected::Address)
    } else if !mkay(cur(t, p + 3)) {
        fail(p + 3, Expected::InlineClose)
    } else {
        Ok(p + 4)
    }
}

pub open spec fn audio(t: Seq<Seq<char>>, p: int) -> Result<int, SyntaxError> {
    media(t, p, "SOUNDZ", Expected::InlineKind)
}

pub open spec fn video(t: Seq<Seq<char>>, p: int) -> Result<int, SyntaxError> {
    media(t, p, "VIDZ", Expected::InlineKind)
}

/// `newline ::= #GIMMEH NEWLINE`
pub open spec fn newline(t: Seq<Seq<char>>, p: int) -> Result<int, SyntaxError> {
    if !gimmeh(cur(t, p)) {
        fail(p, Expected::InlineOpen)
    } else if !kw_at(t, p + 1, "NEWLINE") {
        fail(p + 1, Expected::NewlineKind)
    } else {
        Ok(p + 2)
    }
}

/// `varDefine ::= #I HAZ NAME #IT IZ TEXT #MKAY | ε`
pub open spec fn var_define(t: Seq<Seq<char>>, p: int) -> Result<int, SyntaxError> {
    if !ihaz(cur(t, p)) {
        Ok(p)
    } else if !kw_at(t, p + 1, "HAZ") {
        fail(p + 1, Expected::Haz)
    } else if !literal(cur(t, p + 2)) {
        fail(p + 2, Expected::VariableName)
    } else if !itiz(cur(t, p + 3)) {
        fail(p + 3, Expected::It)
    } else if !kw_at(t, p + 4, "IZ") {
        fail(p + 4, Expected::Iz)
    } else if !literal(cur(t, p + 5)) {
        fail(p + 5, Expected::VariableValue)
    } else if !mkay(cur(t, p + 6)) {
        fail(p + 6, Expected::InlineClose)
    } else {
        Ok(p + 7)
    }
}

/// `varUse ::= #LEMME SEE NAME #MKAY`
pub open spec fn var_use(t: Seq<Seq<char>>, p: int) -> Result<int, SyntaxError> {
    if !lemme(cur(t, p)) {
        fail(p, Expected::Lemme)
    } else if !kw_at(t, p + 1, "SEE") {
        fail(p + 1, Expected::See)
    } else if !literal(cur(t, p + 2)) {
        fail(p + 2, Expected::VariableName)
    } else if !mkay(cur(t, p + 3)) {
        fail(p + 3, Expected::InlineClose)
    } else {
        Ok(p + 4)
    }
}

/// An inline construct, chosen by the kind name after `#GIMMEH`.
pub open spec fn inline_item(t: Seq<Seq<char>>, p: int) -> Result<int, SyntaxError> {
    if kw_at(t, p + 1, "BOLD") {
        bold(t, p)
    } else if kw_at(t, p + 1, "ITALICS") {
        italics(t, p)
    } else if kw_at(t, p + 1, "SOUNDZ") {
        audio(t, p)
    } else if kw_at(t, p + 1, "VIDZ") {
        video(t, p)
    } else if kw_at(t, p + 1, "NEWLINE") {
        newline(t, p)
    } else {
        fail(p + 1, Expected::InlineKind)
    }
}

/// `innerListItem ::= bold | italic | ε`
pub open spec fn item_inner(t: Seq<Seq<char>>, p: int) -> Result<int, SyntaxError> {
    if !gimmeh(cur(t, p)) {
        Ok(p)
    } else if kw_at(t, p + 1, "BOLD") {
        bold(t, p)
    } else if kw_at(t, p + 1, "ITALICS") {
        italics(t, p)
    } else {
        fail(p + 1, Expected::InlineKind)
    }
}

/// `listItems ::= #GIMMEH ITEM innerListItem #MKAY listItems | ε`
pub open spec fn list_items(t: Seq<Seq<char>>, p: int) -> Result<int, SyntaxError>
    decreases t.len() - p,
{
    if !gimmeh(cur(t, p)) {
        Ok(p)
    } else if !kw_at(t, p + 1, "ITEM") {
        fail(p + 1, Expected::ItemKind)
    } else {
        match item_inner(t, p + 2) {
            Err(e) => Err(e),
            Ok(q) => if !mkay(cur(t, q)) {
                fail(q, Expected::InlineClose)
            } else if p < q + 1 <= t.len() {
                list_items(t, q + 1)
            } else {
                Ok(q + 1)
            },
        }
    }
}

/// `list ::= #MAEK LIST listItems #OIC`
pub open spec fn list(t: Seq<Seq<char>>, p: int) -> Result<int, SyntaxError> {
    if !maek(cur(t, p)) {
        fail(p, Expected::BlockOpen)
    } else if !kw_at(t, p + 1, "LIST") {
        fail(p + 1, Expected::ListKind)
    } else {
        match list_items(t, p + 2) {
            Err(e) => Err(e),
            Ok(q) => if oic(cur(t, q)) {
                Ok(q + 1)
            } else {
                fail(q, Expected::BlockClose)
            },
        }
    }
}

/// `innerText ::= varUse | bold | italic | list | audio | video | newline | TEXT`
pub open spec fn inner_text(t: Seq<Seq<char>>, p: int) -> Result<int, SyntaxError> {
    if lemme(cur(t, p)) {
        var_use(t, p)
    } else if gimmeh(cur(t, p)) {
        inline_item(t, p)
    } else if maek(cur(t, p)) {
        if kw_at(t, p + 1, "LIST") {
            list(t, p)
        } else {
            fail(p + 1, Expected::ListKind)
        }
    } else if literal(cur(t, p)) {
        Ok(p + 1)
    } else {
        fail(p, Expected::ParagraphItem)
    }
}

/// The end of a block's contents: a block close or the file end.
pub open spec fn block_end(t: Seq<Seq<char>>, p: int) -> bool {
    oic(cur(t, p)) || bai(cur(t, p))
}

/// `innerParagraph ::= innerText innerParagraph | ε`
pub open spec fn inner_paragraph(t: Seq<Seq<char>>, p: int) -> Result<int, SyntaxError>
    decreases t.len() - p,
{
    if block_end(t, p) {
        Ok(p)
    } else if p >= t.len() {
        fail(p, Expected::BlockClose)
    } else {
        match inner_text(t, p) {
            Err(e) => Err(e),
            Ok(q) => if p < q <= t.len() {
                inner_paragraph(t, q)
            } else {
                Ok(q)
            },
        }
    }
}

/// `paragraph ::= #MAEK PARAGRAF varDefine innerParagraph #OIC`
pub open spec fn paragraph(t: Seq<Seq<char>>, p: int) -> Result<int, SyntaxError> {
    if !maek(cur(t, p)) {
        fail(p, Expected::BlockOpen)
    } else if !kw_at(t, p + 1, "PARAGRAF") {
        fail(p + 1, Expected::ParagraphKind)
    } else {
        match var_define(t, p + 2) {
            Err(e) => Err(e),
            Ok(q) => match inner_paragraph(t, q) {
                Err(e) => Err(e),
                Ok(r) => if oic(cur(t, r)) {
                    Ok(r + 1)
                } else {
                    fail(r, Expected::BlockClose)
                },
            },
        }
    }
}

/// `innerBody ::= paragraph | list | bold | italic | audio | video | newline
///              | varDefine | varUse | TEXT | comment`
pub open spec fn body_item(t: Seq<Seq<char>>, p: int) -> Result<int, SyntaxError> {
    if maek(cur(t, p)) {
        if kw_at(t, p + 1, "PARAGRAF") {
            paragraph(t, p)
        } else if kw_at(t, p + 1, "LIST") {
            list(t, p)
        } else {
            fail(p + 1, Expected::BlockKind)
        }
    } else if gimmeh(cur(t, p)) {
        inline_item(t, p)
    } else if ihaz(cur(t, p)) {
        var_define(t, p)
    } else if lemme(cur(t, p)) {
        var_use(t, p)
    } else if literal(cur(t, p)) {
        Ok(p + 1)
    } else if obtw(cur(t, p)) {
        comment(t, p)
    } else {
        fail(p, Expected::BodyItem)
    }
}

/// `body ::= innerBody body | ε`
pub open spec fn body(t: Seq<Seq<char>>, p: int) -> Result<int, SyntaxError>
    decreases t.len() - p,
{
    if block_end(t, p) {
        Ok(p)
    } else if p >= t.len() {
        fail(p, Expected::FileEnd)
    } else {
        match body_item(t, p) {
            Err(e) => Err(e),
            Ok(q) => if p < q <= t.len() {
                body(t, q)
            } else {
                Ok(q)
            },
        }
    }
}

/// `program ::= #HAI comment? head body #KTHXBYE`, read from `p`, with
/// nothing after it.
pub open spec fn lolcode(t: Seq<Seq<char>>, p: int) -> Result<int, SyntaxError> {
    if !hai(cur(t, p)) {
        fail(p, Expected::FileStart)
    } else {
        let c = if obtw(cur(t, p + 1)) {
            comment(t, p + 1)
        } else {
            Ok(p + 1)
        };
        match c {
            Err(e) => Err(e),
            Ok(p1) => match head(t, p1) {
                Err(e) => Err(e),
                Ok(q) => match body(t, q) {
                    Err(e) => Err(e),
                    Ok(r) => if !bai(cur(t, r)) {
                        fail(r, Expected::FileEnd)
                    } else if r + 1 != t.len() {
                        fail(r + 1, Expected::EndOfInput)
                    } else {
                        Ok(r + 1)
                    },
                },
            },
        }
    }
}

/// The grammar's verdict on a whole token sequence.
pub open spec fn program(t: Seq<Seq<char>>) -> Result<int, SyntaxError> {
    lolcode(t, 0)
}

/// `TEXT`
pub open spec fn text(t: Seq<Seq<char>>, p: int) -> Result<int, SyntaxError> {
    if literal(cur(t, p)) {
        Ok(p + 1)
    } else {
        fail(p, Expected::Text)
    }
}

/// The outcome of a parsing step as the grammar states it: the position it
/// stopped at, or its error.
pub open spec fn outcome(r: Result<(), SyntaxError>, p: int) -> Result<int, SyntaxError> {
    match r {
        Ok(_) => Ok(p),
        Err(e) => Err(e),
    }
}

} // verus!
