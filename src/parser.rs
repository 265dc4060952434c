//! The syntax analyzer: recursive descent over the token sequence, one
//! method per nonterminal, each proved to agree with its rule in [`grammar`].
//! Every violation of the grammar ends the analysis with a [`SyntaxError`].
//! Whether a used variable was defined is not checked here but during
//! generation, where bindings are resolved.
//!
//! [`grammar`]: crate::grammar
use vstd::prelude::*;
use crate::grammar::{
    audio, body, body_item, bold, comment, italics, video, cur, emphasis, head, inline_item, inner_paragraph, inner_text, item_inner,
    lemma_lits_end_after, lits_end, list, list_items, lolcode, media, newline, outcome, paragraph, text, title, var_define,
    var_use, block_end, Expected, SyntaxError,
};
use crate::lexer::texts;
use crate::text::{is_literal, literal};
use crate::vocab::{
    bai, gimmeh, hai, ihaz, is_kw, kw, lemma_words_nonempty, lemme, maek, mkay, obtw, oic, tldr,
};

verus! {

/// One method per nonterminal. Each reads from the cursor, stops after the
/// nonterminal or at the first token that does not fit, and agrees with the
/// rule of the same name in the grammar.
pub trait SyntaxAnalyzer {
    /// The texts of the token sequence being read.
    spec fn tokens_view(&self) -> Seq<Seq<char>>;

    /// The position of the current token.
    spec fn cursor(&self) -> int;

    /// The cursor lies within the sequence, or just past it.
    spec fn ready(&self) -> bool;

    fn parse_lolcode(&mut self) -> (r: Result<(), SyntaxError>)
        requires
            old(self).ready(),
        ensures
            final(self).ready(),
            final(self).tokens_view() == old(self).tokens_view(),
            outcome(r, final(self).cursor()) == lolcode(old(self).tokens_view(), old(self).cursor()),
    ;

    fn parse_head(&mut self) -> (r: Result<(), SyntaxError>)
        requires
            old(self).ready(),
        ensures
            final(self).ready(),
            final(self).tokens_view() == old(self).tokens_view(),
            outcome(r, final(self).cursor()) == head(old(self).tokens_view(), old(self).cursor()),
            r is Ok ==> old(self).cursor() < final(self).cursor(),
    ;

    fn parse_title(&mut self) -> (r: Result<(), SyntaxError>)
        requires
            old(self).ready(),
        ensures
            final(self).ready(),
            final(self).tokens_view() == old(self).tokens_view(),
            outcome(r, final(self).cursor()) == title(old(self).tokens_view(), old(self).cursor()),
            r is Ok ==> old(self).cursor() < final(self).cursor(),
    ;

    fn parse_comment(&mut self) -> (r: Result<(), SyntaxError>)
        requires
            old(self).ready(),
        ensures
            final(self).ready(),
            final(self).tokens_view() == old(self).tokens_view(),
            outcome(r, final(self).cursor()) == comment(old(self).tokens_view(), old(self).cursor()),
            r is Ok ==> old(self).cursor() < final(self).cursor(),
    ;

    fn parse_body(&mut self) -> (r: Result<(), SyntaxError>)
        requires
            old(self).ready(),
        ensures
            final(self).ready(),
            final(self).tokens_view() == old(self).tokens_view(),
            outcome(r, final(self).cursor()) == body(old(self).tokens_view(), old(self).cursor()),
            r is Ok ==> old(self).cursor() <= final(self).cursor(),
    ;

    fn parse_paragraph(&mut self) -> (r: Result<(), SyntaxError>)
        requires
            old(self).ready(),
        ensures
            final(self).ready(),
            final(self).tokens_view() == old(self).tokens_view(),
            outcome(r, final(self).cursor()) == paragraph(old(self).tokens_view(), old(self).cursor()),
            r is Ok ==> old(self).cursor() < final(self).cursor(),
    ;

    fn parse_inner_paragraph(&mut self) -> (r: Result<(), SyntaxError>)
        requires
            old(self).ready(),
        ensures
            final(self).ready(),
            final(self).tokens_view() == old(self).tokens_view(),
            outcome(r, final(self).cursor()) == inner_paragraph(old(self).tokens_view(), old(self).cursor()),
            r is Ok ==> old(self).cursor() <= final(self).cursor(),
    ;

    fn parse_inner_text(&mut self) -> (r: Result<(), SyntaxError>)
        requires
            old(self).ready(),
        ensures
            final(self).ready(),
            final(self).tokens_view() == old(self).tokens_view(),
            outcome(r, final(self).cursor()) == inner_text(old(self).tokens_view(), old(self).cursor()),
            r is Ok ==> old(self).cursor() < final(self).cursor(),
    ;

    fn parse_variable_define(&mut self) -> (r: Result<(), SyntaxError>)
        requires
            old(self).ready(),
        ensures
            final(self).ready(),
            final(self).tokens_view() == old(self).tokens_view(),
            outcome(r, final(self).cursor()) == var_define(old(self).tokens_view(), old(self).cursor()),
            r is Ok && ihaz(cur(old(self).tokens_view(), old(self).cursor())) ==> old(self).cursor() < final(self).cursor(),
    ;

    fn parse_variable_use(&mut self) -> (r: Result<(), SyntaxError>)
        requires
            old(self).ready(),
        ensures
            final(self).ready(),
            final(self).tokens_view() == old(self).tokens_view(),
            outcome(r, final(self).cursor()) == var_use(old(self).tokens_view(), old(self).cursor()),
            r is Ok ==> old(self).cursor() < final(self).cursor(),
    ;

    fn parse_bold(&mut self) -> (r: Result<(), SyntaxError>)
        requires
            old(self).ready(),
        ensures
            final(self).ready(),
            final(self).tokens_view() == old(self).tokens_view(),
            outcome(r, final(self).cursor()) == bold(old(self).tokens_view(), old(self).cursor()),
            r is Ok ==> old(self).cursor() < final(self).cursor(),
    ;

    fn parse_italics(&mut self) -> (r: Result<(), SyntaxError>)
        requires
            old(self).ready(),
        ensures
            final(self).ready(),
            final(self).tokens_view() == old(self).tokens_view(),
            outcome(r, final(self).cursor()) == italics(old(self).tokens_view(), old(self).cursor()),
            r is Ok ==> old(self).cursor() < final(self).cursor(),
    ;

    fn parse_list(&mut self) -> (r: Result<(), SyntaxError>)
        requires
            old(self).ready(),
        ensures
            final(self).ready(),
            final(self).tokens_view() == old(self).tokens_view(),
            outcome(r, final(self).cursor()) == list(old(self).tokens_view(), old(self).cursor()),
            r is Ok ==> old(self).cursor() < final(self).cursor(),
    ;

    fn parse_list_items(&mut self) -> (r: Result<(), SyntaxError>)
        requires
            old(self).ready(),
        ensures
            final(self).ready(),
            final(self).tokens_view() == old(self).tokens_view(),
            outcome(r, final(self).cursor()) == list_items(old(self).tokens_view(), old(self).cursor()),
            r is Ok ==> old(self).cursor() <= final(self).cursor(),
    ;

    fn parse_inner_list(&mut self) -> (r: Result<(), SyntaxError>)
        requires
            old(self).ready(),
        ensures
            final(self).ready(),
            final(self).tokens_view() == old(self).tokens_view(),
            outcome(r, final(self).cursor()) == item_inner(old(self).tokens_view(), old(self).cursor()),
            r is Ok ==> old(self).cursor() <= final(self).cursor(),
    ;

    fn parse_audio(&mut self) -> (r: Result<(), SyntaxError>)
        requires
            old(self).ready(),
        ensures
            final(self).ready(),
            final(self).tokens_view() == old(self).tokens_view(),
            outcome(r, final(self).cursor()) == audio(old(self).tokens_view(), old(self).cursor()),
            r is Ok ==> old(self).cursor() < final(self).cursor(),
    ;

    fn parse_video(&mut self) -> (r: Result<(), SyntaxError>)
        requires
            old(self).ready(),
        ensures
            final(self).ready(),
            final(self).tokens_view() == old(self).tokens_view(),
            outcome(r, final(self).cursor()) == video(old(self).tokens_view(), old(self).cursor()),
            r is Ok ==> old(self).cursor() < final(self).cursor(),
    ;

    fn parse_newline(&mut self) -> (r: Result<(), SyntaxError>)
        requires
            old(self).ready(),
        ensures
            final(self).ready(),
            final(self).tokens_view() == old(self).tokens_view(),
            outcome(r, final(self).cursor()) == newline(old(self).tokens_view(), old(self).cursor()),
            r is Ok ==> old(self).cursor() < final(self).cursor(),
    ;

    fn parse_text(&mut self) -> (r: Result<(), SyntaxError>)
        requires
            old(self).ready(),
        ensures
            final(self).ready(),
            final(self).tokens_view() == old(self).tokens_view(),
            outcome(r, final(self).cursor()) == text(old(self).tokens_view(), old(self).cursor()),
            r is Ok ==> old(self).cursor() < final(self).cursor(),
    ;
}

pub struct MarkdownSyntaxAnalyzer {
    /// The tokens being read, in source order.
    pub tokens: Vec<String>,
    /// A copy of the token at the cursor; empty past the end.
    pub current_token: String,
    /// The cursor: the place of the current token.
    pub position: usize,
}

impl MarkdownSyntaxAnalyzer {
    pub open spec fn toks(&self) -> Seq<Seq<char>> {
        texts(self.tokens@)
    }

    pub open spec fn pos(&self) -> int {
        self.position as int
    }

    pub open spec fn wf(&self) -> bool {
        &&& self.position <= self.tokens@.len()
        &&& self.current_token@ == cur(self.toks(), self.position as int)
    }

    /// A parser over no tokens.
    pub fn new() -> (r: Self)
        ensures
            r.wf(),
            r.toks().len() == 0,
            r.pos() == 0,
    {
        MarkdownSyntaxAnalyzer {
            tokens: Vec::new(),
            current_token: String::new(),
            position: 0,
        }
    }

    /// A parser at the first of the given tokens.
    pub fn from_tokens(tokens: Vec<String>) -> (r: Self)
        ensures
            r.wf(),
            r.toks() == texts(tokens@),
            r.pos() == 0,
    {
        let current_token = if tokens.len() > 0 {
            tokens[0].clone()
        } else {
            String::new()
        };
        MarkdownSyntaxAnalyzer { tokens, current_token, position: 0 }
    }

    /// A copy of the tokens being read.
    pub fn copy_tokens(&self) -> (r: Vec<String>)
        ensures
            texts(r@) == self.toks(),
    {
        let mut r: Vec<String> = Vec::new();
        let mut k: usize = 0;
        while k < self.tokens.len()
            invariant
                k <= self.tokens@.len(),
                texts(r@) == self.toks().take(k as int),
            decreases self.tokens@.len() - k,
        {
            let ghost before = r@;
            r.push(self.tokens[k].clone());
            assert(texts(r@) =~= texts(before).push(self.tokens@[k as int]@));
            assert(self.toks().take(k + 1) =~= self.toks().take(k as int).push(self.tokens@[k as int]@));
            k += 1;
        }
        assert(self.toks().take(k as int) =~= self.toks());
        r
    }

    /// The token at the cursor, as a text.
    pub fn current(&self) -> (r: &str)
        requires
            self.wf(),
        ensures
            r@ == cur(self.toks(), self.pos()),
    {
        self.current_token.as_str()
    }

    /// Moves the cursor to the next token.
    fn advance(&mut self)
        requires
            old(self).wf(),
            old(self).position < old(self).tokens@.len(),
        ensures
            final(self).wf(),
            final(self).tokens == old(self).tokens,
            final(self).position == old(self).position + 1,
    {
        let n = self.tokens.len();
        self.position += 1;
        if self.position < n {
            self.current_token = self.tokens[self.position].clone();
        } else {
            self.current_token = String::new();
        }
    }

    /// Moves to the next token, if any, and returns the token at the cursor.
    pub fn move_next(&mut self) -> (r: String)
        requires
            old(self).wf(),
        ensures
            final(self).wf(),
            final(self).toks() == old(self).toks(),
            final(self).pos() == if old(self).pos() < old(self).toks().len() {
                old(self).pos() + 1
            } else {
                old(self).pos()
            },
            r@ == cur(final(self).toks(), final(self).pos()),
    {
        if self.position < self.tokens.len() {
            self.advance();
        }
        self.current_token.clone()
    }

    /// Puts `tok` in place of the token at the cursor.
    pub fn replace_current(&mut self, tok: String)
        requires
            old(self).wf(),
        ensures
            final(self).wf(),
            final(self).pos() == old(self).pos(),
            final(self).toks() == if old(self).pos() < old(self).toks().len() {
                old(self).toks().update(old(self).pos(), tok@)
            } else {
                old(self).toks()
            },
    {
        if self.position < self.tokens.len() {
            let ghost before = self.tokens@;
            self.current_token = tok.clone();
            self.tokens.set(self.position, tok);
            assert(texts(self.tokens@) =~= texts(before).update(self.position as int, self.current_token@));
        }
    }

    /// The token after the cursor, as a text.
    fn peek(&self) -> (r: &str)
        requires
            self.wf(),
        ensures
            r@ == cur(self.toks(), self.pos() + 1),
    {
        if self.position < self.tokens.len() && 1 < self.tokens.len() - self.position {
            self.tokens[self.position + 1].as_str()
        } else {
            proof {
                reveal_strlit("");
            }
            ""
        }
    }

    fn error(&self, e: Expected) -> (r: SyntaxError)
        ensures
            r == (SyntaxError { position: self.position, expected: e }),
    {
        SyntaxError { position: self.position, expected: e }
    }

    /// Moves past the current token when it spells `k`.
    fn accept(&mut self, k: &str) -> (r: bool)
        requires
            old(self).wf(),
            k@.len() > 0,
        ensures
            final(self).wf(),
            final(self).tokens == old(self).tokens,
            r == is_kw(cur(old(self).toks(), old(self).pos()), k),
            r ==> final(self).position == old(self).position + 1,
            !r ==> *final(self) == *old(self),
    {
        if kw(self.current_token.as_str(), k) {
            self.advance();
            true
        } else {
            false
        }
    }

    /// Moves past the current token when it is a literal.
    fn accept_literal(&mut self) -> (r: bool)
        requires
            old(self).wf(),
        ensures
            final(self).wf(),
            final(self).tokens == old(self).tokens,
            r == literal(cur(old(self).toks(), old(self).pos())),
            r ==> final(self).position == old(self).position + 1,
            !r ==> *final(self) == *old(self),
    {
        if is_literal(self.current_token.as_str()) {
            self.advance();
            true
        } else {
            false
        }
    }

    /// Moves past a run of literals.
    fn skip_literals(&mut self)
        requires
            old(self).wf(),
        ensures
            final(self).wf(),
            final(self).tokens == old(self).tokens,
            final(self).pos() == lits_end(old(self).toks(), old(self).pos()),
            final(self).pos() >= old(self).pos(),
    {
        while self.accept_literal()
            invariant
                self.wf(),
                self.tokens == old(self).tokens,
                lits_end(self.toks(), self.pos()) == lits_end(old(self).toks(), old(self).pos()),
            decreases self.tokens@.len() - self.position,
        {
        }
        proof {
            lemma_lits_end_after(old(self).toks(), old(self).pos());
        }
    }

    /// The current token ends a block's contents.
    fn at_block_end(&self) -> (r: bool)
        requires
            self.wf(),
        ensures
            r == block_end(self.toks(), self.pos()),
    {
        self.is_oic(self.current_token.as_str()) || self.is_bai(self.current_token.as_str())
    }

    /// `bold` or `italic`, by the kind name `k`.
    fn parse_emphasis(&mut self, k: &str, e: Expected) -> (r: Result<(), SyntaxError>)
        requires
            old(self).wf(),
            k@.len() > 0,
        ensures
            final(self).wf(),
            final(self).toks() == old(self).toks(),
            outcome(r, final(self).pos()) == emphasis(old(self).toks(), old(self).pos(), k, e),
            r is Ok ==> old(self).pos() < final(self).pos(),
    {
        proof { lemma_words_nonempty(); }
        if !self.accept("#GIMMEH") {
            return Err(self.error(Expected::InlineOpen));
        }
        if !self.accept(k) {
            return Err(self.error(e));
        }
        if !self.accept_literal() {
            return Err(self.error(Expected::Text));
        }
        self.skip_literals();
        if !self.accept("#MKAY") {
            return Err(self.error(Expected::InlineClose));
        }
        Ok(())
    }

    /// `audio` or `video`, by the kind name `k`.
    fn parse_media(&mut self, k: &str, e: Expected) -> (r: Result<(), SyntaxError>)
        requires
            old(self).wf(),
            k@.len() > 0,
        ensures
            final(self).wf(),
            final(self).toks() == old(self).toks(),
            outcome(r, final(self).pos()) == media(old(self).toks(), old(self).pos(), k, e),
            r is Ok ==> old(self).pos() < final(self).pos(),
    {
        proof { lemma_words_nonempty(); }
        if !self.accept("#GIMMEH") {
            return Err(self.error(Expected::InlineOpen));
        }
        if !self.accept(k) {
            return Err(self.error(e));
        }
        if !self.accept_literal() {
            return Err(self.error(Expected::Address));
        }
        if !self.accept("#MKAY") {
            return Err(self.error(Expected::InlineClose));
        }
        Ok(())
    }

    /// An inline construct after `#GIMMEH`, chosen by the kind name after it.
    fn parse_inline(&mut self) -> (r: Result<(), SyntaxError>)
        requires
            old(self).wf(),
            gimmeh(cur(old(self).toks(), old(self).pos())),
        ensures
            final(self).wf(),
            final(self).toks() == old(self).toks(),
            outcome(r, final(self).pos()) == inline_item(old(self).toks(), old(self).pos()),
            r is Ok ==> old(self).pos() < final(self).pos(),
    {
        proof { lemma_words_nonempty(); }
        if self.is_bold(self.peek()) {
            self.parse_bold()
        } else if self.is_italics(self.peek()) {
            self.parse_italics()
        } else if self.is_soundz(self.peek()) {
            self.parse_audio()
        } else if self.is_vidz(self.peek()) {
            self.parse_video()
        } else if kw(self.peek(), "NEWLINE") {
            self.parse_newline()
        } else {
            self.advance();
            Err(self.error(Expected::InlineKind))
        }
    }

    /// One item of a body.
    fn parse_inner_body(&mut self) -> (r: Result<(), SyntaxError>)
        requires
            old(self).wf(),
        ensures
            final(self).wf(),
            final(self).toks() == old(self).toks(),
            outcome(r, final(self).pos()) == body_item(old(self).toks(), old(self).pos()),
            r is Ok ==> old(self).pos() < final(self).pos(),
    {
        proof { lemma_words_nonempty(); }
        let c = self.current_token.as_str();
        if self.is_maek(c) {
            if self.is_paragraf(self.peek()) {
                self.parse_paragraph()
            } else if self.is_list(self.peek()) {
                self.parse_list()
            } else {
                self.advance();
                Err(self.error(Expected::BlockKind))
            }
        } else if self.is_gimmeh(c) {
            self.parse_inline()
        } else if self.is_ihaz(c) {
            self.parse_variable_define()
        } else if self.is_lemmesee(c) {
            self.parse_variable_use()
        } else if self.accept_literal() {
            Ok(())
        } else if self.is_obtw(self.current_token.as_str()) {
            self.parse_comment()
        } else {
            Err(self.error(Expected::BodyItem))
        }
    }

    pub fn is_hai(&self, s: &str) -> (r: bool) ensures r == hai(s@) { kw(s, "#HAI") }
    pub fn is_bai(&self, s: &str) -> (r: bool) ensures r == bai(s@) { kw(s, "#KTHXBYE") }
    pub fn is_obtw(&self, s: &str) -> (r: bool) ensures r == obtw(s@) { kw(s, "#OBTW") }
    pub fn is_tldr(&self, s: &str) -> (r: bool) ensures r == tldr(s@) { kw(s, "#TLDR") }
    pub fn is_maek(&self, s: &str) -> (r: bool) ensures r == maek(s@) { kw(s, "#MAEK") }
    pub fn is_oic(&self, s: &str) -> (r: bool) ensures r == oic(s@) { kw(s, "#OIC") }
    pub fn is_gimmeh(&self, s: &str) -> (r: bool) ensures r == gimmeh(s@) { kw(s, "#GIMMEH") }
    pub fn is_mkay(&self, s: &str) -> (r: bool) ensures r == mkay(s@) { kw(s, "#MKAY") }
    pub fn is_head(&self, s: &str) -> (r: bool) ensures r == is_kw(s@, "HEAD") { kw(s, "HEAD") }
    pub fn is_paragraf(&self, s: &str) -> (r: bool) ensures r == is_kw(s@, "PARAGRAF") { kw(s, "PARAGRAF") }
    pub fn is_bold(&self, s: &str) -> (r: bool) ensures r == is_kw(s@, "BOLD") { kw(s, "BOLD") }
    pub fn is_italics(&self, s: &str) -> (r: bool) ensures r == is_kw(s@, "ITALICS") { kw(s, "ITALICS") }
    pub fn is_list(&self, s: &str) -> (r: bool) ensures r == is_kw(s@, "LIST") { kw(s, "LIST") }
    pub fn is_item(&self, s: &str) -> (r: bool) ensures r == is_kw(s@, "ITEM") { kw(s, "ITEM") }
    pub fn is_soundz(&self, s: &str) -> (r: bool) ensures r == is_kw(s@, "SOUNDZ") { kw(s, "SOUNDZ") }
    pub fn is_vidz(&self, s: &str) -> (r: bool) ensures r == is_kw(s@, "VIDZ") { kw(s, "VIDZ") }
    pub fn is_ihaz(&self, s: &str) -> (r: bool) ensures r == ihaz(s@) { kw(s, "#I") }
    pub fn is_lemmesee(&self, s: &str) -> (r: bool) ensures r == lemme(s@) { kw(s, "#LEMME") }
}

impl SyntaxAnalyzer for MarkdownSyntaxAnalyzer {
    open spec fn tokens_view(&self) -> Seq<Seq<char>> {
        self.toks()
    }

    open spec fn cursor(&self) -> int {
        self.pos()
    }

    open spec fn ready(&self) -> bool {
        self.wf()
    }

    fn parse_lolcode(&mut self) -> (r: Result<(), SyntaxError>) {
        proof { lemma_words_nonempty(); }
        if !self.accept("#HAI") {
            return Err(self.error(Expected::FileStart));
        }
        if self.is_obtw(self.current_token.as_str()) {
            self.parse_comment()?;
        }
        self.parse_head()?;
        self.parse_body()?;
        if !self.accept("#KTHXBYE") {
            return Err(self.error(Expected::FileEnd));
        }
        if self.position != self.tokens.len() {
            return Err(self.error(Expected::EndOfInput));
        }
        Ok(())
    }

    fn parse_head(&mut self) -> (r: Result<(), SyntaxError>) {
        proof { lemma_words_nonempty(); }
        if !self.accept("#MAEK") {
            return Err(self.error(Expected::BlockOpen));
        }
        if !self.accept("HEAD") {
            return Err(self.error(Expected::HeadKind));
        }
        self.parse_title()?;
        if !self.accept("#OIC") {
            return Err(self.error(Expected::BlockClose));
        }
        Ok(())
    }

    fn parse_title(&mut self) -> (r: Result<(), SyntaxError>) {
        proof { lemma_words_nonempty(); }
        if !self.accept("#GIMMEH") {
            return Err(self.error(Expected::InlineOpen));
        }
        if !self.accept("TITLE") {
            return Err(self.error(Expected::TitleKind));
        }
        self.skip_literals();
        if !self.accept("#MKAY") {
            return Err(self.error(Expected::InlineClose));
        }
        Ok(())
    }

    fn parse_comment(&mut self) -> (r: Result<(), SyntaxError>) {
        proof { lemma_words_nonempty(); }
        if !self.accept("#OBTW") {
            return Err(self.error(Expected::CommentOpen));
        }
        self.skip_literals();
        if !self.accept("#TLDR") {
            return Err(self.error(Expected::CommentClose));
        }
        Ok(())
    }
    fn parse_body(&mut self) -> (r: Result<(), SyntaxError>) {
        loop
            invariant
                self.wf(),
                self.toks() == old(self).toks(),
                old(self).pos() <= self.pos(),
                body(self.toks(), self.pos()) == body(old(self).toks(), old(self).pos()),
            decreases self.tokens@.len() - self.position,
        {
            if self.at_block_end() {
                return Ok(());
            }
            if self.position >= self.tokens.len() {
                return Err(self.error(Expected::FileEnd));
            }
            self.parse_inner_body()?;
        }
    }

    fn parse_paragraph(&mut self) -> (r: Result<(), SyntaxError>) {
        proof { lemma_words_nonempty(); }
        if !self.accept("#MAEK") {
            return Err(self.error(Expected::BlockOpen));
        }
        if !self.accept("PARAGRAF") {
            return Err(self.error(Expected::ParagraphKind));
        }
        self.parse_variable_define()?;
        self.parse_inner_paragraph()?;
        if !self.accept("#OIC") {
            return Err(self.error(Expected::BlockClose));
        }
        Ok(())
    }

    fn parse_inner_paragraph(&mut self) -> (r: Result<(), SyntaxError>) {
        loop
            invariant
                self.wf(),
                self.toks() == old(self).toks(),
                old(self).pos() <= self.pos(),
                inner_paragraph(self.toks(), self.pos()) == inner_paragraph(old(self).toks(), old(self).pos()),
            decreases self.tokens@.len() - self.position,
        {
            if self.at_block_end() {
                return Ok(());
            }
            if self.position >= self.tokens.len() {
                return Err(self.error(Expected::BlockClose));
            }
            self.parse_inner_text()?;
        }
    }

    fn parse_inner_text(&mut self) -> (r: Result<(), SyntaxError>) {
        proof { lemma_words_nonempty(); }
        if self.is_lemmesee(self.current_token.as_str()) {
            self.parse_variable_use()
        } else if self.is_gimmeh(self.current_token.as_str()) {
            self.parse_inline()
        } else if self.is_maek(self.current_token.as_str()) {
            if self.is_list(self.peek()) {
                self.parse_list()
            } else {
                self.advance();
                Err(self.error(Expected::ListKind))
            }
        } else if self.accept_literal() {
            Ok(())
        } else {
            Err(self.error(Expected::ParagraphItem))
        }
    }

    fn parse_variable_define(&mut self) -> (r: Result<(), SyntaxError>) {
        proof { lemma_words_nonempty(); }
        if !self.accept("#I") {
            return Ok(());
        }
        if !self.accept("HAZ") {
            return Err(self.error(Expected::Haz));
        }
        if !self.accept_literal() {
            return Err(self.error(Expected::VariableName));
        }
        if !self.accept("#IT") {
            return Err(self.error(Expected::It));
        }
        if !self.accept("IZ") {
            return Err(self.error(Expected::Iz));
        }
        if !self.accept_literal() {
            return Err(self.error(Expected::VariableValue));
        }
        if !self.accept("#MKAY") {
            return Err(self.error(Expected::InlineClose));
        }
        Ok(())
    }

    fn parse_variable_use(&mut self) -> (r: Result<(), SyntaxError>) {
        proof { lemma_words_nonempty(); }
        if !self.accept("#LEMME") {
            return Err(self.error(Expected::Lemme));
        }
        if !self.accept("SEE") {
            return Err(self.error(Expected::See));
        }
        if !self.accept_literal() {
            return Err(self.error(Expected::VariableName));
        }
        if !self.accept("#MKAY") {
            return Err(self.error(Expected::InlineClose));
        }
        Ok(())
    }

    fn parse_bold(&mut self) -> (r: Result<(), SyntaxError>) {
        proof { lemma_words_nonempty(); }
        self.parse_emphasis("BOLD", Expected::BoldKind)
    }

    fn parse_italics(&mut self) -> (r: Result<(), SyntaxError>) {
        proof { lemma_words_nonempty(); }
        self.parse_emphasis("ITALICS", Expected::ItalicsKind)
    }

    fn parse_list(&mut self) -> (r: Result<(), SyntaxError>) {
        proof { lemma_words_nonempty(); }
        if !self.accept("#MAEK") {
            return Err(self.error(Expected::BlockOpen));
        }
        if !self.accept("LIST") {
            return Err(self.error(Expected::ListKind));
        }
        self.parse_list_items()?;
        if !self.accept("#OIC") {
            return Err(self.error(Expected::BlockClose));
        }
        Ok(())
    }

    fn parse_list_items(&mut self) -> (r: Result<(), SyntaxError>) {
        proof { lemma_words_nonempty(); }
        loop
            invariant
                self.wf(),
                self.toks() == old(self).toks(),
                old(self).pos() <= self.pos(),
                list_items(self.toks(), self.pos()) == list_items(old(self).toks(), old(self).pos()),
                "#GIMMEH"@.len() > 0, "ITEM"@.len() > 0, "#MKAY"@.len() > 0,
            decreases self.tokens@.len() - self.position,
        {
            if !self.accept("#GIMMEH") {
                return Ok(());
            }
            if !self.accept("ITEM") {
                return Err(self.error(Expected::ItemKind));
            }
            self.parse_inner_list()?;
            if !self.accept("#MKAY") {
                return Err(self.error(Expected::InlineClose));
            }
        }
    }

    fn parse_inner_list(&mut self) -> (r: Result<(), SyntaxError>) {
        proof { lemma_words_nonempty(); }
        if !self.is_gimmeh(self.current_token.as_str()) {
            Ok(())
        } else if self.is_bold(self.peek()) {
            self.parse_bold()
        } else if self.is_italics(self.peek()) {
            self.parse_italics()
        } else {
            self.advance();
            Err(self.error(Expected::InlineKind))
        }
    }

    fn parse_audio(&mut self) -> (r: Result<(), SyntaxError>) {
        proof { lemma_words_nonempty(); }
        self.parse_media("SOUNDZ", Expected::InlineKind)
    }

    fn parse_video(&mut self) -> (r: Result<(), SyntaxError>) {
        proof { lemma_words_nonempty(); }
        self.parse_media("VIDZ", Expected::InlineKind)
    }

    fn parse_newline(&mut self) -> (r: Result<(), SyntaxError>) {
        proof { lemma_words_nonempty(); }
        if !self.accept("#GIMMEH") {
            return Err(self.error(Expected::InlineOpen));
        }
        if !self.accept("NEWLINE") {
            return Err(self.error(Expected::NewlineKind));
        }
        Ok(())
    }

    fn parse_text(&mut self) -> (r: Result<(), SyntaxError>) {
        if !self.accept_literal() {
            return Err(self.error(Expected::Text));
        }
        Ok(())
    }
}

} // verus!
