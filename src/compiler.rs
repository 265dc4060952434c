//! The pipeline: lexing, then checking the grammar, then generating HTML.
use vstd::prelude::*;
use crate::grammar::{cur, lolcode, outcome, program, SyntaxError};
use crate::lexer::{all_valid, first_invalid, texts, words, LexError, MarkdownLexicalAnalyzer};
use crate::parser::{MarkdownSyntaxAnalyzer, SyntaxAnalyzer};
use crate::semantic::{generate, html_outcome, SemanticAnalyzer};

verus! {

/// Why a compilation stopped.
#[derive(Debug)]
pub enum CompileError {
    /// A lexeme uses the marker where the vocabulary does not allow it.
    Lexical(LexError),
    /// The tokens do not fit the grammar.
    Syntax(SyntaxError),
    /// A variable is used where no earlier definition binds it.
    Semantic(crate::semantic::SemanticError),
}

/// Why a compilation stops, as texts.
pub enum Failure {
    Lexical(Seq<char>),
    Syntax(SyntaxError),
    Semantic(Seq<char>),
}

/// The first lexeme of the list that the lexer rejects.
pub open spec fn first_rejected(ws: Seq<Seq<char>>) -> Seq<char> {
    ws[choose|k: int| first_invalid(ws, k)]
}

/// The HTML for a source text, or why there is none. The stages run in
/// order and the first failure ends the run.
pub open spec fn compilation(src: Seq<char>) -> Result<Seq<char>, Failure> {
    let ws = words(src);
    if !all_valid(ws) {
        Err(Failure::Lexical(first_rejected(ws)))
    } else {
        match program(ws) {
            Err(e) => Err(Failure::Syntax(e)),
            Ok(_) => match generate(ws) {
                Ok(h) => Ok(h),
                Err(n) => Err(Failure::Semantic(n)),
            },
        }
    }
}

/// What a compilation returned, as texts.
pub open spec fn compile_outcome(r: Result<String, CompileError>) -> Result<Seq<char>, Failure> {
    match r {
        Ok(h) => Ok(h@),
        Err(CompileError::Lexical(e)) => Err(Failure::Lexical(e.lexeme@)),
        Err(CompileError::Syntax(e)) => Err(Failure::Syntax(e)),
        Err(CompileError::Semantic(e)) => Err(Failure::Semantic(e.name@)),
    }
}

/// There is at most one first rejected lexeme.
pub proof fn lemma_first_invalid_unique(ws: Seq<Seq<char>>, a: int, b: int)
    requires
        first_invalid(ws, a),
        first_invalid(ws, b),
    ensures
        a == b,
{
    if a < b {
        assert(crate::vocab::valid_lexeme(ws[a]));
    } else if b < a {
        assert(crate::vocab::valid_lexeme(ws[b]));
    }
}

/// The compiler front end.
pub trait Compiler: SyntaxAnalyzer {
    /// Compiles a whole source text to HTML.
    fn compile(&mut self, source: &str) -> (r: Result<String, CompileError>)
        ensures
            compile_outcome(r) == compilation(source@),
            final(self).ready(),
    ;

    /// Moves to the next token and returns it; past the end, the empty text.
    fn next_token(&mut self) -> (r: String)
        requires
            old(self).ready(),
        ensures
            final(self).ready(),
            final(self).tokens_view() == old(self).tokens_view(),
            final(self).cursor() == if old(self).cursor() < old(self).tokens_view().len() {
                old(self).cursor() + 1
            } else {
                old(self).cursor()
            },
            r@ == cur(final(self).tokens_view(), final(self).cursor()),
    ;

    /// Checks the tokens against the grammar from the cursor on.
    fn parse(&mut self) -> (r: Result<(), SyntaxError>)
        requires
            old(self).ready(),
        ensures
            final(self).ready(),
            final(self).tokens_view() == old(self).tokens_view(),
            outcome(r, final(self).cursor()) == lolcode(old(self).tokens_view(), old(self).cursor()),
    ;

    /// The token at the cursor; past the end, the empty text.
    fn current_token(&self) -> (r: String)
        requires
            self.ready(),
        ensures
            r@ == cur(self.tokens_view(), self.cursor()),
    ;

    /// Puts `tok` in place of the token at the cursor.
    fn set_current_token(&mut self, tok: String)
        requires
            old(self).ready(),
        ensures
            final(self).ready(),
            final(self).cursor() == old(self).cursor(),
            final(self).tokens_view() == if old(self).cursor() < old(self).tokens_view().len() {
                old(self).tokens_view().update(old(self).cursor(), tok@)
            } else {
                old(self).tokens_view()
            },
    ;
}

impl Compiler for MarkdownSyntaxAnalyzer {
    fn compile(&mut self, source: &str) -> (r: Result<String, CompileError>) {
        let mut lexer = MarkdownLexicalAnalyzer::new(source);
        let ghost ws = words(source@);
        match lexer.tokenize() {
            Err(e) => {
                proof {
                    let k = choose|k: int| first_invalid(ws, k) && #[trigger] ws[k] == e.lexeme@;
                    lemma_first_invalid_unique(ws, k, choose|k: int| first_invalid(ws, k));
                }
                *self = MarkdownSyntaxAnalyzer::new();
                return Err(CompileError::Lexical(e));
            },
            Ok(()) => {},
        }
        assert(lexer.found() =~= ws);
        *self = MarkdownSyntaxAnalyzer::from_tokens(lexer.into_tokens());
        let copy = self.copy_tokens();
        match self.parse_lolcode() {
            Err(e) => return Err(CompileError::Syntax(e)),
            Ok(()) => {},
        }
        let mut sem = SemanticAnalyzer::new(copy);
        assert(texts(sem.variable_names@) =~= Seq::<Seq<char>>::empty());
        assert(texts(sem.variable_values@) =~= Seq::<Seq<char>>::empty());
        match sem.convert_html() {
            Ok(h) => Ok(h),
            Err(e) => Err(CompileError::Semantic(e)),
        }
    }

    fn next_token(&mut self) -> (r: String) {
        self.move_next()
    }

    fn parse(&mut self) -> (r: Result<(), SyntaxError>) {
        self.parse_lolcode()
    }

    fn current_token(&self) -> (r: String) {
        self.current().to_owned()
    }

    fn set_current_token(&mut self, tok: String) {
        self.replace_current(tok)
    }
}

} // verus!
