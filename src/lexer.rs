//! The lexical analyzer: splits the source at whitespace into lexemes and
//! checks each one that uses the keyword marker against the vocabulary.
use vstd::prelude::*;
use crate::text::{chars_of, is_space, is_space_spec, push_char};
use crate::vocab::{is_known, is_phrase_start, is_valid_lexeme, known, phrase_start, valid_lexeme};

verus! {

/// The lexeme being built, as a list of zero or one finished lexemes.
pub open spec fn flush(cur: Seq<char>) -> Seq<Seq<char>> {
    if cur.len() > 0 {
        seq![cur]
    } else {
        seq![]
    }
}

/// The lexemes of `s`, when `cur` has been read before it: maximal runs of
/// characters that are not whitespace, in source order.
pub open spec fn scan(s: Seq<char>, cur: Seq<char>) -> Seq<Seq<char>>
    decreases s.len(),
{
    if s.len() == 0 {
        flush(cur)
    } else if is_space_spec(s[0]) {
        flush(cur) + scan(s.drop_first(), seq![])
    } else {
        scan(s.drop_first(), cur.push(s[0]))
    }
}

/// The lexemes of a whole source text.
pub open spec fn words(s: Seq<char>) -> Seq<Seq<char>> {
    scan(s, seq![])
}

/// The texts of a list of strings.
pub open spec fn texts(v: Seq<String>) -> Seq<Seq<char>> {
    v.map_values(|t: String| t@)
}

/// Every lexeme of the list is accepted.
pub open spec fn all_valid(ws: Seq<Seq<char>>) -> bool {
    forall|k: int| 0 <= k < ws.len() ==> valid_lexeme(#[trigger] ws[k])
}

/// `k` is the place of the first rejected lexeme of the list.
pub open spec fn first_invalid(ws: Seq<Seq<char>>, k: int) -> bool {
    &&& 0 <= k < ws.len()
    &&& !valid_lexeme(ws[k])
    &&& forall|j: int| 0 <= j < k ==> valid_lexeme(#[trigger] ws[j])
}

/// A lexeme that uses the marker where the vocabulary does not allow it.
#[derive(Debug)]
pub struct LexError {
    pub lexeme: String,
}

/// Reading a character and building a lexeme from it.
pub trait LexicalAnalyzer {
    /// The input not yet read.
    spec fn unread(&self) -> Seq<char>;

    /// The lexeme being built.
    spec fn building(&self) -> Seq<char>;

    /// The lexemes found so far.
    spec fn found_view(&self) -> Seq<Seq<char>>;

    /// The reading position lies within the input.
    spec fn ready(&self) -> bool;

    /// The next character of the input, or `None` at its end.
    fn get_char(&mut self) -> (r: Option<char>)
        requires
            old(self).ready(),
        ensures
            final(self).ready(),
            final(self).building() == old(self).building(),
            final(self).found_view() == old(self).found_view(),
            old(self).unread().len() == 0 ==> r is None && final(self).unread() == old(self).unread(),
            old(self).unread().len() > 0 ==> r == Some(old(self).unread()[0])
                && final(self).unread() == old(self).unread().drop_first(),
    ;

    /// Adds a character to the lexeme being built.
    fn add_char(&mut self, c: char)
        requires
            old(self).ready(),
        ensures
            final(self).ready(),
            final(self).unread() == old(self).unread(),
            final(self).found_view() == old(self).found_view(),
            final(self).building() == old(self).building().push(c),
    ;

    /// Whether a lexeme is a word of the vocabulary.
    fn lookup(&self, s: &str) -> (r: bool)
        ensures
            r == known(s@),
    ;
}

pub struct MarkdownLexicalAnalyzer {
    /// The source text.
    pub input: Vec<char>,
    /// The place of the next character to read.
    pub position: usize,
    /// The lexeme being built.
    pub current_build: String,
    /// The lexemes found so far, in source order.
    pub tokens: Vec<String>,
}

impl MarkdownLexicalAnalyzer {
    pub open spec fn input_spec(&self) -> Seq<char> {
        self.input@
    }

    /// The lexemes that are still to come: those of the unread input, the one
    /// being built included.
    pub open spec fn pending(&self) -> Seq<Seq<char>> {
        scan(self.input@.skip(self.position as int), self.current_build@)
    }

    /// The input not yet read.
    pub open spec fn rest(&self) -> Seq<char> {
        self.input@.skip(self.position as int)
    }

    /// The lexeme being built.
    pub open spec fn build(&self) -> Seq<char> {
        self.current_build@
    }

    /// The texts of the lexemes found so far.
    pub open spec fn found(&self) -> Seq<Seq<char>> {
        texts(self.tokens@)
    }

    pub open spec fn wf(&self) -> bool {
        self.position <= self.input@.len()
    }

    pub fn new(source: &str) -> (r: Self)
        ensures
            r.wf(),
            r.input_spec() == source@,
            r.pending() == words(source@),
            r.found().len() == 0,
    {
        let r = MarkdownLexicalAnalyzer {
            input: chars_of(source),
            position: 0,
            current_build: String::new(),
            tokens: Vec::new(),
        };
        assert(r.input@.skip(0) =~= r.input@);
        r
    }

    /// Splits the rest of the input into lexemes and appends them to `tokens`.
    /// Fails on the first lexeme that the vocabulary rejects.
    pub fn tokenize(&mut self) -> (r: Result<(), LexError>)
        requires
            old(self).wf(),
        ensures
            final(self).wf(),
            r is Ok <==> all_valid(old(self).pending()),
            r is Ok ==> final(self).found() == old(self).found() + old(self).pending(),
            r matches Err(e) ==> exists|k: int|
                first_invalid(old(self).pending(), k) && #[trigger] old(self).pending()[k] == e.lexeme@,
    {
        let ghost ws = old(self).pending();
        let ghost start = texts(self.tokens@);
        let ghost mut done: Seq<Seq<char>> = seq![];
        loop
            invariant
                self.wf(),
                ws == old(self).pending(),
                start == texts(old(self).tokens@),
                done + self.pending() == ws,
                all_valid(done),
                texts(self.tokens@) == start + done,
            decreases self.input@.len() - self.position,
        {
            let ghost before = self.input@.skip(self.position as int);
            let ghost cur = self.current_build@;
            match self.read_char() {
                None => {
                    assert(before.len() == 0);
                    assert(ws == done + flush(cur));
                    if self.current_build.unicode_len() > 0 {
                        let last = self.take_build();
                        assert(ws[done.len() as int] == last@);
                        if !is_valid_lexeme(last.as_str()) {
                            assert(first_invalid(ws, done.len() as int));
                            assert(!valid_lexeme(ws[done.len() as int]));
                            return Err(LexError { lexeme: last });
                        }
                        self.push_token(last);
                        proof {
                            done = done.push(last@);
                        }
                    }
                    assert(done =~= ws);
                    return Ok(());
                },
                Some(c) => {
                    assert(before.drop_first() =~= self.input@.skip(self.position as int));
                    if is_space(c) {
                        assert(ws == done + (flush(cur) + scan(self.input@.skip(self.position as int), seq![])));
                        if self.current_build.unicode_len() > 0 {
                            let last = self.take_build();
                            assert(ws[done.len() as int] == last@);
                            if !is_valid_lexeme(last.as_str()) {
                                assert(first_invalid(ws, done.len() as int));
                                assert(!valid_lexeme(ws[done.len() as int]));
                                return Err(LexError { lexeme: last });
                            }
                            self.push_token(last);
                            proof {
                                assert(done.push(last@) + self.pending() =~= ws);
                                done = done.push(last@);
                            }
                        } else {
                            assert(cur =~= Seq::<char>::empty());
                            assert(flush(cur) =~= Seq::<Seq<char>>::empty());
                            assert(done + self.pending() =~= ws);
                        }
                    } else {
                        self.extend(c);
                    }
                },
            }
        }
    }

    /// The lexemes found, handed out.
    pub fn into_tokens(self) -> (r: Vec<String>)
        ensures
            texts(r@) == self.found(),
    {
        self.tokens
    }

    fn read_char(&mut self) -> (r: Option<char>)
        ensures
            final(self).input == old(self).input,
            final(self).current_build == old(self).current_build,
            final(self).tokens == old(self).tokens,
            old(self).position < old(self).input@.len() ==> r == Some(old(self).input@[old(self).position as int])
                && final(self).position == old(self).position + 1,
            old(self).position >= old(self).input@.len() ==> r is None
                && final(self).position == old(self).position,
    {
        if self.position < self.input.len() {
            let c = self.input[self.position];
            self.position += 1;
            Some(c)
        } else {
            None
        }
    }

    fn extend(&mut self, c: char)
        ensures
            final(self).input == old(self).input,
            final(self).position == old(self).position,
            final(self).tokens == old(self).tokens,
            final(self).current_build@ == old(self).current_build@.push(c),
    {
        push_char(&mut self.current_build, c);
    }

    /// Hands out the lexeme being built and starts an empty one.
    fn take_build(&mut self) -> (r: String)
        ensures
            final(self).input == old(self).input,
            final(self).position == old(self).position,
            final(self).tokens == old(self).tokens,
            final(self).current_build@ == Seq::<char>::empty(),
            r@ == old(self).current_build@,
    {
        let r = self.current_build.clone();
        self.current_build = String::new();
        r
    }

    fn push_token(&mut self, t: String)
        ensures
            final(self).input == old(self).input,
            final(self).position == old(self).position,
            final(self).current_build == old(self).current_build,
            texts(final(self).tokens@) == texts(old(self).tokens@).push(t@),
    {
        self.tokens.push(t);
        assert(texts(self.tokens@) =~= texts(old(self).tokens@).push(t@));
    }
}

impl LexicalAnalyzer for MarkdownLexicalAnalyzer {
    open spec fn unread(&self) -> Seq<char> {
        self.rest()
    }

    open spec fn building(&self) -> Seq<char> {
        self.build()
    }

    open spec fn found_view(&self) -> Seq<Seq<char>> {
        self.found()
    }

    open spec fn ready(&self) -> bool {
        self.wf()
    }

    fn get_char(&mut self) -> (r: Option<char>) {
        proof {
            let s = self.input@;
            let p = self.position as int;
            if p < s.len() {
                assert(s.skip(p + 1) =~= s.skip(p).drop_first());
            } else {
                assert(s.skip(p).len() == 0);
            }
        }
        self.read_char()
    }

    fn add_char(&mut self, c: char) {
        self.extend(c)
    }

    fn lookup(&self, s: &str) -> (r: bool) {
        is_known(s)
    }
}

} // verus!
