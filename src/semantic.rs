//! The code generator: walks the token sequence once more and emits HTML,
//! keeping a stack of open constructs and a table of variable bindings.
use vstd::prelude::*;
use crate::grammar::cur;
use crate::lexer::texts;
use crate::text::{eq_ic, eq_ignore_case, is_literal, literal, push_text};
use crate::vocab::{bai, gimmeh, hai, ihaz, is_kw, kw, lemme, maek, mkay, obtw, oic, tldr};

verus! {

/// A construct that has been opened and not yet closed.
#[derive(Clone, Copy, Debug, PartialEq, Eq, Structural)]
pub enum Construct {
    Head,
    Paragraf,
    List,
    Title,
    Bold,
    Italics,
    Item,
}

/// Opened by `#MAEK` and closed by `#OIC`.
pub open spec fn is_block(c: Construct) -> bool {
    c is Head || c is Paragraf || c is List
}

/// The closing tag of a construct.
pub open spec fn close_tag(c: Construct) -> Seq<char> {
    match c {
        Construct::Head => "</head>\n"@,
        Construct::Paragraf => "</p>\n"@,
        Construct::List => "</ul>\n"@,
        Construct::Title => "</title>\n"@,
        Construct::Bold => "</b>\n"@,
        Construct::Italics => "</i>\n"@,
        Construct::Item => "</li>\n"@,
    }
}

/// A variable use whose name no earlier definition binds.
#[derive(Debug)]
pub struct SemanticError {
    pub name: String,
}

/// The code generator over a token sequence, with its table of bindings
/// held as two parallel lists.
pub struct SemanticAnalyzer {
    pub tokens: Vec<String>,
    pub variable_names: Vec<String>,
    pub variable_values: Vec<String>,
}

/// What the generator has produced and holds at some point of its walk.
pub struct Gen {
    pub html: Seq<char>,
    pub stack: Seq<Construct>,
    pub names: Seq<Seq<char>>,
    pub values: Seq<Seq<char>>,
}

/// The state before the walk.
pub open spec fn gen_start() -> Gen {
    Gen { html: seq![], stack: seq![], names: seq![], values: seq![] }
}

/// The place of the most recent binding of `n` among the first `k` names.
pub open spec fn find_last(names: Seq<Seq<char>>, n: Seq<char>, k: int) -> Option<int>
    decreases k,
{
    if k <= 0 {
        None
    } else if eq_ic(names[k - 1], n) {
        Some(k - 1)
    } else {
        find_last(names, n, k - 1)
    }
}

/// The value bound to `n`, the most recent binding winning.
pub open spec fn resolve(names: Seq<Seq<char>>, values: Seq<Seq<char>>, n: Seq<char>) -> Option<Seq<char>> {
    match find_last(names, n, names.len() as int) {
        Some(k) => Some(values[k]),
        None => None,
    }
}

/// The first position at or after `j` that holds `#TLDR`, or the end.
pub open spec fn comment_end(t: Seq<Seq<char>>, j: int) -> int
    decreases t.len() - j,
{
    if 0 <= j < t.len() && !tldr(t[j]) {
        comment_end(t, j + 1)
    } else {
        j
    }
}

/// The tokens from `j` up to `#TLDR`, each followed by a space.
pub open spec fn comment_text(t: Seq<Seq<char>>, j: int) -> Seq<char>
    decreases t.len() - j,
{
    if 0 <= j < t.len() && !tldr(t[j]) {
        t[j] + " "@ + comment_text(t, j + 1)
    } else {
        seq![]
    }
}

pub open spec fn emit(g: Gen, s: Seq<char>) -> Gen {
    Gen { html: g.html + s, ..g }
}

pub open spec fn open_construct(g: Gen, tag: Seq<char>, c: Construct) -> Gen {
    Gen { html: g.html + tag, stack: g.stack.push(c), ..g }
}

/// `#OIC`: closes the innermost construct when it is a block.
pub open spec fn close_block(g: Gen) -> Gen {
    if g.stack.len() > 0 && is_block(g.stack.last()) {
        Gen { html: g.html + close_tag(g.stack.last()), stack: g.stack.drop_last(), ..g }
    } else {
        g
    }
}

/// `#MKAY`: closes the innermost construct when it is inline.
pub open spec fn close_inline(g: Gen) -> Gen {
    if g.stack.len() > 0 && !is_block(g.stack.last()) {
        Gen { html: g.html + close_tag(g.stack.last()), stack: g.stack.drop_last(), ..g }
    } else {
        g
    }
}

/// One step of the walk at position `i`: the next position and state, or the
/// name of an unbound variable.
pub open spec fn step(t: Seq<Seq<char>>, i: int, g: Gen) -> Result<(int, Gen), Seq<char>> {
    let w = t[i];
    let nx = cur(t, i + 1);
    if hai(w) {
        Ok((i + 1, emit(g, "<html>\n"@)))
    } else if bai(w) {
        Ok((i + 1, g))
    } else if obtw(w) {
        Ok((comment_end(t, i + 1) + 1, emit(g, "<!-- "@ + comment_text(t, i + 1) + "-->\n"@)))
    } else if maek(w) && i + 1 < t.len() {
        if is_kw(nx, "HEAD") {
            Ok((i + 2, open_construct(g, "<head>\n"@, Construct::Head)))
        } else if is_kw(nx, "PARAGRAF") {
            Ok((i + 2, open_construct(g, "<p>"@, Construct::Paragraf)))
        } else if is_kw(nx, "LIST") {
            Ok((i + 2, open_construct(g, "<ul>"@, Construct::List)))
        } else {
            Ok((i + 2, g))
        }
    } else if oic(w) {
        Ok((i + 1, close_block(g)))
    } else if gimmeh(w) && i + 1 < t.len() {
        if is_kw(nx, "TITLE") {
            Ok((i + 2, open_construct(g, "<title>"@, Construct::Title)))
        } else if is_kw(nx, "BOLD") {
            Ok((i + 2, open_construct(g, "<b>"@, Construct::Bold)))
        } else if is_kw(nx, "ITALICS") {
            Ok((i + 2, open_construct(g, "<i>"@, Construct::Italics)))
        } else if is_kw(nx, "ITEM") {
            Ok((i + 2, open_construct(g, "<li>"@, Construct::Item)))
        } else if is_kw(nx, "NEWLINE") {
            Ok((i + 2, emit(g, "<br>\n"@)))
        } else if is_kw(nx, "SOUNDZ") && i + 2 < t.len() {
            Ok((i + 3, emit(g, "<audio controls><source src=\""@ + t[i + 2] + "\"></audio>"@)))
        } else if is_kw(nx, "VIDZ") && i + 2 < t.len() {
            Ok((i + 3, emit(g, "<iframe src=\""@ + t[i + 2] + "\"/>"@)))
        } else {
            Ok((i + 1, g))
        }
    } else if mkay(w) {
        Ok((i + 1, close_inline(g)))
    } else if ihaz(w) && i + 5 < t.len() {
        Ok((i + 6, Gen { names: g.names.push(t[i + 2]), values: g.values.push(t[i + 5]), ..g }))
    } else if lemme(w) && i + 2 < t.len() {
        match resolve(g.names, g.values, t[i + 2]) {
            Some(v) => Ok((i + 3, emit(g, v))),
            None => Err(t[i + 2]),
        }
    } else if literal(w) {
        Ok((i + 1, emit(g, w + " "@)))
    } else {
        Ok((i + 1, g))
    }
}

/// The closing text after the walk: the tags of a paragraph and a head left
/// open, then the end of the document.
pub open spec fn finish(g: Gen) -> Seq<char> {
    let p = if g.stack.contains(Construct::Paragraf) { "</p>\n"@ } else { seq![] };
    let h = if g.stack.contains(Construct::Head) { "</head>\n"@ } else { seq![] };
    g.html + p + h + "\n</html>\n"@
}

/// The walk from position `i` in state `g`.
pub open spec fn run(t: Seq<Seq<char>>, i: int, g: Gen) -> Result<Seq<char>, Seq<char>>
    decreases t.len() - i,
{
    if i < 0 || i >= t.len() {
        Ok(finish(g))
    } else {
        match step(t, i, g) {
            Err(n) => Err(n),
            Ok((j, g2)) => if i < j <= t.len() {
                run(t, j, g2)
            } else {
                Ok(finish(g2))
            },
        }
    }
}

/// The state at the end of the walk from position `i` in state `g`: its
/// binding table holds the bindings of `g` and then those of every
/// definition the walk reads, in order.
pub open spec fn final_state(t: Seq<Seq<char>>, i: int, g: Gen) -> Gen
    decreases t.len() - i,
{
    if i < 0 || i >= t.len() {
        g
    } else {
        match step(t, i, g) {
            Err(_) => g,
            Ok((j, g2)) => if i < j <= t.len() {
                final_state(t, j, g2)
            } else {
                g2
            },
        }
    }
}

/// The HTML for a token sequence, or the first unbound variable name.
pub open spec fn generate(t: Seq<Seq<char>>) -> Result<Seq<char>, Seq<char>> {
    run(t, 0, gen_start())
}

/// The generator's state as the walk holds it.
pub open spec fn gen_of(html: Seq<char>, stack: Seq<Construct>, names: Seq<String>, values: Seq<String>) -> Gen {
    Gen { html, stack, names: texts(names), values: texts(values) }
}

/// What a walk returned, as texts.
pub open spec fn html_outcome(r: Result<String, SemanticError>) -> Result<Seq<char>, Seq<char>> {
    match r {
        Ok(h) => Ok(h@),
        Err(e) => Err(e.name@),
    }
}

fn close_tag_text(c: Construct) -> (r: &'static str)
    ensures
        r@ == close_tag(c),
{
    match c {
        Construct::Head => "</head>\n",
        Construct::Paragraf => "</p>\n",
        Construct::List => "</ul>\n",
        Construct::Title => "</title>\n",
        Construct::Bold => "</b>\n",
        Construct::Italics => "</i>\n",
        Construct::Item => "</li>\n",
    }
}

fn block(c: Construct) -> (r: bool)
    ensures
        r == is_block(c),
{
    match c {
        Construct::Head | Construct::Paragraf | Construct::List => true,
        _ => false,
    }
}

/// Closes the innermost construct when it is a block (`inline == false`) or
/// inline (`inline == true`).
fn close(html: &mut String, stack: &mut Vec<Construct>, inline: bool) -> (r: ())
    ensures
        ({
            let g = Gen { html: old(html)@, stack: old(stack)@, names: seq![], values: seq![] };
            let h = if inline { close_inline(g) } else { close_block(g) };
            final(html)@ == h.html && final(stack)@ == h.stack
        }),
{
    let n = stack.len();
    if n > 0 && block(stack[n - 1]) != inline {
        let c = stack[n - 1];
        stack.pop();
        push_text(html, close_tag_text(c));
    }
}

fn holds(stack: &Vec<Construct>, c: Construct) -> (r: bool)
    ensures
        r == stack@.contains(c),
{
    let mut k: usize = 0;
    while k < stack.len()
        invariant
            k <= stack@.len(),
            forall|j: int| 0 <= j < k ==> stack@[j] != c,
        decreases stack@.len() - k,
    {
        if stack[k] == c {
            return true;
        }
        k += 1;
    }
    false
}

impl SemanticAnalyzer {
    pub open spec fn parallel(&self) -> bool {
        self.variable_names@.len() == self.variable_values@.len()
    }

    pub fn new(tokens: Vec<String>) -> (r: Self)
        ensures
            r.tokens@ == tokens@,
            r.variable_names@.len() == 0,
            r.variable_values@.len() == 0,
    {
        SemanticAnalyzer { tokens, variable_names: Vec::new(), variable_values: Vec::new() }
    }

    /// The place of the most recent binding of `name`.
    fn lookup_var(&self, name: &str) -> (r: Option<usize>)
        ensures
            r matches Some(k) ==> k < self.variable_names@.len() && find_last(
                texts(self.variable_names@),
                name@,
                self.variable_names@.len() as int,
            ) == Some(k as int),
            r is None ==> find_last(texts(self.variable_names@), name@, self.variable_names@.len() as int) is None,
    {
        let ghost ns = texts(self.variable_names@);
        let mut k = self.variable_names.len();
        while k > 0
            invariant
                k <= self.variable_names@.len(),
                ns == texts(self.variable_names@),
                find_last(ns, name@, self.variable_names@.len() as int) == find_last(ns, name@, k as int),
            decreases k,
        {
            if eq_ignore_case(self.variable_names[k - 1].as_str(), name) {
                return Some(k - 1);
            }
            k -= 1;
        }
        None
    }

    /// Emits the comment that starts at `i` and gives the position after it.
    fn comment(&self, i: usize, html: &mut String) -> (r: usize)
        requires
            i < self.tokens@.len(),
        ensures
            final(html)@ == old(html)@ + "<!-- "@ + comment_text(texts(self.tokens@), i + 1) + "-->\n"@,
            i < r <= self.tokens@.len(),
            r == comment_end(texts(self.tokens@), i + 1) + 1 || (r == self.tokens@.len()
                && comment_end(texts(self.tokens@), i + 1) == self.tokens@.len()),
    {
        let ghost t = texts(self.tokens@);
        let n = self.tokens.len();
        push_text(html, "<!-- ");
        let ghost start = html@;
        let mut j = i + 1;
        while j < n && !kw(self.tokens[j].as_str(), "#TLDR")
            invariant
                n == self.tokens@.len(),
                t == texts(self.tokens@),
                i < j <= n,
                html@ + comment_text(t, j as int) == start + comment_text(t, i + 1),
                comment_end(t, j as int) == comment_end(t, i + 1),
            decreases n - j,
        {
            push_text(html, self.tokens[j].as_str());
            push_text(html, " ");
            j += 1;
        }
        push_text(html, "-->\n");
        if j < n {
            j + 1
        } else {
            j
        }
    }

    /// One step of the walk at position `i`.
    fn step(&mut self, i: usize, html: &mut String, stack: &mut Vec<Construct>) -> (r: Result<usize, SemanticError>)
        requires
            i < old(self).tokens@.len(),
            old(self).parallel(),
        ensures
            final(self).tokens == old(self).tokens,
            final(self).parallel(),
            ({
                let t = texts(old(self).tokens@);
                let g0 = gen_of(old(html)@, old(stack)@, old(self).variable_names@, old(self).variable_values@);
                let g1 = gen_of(final(html)@, final(stack)@, final(self).variable_names@, final(self).variable_values@);
                match r {
                    Ok(j) => step(t, i as int, g0) matches Ok((j2, g2)) && g2 == g1 && i < j <= t.len()
                        && (j2 == j || (j == t.len() && j2 > t.len())),
                    Err(e) => step(t, i as int, g0) == Err::<(int, Gen), Seq<char>>(e.name@),
                }
            }),
    {
        let ghost t = texts(self.tokens@);
        let n = self.tokens.len();
        if kw(self.tokens[i].as_str(), "#HAI") {
            push_text(html, "<html>\n");
            Ok(i + 1)
        } else if kw(self.tokens[i].as_str(), "#KTHXBYE") {
            Ok(i + 1)
        } else if kw(self.tokens[i].as_str(), "#OBTW") {
            let ghost h0 = html@;
            let j = self.comment(i, html);
            assert(html@ =~= h0 + ("<!-- "@ + comment_text(t, i + 1) + "-->\n"@));
            Ok(j)
        } else if kw(self.tokens[i].as_str(), "#MAEK") && 1 < n - i {
            let nx = self.tokens[i + 1].as_str();
            if kw(nx, "HEAD") {
                push_text(html, "<head>\n");
                stack.push(Construct::Head);
            } else if kw(nx, "PARAGRAF") {
                push_text(html, "<p>");
                stack.push(Construct::Paragraf);
            } else if kw(nx, "LIST") {
                push_text(html, "<ul>");
                stack.push(Construct::List);
            }
            Ok(i + 2)
        } else if kw(self.tokens[i].as_str(), "#OIC") {
            close(html, stack, false);
            Ok(i + 1)
        } else if kw(self.tokens[i].as_str(), "#GIMMEH") && 1 < n - i {
            let nx = self.tokens[i + 1].as_str();
            if kw(nx, "TITLE") {
                push_text(html, "<title>");
                stack.push(Construct::Title);
                Ok(i + 2)
            } else if kw(nx, "BOLD") {
                push_text(html, "<b>");
                stack.push(Construct::Bold);
                Ok(i + 2)
            } else if kw(nx, "ITALICS") {
                push_text(html, "<i>");
                stack.push(Construct::Italics);
                Ok(i + 2)
            } else if kw(nx, "ITEM") {
                push_text(html, "<li>");
                stack.push(Construct::Item);
                Ok(i + 2)
            } else if kw(nx, "NEWLINE") {
                push_text(html, "<br>\n");
                Ok(i + 2)
            } else if kw(nx, "SOUNDZ") && 2 < n - i {
                let ghost h0 = html@;
                push_text(html, "<audio controls><source src=\"");
                push_text(html, self.tokens[i + 2].as_str());
                push_text(html, "\"></audio>");
                assert(html@ =~= h0 + ("<audio controls><source src=\""@ + t[i + 2] + "\"></audio>"@));
                Ok(i + 3)
            } else if kw(nx, "VIDZ") && 2 < n - i {
                let ghost h0 = html@;
                push_text(html, "<iframe src=\"");
                push_text(html, self.tokens[i + 2].as_str());
                push_text(html, "\"/>");
                assert(html@ =~= h0 + ("<iframe src=\""@ + t[i + 2] + "\"/>"@));
                Ok(i + 3)
            } else {
                Ok(i + 1)
            }
        } else if kw(self.tokens[i].as_str(), "#MKAY") {
            close(html, stack, true);
            Ok(i + 1)
        } else if kw(self.tokens[i].as_str(), "#I") && 5 < n - i {
            let name = self.tokens[i + 2].clone();
            let value = self.tokens[i + 5].clone();
            let ghost ns = self.variable_names@;
            let ghost vs = self.variable_values@;
            self.variable_names.push(name);
            self.variable_values.push(value);
            assert(texts(self.variable_names@) =~= texts(ns).push(t[i + 2]));
            assert(texts(self.variable_values@) =~= texts(vs).push(t[i + 5]));
            Ok(i + 6)
        } else if kw(self.tokens[i].as_str(), "#LEMME") && 2 < n - i {
            match self.lookup_var(self.tokens[i + 2].as_str()) {
                Some(k) => {
                    push_text(html, self.variable_values[k].as_str());
                    Ok(i + 3)
                },
                None => Err(SemanticError { name: self.tokens[i + 2].clone() }),
            }
        } else if is_literal(self.tokens[i].as_str()) {
            let ghost h0 = html@;
            push_text(html, self.tokens[i].as_str());
            push_text(html, " ");
            assert(html@ =~= h0 + (t[i as int] + " "@));
            Ok(i + 1)
        } else {
            Ok(i + 1)
        }
    }

    /// Walks all tokens and returns the HTML, or the first variable use that
    /// no earlier definition binds. Constructs left open at the end are
    /// closed: a paragraph first, then a head.
    pub fn convert_html(&mut self) -> (r: Result<String, SemanticError>)
        requires
            old(self).parallel(),
        ensures
            final(self).tokens == old(self).tokens,
            final(self).parallel(),
            r is Ok ==> ({
                let g = final_state(
                    texts(old(self).tokens@),
                    0,
                    gen_of(seq![], seq![], old(self).variable_names@, old(self).variable_values@),
                );
                texts(final(self).variable_names@) == g.names && texts(final(self).variable_values@)
                    == g.values
            }),
            html_outcome(r) == run(
                texts(old(self).tokens@),
                0,
                gen_of(seq![], seq![], old(self).variable_names@, old(self).variable_values@),
            ),
    {
        let ghost t = texts(self.tokens@);
        let mut html = String::new();
        let mut stack: Vec<Construct> = Vec::new();
        let mut i: usize = 0;
        let n = self.tokens.len();
        while i < n
            invariant
                n == self.tokens@.len(),
                self.tokens == old(self).tokens,
                t == texts(self.tokens@),
                self.parallel(),
                i <= n,
                run(t, i as int, gen_of(html@, stack@, self.variable_names@, self.variable_values@))
                    == run(t, 0, gen_of(seq![], seq![], old(self).variable_names@, old(self).variable_values@)),
                final_state(t, i as int, gen_of(html@, stack@, self.variable_names@, self.variable_values@))
                    == final_state(t, 0, gen_of(seq![], seq![], old(self).variable_names@, old(self).variable_values@)),
            decreases n - i,
        {
            let ghost g0 = gen_of(html@, stack@, self.variable_names@, self.variable_values@);
            match self.step(i, &mut html, &mut stack) {
                Ok(j) => {
                    i = j;
                },
                Err(e) => {
                    return Err(e);
                },
            }
        }
        let ghost g = gen_of(html@, stack@, self.variable_names@, self.variable_values@);
        if holds(&stack, Construct::Paragraf) {
            push_text(&mut html, "</p>\n");
        }
        if holds(&stack, Construct::Head) {
            push_text(&mut html, "</head>\n");
        }
        push_text(&mut html, "\n</html>\n");
        assert(html@ =~= finish(g));
        Ok(html)
    }
}

} // verus!
