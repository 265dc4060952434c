//! Properties of the whole pipeline, proved from the stages' definitions.
use vstd::prelude::*;
use crate::compiler::{compilation, Failure};
use crate::grammar::{cur, head, lolcode, program, Expected, SyntaxError};
use crate::lexer::{all_valid, words};
use crate::semantic::{
    close_inline, find_last, finish, gen_start, generate, resolve, run, step, Construct, Gen,
};
use crate::text::{eq_ic, fold, marked};
use crate::vocab::{bai, hai, ihaz, is_kw, lemme, maek, mkay, obtw, oic, valid_lexeme};

verus! {

/// Appending keeps what was there.
pub broadcast proof fn lemma_prefix_of_add(a: Seq<char>, d: Seq<char>)
    ensures
        #[trigger] a.is_prefix_of(a + d),
{
    assert(a =~= (a + d).subrange(0, a.len() as int));
}

/// A step of the generator only appends to the output.
pub proof fn lemma_step_appends(t: Seq<Seq<char>>, i: int, g: Gen)
    requires
        0 <= i < t.len(),
    ensures
        step(t, i, g) matches Ok((j, g2)) ==> g.html.is_prefix_of(g2.html),
{
    broadcast use lemma_prefix_of_add;
    assert(g.html.is_prefix_of(g.html));
}

/// A walk that succeeds keeps the output it started with and ends the
/// document.
pub proof fn lemma_run_wraps(t: Seq<Seq<char>>, i: int, g: Gen)
    ensures
        run(t, i, g) matches Ok(h) ==> g.html.is_prefix_of(h) && "\n</html>\n"@.is_suffix_of(h),
    decreases t.len() - i,
{
    broadcast use lemma_prefix_of_add;
    let e = "\n</html>\n"@;
    let p = if g.stack.contains(Construct::Paragraf) { "</p>\n"@ } else { seq![] };
    let hh = if g.stack.contains(Construct::Head) { "</head>\n"@ } else { seq![] };
    assert(finish(g) =~= g.html + (p + hh + e));
    assert(e =~= finish(g).subrange(finish(g).len() - e.len(), finish(g).len() as int));
    if 0 <= i < t.len() {
        lemma_step_appends(t, i, g);
        match step(t, i, g) {
            Err(_) => {},
            Ok((j, g2)) => {
                let p2 = if g2.stack.contains(Construct::Paragraf) { "</p>\n"@ } else { seq![] };
                let h2 = if g2.stack.contains(Construct::Head) { "</head>\n"@ } else { seq![] };
                assert(finish(g2) =~= g2.html + (p2 + h2 + e));
                assert(e =~= finish(g2).subrange(finish(g2).len() - e.len(), finish(g2).len() as int));
                if i < j <= t.len() {
                    lemma_run_wraps(t, j, g2);
                }
            },
        }
    }
}

/// A walk meets an unbound name only at a variable use: with no `#LEMME`
/// token the walk always succeeds.
pub proof fn lemma_run_total(t: Seq<Seq<char>>, i: int, g: Gen)
    requires
        forall|k: int| 0 <= k < t.len() ==> !lemme(#[trigger] t[k]),
    ensures
        run(t, i, g) is Ok,
    decreases t.len() - i,
{
    if 0 <= i < t.len() {
        assert(!lemme(t[i]));
        match step(t, i, g) {
            Err(_) => {},
            Ok((j, g2)) => {
                if i < j <= t.len() {
                    lemma_run_total(t, j, g2);
                }
            },
        }
    }
}

/// The output of a successful compilation opens and closes the document:
/// it is `<html>` and a newline, then the body, then a newline and `</html>`
/// and a newline.
pub proof fn law_output_wrapped(src: Seq<char>)
    requires
        compilation(src) is Ok,
    ensures
        compilation(src) matches Ok(h) ==> "<html>\n"@.is_prefix_of(h) && "\n</html>\n"@.is_suffix_of(h),
{
    broadcast use lemma_prefix_of_add;
    let t = words(src);
    assert(hai(cur(t, 0)));
    let g1 = Gen { html: seq![] + "<html>\n"@, ..gen_start() };
    assert(seq![] + "<html>\n"@ =~= "<html>\n"@);
    lemma_run_wraps(t, 1, g1);
    assert(step(t, 0, gen_start()) == Ok::<(int, Gen), Seq<char>>((1, g1)));
}

/// A source whose lexemes are all accepted, whose tokens the grammar
/// accepts, and which uses no variable, compiles, and its output is wrapped
/// in the document tags.
pub proof fn law_valid_program_compiles(src: Seq<char>)
    requires
        all_valid(words(src)),
        program(words(src)) is Ok,
        forall|k: int| 0 <= k < words(src).len() ==> !lemme(#[trigger] words(src)[k]),
    ensures
        compilation(src) is Ok,
        compilation(src) matches Ok(h) ==> "<html>\n"@.is_prefix_of(h) && "\n</html>\n"@.is_suffix_of(h),
{
    lemma_run_total(words(src), 0, gen_start());
    law_output_wrapped(src);
}

/// A source whose lexemes are all accepted and whose tokens the grammar
/// accepts compiles unless a variable use is unbound, and its output is
/// wrapped in the document tags.
pub proof fn law_bound_program_compiles(src: Seq<char>)
    requires
        all_valid(words(src)),
        program(words(src)) is Ok,
        generate(words(src)) is Ok,
    ensures
        compilation(src) is Ok,
        compilation(src) matches Ok(h) ==> "<html>\n"@.is_prefix_of(h) && "\n</html>\n"@.is_suffix_of(h),
{
    law_output_wrapped(src);
}

/// A source whose first token is not the file start fails with a syntax
/// error at the first token, before any output is made.
pub proof fn law_missing_start(src: Seq<char>)
    requires
        all_valid(words(src)),
        !hai(cur(words(src), 0)),
    ensures
        compilation(src) == Err::<Seq<char>, Failure>(
            Failure::Syntax(SyntaxError { position: 0, expected: Expected::FileStart }),
        ),
{
}

/// Shadowing: a use resolves to the most recent definition of its name
/// before it; with no definition of the name it does not resolve.
pub proof fn law_shadowing(
    names: Seq<Seq<char>>,
    values: Seq<Seq<char>>,
    n: Seq<char>,
    v1: Seq<char>,
    v2: Seq<char>,
)
    requires
        names.len() == values.len(),
    ensures
        resolve(names.push(n), values.push(v1), n) == Some(v1),
        resolve(names.push(n).push(n), values.push(v1).push(v2), n) == Some(v2),
        resolve(seq![], seq![], n) is None,
{
    assert(eq_ic(n, n));
    assert(names.push(n)[names.len() as int] == n);
    assert(names.push(n).push(n)[names.len() as int + 1] == n);
}

/// Shadowing over token windows: a definition `#I HAZ n #IT IZ v #MKAY`
/// directly followed by a use `#LEMME SEE n' #MKAY`, with `n'` equal to `n` up
/// to ASCII case, emits `v` at the use, whatever was bound before. The walk
/// then goes on from after the use with the new binding added.
pub proof fn law_definition_then_use(t: Seq<Seq<char>>, j: int, g: Gen)
    requires
        0 <= j,
        j + 9 < t.len(),
        ihaz(t[j]),
        mkay(t[j + 6]),
        lemme(t[j + 7]),
        eq_ic(t[j + 2], t[j + 9]),
        g.names.len() == g.values.len(),
    ensures
        ({
            let c = close_inline(g);
            let after = Gen {
                html: c.html + t[j + 5],
                stack: c.stack,
                names: g.names.push(t[j + 2]),
                values: g.values.push(t[j + 5]),
            };
            run(t, j, g) == run(t, j + 10, after)
        }),
{
    reveal_strlit("#HAI");
    reveal_strlit("#KTHXBYE");
    reveal_strlit("#OBTW");
    reveal_strlit("#TLDR");
    reveal_strlit("#MAEK");
    reveal_strlit("#OIC");
    reveal_strlit("#GIMMEH");
    reveal_strlit("#MKAY");
    reveal_strlit("#I");
    reveal_strlit("#LEMME");
    let g1 = Gen { names: g.names.push(t[j + 2]), values: g.values.push(t[j + 5]), ..g };
    assert(step(t, j, g) == Ok::<(int, Gen), Seq<char>>((j + 6, g1)));
    let m = t[j + 6];
    assert(!obtw(m)) by {
        assert(fold(m[1]) == fold("#MKAY"@[1]));
    }
    assert(!maek(m)) by {
        assert(fold(m[2]) == fold("#MKAY"@[2]));
    }
    let g2 = close_inline(g1);
    assert(step(t, j + 6, g1) == Ok::<(int, Gen), Seq<char>>((j + 7, g2)));
    assert(eq_ic(t[j + 9], t[j + 2])) by {
        law_case_blind_symmetric(t[j + 2], t[j + 9]);
    }
    let n = g1.names.len() as int;
    assert(g1.names[n - 1] == t[j + 2]);
    assert(eq_ic(g1.names[n - 1], t[j + 9]));
    assert(find_last(g1.names, t[j + 9], n) == Some(n - 1));
    assert(resolve(g2.names, g2.values, t[j + 9]) == Some(t[j + 5]));
    let c = close_inline(g);
    let after = Gen {
        html: c.html + t[j + 5],
        stack: c.stack,
        names: g.names.push(t[j + 2]),
        values: g.values.push(t[j + 5]),
    };
    assert(step(t, j + 7, g2) == Ok::<(int, Gen), Seq<char>>((j + 10, after)));
    assert(run(t, j, g) == run(t, j + 6, g1));
    assert(run(t, j + 6, g1) == run(t, j + 7, g2));
    assert(run(t, j + 7, g2) == run(t, j + 10, after));
}

/// Equality up to ASCII case is symmetric.
pub proof fn law_case_blind_symmetric(a: Seq<char>, b: Seq<char>)
    requires
        eq_ic(a, b),
    ensures
        eq_ic(b, a),
{
    assert forall|i: int| 0 <= i < b.len() implies #[trigger] fold(b[i]) == fold(a[i]) by {
        assert(fold(a[i]) == fold(b[i]));
    }
}

/// A variable use that the bindings made so far do not resolve ends the walk
/// with that name.
pub proof fn law_unbound_use(t: Seq<Seq<char>>, i: int, g: Gen)
    requires
        0 <= i,
        i + 2 < t.len(),
        lemme(t[i]),
        resolve(g.names, g.values, t[i + 2]) is None,
    ensures
        run(t, i, g) == Err::<Seq<char>, Seq<char>>(t[i + 2]),
{
    reveal_strlit("#LEMME");
    reveal_strlit("#HAI");
    reveal_strlit("#KTHXBYE");
    reveal_strlit("#OBTW");
    reveal_strlit("#MAEK");
    reveal_strlit("#OIC");
    reveal_strlit("#GIMMEH");
    reveal_strlit("#MKAY");
    reveal_strlit("#I");
}

/// Keywords ignore case: two lexemes equal up to ASCII case spell the same
/// words of the vocabulary.
pub proof fn law_case_blind(a: Seq<char>, b: Seq<char>, k: &str)
    requires
        eq_ic(a, b),
    ensures
        is_kw(a, k) == is_kw(b, k),
{
    if is_kw(a, k) {
        assert forall|i: int| 0 <= i < b.len() implies #[trigger] fold(b[i]) == fold(k@[i]) by {
            assert(fold(a[i]) == fold(b[i]));
            assert(fold(a[i]) == fold(k@[i]));
        }
    }
    if is_kw(b, k) {
        assert forall|i: int| 0 <= i < a.len() implies #[trigger] fold(a[i]) == fold(k@[i]) by {
            assert(fold(a[i]) == fold(b[i]));
            assert(fold(b[i]) == fold(k@[i]));
        }
    }
}

/// Every spelling of the file-start keyword, in any case, is accepted by the
/// lexer and read as the file start.
pub proof fn law_file_start_any_case(s: Seq<char>)
    requires
        eq_ic(s, "#HAI"@),
    ensures
        hai(s),
        valid_lexeme(s),
{
    reveal_strlit("#HAI");
    assert(fold(s[0]) == fold('#'));
    assert(s[0] as u32 == '#' as u32);
    assert(marked(s));
}

/// A head that no block close ends fails the grammar: a token sequence
/// without `#OIC` is never accepted.
pub proof fn law_unclosed_head_rejected(t: Seq<Seq<char>>)
    requires
        forall|k: int| 0 <= k < t.len() ==> !oic(#[trigger] t[k]),
    ensures
        program(t) is Err,
{
    assert forall|p: int| !(#[trigger] head(t, p) is Ok) by {
        match crate::grammar::title(t, p + 2) {
            Err(_) => {},
            Ok(q) => {
                if 0 <= q < t.len() {
                    assert(!oic(t[q]));
                }
                reveal_strlit("#OIC");
            },
        }
    }
}

/// Without `#OIC` among the tokens, a head the walk has opened stays open.
pub proof fn lemma_head_stays(t: Seq<Seq<char>>, i: int, g: Gen)
    requires
        forall|k: int| 0 <= k < t.len() ==> !oic(#[trigger] t[k]),
        g.stack.contains(Construct::Head),
    ensures
        run(t, i, g) matches Ok(h) ==> ("</head>\n"@ + "\n</html>\n"@).is_suffix_of(h),
    decreases t.len() - i,
{
    let p = if g.stack.contains(Construct::Paragraf) { "</p>\n"@ } else { seq![] };
    let e = "</head>\n"@ + "\n</html>\n"@;
    assert(finish(g) =~= (g.html + p) + e);
    assert(e =~= finish(g).subrange(finish(g).len() - e.len(), finish(g).len() as int));
    if 0 <= i < t.len() {
        assert(!oic(t[i]));
        match step(t, i, g) {
            Err(_) => {},
            Ok((j, g2)) => {
                let k = choose|k: int| 0 <= k < g.stack.len() && g.stack[k] == Construct::Head;
                if g2.stack != g.stack && g2.stack.len() < g.stack.len() {
                    assert(g2.stack == g.stack.drop_last());
                    assert(k < g.stack.len() - 1);
                    assert(g2.stack[k] == Construct::Head);
                } else if g2.stack != g.stack {
                    assert(g2.stack[k] == Construct::Head);
                }
                assert(g2.stack.contains(Construct::Head));
                let p2 = if g2.stack.contains(Construct::Paragraf) { "</p>\n"@ } else { seq![] };
                assert(finish(g2) =~= (g2.html + p2) + e);
                assert(e =~= finish(g2).subrange(finish(g2).len() - e.len(), finish(g2).len() as int));
                if i < j <= t.len() {
                    lemma_head_stays(t, j, g2);
                }
            },
        }
    }
}

/// A document that opens a head and has no `#OIC` still gets the head's
/// closing tag, right before the end of the document.
pub proof fn law_unclosed_head_closed(t: Seq<Seq<char>>)
    requires
        t.len() >= 3,
        hai(t[0]),
        maek(t[1]),
        is_kw(t[2], "HEAD"),
        forall|k: int| 0 <= k < t.len() ==> !oic(#[trigger] t[k]),
    ensures
        generate(t) matches Ok(h) ==> ("</head>\n"@ + "\n</html>\n"@).is_suffix_of(h),
{
    reveal_strlit("#HAI");
    reveal_strlit("#MAEK");
    reveal_strlit("#KTHXBYE");
    reveal_strlit("#OBTW");
    let g1 = Gen { html: seq![] + "<html>\n"@, ..gen_start() };
    assert(step(t, 0, gen_start()) == Ok::<(int, Gen), Seq<char>>((1, g1)));
    assert(!obtw(t[1])) by {
        assert(fold(t[1][1]) == fold("#MAEK"@[1]));
    }
    assert(!hai(t[1]));
    assert(!bai(t[1]));
    let g3 = Gen { html: g1.html + "<head>\n"@, stack: g1.stack.push(Construct::Head), ..g1 };
    assert(step(t, 1, g1) == Ok::<(int, Gen), Seq<char>>((3, g3)));
    assert(g3.stack[0] == Construct::Head);
    assert(run(t, 0, gen_start()) == run(t, 1, g1));
    assert(run(t, 1, g1) == run(t, 3, g3));
    lemma_head_stays(t, 3, g3);
}

} // verus!
