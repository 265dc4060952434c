//! Character-level helpers shared by all stages: whitespace, the `#` marker,
//! ASCII case folding, and comparisons of token text.
use vstd::prelude::*;
use vstd::string::StrSliceExecFns;

verus! {

/// The character that starts every keyword.
pub const MARKER: char = '#';

/// Unicode `White_Space` property, as `char::is_whitespace` documents it.
pub open spec fn is_space_spec(c: char) -> bool {
    let n = c as u32;
    (0x09 <= n && n <= 0x0d) || n == 0x20 || n == 0x85 || n == 0xa0 || n == 0x1680
        || (0x2000 <= n && n <= 0x200a) || n == 0x2028 || n == 0x2029 || n == 0x202f
        || n == 0x205f || n == 0x3000
}

/// ASCII lower-case folding of one character, as a code point.
pub open spec fn fold(c: char) -> u32 {
    if 'A' <= c && c <= 'Z' {
        (c as u32 + 32) as u32
    } else {
        c as u32
    }
}

/// Two texts are equal up to ASCII case.
pub open spec fn eq_ic(a: Seq<char>, b: Seq<char>) -> bool {
    &&& a.len() == b.len()
    &&& forall|i: int| 0 <= i < a.len() ==> #[trigger] fold(a[i]) == fold(b[i])
}

/// The character is the keyword marker.
pub open spec fn is_marker(c: char) -> bool {
    c as u32 == MARKER as u32
}

/// The text begins with the keyword marker.
pub open spec fn marked(s: Seq<char>) -> bool {
    s.len() > 0 && is_marker(s[0])
}

/// A literal: non-empty text that does not begin with the marker.
pub open spec fn literal(s: Seq<char>) -> bool {
    s.len() > 0 && !is_marker(s[0])
}

/// The text without all of its leading markers.
pub open spec fn strip_marks(s: Seq<char>) -> Seq<char>
    decreases s.len(),
{
    if marked(s) {
        strip_marks(s.drop_first())
    } else {
        s
    }
}

pub fn is_space(c: char) -> (r: bool)
    ensures
        r == is_space_spec(c),
{
    let n = c as u32;
    (0x09 <= n && n <= 0x0d) || n == 0x20 || n == 0x85 || n == 0xa0 || n == 0x1680
        || (0x2000 <= n && n <= 0x200a) || n == 0x2028 || n == 0x2029 || n == 0x202f
        || n == 0x205f || n == 0x3000
}

pub fn fold_char(c: char) -> (r: u32)
    ensures
        r == fold(c),
{
    if 'A' <= c && c <= 'Z' {
        c as u32 + 32
    } else {
        c as u32
    }
}

/// Compares two texts up to ASCII case.
pub fn eq_ignore_case(a: &str, b: &str) -> (r: bool)
    ensures
        r == eq_ic(a@, b@),
{
    let n = a.unicode_len();
    if n != b.unicode_len() {
        return false;
    }
    let mut i: usize = 0;
    while i < n
        invariant
            n == a@.len(),
            n == b@.len(),
            i <= n,
            forall|j: int| 0 <= j < i ==> #[trigger] fold(a@[j]) == fold(b@[j]),
        decreases n - i,
    {
        if fold_char(a.get_char(i)) != fold_char(b.get_char(i)) {
            return false;
        }
        i += 1;
    }
    true
}

pub fn starts_with_marker(s: &str) -> (r: bool)
    ensures
        r == marked(s@),
{
    s.unicode_len() > 0 && s.get_char(0) as u32 == MARKER as u32
}

pub fn is_literal(s: &str) -> (r: bool)
    ensures
        r == literal(s@),
{
    s.unicode_len() > 0 && s.get_char(0) as u32 != MARKER as u32
}

/// Returns the text after its leading markers.
pub fn strip_markers(s: &str) -> (r: &str)
    ensures
        r@ == strip_marks(s@),
{
    let n = s.unicode_len();
    let mut i: usize = 0;
    assert(s@.subrange(0, n as int) =~= s@);
    while i < n && s.get_char(i) as u32 == MARKER as u32
        invariant
            n == s@.len(),
            i <= n,
            strip_marks(s@) == strip_marks(s@.subrange(i as int, n as int)),
            forall|j: int| 0 <= j < i ==> is_marker(s@[j]),
        decreases n - i,
    {
        assert(s@.subrange(i as int, n as int).drop_first() =~= s@.subrange(i + 1, n as int));
        i += 1;
    }
    s.substring_char(i, n)
}

/// Relies on `String::push`: appends one character.
#[verifier::external_body]
pub(crate) fn push_char(s: &mut String, c: char)
    ensures
        final(s)@ == old(s)@.push(c),
{
    s.push(c);
}

/// Appends a text.
pub fn push_text(s: &mut String, t: &str)
    ensures
        final(s)@ == old(s)@ + t@,
{
    s.append(t);
}

/// Copies the characters of a text into a vector.
pub fn chars_of(s: &str) -> (r: Vec<char>)
    ensures
        r@ == s@,
{
    let mut v: Vec<char> = Vec::new();
    for c in it: s.chars()
        invariant
            v@ == it.seq().take(it.index() as int),
    {
        v.push(c);
    }
    v
}

} // verus!
