//! The text buffer of a document: a `ropey::Rope`, seen as a sequence of
//! chars, and the line structure that ropey gives it.
use vstd::prelude::*;
use ropey::Rope;

verus! {

#[verifier::external_type_specification]
#[verifier::external_body]
pub struct ExRope(Rope);

/// The chars that a rope holds, in order.
pub uninterp spec fn rope_text(r: Rope) -> Seq<char>;

/// The chars that ropey treats as line breaks (LF, VT, FF, CR, NEL, LS, PS);
/// a CR directly followed by an LF forms one CRLF break.
pub open spec fn is_break_char(c: char) -> bool {
    c == '\n' || c == '\r' || c == '\u{0B}' || c == '\u{0C}' || c == '\u{85}' || c == '\u{2028}'
        || c == '\u{2029}'
}

/// A line ends just before char index `p` (`0 < p <= len`): the char before
/// `p` is a break, and it is not the CR of a CRLF pair.
pub open spec fn ends_line_at(t: Seq<char>, p: int) -> bool {
    &&& 0 < p <= t.len()
    &&& is_break_char(t[p - 1])
    &&& !(t[p - 1] == '\r' && p < t.len() && t[p] == '\n')
}

/// The number of line ends in `(0, i]`: the line index of char index `i`.
pub open spec fn breaks_before(t: Seq<char>, i: int) -> nat
    decreases i,
{
    if i <= 0 {
        0
    } else {
        breaks_before(t, i - 1) + if ends_line_at(t, i) {
            1nat
        } else {
            0nat
        }
    }
}

/// The number of lines: one more than the number of line breaks.
pub open spec fn line_count(t: Seq<char>) -> nat {
    breaks_before(t, t.len() as int) + 1
}

/// The char index at which line `l` starts; one past the end for
/// `l == line_count(t)`.
pub open spec fn line_start(t: Seq<char>, l: int) -> int {
    if l <= 0 {
        0
    } else if l >= line_count(t) {
        t.len() as int
    } else {
        choose|p: int| ends_line_at(t, p) && breaks_before(t, p) == l
    }
}

/// The chars of line `l`, its line break included.
pub open spec fn line_text(t: Seq<char>, l: int) -> Seq<char> {
    t.subrange(line_start(t, l), line_start(t, l + 1))
}

pub proof fn lemma_breaks_before_bounds(t: Seq<char>, i: int, j: int)
    requires
        0 <= i <= j,
    ensures
        breaks_before(t, i) <= breaks_before(t, j),
        breaks_before(t, j) <= breaks_before(t, i) + (j - i),
    decreases j - i,
{
    if i < j {
        lemma_breaks_before_bounds(t, i, j - 1);
    }
}

/// Line starts exist and are strictly ordered, and a char index lies on the
/// line whose start precedes it.
pub proof fn lemma_line_start(t: Seq<char>, l: int)
    requires
        0 <= l < line_count(t),
    ensures
        0 <= line_start(t, l) <= t.len(),
        breaks_before(t, line_start(t, l)) == l,
        l > 0 ==> ends_line_at(t, line_start(t, l)),
        line_start(t, l) < line_start(t, l + 1) || (l + 1 == line_count(t) && line_start(t, l)
            == t.len()),
        line_start(t, l) <= line_start(t, l + 1),
        forall|p: int|
            line_start(t, l) <= p < line_start(t, l + 1) ==> #[trigger] breaks_before(t, p) == l,
        l + 1 < line_count(t) ==> breaks_before(t, line_start(t, l + 1)) == l + 1,
{
    if l > 0 {
        lemma_exists_break_end(t, l, t.len() as int);
    }
    if l + 1 < line_count(t) {
        lemma_exists_break_end(t, l + 1, t.len() as int);
    }
    let s = line_start(t, l);
    let e = line_start(t, l + 1);
    if l + 1 < line_count(t) {
        // e is a line end with count l + 1; s has count l, so s < e
        if e <= s {
            lemma_breaks_before_bounds(t, e, s);
        }
    } else {
        lemma_breaks_before_bounds(t, s, t.len() as int);
    }
    assert forall|p: int| s <= p < e implies #[trigger] breaks_before(t, p) == l by {
        lemma_breaks_before_bounds(t, s, p);
        if l + 1 < line_count(t) {
            lemma_breaks_before_bounds(t, p, e - 1);
            assert(breaks_before(t, e) == breaks_before(t, e - 1) + 1);
        } else {
            lemma_breaks_before_bounds(t, p, t.len() as int);
        }
    }
}

/// The `n`-th line end exists for `0 < n <= breaks_before(t, k)`.
proof fn lemma_exists_break_end(t: Seq<char>, n: int, k: int)
    requires
        0 < n <= breaks_before(t, k),
        k <= t.len(),
    ensures
        exists|p: int| ends_line_at(t, p) && breaks_before(t, p) == n,
    decreases k,
{
    if k <= 0 {
    } else if breaks_before(t, k - 1) >= n {
        lemma_exists_break_end(t, n, k - 1);
    } else {
        assert(ends_line_at(t, k) && breaks_before(t, k) == n);
    }
}

/// The line of a char index `i <= len` is `breaks_before(t, i)`, and `i`
/// lies between the starts of that line and the next one.
pub proof fn lemma_char_line(t: Seq<char>, i: int)
    requires
        0 <= i <= t.len(),
    ensures
        breaks_before(t, i) < line_count(t),
        line_start(t, breaks_before(t, i) as int) <= i,
        i < line_start(t, breaks_before(t, i) + 1int) || i == t.len(),
{
    let l = breaks_before(t, i) as int;
    lemma_breaks_before_bounds(t, i, t.len() as int);
    lemma_line_start(t, l);
    let s = line_start(t, l);
    let e = line_start(t, l + 1);
    if i < s {
        lemma_breaks_before_bounds(t, i, s - 1);
        assert(breaks_before(t, s) == breaks_before(t, s - 1) + 1);
    }
    if i >= e && i < t.len() {
        lemma_line_start(t, l);
        lemma_breaks_before_bounds(t, e, i);
    }
}

/// An empty rope.
#[verifier::external_body]
pub(crate) fn rope_new() -> (r: Rope)
    ensures
        rope_text(r) == Seq::<char>::empty(),
{
    Rope::new()
}

/// `Rope::from_str`: a rope that holds the chars of `s`.
#[verifier::external_body]
pub(crate) fn rope_from_str(s: &str) -> (r: Rope)
    ensures
        rope_text(r) == s@,
{
    Rope::from_str(s)
}

/// `Rope::clone`: a rope that holds the same chars.
#[verifier::external_body]
pub(crate) fn rope_clone(r: &Rope) -> (c: Rope)
    ensures
        rope_text(c) == rope_text(*r),
{
    r.clone()
}

/// `Rope::len_chars`: the number of chars.
#[verifier::external_body]
pub(crate) fn rope_len_chars(r: &Rope) -> (n: usize)
    ensures
        n == rope_text(*r).len(),
{
    r.len_chars()
}

/// `Rope::char`: the char at `i`.
#[verifier::external_body]
pub(crate) fn rope_char(r: &Rope, i: usize) -> (c: char)
    requires
        i < rope_text(*r).len(),
    ensures
        c == rope_text(*r)[i as int],
{
    r.char(i)
}

/// `Rope::insert`: inserts the chars of `s` at char index `i`.
#[verifier::external_body]
pub(crate) fn rope_insert(r: &mut Rope, i: usize, s: &str)
    requires
        i <= rope_text(*old(r)).len(),
    ensures
        rope_text(*final(r)) == rope_text(*old(r)).take(i as int) + s@ + rope_text(*old(r)).skip(
            i as int,
        ),
{
    r.insert(i, s)
}

/// `Rope::remove`: removes the chars in `start..end`.
#[verifier::external_body]
pub(crate) fn rope_remove(r: &mut Rope, start: usize, end: usize)
    requires
        start <= end <= rope_text(*old(r)).len(),
    ensures
        rope_text(*final(r)) == rope_text(*old(r)).take(start as int) + rope_text(*old(r)).skip(
            end as int,
        ),
{
    r.remove(start..end)
}

/// `Rope::to_string`: all the chars as a `String`.
#[verifier::external_body]
pub(crate) fn rope_to_string(r: &Rope) -> (s: String)
    ensures
        s@ == rope_text(*r),
{
    r.to_string()
}

/// `Rope::slice(start..end).to_string()`: the chars in `start..end`.
#[verifier::external_body]
pub(crate) fn rope_slice_string(r: &Rope, start: usize, end: usize) -> (s: String)
    requires
        start <= end <= rope_text(*r).len(),
    ensures
        s@ == rope_text(*r).subrange(start as int, end as int),
{
    r.slice(start..end).to_string()
}

/// `Rope::len_lines`: the number of line breaks plus one.
#[verifier::external_body]
pub(crate) fn rope_len_lines(r: &Rope) -> (n: usize)
    ensures
        n == line_count(rope_text(*r)),
{
    r.len_lines()
}

/// `Rope::line_to_char`: the char index where line `l` starts (the length for
/// `l == len_lines`).
#[verifier::external_body]
pub(crate) fn rope_line_to_char(r: &Rope, l: usize) -> (i: usize)
    requires
        l <= line_count(rope_text(*r)),
    ensures
        i == line_start(rope_text(*r), l as int),
{
    r.line_to_char(l)
}

/// `Rope::char_to_line`: the number of line breaks before char index `i`.
#[verifier::external_body]
pub(crate) fn rope_char_to_line(r: &Rope, i: usize) -> (l: usize)
    requires
        i <= rope_text(*r).len(),
    ensures
        l == breaks_before(rope_text(*r), i as int),
{
    r.char_to_line(i)
}

} // verus!
