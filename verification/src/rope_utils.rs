//! Char classification, grapheme boundaries, word boundaries and tab
//! expansion over the text of a document.
use vstd::prelude::*;
use unicode_segmentation::GraphemeCursor;

verus! {

/// The chars of `s`, in order.
pub fn chars_of(s: &str) -> (v: Vec<char>)
    ensures
        v@ == s@,
{
    let mut v: Vec<char> = Vec::new();
    for c in it: s.chars()
        invariant
            v@ == it.seq().take(it.index() as int),
            it.seq() == s@,
    {
        v.push(c);
    }
    v
}


/// The byte offset of the extended grapheme cluster boundary that
/// `GraphemeCursor::next_boundary` finds after byte offset `b` of the text
/// `t` (unicode-segmentation); `None` where there is none.
pub uninterp spec fn next_boundary_byte(t: Seq<char>, b: int) -> Option<int>;

/// The byte offset of the extended grapheme cluster boundary that
/// `GraphemeCursor::prev_boundary` finds before byte offset `b` of `t`;
/// `None` where there is none.
pub uninterp spec fn prev_boundary_byte(t: Seq<char>, b: int) -> Option<int>;

/// The next boundary after byte offset `b` of `t`, the end of the text
/// where there is none.
pub open spec fn next_boundary_or_end(t: Seq<char>, b: int) -> int {
    match next_boundary_byte(t, b) {
        Some(n) => n,
        None => utf8_width(t) as int,
    }
}

/// The previous boundary before byte offset `b` of `t`, the start of the
/// text where there is none.
pub open spec fn prev_boundary_or_start(t: Seq<char>, b: int) -> int {
    match prev_boundary_byte(t, b) {
        Some(n) => n,
        None => 0,
    }
}

/// An optional `usize` as an optional integer.
pub open spec fn opt_int(o: Option<usize>) -> Option<int> {
    match o {
        Some(n) => Some(n as int),
        None => None,
    }
}

/// `b` is the byte offset at which a char of `t` starts (or its end).
pub open spec fn is_char_offset(t: Seq<char>, b: int) -> bool {
    exists|c: int| 0 <= c <= t.len() && utf8_width(t.take(c)) == b
}

/// The char index at byte offset `b` of `t`.
pub open spec fn char_at_offset(t: Seq<char>, b: int) -> int {
    choose|c: int| 0 <= c <= t.len() && utf8_width(t.take(c)) == b
}

/// Where the grapheme cluster that starts at or contains char index `i` of
/// `t` ends (extended clusters, as unicode-segmentation computes them).
pub open spec fn grapheme_after(t: Seq<char>, i: int) -> int {
    char_at_offset(t, next_boundary_or_end(t, utf8_width(t.take(i)) as int))
}

/// The last grapheme cluster boundary of `t` strictly before char index `i`.
pub open spec fn grapheme_before(t: Seq<char>, i: int) -> int {
    char_at_offset(t, prev_boundary_or_start(t, utf8_width(t.take(i)) as int))
}

/// Whether `c` has the Unicode White_Space property (`char::is_whitespace`):
/// the 25 code points of that property.
pub open spec fn char_is_whitespace(c: char) -> bool {
    let v = c as u32;
    ||| 0x9 <= v <= 0xD
    ||| v == 0x20
    ||| v == 0x85
    ||| v == 0xA0
    ||| v == 0x1680
    ||| 0x2000 <= v <= 0x200A
    ||| v == 0x2028
    ||| v == 0x2029
    ||| v == 0x202F
    ||| v == 0x205F
    ||| v == 0x3000
}

/// Whether `c` is alphabetic or numeric (`char::is_alphanumeric`).
pub uninterp spec fn char_is_alphanumeric(c: char) -> bool;

/// `GraphemeCursor::next_boundary` over the whole of `text` from the byte
/// offset `byte_idx`. The crate finds no boundary at the end of the text,
/// and otherwise one strictly after the cursor; boundaries fall between
/// chars.
#[verifier::external_body]
fn cursor_next_boundary(text: &str, byte_idx: usize) -> (r: Option<usize>)
    requires
        is_char_offset(text@, byte_idx as int),
    ensures
        next_boundary_byte(text@, byte_idx as int) == opt_int(r),
        byte_idx < utf8_width(text@) ==> r is Some,
        r matches Some(n) ==> byte_idx < n <= utf8_width(text@) && is_char_offset(text@, n as int),
        byte_idx == utf8_width(text@) ==> r is None,
{
    let mut cursor = GraphemeCursor::new(byte_idx, text.len(), true);
    cursor.next_boundary(text, 0).unwrap()
}

/// `GraphemeCursor::prev_boundary` over the whole of `text` from the byte
/// offset `byte_idx`. The crate finds no boundary at the start of the text,
/// and otherwise one strictly before the cursor; boundaries fall between
/// chars.
#[verifier::external_body]
fn cursor_prev_boundary(text: &str, byte_idx: usize) -> (r: Option<usize>)
    requires
        is_char_offset(text@, byte_idx as int),
    ensures
        prev_boundary_byte(text@, byte_idx as int) == opt_int(r),
        0 < byte_idx ==> r is Some,
        r matches Some(n) ==> n < byte_idx && is_char_offset(text@, n as int),
        byte_idx == 0 ==> r is None,
{
    let mut cursor = GraphemeCursor::new(byte_idx, text.len(), true);
    cursor.prev_boundary(text, 0).unwrap()
}

/// The next boundary after byte offset `byte_idx` of `text`, the end of
/// the text where there is none.
fn next_boundary_or_end_exec(text: &str, byte_idx: usize, total: usize) -> (r: usize)
    requires
        is_char_offset(text@, byte_idx as int),
        total == utf8_width(text@),
    ensures
        r == next_boundary_or_end(text@, byte_idx as int),
        byte_idx < utf8_width(text@) ==> byte_idx < r <= utf8_width(text@),
        byte_idx == utf8_width(text@) ==> r == byte_idx,
        is_char_offset(text@, r as int),
{
    match cursor_next_boundary(text, byte_idx) {
        Some(n) => n,
        None => {
            assert(text@.take(text@.len() as int) =~= text@);
            assert(is_char_offset(text@, total as int)) by {
                assert(utf8_width(text@.take(text@.len() as int)) == total);
            }
            total
        },
    }
}

/// The previous boundary before byte offset `byte_idx` of `text`, the
/// start of the text where there is none.
fn prev_boundary_or_start_exec(text: &str, byte_idx: usize) -> (r: usize)
    requires
        is_char_offset(text@, byte_idx as int),
    ensures
        r == prev_boundary_or_start(text@, byte_idx as int),
        0 < byte_idx ==> r < byte_idx,
        byte_idx == 0 ==> r == 0,
        is_char_offset(text@, r as int),
{
    match cursor_prev_boundary(text, byte_idx) {
        Some(n) => n,
        None => 0,
    }
}

proof fn lemma_width_step(t: Seq<char>, c: int)
    requires
        0 <= c < t.len(),
    ensures
        utf8_width(t.take(c + 1)) == utf8_width(t.take(c)) + utf8_len(t[c]),
{
    assert(t.take(c + 1).drop_last() =~= t.take(c));
}

/// The widths of prefixes grow strictly with their length.
pub proof fn lemma_width_strictly_grows(t: Seq<char>, c1: int, c2: int)
    requires
        0 <= c1 < c2 <= t.len(),
    ensures
        utf8_width(t.take(c1)) < utf8_width(t.take(c2)),
    decreases c2 - c1,
{
    lemma_width_step(t, c2 - 1);
    if c1 < c2 - 1 {
        lemma_width_strictly_grows(t, c1, c2 - 1);
    }
}

proof fn lemma_char_at_offset(t: Seq<char>, c: int)
    requires
        0 <= c <= t.len(),
    ensures
        char_at_offset(t, utf8_width(t.take(c)) as int) == c,
{
    let w = char_at_offset(t, utf8_width(t.take(c)) as int);
    assert(0 <= w <= t.len() && utf8_width(t.take(w)) == utf8_width(t.take(c)));
    if w < c {
        lemma_width_strictly_grows(t, w, c);
    } else if c < w {
        lemma_width_strictly_grows(t, c, w);
    }
}

proof fn lemma_width_first(s: Seq<char>)
    requires
        s.len() > 0,
    ensures
        utf8_width(s) == utf8_len(s[0]) + utf8_width(s.drop_first()),
    decreases s.len(),
{
    if s.len() > 1 {
        lemma_width_first(s.drop_last());
        assert(s.drop_last().drop_first() =~= s.drop_first().drop_last());
    } else {
        assert(s.drop_first() =~= Seq::<char>::empty());
        assert(s.drop_last() =~= Seq::<char>::empty());
    }
}

/// The UTF-8 encoding of `s` is `utf8_width(s)` bytes long.
pub proof fn lemma_encode_len(s: Seq<char>)
    ensures
        vstd::utf8::encode_utf8(s).len() == utf8_width(s),
    decreases s.len(),
{
    if s.len() > 0 {
        lemma_encode_len(s.drop_first());
        lemma_width_first(s);
        let v = s[0] as u32;
        vstd::utf8::char_is_scalar(s[0]);
        if v <= 0x7F {
            assert(vstd::utf8::has_width_1_encoding(v));
        } else if v <= 0x7FF {
            assert(vstd::utf8::has_width_2_encoding(v));
        } else if v <= 0xFFFF {
            assert(vstd::utf8::has_width_3_encoding(v));
        } else {
            assert(vstd::utf8::has_width_4_encoding(v));
        }
        assert(vstd::utf8::encode_scalar(v).len() == utf8_len(s[0]));
    }
}

/// The width of the text of `text`, which fits in a `usize`.
fn text_width(text: &str) -> (r: usize)
    ensures
        r == utf8_width(text@),
{
    proof {
        lemma_encode_len(text@);
    }
    let bytes = text.as_bytes();
    bytes.len()
}

/// The byte offset of char index `i` of `c`.
fn offset_of(c: &Vec<char>, i: usize, total: usize) -> (r: usize)
    requires
        i <= c@.len(),
        total == utf8_width(c@),
    ensures
        r == utf8_width(c@.take(i as int)),
{
    let mut b: usize = 0;
    let mut k: usize = 0;
    while k < i
        invariant
            k <= i <= c@.len(),
            total == utf8_width(c@),
            b == utf8_width(c@.take(k as int)),
        decreases i - k,
    {
        proof {
            lemma_width_step(c@, k as int);
            lemma_utf8_width_prefix_bound(c@, k + 1);
        }
        b = b + len_utf8(c[k]);
        k = k + 1;
    }
    b
}

/// The char index at byte offset `b` of `c`, for an offset at which a char
/// starts.
pub(crate) fn char_index_of(c: &Vec<char>, b: usize) -> (r: usize)
    requires
        is_char_offset(c@, b as int),
    ensures
        r == char_at_offset(c@, b as int),
        r <= c@.len(),
{
    let ghost w = choose|w: int| 0 <= w <= c@.len() && utf8_width(c@.take(w)) == b;
    let mut acc: usize = 0;
    let mut k: usize = 0;
    let n = c.len();
    while acc < b
        invariant
            n == c@.len(),
            0 <= w <= c@.len(),
            utf8_width(c@.take(w)) == b,
            k <= w,
            acc == utf8_width(c@.take(k as int)),
        decreases w - k,
    {
        proof {
            if k == w {
                assert(false);
            }
            lemma_width_step(c@, k as int);
            if k + 1 < w {
                lemma_width_strictly_grows(c@, k + 1, w);
            }
            assert(acc + utf8_len(c@[k as int]) <= b);
        }
        let step = len_utf8(c[k]);
        assert(acc + step <= b);
        acc = acc + step;
        k = k + 1;
    }
    proof {
        if k < w {
            lemma_width_strictly_grows(c@, k as int, w);
        }
        lemma_char_at_offset(c@, k as int);
    }
    k
}

/// The next extended grapheme cluster boundary after char index
/// `char_idx` of `text`, or the length when `char_idx` is the end.
pub fn next_grapheme_boundary(text: &str, char_idx: usize) -> (r: usize)
    requires
        char_idx <= text@.len(),
    ensures
        r == grapheme_after(text@, char_idx as int),
        char_idx < text@.len() ==> char_idx < r <= text@.len(),
        char_idx == text@.len() ==> r == char_idx,
{
    let c = chars_of(text);
    let total = text_width(text);
    let b = offset_of(&c, char_idx, total);
    proof {
        lemma_utf8_width_prefix_bound(c@, char_idx as int);
        assert(c@.take(c@.len() as int) =~= c@);
    }
    let nb = next_boundary_or_end_exec(text, b, total);
    let r = char_index_of(&c, nb);
    proof {
        lemma_char_at_offset(c@, char_idx as int);
        if char_idx < c@.len() {
            lemma_width_strictly_grows(c@, char_idx as int, c@.len() as int);
            if r <= char_idx {
                if r < char_idx {
                    lemma_width_strictly_grows(c@, r as int, char_idx as int);
                }
            }
        } else {
            lemma_char_at_offset(c@, char_idx as int);
        }
    }
    r
}

/// The previous extended grapheme cluster boundary before char index
/// `char_idx` of `text`, or 0 at the start.
pub fn prev_grapheme_boundary(text: &str, char_idx: usize) -> (r: usize)
    requires
        char_idx <= text@.len(),
    ensures
        r == grapheme_before(text@, char_idx as int),
        0 < char_idx ==> r < char_idx,
        char_idx == 0 ==> r == 0,
{
    let c = chars_of(text);
    let total = text_width(text);
    let b = offset_of(&c, char_idx, total);
    proof {
        lemma_utf8_width_prefix_bound(c@, char_idx as int);
    }
    let nb = prev_boundary_or_start_exec(text, b);
    let r = char_index_of(&c, nb);
    proof {
        if char_idx > 0 {
            lemma_width_strictly_grows(c@, 0, char_idx as int);
            assert(c@.take(0) =~= Seq::<char>::empty());
            if r >= char_idx {
                if r > char_idx {
                    lemma_width_strictly_grows(c@, char_idx as int, r as int);
                }
            }
        } else {
            assert(c@.take(0) =~= Seq::<char>::empty());
            lemma_char_at_offset(c@, 0);
        }
    }
    r
}

/// Whether `GraphemeCursor::is_boundary` finds an extended grapheme cluster
/// boundary at byte offset `b` of the text `t` (unicode-segmentation).
pub uninterp spec fn boundary_at_byte(t: Seq<char>, b: int) -> bool;

/// `GraphemeCursor::is_boundary` over the whole of `text` at the byte
/// offset `byte_idx`. The crate finds a boundary at the start and at the
/// end of the text.
#[verifier::external_body]
fn cursor_is_boundary(text: &str, byte_idx: usize) -> (r: bool)
    requires
        is_char_offset(text@, byte_idx as int),
    ensures
        r == boundary_at_byte(text@, byte_idx as int),
        byte_idx == 0 || byte_idx == utf8_width(text@) ==> r,
{
    let mut cursor = GraphemeCursor::new(byte_idx, text.len(), true);
    cursor.is_boundary(text, 0).unwrap()
}

/// The next extended grapheme cluster boundary after byte offset
/// `byte_idx` of `text`, or its length in bytes at the end.
pub fn next_grapheme_boundary_byte(text: &str, byte_idx: usize) -> (r: usize)
    requires
        is_char_offset(text@, byte_idx as int),
    ensures
        r == next_boundary_or_end(text@, byte_idx as int),
        byte_idx < utf8_width(text@) ==> byte_idx < r <= utf8_width(text@),
        byte_idx == utf8_width(text@) ==> r == byte_idx,
        is_char_offset(text@, r as int),
{
    let total = text_width(text);
    next_boundary_or_end_exec(text, byte_idx, total)
}

/// Whether char index `char_idx` of `text` is an extended grapheme cluster
/// boundary; the start and the end of the text are.
pub fn is_grapheme_boundary(text: &str, char_idx: usize) -> (r: bool)
    requires
        char_idx <= text@.len(),
    ensures
        r == boundary_at_byte(text@, utf8_width(text@.take(char_idx as int)) as int),
        char_idx == 0 || char_idx == text@.len() ==> r,
{
    let c = chars_of(text);
    let total = text_width(text);
    let b = offset_of(&c, char_idx, total);
    proof {
        lemma_utf8_width_prefix_bound(c@, char_idx as int);
        assert(c@.take(c@.len() as int) =~= c@);
        assert(c@.take(0) =~= Seq::<char>::empty());
    }
    cursor_is_boundary(text, b)
}

/// Char `c` of `t` holds byte offset `b`: the char's bytes span it.
pub open spec fn char_holds_byte(t: Seq<char>, b: int, c: int) -> bool {
    0 <= c < t.len() && utf8_width(t.take(c)) <= b < utf8_width(t.take(c + 1))
}

/// The char index of byte offset `b` of `t`: the char whose bytes hold it,
/// the number of chars for an offset past the end.
pub open spec fn char_of_byte(t: Seq<char>, b: int) -> int {
    if b >= utf8_width(t) {
        t.len() as int
    } else {
        choose|c: int| char_holds_byte(t, b, c)
    }
}

proof fn lemma_char_holds_byte_unique(t: Seq<char>, b: int, c1: int, c2: int)
    requires
        char_holds_byte(t, b, c1),
        char_holds_byte(t, b, c2),
    ensures
        c1 == c2,
{
    if c1 + 1 < c2 {
        lemma_width_strictly_grows(t, c1 + 1, c2);
    } else if c2 + 1 < c1 {
        lemma_width_strictly_grows(t, c2 + 1, c1);
    }
}

/// The char index of byte offset `byte_idx` of `text`: the char whose
/// bytes hold it, the number of chars for an offset past the end.
pub fn byte_to_char(text: &str, byte_idx: usize) -> (r: usize)
    ensures
        r == char_of_byte(text@, byte_idx as int),
        r <= text@.len(),
{
    let c = chars_of(text);
    let total = text_width(text);
    let mut acc: usize = 0;
    let mut k: usize = 0;
    while k < c.len()
        invariant
            c@ == text@,
            total == utf8_width(c@),
            k <= c@.len(),
            acc == utf8_width(c@.take(k as int)),
            acc <= byte_idx,
        decreases c@.len() - k,
    {
        proof {
            lemma_width_step(c@, k as int);
            lemma_utf8_width_prefix_bound(c@, k + 1);
        }
        let w = len_utf8(c[k]);
        if byte_idx < acc + w {
            proof {
                assert(char_holds_byte(c@, byte_idx as int, k as int));
                let d = choose|d: int| char_holds_byte(c@, byte_idx as int, d);
                lemma_char_holds_byte_unique(c@, byte_idx as int, k as int, d);
            }
            return k;
        }
        acc = acc + w;
        k = k + 1;
    }
    proof {
        assert(c@.take(k as int) =~= c@);
    }
    k
}

/// The grapheme index of byte offset `byte_idx` of `text`: that of the char
/// holding it.
pub fn byte_to_grapheme(text: &str, byte_idx: usize) -> (r: usize)
    requires
        byte_idx <= utf8_width(text@),
    ensures
        r == spec_char_to_grapheme(text@, char_of_byte(text@, byte_idx as int)),
{
    let c = byte_to_char(text, byte_idx);
    char_to_grapheme(text, c)
}

/// The byte offset at which grapheme `grapheme_idx` of `text` starts (the
/// length in bytes when the text has fewer graphemes).
pub fn grapheme_to_byte(text: &str, grapheme_idx: usize) -> (r: usize)
    ensures
        r == utf8_width(text@.take(grapheme_start(text@, grapheme_idx as nat))),
{
    let i = grapheme_to_char(text, grapheme_idx);
    let c = chars_of(text);
    let total = text_width(text);
    offset_of(&c, i, total)
}

/// A text has at least as many bytes as chars.
pub proof fn lemma_width_at_least_len(s: Seq<char>)
    ensures
        utf8_width(s) >= s.len(),
    decreases s.len(),
{
    if s.len() > 0 {
        lemma_width_at_least_len(s.drop_last());
    }
}

/// The width of a prefix is at most that of the whole.
pub proof fn lemma_utf8_width_prefix_bound(s: Seq<char>, i: int)
    requires
        0 <= i <= s.len(),
    ensures
        utf8_width(s.take(i)) <= utf8_width(s),
    decreases s.len() - i,
{
    if i < s.len() {
        lemma_utf8_width_prefix_bound(s, i + 1);
        assert(s.take(i + 1).drop_last() =~= s.take(i));
    } else {
        assert(s.take(i) =~= s);
    }
}

/// Whether `c` has the Unicode White_Space property, as
/// `char::is_whitespace` tells.
pub(crate) fn is_whitespace(c: char) -> (b: bool)
    ensures
        b == char_is_whitespace(c),
{
    let v: u32 = c as u32;
    (0x9 <= v && v <= 0xD) || v == 0x20 || v == 0x85 || v == 0xA0 || v == 0x1680 || (0x2000 <= v && v
        <= 0x200A) || v == 0x2028 || v == 0x2029 || v == 0x202F || v == 0x205F || v == 0x3000
}

/// `char::is_alphanumeric`.
#[verifier::external_body]
pub(crate) fn is_alphanumeric(c: char) -> (b: bool)
    ensures
        b == char_is_alphanumeric(c),
{
    c.is_alphanumeric()
}

/// The number of bytes of `c` in UTF-8.
pub open spec fn utf8_len(c: char) -> nat {
    if (c as u32) < 0x80 {
        1
    } else if (c as u32) < 0x800 {
        2
    } else if (c as u32) < 0x10000 {
        3
    } else {
        4
    }
}

/// The number of UTF-8 bytes of a sequence of chars.
pub open spec fn utf8_width(s: Seq<char>) -> nat
    decreases s.len(),
{
    if s.len() == 0 {
        0
    } else {
        utf8_width(s.drop_last()) + utf8_len(s.last())
    }
}

/// The number of bytes of `c` in UTF-8 (`char::len_utf8`).
pub fn len_utf8(c: char) -> (r: usize)
    ensures
        r == utf8_len(c),
{
    let v: u32 = c as u32;
    if v < 0x80 {
        1
    } else if v < 0x800 {
        2
    } else if v < 0x10000 {
        3
    } else {
        4
    }
}

// ---------------------------------------------------------------------
// Grapheme indices

/// The char index at which grapheme `g` of `t` starts: `g` steps of
/// `grapheme_after` from 0.
pub open spec fn grapheme_start(t: Seq<char>, g: nat) -> int
    decreases g,
{
    if g == 0 {
        0
    } else {
        grapheme_after(t, grapheme_start(t, (g - 1) as nat))
    }
}

/// `g` is the number of graphemes of `t` that start before char index `c`:
/// the first grapheme start at or after `c`.
pub open spec fn is_grapheme_of(t: Seq<char>, c: int, g: nat) -> bool {
    &&& grapheme_start(t, g) >= c
    &&& forall|k: nat| k < g ==> #[trigger] grapheme_start(t, k) < c
}

/// The grapheme index of char index `c` in `t` (rounded up to the next
/// grapheme start).
pub open spec fn spec_char_to_grapheme(t: Seq<char>, c: int) -> nat {
    choose|g: nat| is_grapheme_of(t, c, g)
}

pub proof fn lemma_grapheme_of_unique(t: Seq<char>, c: int, g: nat)
    requires
        is_grapheme_of(t, c, g),
    ensures
        spec_char_to_grapheme(t, c) == g,
{
    let h = spec_char_to_grapheme(t, c);
    assert(is_grapheme_of(t, c, h));
    if h < g {
        assert(grapheme_start(t, h) < c);
    } else if g < h {
        assert(grapheme_start(t, g) < c);
    }
}

/// The char index of grapheme `grapheme_idx` of `text` (the length when the
/// text has fewer graphemes).
pub fn grapheme_to_char(text: &str, grapheme_idx: usize) -> (r: usize)
    ensures
        r == grapheme_start(text@, grapheme_idx as nat),
        r <= text@.len(),
{
    let mut idx: usize = 0;
    for count in 0..grapheme_idx
        invariant
            idx == grapheme_start(text@, count as nat),
            idx <= text@.len(),
    {
        idx = next_grapheme_boundary(text, idx);
    }
    idx
}

/// The grapheme index of char index `char_idx` of `text`.
pub fn char_to_grapheme(text: &str, char_idx: usize) -> (r: usize)
    requires
        char_idx <= text@.len(),
    ensures
        r == spec_char_to_grapheme(text@, char_idx as int),
        is_grapheme_of(text@, char_idx as int, r as nat),
        r <= char_idx,
{
    let mut idx: usize = 0;
    let mut count: usize = 0;
    while idx < char_idx
        invariant
            char_idx <= text@.len(),
            idx == grapheme_start(text@, count as nat),
            idx <= text@.len(),
            count <= idx,
            count <= char_idx,
            forall|k: nat| k < count ==> #[trigger] grapheme_start(text@, k) < char_idx,
        decreases text@.len() - idx,
    {
        idx = next_grapheme_boundary(text, idx);
        count = count + 1;
    }
    proof {
        lemma_grapheme_of_unique(text@, char_idx as int, count as nat);
    }
    count
}

// ---------------------------------------------------------------------
// Word boundaries

/// The punctuation that ends a word.
pub open spec fn is_word_punctuation(c: char) -> bool {
    c == '`' || c == '~' || c == '!' || c == '@' || c == '#' || c == '$' || c == '%' || c == '^'
        || c == '&' || c == '*' || c == '(' || c == ')' || c == '-' || c == '=' || c == '+' || c
        == '[' || c == '{' || c == ']' || c == '}' || c == '\\' || c == '|' || c == ';' || c
        == ':' || c == '\'' || c == '"' || c == ',' || c == '.' || c == '<' || c == '>' || c
        == '/' || c == '?'
}

fn word_punctuation(c: char) -> (b: bool)
    ensures
        b == is_word_punctuation(c),
{
    match c {
        '`' | '~' | '!' | '@' | '#' | '$' | '%' | '^' | '&' | '*' | '(' | ')' | '-' | '=' | '+'
        | '[' | '{' | ']' | '}' | '\\' | '|' | ';' | ':' | '\'' | '"' | ',' | '.' | '<' | '>'
        | '/' | '?' => true,
        _ => false,
    }
}

/// The classes of chars between which a word boundary lies.
#[derive(Debug, Clone, Copy, PartialEq, Eq, Structural)]
pub enum CharType {
    LineFeed,
    Space,
    Punctuation,
    Other,
}

pub open spec fn spec_char_type(c: char) -> CharType {
    if is_word_punctuation(c) {
        CharType::Punctuation
    } else if c == '\n' || c == '\r' {
        CharType::LineFeed
    } else if char_is_whitespace(c) {
        CharType::Space
    } else {
        CharType::Other
    }
}

/// The class of `c`: punctuation first, then line feeds, then other
/// whitespace, then everything else.
pub fn char_type(c: char) -> (r: CharType)
    ensures
        r == spec_char_type(c),
{
    if word_punctuation(c) {
        CharType::Punctuation
    } else if c == '\n' || c == '\r' {
        CharType::LineFeed
    } else if is_whitespace(c) {
        CharType::Space
    } else {
        CharType::Other
    }
}

/// A word boundary lies between `a` and `b` when their classes differ.
pub fn is_boundary(a: char, b: char) -> (r: bool)
    ensures
        r == (spec_char_type(a) != spec_char_type(b)),
{
    char_type(a) != char_type(b)
}

/// The kinds of runs of chars that the word motions skip.
#[derive(Debug, Clone, Copy, PartialEq, Eq, Structural)]
pub enum RunKind {
    Whitespace,
    Punctuation,
    SameType(CharType),
    Exactly(char),
}

pub open spec fn in_run(kind: RunKind, c: char) -> bool {
    match kind {
        RunKind::Whitespace => char_is_whitespace(c),
        RunKind::Punctuation => is_word_punctuation(c),
        RunKind::SameType(ty) => spec_char_type(c) == ty,
        RunKind::Exactly(x) => c == x,
    }
}

/// The number of chars of kind `kind` that follow index `i` in `t`.
pub open spec fn run_forward(t: Seq<char>, i: int, kind: RunKind) -> nat
    decreases t.len() - i,
{
    if i < 0 || i >= t.len() || !in_run(kind, t[i]) {
        0
    } else {
        1 + run_forward(t, i + 1, kind)
    }
}

/// The number of chars of kind `kind` that precede index `i` in `t`.
pub open spec fn run_backward(t: Seq<char>, i: int, kind: RunKind) -> nat
    decreases i,
{
    if i <= 0 || i > t.len() || !in_run(kind, t[i - 1]) {
        0
    } else {
        1 + run_backward(t, i - 1, kind)
    }
}

fn in_run_exec(kind: RunKind, c: char) -> (b: bool)
    ensures
        b == in_run(kind, c),
{
    match kind {
        RunKind::Whitespace => is_whitespace(c),
        RunKind::Punctuation => word_punctuation(c),
        RunKind::SameType(ty) => char_type(c) == ty,
        RunKind::Exactly(x) => c == x,
    }
}

pub proof fn lemma_run_forward_bound(t: Seq<char>, i: int, kind: RunKind)
    requires
        0 <= i <= t.len(),
    ensures
        i + run_forward(t, i, kind) <= t.len(),
    decreases t.len() - i,
{
    if i < t.len() && in_run(kind, t[i]) {
        lemma_run_forward_bound(t, i + 1, kind);
    }
}

pub proof fn lemma_run_backward_bound(t: Seq<char>, i: int, kind: RunKind)
    requires
        0 <= i <= t.len(),
    ensures
        run_backward(t, i, kind) <= i,
    decreases i,
{
    if i > 0 && in_run(kind, t[i - 1]) {
        lemma_run_backward_bound(t, i - 1, kind);
    }
}

/// Counts the chars of kind `kind` from index `i` onwards.
pub fn count_forward(t: &Vec<char>, i: usize, kind: RunKind) -> (n: usize)
    requires
        i <= t@.len(),
    ensures
        n == run_forward(t@, i as int, kind),
        i + n <= t@.len(),
{
    let mut j = i;
    while j < t.len() && in_run_exec(kind, t[j])
        invariant
            i <= j <= t@.len(),
            run_forward(t@, i as int, kind) == (j - i) + run_forward(t@, j as int, kind),
        decreases t@.len() - j,
    {
        j = j + 1;
    }
    j - i
}

/// Counts the chars of kind `kind` just before index `i`, going backwards.
pub fn count_backward(t: &Vec<char>, i: usize, kind: RunKind) -> (n: usize)
    requires
        i <= t@.len(),
    ensures
        n == run_backward(t@, i as int, kind),
        n <= i,
{
    let mut j = i;
    while j > 0 && in_run_exec(kind, t[j - 1])
        invariant
            j <= i <= t@.len(),
            run_backward(t@, i as int, kind) == (i - j) + run_backward(t@, j as int, kind),
        decreases j,
    {
        j = j - 1;
    }
    i - j
}

pub open spec fn spec_next_word_boundary(t: Seq<char>, char_idx: int) -> int {
    let i0 = char_idx + run_forward(t, char_idx, RunKind::Whitespace);
    let fp = run_forward(t, i0, RunKind::Punctuation);
    let i1 = i0 + fp;
    if i1 >= t.len() {
        t.len() as int
    } else if fp > 1 || (fp == 1 && spec_char_type(t[i1]) != CharType::Other) {
        i1
    } else {
        i1 + run_forward(t, i1, RunKind::SameType(spec_char_type(t[i1])))
    }
}

/// The end of the word after `char_idx`: skips whitespace, then a run of
/// punctuation (stopping after it when it is longer than one char or not
/// followed by a word char), then the run of chars of the class of the
/// char reached.
pub fn next_word_boundary(t: &Vec<char>, char_idx: usize) -> (r: usize)
    requires
        char_idx <= t@.len(),
    ensures
        r == spec_next_word_boundary(t@, char_idx as int),
        char_idx <= r <= t@.len(),
{
    let len = t.len();
    let mut i = char_idx;
    i = i + count_forward(t, i, RunKind::Whitespace);
    let fp = count_forward(t, i, RunKind::Punctuation);
    i = i + fp;
    if i >= t.len() {
        return t.len();
    }
    let current_char = t[i];
    if fp > 1 || (fp == 1 && char_type(current_char) != CharType::Other) {
        return i;
    }
    let n = count_forward(t, i, RunKind::SameType(char_type(current_char)));
    i + n
}

pub open spec fn spec_prev_word_boundary(t: Seq<char>, char_idx: int) -> int {
    let i0 = char_idx - run_backward(t, char_idx, RunKind::Whitespace);
    let fp = run_backward(t, i0, RunKind::Punctuation);
    let i1 = i0 - fp;
    if i1 == 0 {
        0
    } else if fp > 1 || (fp == 1 && spec_char_type(t[i1 - 1]) != CharType::Other) {
        i1
    } else {
        i1 - run_backward(t, i1, RunKind::SameType(spec_char_type(t[i1 - 1])))
    }
}

/// The start of the word before `char_idx`, the mirror of
/// `next_word_boundary`.
pub fn prev_word_boundary(t: &Vec<char>, char_idx: usize) -> (r: usize)
    requires
        char_idx <= t@.len(),
    ensures
        r == spec_prev_word_boundary(t@, char_idx as int),
        r <= char_idx,
{
    let mut i = char_idx;
    i = i - count_backward(t, i, RunKind::Whitespace);
    let fp = count_backward(t, i, RunKind::Punctuation);
    i = i - fp;
    if i == 0 {
        return 0;
    }
    let current_char = t[i - 1];
    if fp > 1 || (fp == 1 && char_type(current_char) != CharType::Other) {
        return i;
    }
    let n = count_backward(t, i, RunKind::SameType(char_type(current_char)));
    i - n
}

pub open spec fn spec_word_end(t: Seq<char>, char_idx: int) -> int {
    if char_idx >= t.len() {
        t.len() as int
    } else {
        char_idx + run_forward(t, char_idx, RunKind::SameType(spec_char_type(t[char_idx])))
    }
}

/// The end of the run of chars of the class of the char at `char_idx`.
pub fn word_end(t: &Vec<char>, char_idx: usize) -> (r: usize)
    ensures
        r == spec_word_end(t@, char_idx as int),
        r <= t@.len(),
{
    if char_idx >= t.len() {
        return t.len();
    }
    let current_char = t[char_idx];
    char_idx + count_forward(t, char_idx, RunKind::SameType(char_type(current_char)))
}

pub open spec fn spec_word_start(t: Seq<char>, char_idx: int) -> int {
    if char_idx >= t.len() {
        t.len() as int
    } else {
        char_idx - run_backward(t, char_idx, RunKind::SameType(spec_char_type(t[char_idx])))
    }
}

/// The start of the run of chars of the class of the char at `char_idx`
/// (the length when `char_idx` is at or past the end).
pub fn word_start(t: &Vec<char>, char_idx: usize) -> (r: usize)
    ensures
        r == spec_word_start(t@, char_idx as int),
        r <= t@.len(),
{
    if char_idx >= t.len() {
        return t.len();
    }
    let current_char = t[char_idx];
    char_idx - count_backward(t, char_idx, RunKind::SameType(char_type(current_char)))
}

// ---------------------------------------------------------------------
// Tab expansion

/// `n` spaces.
pub open spec fn spaces(n: int) -> Seq<char> {
    Seq::new(n as nat, |_i: int| ' ')
}

/// The chars of `s` with each tab replaced by the spaces that reach the next
/// multiple of `tab_len` (elastic tab stops).
pub open spec fn expand_tabs(s: Seq<char>, tab_len: nat) -> Seq<char>
    decreases s.len(),
{
    if s.len() == 0 {
        Seq::empty()
    } else {
        let p = expand_tabs(s.drop_last(), tab_len);
        if s.last() == '\t' {
            p + spaces(tab_len - (p.len() % tab_len))
        } else {
            p.push(s.last())
        }
    }
}

/// The visible width of `s`: the length of its tab expansion.
pub open spec fn visible_width(s: Seq<char>, tab_len: nat) -> nat {
    expand_tabs(s, tab_len).len()
}

/// The visible column reached after the bytes of `s` (a tab advances to the
/// next multiple of `tab_len`, any other byte by one column).
pub open spec fn visible_col_of_bytes(s: Seq<u8>, tab_len: nat) -> nat
    decreases s.len(),
{
    if s.len() == 0 {
        0
    } else {
        let p = visible_col_of_bytes(s.drop_last(), tab_len);
        if s.last() == 9u8 {
            (p + tab_len - (p % tab_len)) as nat
        } else {
            p + 1
        }
    }
}

/// The visible column after the first `byte_idx` bytes of `input` (all of
/// them when there are fewer), a tab advancing to the next multiple of
/// `tab_len`.
pub fn byte_to_visible_col(input: &[u8], byte_idx: usize, tab_len: usize) -> (r: usize)
    requires
        input@.take(if byte_idx < input@.len() { byte_idx as int } else { input@.len() as int }).contains(9u8)
            ==> tab_len > 0,
        visible_col_of_bytes(
            input@.take(if byte_idx < input@.len() { byte_idx as int } else { input@.len() as int }),
            tab_len as nat,
        ) <= usize::MAX,
    ensures
        r == visible_col_of_bytes(
            input@.take(if byte_idx < input@.len() { byte_idx as int } else { input@.len() as int }),
            tab_len as nat,
        ),
{
    let n = if byte_idx < input.len() {
        byte_idx
    } else {
        input.len()
    };
    let ghost whole = input@.take(n as int);
    let mut col: usize = 0;
    for i in 0..n
        invariant
            n <= input@.len(),
            whole.contains(9u8) ==> tab_len > 0,
            whole == input@.take(n as int),
            visible_col_of_bytes(whole, tab_len as nat) <= usize::MAX,
            col == visible_col_of_bytes(input@.take(i as int), tab_len as nat),
    {
        proof {
            assert(input@.take(i + 1).drop_last() =~= input@.take(i as int));
            lemma_visible_col_prefix(whole, tab_len as nat, i + 1);
            assert(whole.take(i + 1) =~= input@.take(i + 1));
        }
        if input[i] == 9u8 {
            assert(whole[i as int] == 9u8);
            col = col + (tab_len - (col % tab_len));
        } else {
            col = col + 1;
        }
    }
    col
}

/// The visible column after a prefix is at most that after the whole.
pub proof fn lemma_visible_col_prefix(s: Seq<u8>, tab_len: nat, k: int)
    requires
        0 <= k <= s.len(),
        s.contains(9u8) ==> tab_len > 0,
    ensures
        visible_col_of_bytes(s.take(k), tab_len) <= visible_col_of_bytes(s, tab_len),
    decreases s.len() - k,
{
    if k < s.len() {
        lemma_visible_col_prefix(s, tab_len, k + 1);
        assert(s.take(k + 1).drop_last() =~= s.take(k));
        assert(s.take(k + 1).last() == s[k]);
    } else {
        assert(s.take(k) =~= s);
    }
}

/// Whether two texts hold the same chars.
pub fn str_eq(a: &str, b: &str) -> (r: bool)
    ensures
        r == (a@ == b@),
{
    let av = chars_of(a);
    let bv = chars_of(b);
    if av.len() != bv.len() {
        return false;
    }
    for i in 0..av.len()
        invariant
            av@ == a@,
            bv@ == b@,
            av@.len() == bv@.len(),
            forall|k: int| 0 <= k < i ==> av@[k] == bv@[k],
    {
        if av[i] != bv[i] {
            return false;
        }
    }
    assert(av@ =~= bv@);
    true
}

/// `needle` occurs in `hay` at `i`.
pub open spec fn occurs_at(hay: Seq<char>, needle: Seq<char>, i: int) -> bool {
    0 <= i && i + needle.len() <= hay.len() && hay.subrange(i, i + needle.len()) == needle
}

/// `needle` occurs somewhere in `hay` (an empty needle occurs in every
/// text).
pub open spec fn occurs_in(hay: Seq<char>, needle: Seq<char>) -> bool {
    exists|i: int| occurs_at(hay, needle, i)
}

fn occurs_at_exec(h: &Vec<char>, n: &Vec<char>, i: usize) -> (r: bool)
    requires
        i + n@.len() <= h@.len(),
    ensures
        r == occurs_at(h@, n@, i as int),
{
    let hl = h.len();
    let mut j: usize = 0;
    while j < n.len()
        invariant
            hl == h@.len(),
            i + n@.len() <= h@.len(),
            j <= n@.len(),
            forall|k: int| 0 <= k < j ==> h@[i + k] == n@[k],
        decreases n@.len() - j,
    {
        if h[i + j] != n[j] {
            proof {
                if occurs_at(h@, n@, i as int) {
                    assert(h@.subrange(i as int, i + n@.len())[j as int] == n@[j as int]);
                }
            }
            return false;
        }
        j += 1;
    }
    assert(h@.subrange(i as int, i + n@.len()) =~= n@);
    true
}

/// Whether `needle` occurs in `hay` (`str::contains`).
pub fn str_contains(hay: &str, needle: &str) -> (r: bool)
    ensures
        r == occurs_in(hay@, needle@),
{
    let h = chars_of(hay);
    let n = chars_of(needle);
    if n.len() > h.len() {
        proof {
            assert forall|k: int| !occurs_at(hay@, needle@, k) by {}
        }
        return false;
    }
    let last = h.len() - n.len();
    let mut i: usize = 0;
    loop
        invariant
            h@ == hay@,
            n@ == needle@,
            n@.len() <= h@.len(),
            last == h@.len() - n@.len(),
            i <= last,
            forall|k: int| 0 <= k < i ==> !occurs_at(hay@, needle@, k),
        decreases last - i,
    {
        if occurs_at_exec(&h, &n, i) {
            assert(occurs_at(hay@, needle@, i as int));
            return true;
        }
        if i == last {
            proof {
                assert forall|k: int| !occurs_at(hay@, needle@, k) by {
                    if 0 <= k <= i {
                    }
                }
            }
            return false;
        }
        i += 1;
    }
}

/// The pieces of `s` between newline chars (one piece when there is none).
pub open spec fn newline_pieces(s: Seq<char>) -> Seq<Seq<char>>
    decreases s.len(),
{
    if s.len() == 0 {
        seq![Seq::empty()]
    } else {
        let p = newline_pieces(s.drop_last());
        if s.last() == '\n' {
            p.push(Seq::empty())
        } else {
            p.update(p.len() - 1, p.last().push(s.last()))
        }
    }
}

pub proof fn lemma_newline_pieces_len(s: Seq<char>)
    ensures
        newline_pieces(s).len() >= 1,
    decreases s.len(),
{
    if s.len() > 0 {
        lemma_newline_pieces_len(s.drop_last());
    }
}

/// `p` without the carriage return that ends it, if one does.
pub open spec fn strip_cr(p: Seq<char>) -> Seq<char> {
    if p.len() > 0 && p.last() == '\r' {
        p.drop_last()
    } else {
        p
    }
}

/// The lines of `s` (`str::lines`): split at "\n" or "\r\n", without the
/// line endings, and without an empty line after a final line ending.
pub open spec fn text_lines(s: Seq<char>) -> Seq<Seq<char>> {
    let p = newline_pieces(s);
    let body = if p.last().len() == 0 {
        p.drop_last()
    } else {
        p
    };
    Seq::new(
        body.len(),
        |i: int|
            if i < p.len() - 1 {
                strip_cr(body[i])
            } else {
                body[i]
            },
    )
}

fn strip_cr_exec(p: &Vec<char>) -> (r: String)
    ensures
        r@ == strip_cr(p@),
{
    let n = if p.len() > 0 && p[p.len() - 1] == '\r' {
        p.len() - 1
    } else {
        p.len()
    };
    let mut r = String::new();
    for i in 0..n
        invariant
            n <= p@.len(),
            r@ =~= p@.take(i as int),
    {
        push_char(&mut r, p[i]);
    }
    r
}

fn chars_to_string(p: &Vec<char>) -> (r: String)
    ensures
        r@ == p@,
{
    let mut r = String::new();
    for i in 0..p.len()
        invariant
            r@ =~= p@.take(i as int),
    {
        push_char(&mut r, p[i]);
    }
    assert(p@.take(p@.len() as int) =~= p@);
    r
}

/// The lines of `s`, as `str::lines` gives them.
pub fn lines_of(s: &str) -> (r: Vec<String>)
    ensures
        r@.len() == text_lines(s@).len(),
        forall|i: int| 0 <= i < r@.len() ==> (#[trigger] r@[i])@ == text_lines(s@)[i],
{
    let c = chars_of(s);
    let mut pieces: Vec<Vec<char>> = Vec::new();
    pieces.push(Vec::new());
    assert(newline_pieces(c@.take(0)) =~= seq![Seq::<char>::empty()]) by {
        assert(c@.take(0) =~= Seq::<char>::empty());
    }
    for i in 0..c.len()
        invariant
            c@ == s@,
            pieces@.len() == newline_pieces(c@.take(i as int)).len(),
            pieces@.len() >= 1,
            forall|k: int| 0 <= k < pieces@.len() ==> (#[trigger] pieces@[k])@ == newline_pieces(c@.take(i as int))[k],
    {
        proof {
            assert(c@.take(i + 1).drop_last() =~= c@.take(i as int));
        }
        if c[i] == '\n' {
            let ghost before = pieces@;
            pieces.push(Vec::new());
            proof {
                assert forall|k: int| 0 <= k < pieces@.len() implies (#[trigger] pieces@[k])@ == newline_pieces(c@.take(i + 1))[k] by {
                    if k < pieces@.len() - 1 {
                        assert(pieces@[k] == before[k]);
                    }
                }
            }
        } else {
            let last = pieces.len() - 1;
            let mut piece = pieces[last].clone();
            piece.push(c[i]);
            pieces.set(last, piece);
        }
    }
    assert(c@.take(c@.len() as int) =~= c@);
    proof {
        lemma_newline_pieces_len(s@);
    }
    let np = pieces.len();
    let count = if pieces[np - 1].len() == 0 {
        np - 1
    } else {
        np
    };
    let mut r: Vec<String> = Vec::new();
    for i in 0..count
        invariant
            np == pieces@.len(),
            np == newline_pieces(s@).len(),
            count <= np,
            count == text_lines(s@).len(),
            forall|k: int| 0 <= k < np ==> (#[trigger] pieces@[k])@ == newline_pieces(s@)[k],
            r@.len() == i,
            forall|k: int| 0 <= k < i ==> (#[trigger] r@[k])@ == text_lines(s@)[k],
    {
        let line = if i < np - 1 {
            strip_cr_exec(&pieces[i])
        } else {
            chars_to_string(&pieces[i])
        };
        r.push(line);
    }
    r
}

/// Appends `c` to `s`.
#[verifier::external_body]
pub(crate) fn push_char(s: &mut String, c: char)
    ensures
        final(s)@ == old(s)@.push(c),
{
    s.push(c)
}

/// The chars of `line` with tabs expanded to the next multiple of
/// `indent_len`.
pub fn expand_line(line: &Vec<char>, indent_len: usize) -> (s: String)
    requires
        indent_len > 0,
        visible_width(line@, indent_len as nat) <= usize::MAX,
    ensures
        s@ == expand_tabs(line@, indent_len as nat),
{
    let mut s = String::new();
    let mut offset: usize = 0;
    let mut k: usize = 0;
    while k < line.len()
        invariant
            indent_len > 0,
            k <= line@.len(),
            s@ == expand_tabs(line@.take(k as int), indent_len as nat),
            offset == s@.len(),
            visible_width(line@, indent_len as nat) <= usize::MAX,
        decreases line@.len() - k,
    {
        proof {
            assert(line@.take(k + 1).drop_last() =~= line@.take(k as int));
            lemma_visible_width_prefix(line@, indent_len as nat, k + 1);
        }
        let c = line[k];
        if c == '\t' {
            let tablen = indent_len - (offset % indent_len);
            let mut n: usize = 0;
            let ghost before = s@;
            while n < tablen
                invariant
                    n <= tablen,
                    s@ == before + spaces(n as int),
                decreases tablen - n,
            {
                push_char(&mut s, ' ');
                n = n + 1;
                assert(s@ =~= before + spaces(n as int));
            }
            offset = offset + tablen;
        } else {
            push_char(&mut s, c);
            offset = offset + 1;
        }
        k = k + 1;
    }
    assert(line@.take(k as int) =~= line@);
    s
}

/// The visible width of a prefix is at most that of the whole.
pub proof fn lemma_visible_width_prefix(s: Seq<char>, tab_len: nat, k: int)
    requires
        0 <= k <= s.len(),
        tab_len > 0 || !s.contains('\t'),
    ensures
        visible_width(s.take(k), tab_len) <= visible_width(s, tab_len),
    decreases s.len() - k,
{
    if k < s.len() {
        lemma_visible_width_prefix(s, tab_len, k + 1);
        assert(s.take(k + 1).drop_last() =~= s.take(k));
        assert(s.take(k + 1).last() == s[k]);
        assert(expand_tabs(s.take(k + 1), tab_len).len() >= expand_tabs(s.take(k), tab_len).len());
    } else {
        assert(s.take(k) =~= s);
    }
}

} // verus!
