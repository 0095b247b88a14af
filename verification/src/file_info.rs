//! What is known of a document's file: its encoding and byte order mark,
//! its line endings, its indentation and its syntax.
use vstd::prelude::*;
use ropey::Rope;
use crate::rope_utils::{chars_of, RunKind, run_forward};
use crate::text::{line_count, line_text, rope_len_lines, rope_text};
use crate::document::rope_line;
use std::collections::HashMap;

verus! {

broadcast use vstd::std_specs::hash::group_hash_axioms;

/// The line ending used when text is written back.
#[derive(Debug, Clone, Copy, PartialEq, Eq, Structural)]
pub enum LineFeed {
    CR,
    LF,
    CRLF,
}

impl LineFeed {
    pub open spec fn spec_chars(self) -> Seq<char> {
        match self {
            LineFeed::LF => seq!['\n'],
            LineFeed::CRLF => seq!['\r', '\n'],
            LineFeed::CR => seq!['\r'],
        }
    }

    /// The platform's line ending: CRLF on Windows, LF elsewhere.
    pub fn platform_default(is_windows: bool) -> (r: LineFeed)
        ensures
            r == (if is_windows {
                LineFeed::CRLF
            } else {
                LineFeed::LF
            }),
    {
        if is_windows {
            LineFeed::CRLF
        } else {
            LineFeed::LF
        }
    }

    /// The chars of this line ending.
    pub fn to_string(&self) -> (s: String)
        ensures
            s@ == self.spec_chars(),
    {
        let mut s = String::new();
        match self {
            LineFeed::LF => {
                crate::rope_utils::push_char(&mut s, '\n');
            },
            LineFeed::CRLF => {
                crate::rope_utils::push_char(&mut s, '\r');
                crate::rope_utils::push_char(&mut s, '\n');
            },
            LineFeed::CR => {
                crate::rope_utils::push_char(&mut s, '\r');
            },
        }
        assert(s@ =~= self.spec_chars());
        s
    }
}

/// Indentation style and width of a document.
#[derive(Debug, Clone, Copy, PartialEq, Eq, Structural)]
pub enum Indentation {
    Tab(usize),
    Space(usize),
}

/// The decimal digits of `n`.
pub open spec fn decimal(n: nat) -> Seq<char>
    decreases n,
{
    if n < 10 {
        seq![digit_char(n)]
    } else {
        decimal(n / 10).push(digit_char(n % 10))
    }
}

pub open spec fn digit_char(d: nat) -> char {
    if d == 0 {
        '0'
    } else if d == 1 {
        '1'
    } else if d == 2 {
        '2'
    } else if d == 3 {
        '3'
    } else if d == 4 {
        '4'
    } else if d == 5 {
        '5'
    } else if d == 6 {
        '6'
    } else if d == 7 {
        '7'
    } else if d == 8 {
        '8'
    } else {
        '9'
    }
}

/// The digit char of `d`.
fn digit_of(d: usize) -> (c: char)
    requires
        d < 10,
    ensures
        c == digit_char(d as nat),
{
    if d == 0 {
        '0'
    } else if d == 1 {
        '1'
    } else if d == 2 {
        '2'
    } else if d == 3 {
        '3'
    } else if d == 4 {
        '4'
    } else if d == 5 {
        '5'
    } else if d == 6 {
        '6'
    } else if d == 7 {
        '7'
    } else if d == 8 {
        '8'
    } else {
        '9'
    }
}

/// The decimal digits of `n`, as `usize::to_string` writes them.
pub(crate) fn usize_to_string(n: usize) -> (s: String)
    ensures
        s@ == decimal(n as nat),
    decreases n,
{
    if n < 10 {
        let mut s = String::new();
        crate::rope_utils::push_char(&mut s, digit_of(n));
        assert(s@ =~= seq![digit_char(n as nat)]);
        s
    } else {
        let mut s = usize_to_string(n / 10);
        crate::rope_utils::push_char(&mut s, digit_of(n % 10));
        s
    }
}

impl Indentation {
    pub open spec fn spec_len(self) -> nat {
        match self {
            Indentation::Tab(i) => i as nat,
            Indentation::Space(i) => i as nat,
        }
    }

    pub open spec fn spec_to_string(self) -> Seq<char> {
        match self {
            Indentation::Tab(len) => seq!['T', 'a', 'b', ' ', '('] + decimal(len as nat) + seq![')'],
            Indentation::Space(len) => seq!['S', 'p', 'a', 'c', 'e', ' ', '('] + decimal(
                len as nat,
            ) + seq![')'],
        }
    }

    /// The width of one indentation level (the tab width for `Tab`).
    pub fn len(&self) -> (r: usize)
        ensures
            r == self.spec_len(),
    {
        match self {
            Indentation::Tab(i) => *i,
            Indentation::Space(i) => *i,
        }
    }

    /// "Tab (n)" or "Space (n)".
    pub fn to_string(&self) -> (s: String)
        ensures
            s@ == self.spec_to_string(),
    {
        let mut s = String::new();
        let (prefix, len) = match self {
            Indentation::Tab(len) => (0u8, *len),
            Indentation::Space(len) => (1u8, *len),
        };
        let ghost start: Seq<char>;
        if prefix == 0 {
            crate::rope_utils::push_char(&mut s, 'T');
            crate::rope_utils::push_char(&mut s, 'a');
            crate::rope_utils::push_char(&mut s, 'b');
            proof {
                start = seq!['T', 'a', 'b', ' ', '('];
            }
        } else {
            crate::rope_utils::push_char(&mut s, 'S');
            crate::rope_utils::push_char(&mut s, 'p');
            crate::rope_utils::push_char(&mut s, 'a');
            crate::rope_utils::push_char(&mut s, 'c');
            crate::rope_utils::push_char(&mut s, 'e');
            proof {
                start = seq!['S', 'p', 'a', 'c', 'e', ' ', '('];
            }
        }
        crate::rope_utils::push_char(&mut s, ' ');
        crate::rope_utils::push_char(&mut s, '(');
        assert(s@ =~= start);
        let n = usize_to_string(len);
        s.append(n.as_str());
        crate::rope_utils::push_char(&mut s, ')');
        assert(s@ =~= self.spec_to_string());
        s
    }
}

impl Default for Indentation {
    fn default() -> (r: Self)
        ensures
            r == Indentation::Space(4),
    {
        Indentation::Space(4)
    }
}

/// What is known of a document's file. The encoding is held by its name.
#[derive(Debug)]
pub struct FileInfo {
    pub encoding: String,
    pub bom: Option<Vec<u8>>,
    pub linefeed: LineFeed,
    pub indentation: Indentation,
    pub syntax: String,
}

impl FileInfo {
    /// The file information of a new document: UTF-8 without BOM, tabs of
    /// width 4, plain text, and the given line ending.
    pub fn new(linefeed: LineFeed) -> (r: FileInfo)
        ensures
            r.encoding@ == seq!['U', 'T', 'F', '-', '8'],
            r.bom.is_none(),
            r.linefeed == linefeed,
            r.indentation == Indentation::Tab(4),
            r.syntax@ == seq!['P', 'l', 'a', 'i', 'n', ' ', 'T', 'e', 'x', 't'],
    {
        let mut encoding = String::new();
        encoding.append("UTF-8");
        let mut syntax = String::new();
        syntax.append("Plain Text");
        proof {
            reveal_strlit("UTF-8");
            reveal_strlit("Plain Text");
        }
        assert(encoding@ =~= seq!['U', 'T', 'F', '-', '8']);
        assert(syntax@ =~= seq!['P', 'l', 'a', 'i', 'n', ' ', 'T', 'e', 'x', 't']);
        FileInfo {
            encoding,
            bom: None,
            linefeed,
            indentation: Indentation::Tab(4),
            syntax,
        }
    }

    /// A copy of this file information.
    pub fn duplicate(&self) -> (r: FileInfo)
        ensures
            r.encoding@ == self.encoding@,
            r.bom.is_some() == self.bom.is_some(),
            r.bom.is_some() ==> r.bom.unwrap()@ == self.bom.unwrap()@,
            r.linefeed == self.linefeed,
            r.indentation == self.indentation,
            r.syntax@ == self.syntax@,
    {
        let bom = match &self.bom {
            Some(b) => Some(copy_bytes(b)),
            None => None,
        };
        FileInfo {
            encoding: self.encoding.clone(),
            bom,
            linefeed: self.linefeed,
            indentation: self.indentation,
            syntax: self.syntax.clone(),
        }
    }

    /// Equal encodings, byte order marks, line endings, indentations and
    /// syntax names.
    pub fn same_as(&self, other: &FileInfo) -> (r: bool)
        ensures
            r == (self.encoding@ == other.encoding@ && self.bom.is_some() == other.bom.is_some()
                && (self.bom.is_some() ==> self.bom.unwrap()@ == other.bom.unwrap()@)
                && self.linefeed == other.linefeed && self.indentation == other.indentation
                && self.syntax@ == other.syntax@),
    {
        let bom_eq = match (&self.bom, &other.bom) {
            (Some(a), Some(b)) => bytes_eq(a, b),
            (None, None) => true,
            _ => false,
        };
        self.encoding == other.encoding && bom_eq && self.linefeed == other.linefeed
            && self.indentation == other.indentation && self.syntax == other.syntax
    }
}

fn copy_bytes(v: &Vec<u8>) -> (r: Vec<u8>)
    ensures
        r@ == v@,
{
    let mut r: Vec<u8> = Vec::new();
    for i in 0..v.len()
        invariant
            r@ == v@.take(i as int),
    {
        r.push(v[i]);
    }
    assert(v@.take(v@.len() as int) =~= v@);
    r
}

fn bytes_eq(a: &Vec<u8>, b: &Vec<u8>) -> (r: bool)
    ensures
        r == (a@ == b@),
{
    if a.len() != b.len() {
        return false;
    }
    for i in 0..a.len()
        invariant
            a@.len() == b@.len(),
            forall|k: int| 0 <= k < i ==> a@[k] == b@[k],
    {
        if a[i] != b[i] {
            return false;
        }
    }
    assert(a@ =~= b@);
    true
}

// ---------------------------------------------------------------------
// Line ending detection

/// The numbers of CR, LF and CRLF line endings in `s` from index `i`, a CR
/// consuming the char after it.
pub open spec fn linefeed_counts(s: Seq<char>, i: int) -> (nat, nat, nat)
    decreases s.len() - i,
{
    if i < 0 || i >= s.len() {
        (0, 0, 0)
    } else if s[i] == '\r' {
        if i + 1 < s.len() {
            let r = linefeed_counts(s, i + 2);
            if s[i + 1] == '\n' {
                (r.0, r.1, r.2 + 1)
            } else {
                (r.0 + 1, r.1, r.2)
            }
        } else {
            (0, 0, 0)
        }
    } else if s[i] == '\n' {
        let r = linefeed_counts(s, i + 1);
        (r.0, r.1 + 1, r.2)
    } else {
        linefeed_counts(s, i + 1)
    }
}

/// The line ending that the first 1000 chars of `t` use most: CR or LF when
/// it is strictly the most frequent, CRLF otherwise; `default` for an empty
/// text.
pub open spec fn spec_detect_linefeed(t: Seq<char>, default: LineFeed) -> LineFeed {
    if t.len() == 0 {
        default
    } else {
        let n = if t.len() < 1000 {
            t.len() as int
        } else {
            1000
        };
        let c = linefeed_counts(t.take(n), 0);
        if c.0 > c.2 && c.0 > c.1 {
            LineFeed::CR
        } else if c.1 > c.2 && c.1 > c.0 {
            LineFeed::LF
        } else {
            LineFeed::CRLF
        }
    }
}

/// The number of chars that line ending detection looks at.
pub open spec fn linefeed_window(t: Seq<char>) -> int {
    if t.len() < 1000 {
        t.len() as int
    } else {
        1000
    }
}

proof fn lemma_counts_without_cr(s: Seq<char>, i: int)
    requires
        0 <= i,
        forall|j: int| 0 <= j < s.len() ==> s[j] != '\r',
    ensures
        linefeed_counts(s, i).0 == 0,
        linefeed_counts(s, i).2 == 0,
    decreases s.len() - i,
{
    if i < s.len() {
        lemma_counts_without_cr(s, i + 1);
    }
}

proof fn lemma_counts_without_lf(s: Seq<char>, i: int)
    requires
        0 <= i,
        forall|j: int| 0 <= j < s.len() ==> s[j] != '\n',
    ensures
        linefeed_counts(s, i).1 == 0,
        linefeed_counts(s, i).2 == 0,
    decreases s.len() - i,
{
    if i < s.len() {
        lemma_counts_without_lf(s, i + 1);
        if i + 2 <= s.len() {
            lemma_counts_without_lf(s, i + 2);
        }
    }
}

proof fn lemma_counts_lf_seen(s: Seq<char>, i: int, k: int)
    requires
        0 <= i <= k < s.len(),
        s[k] == '\n',
        forall|j: int| 0 <= j < s.len() ==> s[j] != '\r',
    ensures
        linefeed_counts(s, i).1 >= 1,
    decreases k - i,
{
    if i < k {
        lemma_counts_lf_seen(s, i + 1, k);
    }
}

proof fn lemma_counts_cr_seen(s: Seq<char>, i: int, k: int)
    requires
        0 <= i <= k,
        k + 1 < s.len(),
        s[k] == '\r',
        forall|j: int| 0 <= j < s.len() ==> s[j] != '\n',
    ensures
        linefeed_counts(s, i).0 >= 1,
    decreases k - i,
{
    if i < k {
        if s[i] == '\r' {
            if i + 2 <= k {
                lemma_counts_cr_seen(s, i + 2, k);
            }
        } else {
            lemma_counts_cr_seen(s, i + 1, k);
        }
    }
}

/// The detected line ending is the one counted strictly most often in the
/// first 1000 chars: LF when LF endings outnumber both CR and CRLF endings,
/// CR when CR endings outnumber both others, CRLF when no kind leads.
pub proof fn lemma_detect_linefeed_majority(t: Seq<char>, default: LineFeed)
    requires
        t.len() > 0,
    ensures
        ({
            let c = linefeed_counts(t.take(linefeed_window(t)), 0);
            &&& c.1 > c.0 && c.1 > c.2 ==> spec_detect_linefeed(t, default) == LineFeed::LF
            &&& c.0 > c.1 && c.0 > c.2 ==> spec_detect_linefeed(t, default) == LineFeed::CR
            &&& c.2 >= c.0 && c.2 >= c.1 ==> spec_detect_linefeed(t, default) == LineFeed::CRLF
        }),
{
}

/// A text whose first 1000 chars break lines with '\n' alone (some '\n' and
/// no '\r') is detected as LF.
pub proof fn lemma_detect_linefeed_unix(t: Seq<char>, default: LineFeed, k: int)
    requires
        0 <= k < linefeed_window(t),
        t[k] == '\n',
        forall|j: int| 0 <= j < linefeed_window(t) ==> t[j] != '\r',
    ensures
        spec_detect_linefeed(t, default) == LineFeed::LF,
{
    let s = t.take(linefeed_window(t));
    lemma_counts_without_cr(s, 0);
    lemma_counts_lf_seen(s, 0, k);
    lemma_detect_linefeed_majority(t, default);
}

/// A text whose first 1000 chars break lines with '\r' alone (no '\n', and
/// some '\r' that is not the last of those chars) is detected as CR.
pub proof fn lemma_detect_linefeed_mac(t: Seq<char>, default: LineFeed, k: int)
    requires
        0 <= k,
        k + 1 < linefeed_window(t),
        t[k] == '\r',
        forall|j: int| 0 <= j < linefeed_window(t) ==> t[j] != '\n',
    ensures
        spec_detect_linefeed(t, default) == LineFeed::CR,
{
    let s = t.take(linefeed_window(t));
    lemma_counts_without_lf(s, 0);
    lemma_counts_cr_seen(s, 0, k);
    lemma_detect_linefeed_majority(t, default);
}

/// Detects the line ending of a text from its first 1000 chars; `default`
/// (the platform's line ending) for an empty text.
pub fn detect_linefeed(input: &Rope, default: LineFeed) -> (r: LineFeed)
    ensures
        r == spec_detect_linefeed(rope_text(*input), default),
{
    let all = chars_of(crate::text::rope_to_string(input).as_str());
    if all.len() == 0 {
        return default;
    }
    let n: usize = if all.len() < 1000 {
        all.len()
    } else {
        1000
    };
    let ghost s = all@.take(n as int);
    let mut cr: usize = 0;
    let mut lf: usize = 0;
    let mut crlf: usize = 0;
    let mut i: usize = 0;
    while i < n
        invariant
            n <= all@.len(),
            s == all@.take(n as int),
            i <= n + 1,
            cr + lf + crlf <= i,
            ({
                let r = linefeed_counts(s, i as int);
                let t = linefeed_counts(s, 0);
                t.0 == cr + r.0 && t.1 == lf + r.1 && t.2 == crlf + r.2
            }),
        decreases n + 1 - i,
    {
        let c = all[i];
        if c == '\r' {
            if i + 1 < n {
                if all[i + 1] == '\n' {
                    crlf = crlf + 1;
                } else {
                    cr = cr + 1;
                }
                i = i + 2;
            } else {
                i = n;
            }
        } else {
            if c == '\n' {
                lf = lf + 1;
            }
            i = i + 1;
        }
    }
    if cr > crlf && cr > lf {
        LineFeed::CR
    } else if lf > crlf && lf > cr {
        LineFeed::LF
    } else {
        LineFeed::CRLF
    }
}

// ---------------------------------------------------------------------
// Indentation detection

/// The first char of line `l`, if any.
pub open spec fn first_char_is(t: Seq<char>, l: int, c: char) -> bool {
    line_text(t, l).len() > 0 && line_text(t, l)[0] == c
}

/// The number of lines before line `n` whose first char is `c`.
pub open spec fn lines_starting_with(t: Seq<char>, n: int, c: char) -> nat
    decreases n,
{
    if n <= 0 {
        0
    } else {
        lines_starting_with(t, n - 1, c) + if first_char_is(t, n - 1, c) {
            1nat
        } else {
            0nat
        }
    }
}

/// The number of spaces that start line `l`.
pub open spec fn leading_spaces(t: Seq<char>, l: int) -> nat {
    run_forward(line_text(t, l), 0, RunKind::Exactly(' '))
}

/// The change of leading spaces from the line before line `l`.
pub open spec fn indent_step(t: Seq<char>, l: int) -> nat {
    let prev = if l <= 0 {
        0
    } else {
        leading_spaces(t, l - 1)
    };
    let w = leading_spaces(t, l);
    if w < prev {
        (prev - w) as nat
    } else {
        (w - prev) as nat
    }
}

/// The indent steps of the lines of `t`, in order.
pub open spec fn indent_steps(t: Seq<char>) -> Seq<nat> {
    Seq::new(line_count(t), |l: int| indent_step(t, l))
}

/// The number of occurrences of `k` in `s`.
pub open spec fn count_in(s: Seq<nat>, k: nat) -> nat
    decreases s.len(),
{
    if s.len() == 0 {
        0
    } else {
        count_in(s.drop_last(), k) + if s.last() == k {
            1nat
        } else {
            0nat
        }
    }
}

/// The result of indentation detection: tabs of width 4 when more lines
/// start with a tab than with a space; otherwise spaces of the width that
/// occurs most often (at least 2) as the change of leading spaces between
/// consecutive lines, ties broken either way, or 4 spaces when no such
/// change occurs.
pub open spec fn is_detected_indentation(t: Seq<char>, r: Indentation) -> bool {
    let n = line_count(t) as int;
    let steps = indent_steps(t);
    if lines_starting_with(t, n, '\t') > lines_starting_with(t, n, ' ') {
        r == Indentation::Tab(4)
    } else if forall|k: nat| k > 1 ==> #[trigger] count_in(steps, k) == 0 {
        r == Indentation::Space(4)
    } else {
        &&& r is Space
        &&& r->Space_0 > 1
        &&& count_in(steps, r->Space_0 as nat) > 0
        &&& forall|k: nat| k > 1 ==> #[trigger] count_in(steps, k) <= count_in(steps, r->Space_0 as nat)
    }
}

proof fn lemma_count_in_positive(s: Seq<nat>, k: nat)
    requires
        count_in(s, k) > 0,
    ensures
        exists|m: int| 0 <= m < s.len() && s[m] == k,
    decreases s.len(),
{
    if s.last() != k {
        lemma_count_in_positive(s.drop_last(), k);
        let m = choose|m: int| 0 <= m < s.drop_last().len() && s.drop_last()[m] == k;
        assert(s[m] == k);
    } else {
        assert(s[s.len() - 1] == k);
    }
}

proof fn lemma_count_in_bound(s: Seq<nat>, k: nat)
    ensures
        count_in(s, k) <= s.len(),
    decreases s.len(),
{
    if s.len() > 0 {
        lemma_count_in_bound(s.drop_last(), k);
    }
}

/// Tabs are detected only when more lines start with a tab than with a
/// space, and then as tabs of width 4; otherwise the indentation is spaces,
/// at least 2 wide, so a text in which no line starts with a tab (an empty
/// text among them) is indented with spaces.
pub proof fn lemma_detected_indentation_kind(t: Seq<char>, r: Indentation)
    requires
        is_detected_indentation(t, r),
    ensures
        ({
            let n = line_count(t) as int;
            &&& lines_starting_with(t, n, '\t') > lines_starting_with(t, n, ' ') ==> r == Indentation::Tab(4)
            &&& lines_starting_with(t, n, '\t') <= lines_starting_with(t, n, ' ') ==> (r is Space && r->Space_0 >= 2)
        }),
{
}

/// Detects the indentation of a text from the first chars and leading
/// spaces of its lines.
pub fn detect_indentation(input: &Rope) -> (r: Indentation)
    ensures
        is_detected_indentation(rope_text(*input), r),
{
    let ghost t = rope_text(*input);
    let n = rope_len_lines(input);
    let mut tab: usize = 0;
    let mut space: usize = 0;
    for l in 0..n
        invariant
            n == line_count(t),
            t == rope_text(*input),
            tab == lines_starting_with(t, l as int, '\t'),
            space == lines_starting_with(t, l as int, ' '),
            tab + space <= l,
    {
        let line = chars_of(rope_line(input, l).as_str());
        if line.len() > 0 {
            if line[0] == ' ' {
                space = space + 1;
            } else if line[0] == '\t' {
                tab = tab + 1;
            }
        }
    }
    if tab > space {
        return Indentation::Tab(4);
    }
    let ghost s = indent_steps(t);
    let mut indents: HashMap<usize, usize> = HashMap::new();
    let mut keys: Vec<usize> = Vec::new();
    let mut last: usize = 0;
    proof {
        assert(s.take(0) =~= Seq::<nat>::empty());
        assert(indents@ =~= indent_counts(s.take(0)));
    }
    for l in 0..n
        invariant
            n == line_count(t),
            t == rope_text(*input),
            s == indent_steps(t),
            l == 0 ==> last == 0,
            l > 0 ==> last == leading_spaces(t, l - 1),
            indents@ == indent_counts(s.take(l as int)),
            forall|j: int| 0 <= j < l ==> #[trigger] s[j] <= usize::MAX,
            forall|k: usize| indents@.contains_key(k) <==> keys@.contains(k),
    {
        let line = chars_of(rope_line(input, l).as_str());
        let width = count_leading_spaces(&line);
        let indent = if width < last {
            last - width
        } else {
            width - last
        };
        proof {
            assert(s[l as int] == indent as nat);
            assert(s.take(l + 1) =~= s.take(l as int).push(indent as nat));
            lemma_count_in_bound(s.take(l as int), indent as nat);
            lemma_indent_counts_push(s.take(l as int), indent);
        }
        let ghost keys_before = keys@;
        if indent > 1 {
            match indents.get(&indent) {
                Some(c) => {
                    let c = *c;
                    indents.insert(indent, c + 1);
                },
                None => {
                    keys.push(indent);
                    proof {
                        assert(keys@[keys@.len() - 1] == indent);
                    }
                    indents.insert(indent, 1);
                },
            }
        }
        proof {
            assert forall|k: usize| indents@.contains_key(k) <==> keys@.contains(k) by {
                if keys@.contains(k) {
                    let m = choose|m: int| 0 <= m < keys@.len() && keys@[m] == k;
                    if m < keys_before.len() {
                        assert(keys_before[m] == k);
                    }
                }
                if keys_before.contains(k) {
                    let m = choose|m: int| 0 <= m < keys_before.len() && keys_before[m] == k;
                    assert(keys@[m] == k);
                }
            }
        }
        last = width;
    }
    proof {
        assert(s.take(n as int) =~= s);
    }
    let mut best: Option<(usize, usize)> = None;
    let mut i: usize = 0;
    while i < keys.len()
        invariant
            i <= keys@.len(),
            indents@ == indent_counts(s),
            forall|k: usize| indents@.contains_key(k) <==> keys@.contains(k),
            match best {
                Some(b) => indents@.contains_key(b.0) && indents@[b.0] == b.1
                    && forall|j: int| 0 <= j < i ==> indents@[#[trigger] keys@[j]] <= b.1,
                None => i == 0,
            },
        decreases keys@.len() - i,
    {
        let k = keys[i];
        assert(keys@.contains(k));
        let c = match indents.get(&k) {
            Some(c) => *c,
            None => 0,
        };
        best = match best {
            Some(b) => if c >= b.1 {
                Some((k, c))
            } else {
                Some(b)
            },
            None => Some((k, c)),
        };
        i = i + 1;
    }
    match best {
        None => {
            proof {
                assert forall|k: nat| k > 1 implies #[trigger] count_in(s, k) == 0 by {
                    if count_in(s, k) > 0 {
                        lemma_count_in_positive(s, k);
                        let j = choose|j: int| 0 <= j < s.len() && s[j] == k;
                        assert(s[j] <= usize::MAX);
                        assert(indents@.contains_key(k as usize));
                        assert(keys@.contains(k as usize));
                    }
                }
            }
            Indentation::Space(4)
        },
        Some(b) => {
            proof {
                assert forall|k: nat| k > 1 implies #[trigger] count_in(s, k) <= count_in(s, b.0 as nat) by {
                    if count_in(s, k) > 0 {
                        lemma_count_in_positive(s, k);
                        let j = choose|j: int| 0 <= j < s.len() && s[j] == k;
                        assert(s[j] <= usize::MAX);
                        assert(indents@.contains_key(k as usize));
                        assert(keys@.contains(k as usize));
                        let m = choose|m: int| 0 <= m < keys@.len() && keys@[m] == k as usize;
                        assert(indents@[keys@[m]] <= b.1);
                        lemma_count_in_bound(s, k);
                        lemma_count_in_bound(s, b.0 as nat);
                        assert(indents@[k as usize] == count_in(s, k) as usize);
                    }
                }
            }
            Indentation::Space(b.0)
        },
    }
}

/// The number of times each change of leading spaces greater than one
/// occurs in `s`.
pub open spec fn indent_counts(s: Seq<nat>) -> Map<usize, usize> {
    Map::new(|k: usize| k > 1 && count_in(s, k as nat) > 0, |k: usize| count_in(s, k as nat) as usize)
}

proof fn lemma_indent_counts_push(p: Seq<nat>, x: usize)
    requires
        count_in(p, x as nat) < usize::MAX,
    ensures
        indent_counts(p.push(x as nat)) == (if x > 1 {
            indent_counts(p).insert(x, (count_in(p, x as nat) + 1) as usize)
        } else {
            indent_counts(p)
        }),
{
    assert(p.push(x as nat).drop_last() =~= p);
    assert forall|k: usize| #[trigger] count_in(p.push(x as nat), k as nat) == count_in(p, k as nat) + (if k
        == x {
        1nat
    } else {
        0nat
    }) by {
        assert(p.push(x as nat).drop_last() =~= p);
    }
    if x > 1 {
        assert(indent_counts(p.push(x as nat)) =~= indent_counts(p).insert(x, (count_in(p, x as nat) + 1) as usize));
    } else {
        assert(indent_counts(p.push(x as nat)) =~= indent_counts(p));
    }
}

fn count_leading_spaces(line: &Vec<char>) -> (r: usize)
    ensures
        r == run_forward(line@, 0, RunKind::Exactly(' ')),
{
    let mut j: usize = 0;
    while j < line.len() && line[j] == ' '
        invariant
            j <= line@.len(),
            run_forward(line@, 0, RunKind::Exactly(' ')) == j + run_forward(
                line@,
                j as int,
                RunKind::Exactly(' '),
            ),
        decreases line@.len() - j,
    {
        j = j + 1;
    }
    j
}

// ---------------------------------------------------------------------
// Encodings

/// The name of the encoding that chardetng guesses for `bytes` (UTF-8
/// allowed, no top-level domain hint).
pub uninterp spec fn guessed_encoding(bytes: Seq<u8>) -> Seq<char>;

/// The text that the encoding named `name` decodes `bytes` to, a byte order
/// mark removed.
pub uninterp spec fn decoded_text(name: Seq<char>, bytes: Seq<u8>) -> Seq<char>;

/// The bytes that the encoding named `name` encodes `text` to.
pub uninterp spec fn encoded_bytes(name: Seq<char>, text: Seq<char>) -> Seq<u8>;

pub open spec fn has_utf8_bom(b: Seq<u8>) -> bool {
    b.len() >= 3 && b[0] == 0xEFu8 && b[1] == 0xBBu8 && b[2] == 0xBFu8
}

pub open spec fn has_utf16le_bom(b: Seq<u8>) -> bool {
    b.len() >= 2 && b[0] == 0xFFu8 && b[1] == 0xFEu8
}

pub open spec fn has_utf16be_bom(b: Seq<u8>) -> bool {
    b.len() >= 2 && b[0] == 0xFEu8 && b[1] == 0xFFu8
}

/// `Encoding::for_bom`: the encoding (by name) and the length of the byte
/// order mark that `bytes` start with: UTF-8 with 3 bytes, UTF-16LE or
/// UTF-16BE with 2; `None` without a byte order mark.
#[verifier::external_body]
pub(crate) fn sniff_bom(bytes: &[u8]) -> (r: Option<(String, usize)>)
    ensures
        r.is_some() == (has_utf8_bom(bytes@) || has_utf16le_bom(bytes@) || has_utf16be_bom(
            bytes@,
        )),
        has_utf8_bom(bytes@) ==> r.unwrap().0@ == seq!['U', 'T', 'F', '-', '8'] && r.unwrap().1
            == 3,
        has_utf16le_bom(bytes@) ==> r.unwrap().0@ == seq!['U', 'T', 'F', '-', '1', '6', 'L', 'E']
            && r.unwrap().1 == 2,
        has_utf16be_bom(bytes@) ==> r.unwrap().0@ == seq!['U', 'T', 'F', '-', '1', '6', 'B', 'E']
            && r.unwrap().1 == 2,
{
    encoding_rs::Encoding::for_bom(bytes).map(|(e, n)| (e.name().to_string(), n))
}

/// The names of the encodings of encoding_rs (`Encoding::name`); each is
/// also one of its labels.
pub open spec fn encoding_names() -> Seq<Seq<char>> {
    seq![
        "Big5"@,
        "EUC-JP"@,
        "EUC-KR"@,
        "GBK"@,
        "IBM866"@,
        "ISO-2022-JP"@,
        "ISO-8859-10"@,
        "ISO-8859-13"@,
        "ISO-8859-14"@,
        "ISO-8859-15"@,
        "ISO-8859-16"@,
        "ISO-8859-2"@,
        "ISO-8859-3"@,
        "ISO-8859-4"@,
        "ISO-8859-5"@,
        "ISO-8859-6"@,
        "ISO-8859-7"@,
        "ISO-8859-8"@,
        "ISO-8859-8-I"@,
        "KOI8-R"@,
        "KOI8-U"@,
        "Shift_JIS"@,
        "UTF-16BE"@,
        "UTF-16LE"@,
        "UTF-8"@,
        "gb18030"@,
        "macintosh"@,
        "replacement"@,
        "windows-1250"@,
        "windows-1251"@,
        "windows-1252"@,
        "windows-1253"@,
        "windows-1254"@,
        "windows-1255"@,
        "windows-1256"@,
        "windows-1257"@,
        "windows-1258"@,
        "windows-874"@,
        "x-mac-cyrillic"@,
        "x-user-defined"@
    ]
}

pub open spec fn is_encoding_name(n: Seq<char>) -> bool {
    encoding_names().contains(n)
}

/// Whether `name` is the name of an encoding.
pub fn known_encoding(name: &str) -> (r: bool)
    ensures
        r == is_encoding_name(name@),
{
    let names: &[&str] = &[
            "Big5",
            "EUC-JP",
            "EUC-KR",
            "GBK",
            "IBM866",
            "ISO-2022-JP",
            "ISO-8859-10",
            "ISO-8859-13",
            "ISO-8859-14",
            "ISO-8859-15",
            "ISO-8859-16",
            "ISO-8859-2",
            "ISO-8859-3",
            "ISO-8859-4",
            "ISO-8859-5",
            "ISO-8859-6",
            "ISO-8859-7",
            "ISO-8859-8",
            "ISO-8859-8-I",
            "KOI8-R",
            "KOI8-U",
            "Shift_JIS",
            "UTF-16BE",
            "UTF-16LE",
            "UTF-8",
            "gb18030",
            "macintosh",
            "replacement",
            "windows-1250",
            "windows-1251",
            "windows-1252",
            "windows-1253",
            "windows-1254",
            "windows-1255",
            "windows-1256",
            "windows-1257",
            "windows-1258",
            "windows-874",
            "x-mac-cyrillic",
            "x-user-defined"
        ];
    let ghost v = encoding_names();
    assert(names@.len() == v.len());
    for i in 0..names.len()
        invariant
            v == encoding_names(),
            names@.len() == v.len(),
            forall|k: int| 0 <= k < names@.len() ==> (#[trigger] names@[k])@ == v[k],
            forall|k: int| 0 <= k < i ==> v[k] != name@,
    {
        if crate::rope_utils::str_eq(names[i], name) {
            assert(v[i as int] == name@);
            return true;
        }
    }
    false
}

/// `chardetng::EncodingDetector`: fed all of `bytes`, the name of the
/// encoding it guesses (UTF-8 allowed), which is one of encoding_rs.
#[verifier::external_body]
pub(crate) fn guess_encoding(bytes: &[u8]) -> (r: String)
    ensures
        r@ == guessed_encoding(bytes@),
        is_encoding_name(r@),
{
    let mut detector = chardetng::EncodingDetector::new();
    detector.feed(bytes, true);
    detector.guess(None, true).name().to_string()
}

/// `Encoding::decode_with_bom_removal` for the encoding named `name` (found
/// with `Encoding::for_label`, which knows every name as a label). In
/// UTF-8 a leading byte order mark is removed and valid UTF-8 decodes to
/// the chars it encodes.
#[verifier::external_body]
pub(crate) fn decode(name: &str, bytes: &[u8]) -> (r: String)
    requires
        is_encoding_name(name@),
    ensures
        r@ == decoded_text(name@, bytes@),
        name@ == seq!['U', 'T', 'F', '-', '8'] && has_utf8_bom(bytes@) && vstd::utf8::valid_utf8(bytes@.skip(3))
            ==> r@ == vstd::utf8::decode_utf8(bytes@.skip(3)),
        name@ == seq!['U', 'T', 'F', '-', '8'] && !has_utf8_bom(bytes@) && vstd::utf8::valid_utf8(bytes@)
            ==> r@ == vstd::utf8::decode_utf8(bytes@),
{
    encoding_rs::Encoding::for_label(name.as_bytes()).unwrap().decode_with_bom_removal(bytes).0.into_owned()
}

/// `Encoding::encode` for the encoding named `name` (found with
/// `Encoding::for_label`). In UTF-8 the text's own bytes come out.
#[verifier::external_body]
pub(crate) fn encode(name: &str, text: &str) -> (r: Vec<u8>)
    requires
        is_encoding_name(name@),
    ensures
        r@ == encoded_bytes(name@, text@),
        name@ == seq!['U', 'T', 'F', '-', '8'] ==> r@ == vstd::utf8::encode_utf8(text@),
{
    encoding_rs::Encoding::for_label(name.as_bytes()).unwrap().encode(text).0.into_owned()
}

/// The UTF-16 code units of a char.
pub open spec fn utf16_units(c: char) -> Seq<u16> {
    if (c as u32) < 0x10000 {
        seq![(c as u32) as u16]
    } else {
        let v = (c as u32 - 0x10000) as int;
        seq![(0xD800 + v / 1024) as u16, (0xDC00 + v % 1024) as u16]
    }
}

/// The UTF-16 encoding of a sequence of chars.
pub open spec fn utf16_of(s: Seq<char>) -> Seq<u16>
    decreases s.len(),
{
    if s.len() == 0 {
        Seq::empty()
    } else {
        utf16_of(s.drop_last()) + utf16_units(s.last())
    }
}

/// The UTF-16 code units of `s` (`str::encode_utf16`).
pub fn encode_utf16(s: &str) -> (r: Vec<u16>)
    ensures
        r@ == utf16_of(s@),
{
    let c = crate::rope_utils::chars_of(s);
    let mut r: Vec<u16> = Vec::new();
    for i in 0..c.len()
        invariant
            c@ == s@,
            r@ == utf16_of(c@.take(i as int)),
    {
        proof {
            assert(c@.take(i + 1).drop_last() =~= c@.take(i as int));
        }
        let ghost before = r@;
        let v = c[i] as u32;
        if v < 0x10000 {
            r.push(v as u16);
        } else {
            let w: u32 = v - 0x10000;
            proof {
                vstd::utf8::char_is_scalar(c@[i as int]);
            }
            let hi: u32 = 0xD800 + w / 1024;
            let lo: u32 = 0xDC00 + w % 1024;
            r.push(hi as u16);
            r.push(lo as u16);
        }
        assert(r@ =~= before + utf16_units(c@[i as int]));
    }
    assert(c@.take(c@.len() as int) =~= c@);
    r
}

/// The bytes of UTF-16 code units, low byte first when `little_endian`.
pub open spec fn utf16_bytes(units: Seq<u16>, little_endian: bool) -> Seq<u8>
    decreases units.len(),
{
    if units.len() == 0 {
        Seq::empty()
    } else {
        let u = units.last();
        let lo = (u & 0xff) as u8;
        let hi = (u >> 8) as u8;
        utf16_bytes(units.drop_last(), little_endian) + if little_endian {
            seq![lo, hi]
        } else {
            seq![hi, lo]
        }
    }
}

/// The bytes of `units`, each unit low byte first when `little_endian`
/// (`u16::to_le_bytes`), high byte first otherwise (`u16::to_be_bytes`).
pub fn units_to_bytes(units: &Vec<u16>, little_endian: bool) -> (r: Vec<u8>)
    ensures
        r@ == utf16_bytes(units@, little_endian),
{
    let mut r: Vec<u8> = Vec::new();
    for i in 0..units.len()
        invariant
            r@ == utf16_bytes(units@.take(i as int), little_endian),
    {
        let u = units[i];
        let lo = (u & 0xff) as u8;
        let hi = (u >> 8) as u8;
        if little_endian {
            r.push(lo);
            r.push(hi);
        } else {
            r.push(hi);
            r.push(lo);
        }
        proof {
            assert(units@.take(i + 1).drop_last() =~= units@.take(i as int));
            let e = utf16_bytes(units@.take(i as int), little_endian);
            assert(r@ =~= e + if little_endian {
                seq![lo, hi]
            } else {
                seq![hi, lo]
            });
        }
    }
    assert(units@.take(units@.len() as int) =~= units@);
    r
}

} // verus!
