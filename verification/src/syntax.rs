//! Syntax highlighting of a document's lines with syntect, resumable from
//! the parser states cached every 16 lines.
use vstd::prelude::*;
use ropey::Rope;
use syntect::highlighting::{HighlightState, Highlighter, RangedHighlightIterator};
use syntect::parsing::{ParseState, ParsingError, ScopeStack, ScopeStackOp, SyntaxReference, SyntaxSet};
use crate::doc_view::{get_line_info, shown_line};
use crate::rope_utils::{is_char_offset, utf8_width, visible_width};
use crate::text::{line_count, line_text, rope_len_lines, rope_text};
use crate::widgets::Color;

verus! {

#[verifier::external_type_specification]
#[verifier::external_body]
pub struct ExSyntaxReference(SyntaxReference);

#[verifier::external_type_specification]
#[verifier::external_body]
pub struct ExSyntaxSet(SyntaxSet);

#[verifier::external_type_specification]
#[verifier::external_body]
pub struct ExParseState(ParseState);

#[verifier::external_type_specification]
#[verifier::external_body]
pub struct ExHighlightState(HighlightState);

#[verifier::external_type_specification]
#[verifier::external_body]
pub struct ExHighlighter<'a>(Highlighter<'a>);

#[verifier::external_type_specification]
#[verifier::external_body]
pub struct ExScopeStackOp(ScopeStackOp);

#[verifier::external_type_specification]
#[verifier::external_body]
pub struct ExParsingError(ParsingError);

/// The colours and font style (bold 1, underline 2, italic 4) of a span.
#[derive(Debug, Clone, Copy, PartialEq, Eq, Structural)]
pub struct TextStyle {
    pub foreground: Color,
    pub background: Color,
    pub font_style: u8,
}

/// A style and the byte range of the line that it covers.
#[derive(Debug, Clone, Copy, PartialEq, Eq, Structural)]
pub struct SpanStyle {
    pub style: TextStyle,
    pub start: usize,
    pub end: usize,
}

impl SpanStyle {
    pub fn new(style: TextStyle, start: usize, end: usize) -> (r: Self)
        ensures
            r == (SpanStyle { style, start, end }),
    {
        SpanStyle { style, start, end }
    }
}

/// The styled spans of one line.
#[derive(Debug)]
pub struct StyledLine {
    pub styles: Vec<SpanStyle>,
}

impl StyledLine {
    pub fn new(styles: Vec<SpanStyle>) -> (r: Self)
        ensures
            r.styles@ == styles@,
    {
        StyledLine { styles }
    }

    /// A copy of the line.
    pub fn copy(&self) -> (r: Self)
        ensures
            r.styles@ == self.styles@,
    {
        let mut styles: Vec<SpanStyle> = Vec::new();
        for i in 0..self.styles.len()
            invariant
                styles@ == self.styles@.take(i as int),
        {
            styles.push(self.styles[i]);
            assert(styles@ =~= self.styles@.take(i + 1));
        }
        assert(styles@ =~= self.styles@);
        StyledLine { styles }
    }
}

/// The styled lines of a document, by line index.
#[derive(Debug)]
pub struct StyledLinesCache {
    pub lines: Vec<StyledLine>,
}

impl StyledLinesCache {
    pub fn new() -> (r: Self)
        ensures
            r.lines@.len() == 0,
    {
        StyledLinesCache { lines: Vec::new() }
    }

    /// A copy of the styled line `line_idx`, if it has been highlighted.
    pub fn get(&self, line_idx: usize) -> (r: Option<StyledLine>)
        ensures
            match r {
                Some(l) => line_idx < self.lines@.len() && l.styles@ == self.lines@[line_idx as int].styles@,
                None => line_idx >= self.lines@.len(),
            },
    {
        if line_idx < self.lines.len() {
            Some(self.lines[line_idx].copy())
        } else {
            None
        }
    }
}

/// The syntax `syntax` can be parsed with the syntax set `set`: it was
/// taken from that set (or the set extends the one it was taken from), as
/// `ParseState::parse_line` asks.
pub uninterp spec fn syntax_in_set(syntax: SyntaxReference, set: SyntaxSet) -> bool;

/// The parser state `s` can be moved on with the syntax set `set`: it was
/// made for a syntax that can be parsed with `set`.
pub uninterp spec fn parse_state_in_set(s: ParseState, set: SyntaxSet) -> bool;

/// What `SyntaxSet::find_syntax_by_name` gives for `name` in `set`.
pub uninterp spec fn syntax_named(set: SyntaxSet, name: Seq<char>) -> Option<SyntaxReference>;

/// An optional reference to a syntax as an optional syntax.
pub open spec fn opt_syntax(r: Option<&SyntaxReference>) -> Option<SyntaxReference> {
    match r {
        Some(s) => Some(*s),
        None => None,
    }
}

/// What `ParseState::new` gives for `syntax`.
pub uninterp spec fn fresh_parse_state(syntax: SyntaxReference) -> ParseState;

/// What `HighlightState::new` gives for `highlighter` and an empty scope
/// stack.
pub uninterp spec fn fresh_highlight_state(highlighter: Highlighter<'static>) -> HighlightState;

/// The scope changes that `ParseState::parse_line` gives for `line` from
/// the parser state `s` with the syntax set `set`; `None` where it fails.
pub uninterp spec fn parsed_ops(s: ParseState, set: SyntaxSet, line: Seq<char>) -> Option<Seq<(usize, ScopeStackOp)>>;

/// The parser state that `ParseState::parse_line` leaves after `line`
/// with the syntax set `set`.
pub uninterp spec fn parse_state_after(s: ParseState, set: SyntaxSet, line: Seq<char>) -> ParseState;

/// The styled byte ranges that `RangedHighlightIterator` yields for
/// `line` and its scope changes `ops`, from the highlighting state `s`.
pub uninterp spec fn highlighted_spans(
    s: HighlightState,
    highlighter: Highlighter<'static>,
    ops: Seq<(usize, ScopeStackOp)>,
    line: Seq<char>,
) -> Seq<SpanStyle>;

/// The highlighting state that `RangedHighlightIterator` leaves once it
/// has yielded every range of `line`.
pub uninterp spec fn highlight_state_after(
    s: HighlightState,
    highlighter: Highlighter<'static>,
    ops: Seq<(usize, ScopeStackOp)>,
    line: Seq<char>,
) -> HighlightState;

/// The scope changes `ops` fall within `line`, between its chars, in order.
pub open spec fn ops_fit_line(ops: Seq<(usize, ScopeStackOp)>, line: Seq<char>) -> bool {
    forall|k: int|
        0 <= k < ops.len() ==> {
            &&& #[trigger] ops[k].0 <= utf8_width(line)
            &&& is_char_offset(line, ops[k].0 as int)
            &&& k > 0 ==> ops[k - 1].0 <= ops[k].0
        }
}

/// `SyntaxSet::find_syntax_by_name`: the syntax of `set` named `name`, if
/// there is one; it is one of the set's syntaxes.
#[verifier::external_body]
fn find_syntax_by_name<'a>(set: &'a SyntaxSet, name: &str) -> (r: Option<&'a SyntaxReference>)
    ensures
        opt_syntax(r) == syntax_named(*set, name@),
        r matches Some(s) ==> syntax_in_set(*s, *set),
{
    set.find_syntax_by_name(name)
}

/// The syntax of `set` named `name`, if there is one (the last one of
/// that name); it can be parsed with `set`.
pub fn syntax_by_name<'a>(set: &'a SyntaxSet, name: &str) -> (r: Option<&'a SyntaxReference>)
    ensures
        opt_syntax(r) == syntax_named(*set, name@),
        r matches Some(s) ==> syntax_in_set(*s, *set),
{
    find_syntax_by_name(set, name)
}

/// `ParseState::new`: the parser state at the start of a text in `syntax`,
/// which refers to the set of `syntax`.
#[verifier::external_body]
fn new_parse_state(syntax: &SyntaxReference) -> (r: ParseState)
    ensures
        r == fresh_parse_state(*syntax),
        forall|set: SyntaxSet| syntax_in_set(*syntax, set) ==> #[trigger] parse_state_in_set(r, set),
{
    ParseState::new(syntax)
}

/// `HighlightState::new` with an empty `ScopeStack`: the highlighting
/// state at the start of a text.
#[verifier::external_body]
fn new_highlight_state(highlighter: &Highlighter<'static>) -> (r: HighlightState)
    ensures
        r == fresh_highlight_state(*highlighter),
{
    HighlightState::new(highlighter, ScopeStack::new())
}

/// `ParseState::clone` (derived): an equal state.
#[verifier::external_body]
fn clone_parse_state(s: &ParseState) -> (r: ParseState)
    ensures
        r == *s,
{
    s.clone()
}

/// `HighlightState::clone` (derived): an equal state.
#[verifier::external_body]
fn clone_highlight_state(s: &HighlightState) -> (r: HighlightState)
    ensures
        r == *s,
{
    s.clone()
}

/// `ParseState::parse_line`: the scope changes of `line`, the parser
/// state moved past it. The crate asks that `syntax_set` be the set of the
/// state's syntax; its changes fall within the line, between chars, in
/// order.
#[verifier::external_body]
fn parse_line(state: &mut ParseState, line: &str, syntax_set: &SyntaxSet) -> (r: Result<
    Vec<(usize, ScopeStackOp)>,
    ParsingError,
>)
    requires
        parse_state_in_set(*old(state), *syntax_set),
    ensures
        r is Ok <==> parsed_ops(*old(state), *syntax_set, line@) is Some,
        r matches Ok(ops) ==> parsed_ops(*old(state), *syntax_set, line@) == Some(ops@) && ops_fit_line(ops@, line@),
        *final(state) == parse_state_after(*old(state), *syntax_set, line@),
        forall|set: SyntaxSet| parse_state_in_set(*old(state), set) ==> #[trigger] parse_state_in_set(*final(state), set),
{
    state.parse_line(line, syntax_set)
}

/// `RangedHighlightIterator`: the styled byte ranges of `line` given its
/// scope changes, the highlighting state moved past it.
#[verifier::external_body]
fn highlight_ranges(
    state: &mut HighlightState,
    ops: &Vec<(usize, ScopeStackOp)>,
    line: &str,
    highlighter: &Highlighter<'static>,
) -> (r: Vec<SpanStyle>)
    requires
        ops_fit_line(ops@, line@),
    ensures
        r@ == highlighted_spans(*old(state), *highlighter, ops@, line@),
        *final(state) == highlight_state_after(*old(state), *highlighter, ops@, line@),
{
    RangedHighlightIterator::new(state, ops, line, highlighter).map(
        |(s, _, range)|
            SpanStyle {
                style: TextStyle {
                    foreground: Color { r: s.foreground.r, g: s.foreground.g, b: s.foreground.b, a: s.foreground.a },
                    background: Color { r: s.background.r, g: s.background.g, b: s.background.b, a: s.background.a },
                    font_style: s.font_style.bits(),
                },
                start: range.start,
                end: range.end,
            },
    ).collect()
}

/// The parser and highlighting states after `lines`, one after the other,
/// from the states `ps` and `hs`: a line that fails to parse leaves the
/// highlighting state as it was.
pub open spec fn run_lines(
    ps: ParseState,
    hs: HighlightState,
    set: SyntaxSet,
    hl: Highlighter<'static>,
    lines: Seq<Seq<char>>,
) -> (ParseState, HighlightState)
    decreases lines.len(),
{
    if lines.len() == 0 {
        (ps, hs)
    } else {
        let (p, h) = run_lines(ps, hs, set, hl, lines.drop_last());
        let l = lines.last();
        match parsed_ops(p, set, l) {
            Some(ops) => (parse_state_after(p, set, l), highlight_state_after(h, hl, ops, l)),
            None => (parse_state_after(p, set, l), h),
        }
    }
}

/// The styled spans of the last of `lines`, highlighted after the lines
/// before it from the states `ps` and `hs`; none where it fails to parse.
pub open spec fn last_line_spans(
    ps: ParseState,
    hs: HighlightState,
    set: SyntaxSet,
    hl: Highlighter<'static>,
    lines: Seq<Seq<char>>,
) -> Seq<SpanStyle> {
    let (p, h) = run_lines(ps, hs, set, hl, lines.drop_last());
    let l = lines.last();
    match parsed_ops(p, set, l) {
        Some(ops) => highlighted_spans(h, hl, ops, l),
        None => Seq::empty(),
    }
}

/// Running lines in two parts is running them all.
pub proof fn lemma_run_lines_append(
    ps: ParseState,
    hs: HighlightState,
    set: SyntaxSet,
    hl: Highlighter<'static>,
    a: Seq<Seq<char>>,
    b: Seq<Seq<char>>,
)
    ensures
        run_lines(run_lines(ps, hs, set, hl, a).0, run_lines(ps, hs, set, hl, a).1, set, hl, b) == run_lines(ps, hs, set, hl, a + b),
    decreases b.len(),
{
    if b.len() == 0 {
        assert(a + b =~= a);
    } else {
        lemma_run_lines_append(ps, hs, set, hl, a, b.drop_last());
        assert((a + b).drop_last() =~= a + b.drop_last());
        assert((a + b).last() == b.last());
    }
}

/// The shown lines `[a, i)` of `t`, tabs `tab_len` wide.
pub open spec fn shown_lines(t: Seq<char>, tab_len: usize, a: int, i: int) -> Seq<Seq<char>> {
    Seq::new((i - a) as nat, |j: int| shown_line(line_text(t, a + j), tab_len as nat))
}

/// The parser and highlighting states cached after every 16th line, and
/// the highlighter of the theme.
pub struct StateCache {
    pub states: Vec<(ParseState, HighlightState)>,
    pub highlighter: Highlighter<'static>,
}

/// The index of the first cached state kept by an update from line
/// `start`: the one before its block of 16 lines, no more than there are.
pub open spec fn kept_states(states_len: usize, start: usize) -> usize {
    let s = start >> 4usize;
    if s < states_len {
        s
    } else {
        states_len
    }
}

/// The first line highlighted by an update from line `start`.
pub open spec fn first_updated_line(states_len: usize, start: usize) -> usize {
    kept_states(states_len, start) << 4usize
}

/// The line after the last one highlighted by an update up to line `end`:
/// the end of the block of 16 lines that holds `end`, within the text.
pub open spec fn end_updated_line(end: usize, n_lines: usize) -> usize {
    let e = if end < n_lines {
        end
    } else {
        n_lines
    };
    let b = (((e >> 4usize) + 1) as usize) << 4usize;
    if b < n_lines {
        b
    } else {
        n_lines
    }
}

/// The number of lines in `[a, b)` after which a state is cached: those
/// whose index ends in fifteen (the last of a block of 16).
pub open spec fn checkpoints(a: int, b: int) -> nat
    decreases b - a,
{
    if b <= a {
        0
    } else {
        checkpoints(a, b - 1) + if ((b - 1) as usize) & 15usize == 15usize {
            1nat
        } else {
            0nat
        }
    }
}

/// Line `i` of `t` can be shown with tabs of width `tab_len`.
pub open spec fn line_showable(t: Seq<char>, i: int, tab_len: usize) -> bool {
    &&& line_text(t, i).contains('\t') ==> tab_len > 0
    &&& visible_width(line_text(t, i), tab_len as nat) <= usize::MAX
}

/// The place in the cache where the styles of line `i` go, when the cache
/// held `old_len` lines and the update starts at line `first`: over the
/// line's own entry, or appended after the entries there were.
pub open spec fn cache_slot(old_len: int, first: int, i: int) -> int {
    if i < old_len {
        i
    } else {
        old_len + i - (if first > old_len {
            first
        } else {
            old_len
        })
    }
}

/// The length of the cache after an update of lines `[a, b)` of a cache of
/// `old_len` lines.
pub open spec fn cache_len_after(old_len: int, a: int, b: int) -> int {
    let m = if a > old_len {
        a
    } else {
        old_len
    };
    if b > m {
        old_len + b - m
    } else {
        old_len
    }
}

impl StateCache {
    pub fn new(highlighter: Highlighter<'static>) -> (r: Self)
        ensures
            r.states@.len() == 0,
            r.highlighter == highlighter,
    {
        StateCache { states: Vec::new(), highlighter }
    }

    /// The highlighter of another theme, where the theme was found; the
    /// cached states are kept.
    pub fn change_theme(&mut self, highlighter: Option<Highlighter<'static>>)
        ensures
            final(self).states@ == old(self).states@,
            final(self).highlighter == (match highlighter {
                Some(h) => h,
                None => old(self).highlighter,
            }),
    {
        match highlighter {
            Some(h) => self.highlighter = h,
            None => {},
        }
    }

    /// Highlights the lines of `rope` from the block of 16 lines that holds
    /// `start` (or the first block without a cached state) to the end of the
    /// block that holds `end`, each line shown with tabs of width `tab_len`,
    /// going on from the states cached before that block (fresh states
    /// for `syntax` at the first block). The states cached for later blocks
    /// are dropped, and a state is cached after each line that ends a block.
    /// The styles of a line overwrite its entry in `cache`, or are appended
    /// when the cache is shorter. Where the kept state is the one reached
    /// from the start of the text, the styles are those of highlighting the
    /// text from its start.
    pub fn update_range(
        &mut self,
        cache: &mut StyledLinesCache,
        syntax: &SyntaxReference,
        syntax_set: &SyntaxSet,
        rope: &Rope,
        start: usize,
        end: usize,
        tab_len: usize,
    )
        requires
            syntax_in_set(*syntax, *syntax_set),
            kept_states(old(self).states.len(), start) > 0 ==> parse_state_in_set(
                old(self).states@[kept_states(old(self).states.len(), start) - 1].0,
                *syntax_set,
            ),
            forall|i: int|
                first_updated_line(old(self).states.len(), start) <= i < end_updated_line(
                    end,
                    line_count(rope_text(*rope)) as usize,
                ) ==> #[trigger] line_showable(rope_text(*rope), i, tab_len),
        ensures
            final(self).highlighter == old(self).highlighter,
            range_updated(
                old(self).states@,
                final(self).states@,
                old(cache).lines@,
                final(cache).lines@,
                *syntax,
                *syntax_set,
                old(self).highlighter,
                rope_text(*rope),
                start,
                end,
                tab_len,
            ),
    {
        let ghost t = rope_text(*rope);
        let ghost hl = self.highlighter;
        let n_lines = rope_len_lines(rope);
        let ghost old_states = self.states@;
        let ghost old_len = self.states.len();
        let ghost old_cache = cache.lines@;
        let ghost n = cache.lines@.len() as int;
        let s0 = start >> 4usize;
        let k = if s0 < self.states.len() {
            s0
        } else {
            self.states.len()
        };
        let e = if end < n_lines {
            end
        } else {
            n_lines
        };
        let e0 = e >> 4usize;
        assert(e0 == e / 16) by (bit_vector)
            requires
                e0 == e >> 4usize,
        ;
        let e1 = e0 + 1;
        let b0 = e1 << 4usize;
        let b = if b0 < n_lines {
            b0
        } else {
            n_lines
        };
        let a = k << 4usize;
        self.states.truncate(k);
        let ghost st = start_states(old_states, k as int, *syntax, hl);
        let (mut ps, mut hs) = if self.states.len() > 0 {
            let last = self.states.len() - 1;
            (clone_parse_state(&self.states[last].0), clone_highlight_state(&self.states[last].1))
        } else {
            (new_parse_state(syntax), new_highlight_state(&self.highlighter))
        };
        assert(shown_lines(t, tab_len, a as int, a as int) =~= Seq::<Seq<char>>::empty());
        let mut i = a;
        while i < b
            invariant
                t == rope_text(*rope),
                hl == self.highlighter,
                hl == old(self).highlighter,
                n_lines == line_count(t),
                a <= i,
                i == a || i <= b,
                b <= n_lines,
                old_len == old_states.len(),
                k <= old_states.len(),
                a == first_updated_line(old_len, start),
                b == end_updated_line(end, n_lines),
                k == kept_states(old_len, start),
                st == start_states(old_states, k as int, *syntax, hl),
                forall|j: int| a <= j < b ==> #[trigger] line_showable(t, j, tab_len),
                (ps, hs) == run_lines(st.0, st.1, *syntax_set, hl, shown_lines(t, tab_len, a as int, i as int)),
                parse_state_in_set(ps, *syntax_set),
                self.states@.len() == k + checkpoints(a as int, i as int),
                forall|j: int| 0 <= j < k ==> self.states@[j] == old_states[j],
                forall|j: int| k <= j < self.states@.len() ==> parse_state_in_set(#[trigger] self.states@[j].0, *syntax_set),
                forall|j: int|
                    a <= j < i && ((j as usize) & 15usize) == 15usize ==> self.states@[#[trigger] checkpoint_index(
                        k as int,
                        a as int,
                        j,
                    )] == run_lines(st.0, st.1, *syntax_set, hl, through(t, tab_len, a as int, j)),
                n == old_cache.len(),
                cache.lines@.len() == cache_len_after(n, a as int, i as int),
                forall|p: int| 0 <= p < n && (p < a || p >= i) ==> cache.lines@[p] == old_cache[p],
                forall|j: int|
                    a <= j < i ==> cache.lines@[#[trigger] cache_slot(n, a as int, j)].styles@ == last_line_spans(
                        st.0,
                        st.1,
                        *syntax_set,
                        hl,
                        through(t, tab_len, a as int, j),
                    ),
            decreases b - i,
        {
            assert(line_showable(t, i as int, tab_len));
            let line = get_line_info(rope, i, tab_len);
            let ghost lines_i = through(t, tab_len, a as int, i as int);
            proof {
                assert(lines_i.drop_last() =~= shown_lines(t, tab_len, a as int, i as int));
                assert(lines_i.last() == line@);
            }
            let ops = parse_line(&mut ps, line.as_str(), syntax_set);
            let h = match ops {
                Ok(ops) => highlight_ranges(&mut hs, &ops, line.as_str(), &self.highlighter),
                Err(_) => Vec::new(),
            };
            proof {
                assert(shown_lines(t, tab_len, a as int, i + 1) =~= lines_i);
                assert(h@ == last_line_spans(st.0, st.1, *syntax_set, hl, lines_i));
            }
            let ghost len_before = self.states@.len();
            if i & 15usize == 15usize {
                self.states.push((clone_parse_state(&ps), clone_highlight_state(&hs)));
            }
            let ghost slot = cache_slot(n, a as int, i as int);
            if i >= cache.lines.len() {
                cache.lines.push(StyledLine::new(h));
            } else {
                cache.lines.set(i, StyledLine::new(h));
            }
            proof {
                assert(cache.lines@[slot].styles@ == h@);
                assert forall|j: int| a <= j < i + 1 implies cache.lines@[#[trigger] cache_slot(n, a as int, j)].styles@
                    == last_line_spans(st.0, st.1, *syntax_set, hl, through(t, tab_len, a as int, j)) by {
                    if j < i {
                        assert(cache_slot(n, a as int, j) < slot);
                    }
                }
                assert forall|j: int|
                    a <= j < i + 1 && ((j as usize) & 15usize) == 15usize implies self.states@[#[trigger] checkpoint_index(
                        k as int,
                        a as int,
                        j,
                    )] == run_lines(st.0, st.1, *syntax_set, hl, through(t, tab_len, a as int, j)) by {
                    if j < i {
                        lemma_checkpoints_mono(a as int, j + 1, i as int);
                    }
                }
            }
            i = i + 1;
        }
        proof {
            lemma_from_start(
                old_states,
                self.states@,
                old_cache,
                cache.lines@,
                *syntax,
                *syntax_set,
                hl,
                t,
                start,
                end,
                tab_len,
            );
        }
    }
}

/// The states that an update keeping `k` cached states goes on from: the
/// last one kept, or fresh states for `syntax` when none is.
pub open spec fn start_states(
    old_states: Seq<(ParseState, HighlightState)>,
    k: int,
    syntax: SyntaxReference,
    hl: Highlighter<'static>,
) -> (ParseState, HighlightState) {
    if k > 0 {
        old_states[k - 1]
    } else {
        (fresh_parse_state(syntax), fresh_highlight_state(hl))
    }
}

/// The shown lines `[a, i]` of `t`.
pub open spec fn through(t: Seq<char>, tab_len: usize, a: int, i: int) -> Seq<Seq<char>> {
    shown_lines(t, tab_len, a, i + 1)
}

/// Where the state cached after line `i` goes when an update keeps `k`
/// states and starts at line `a`.
pub open spec fn checkpoint_index(k: int, a: int, i: int) -> int {
    k + checkpoints(a, i + 1) - 1
}

/// What an update of the lines from `start` to `end` of the text `t`
/// leaves: the cached states and styled lines before and after it.
pub open spec fn range_updated(
    old_states: Seq<(ParseState, HighlightState)>,
    new_states: Seq<(ParseState, HighlightState)>,
    old_lines: Seq<StyledLine>,
    new_lines: Seq<StyledLine>,
    syntax: SyntaxReference,
    syntax_set: SyntaxSet,
    hl: Highlighter<'static>,
    t: Seq<char>,
    start: usize,
    end: usize,
    tab_len: usize,
) -> bool {
    let k = kept_states(old_states.len() as usize, start) as int;
    let a = first_updated_line(old_states.len() as usize, start) as int;
    let b = end_updated_line(end, line_count(t) as usize) as int;
    let n = old_lines.len() as int;
    let st = start_states(old_states, k, syntax, hl);
    let fresh = (fresh_parse_state(syntax), fresh_highlight_state(hl));
    &&& new_states.len() == k + checkpoints(a, b)
    &&& forall|j: int| 0 <= j < k ==> new_states[j] == old_states[j]
    &&& forall|j: int| k <= j < new_states.len() ==> parse_state_in_set(#[trigger] new_states[j].0, syntax_set)
    &&& forall|i: int|
        a <= i < b && ((i as usize) & 15usize) == 15usize ==> new_states[#[trigger] checkpoint_index(k, a, i)]
            == run_lines(st.0, st.1, syntax_set, hl, through(t, tab_len, a, i))
    &&& new_lines.len() == cache_len_after(n, a, b)
    &&& forall|p: int| 0 <= p < n && (p < a || p >= b) ==> new_lines[p] == old_lines[p]
    &&& forall|i: int|
        a <= i < b ==> new_lines[#[trigger] cache_slot(n, a, i)].styles@ == last_line_spans(
            st.0,
            st.1,
            syntax_set,
            hl,
            through(t, tab_len, a, i),
        )
    &&& (k == 0 || old_states[k - 1] == run_lines(fresh.0, fresh.1, syntax_set, hl, shown_lines(t, tab_len, 0, a)))
        ==> forall|i: int|
        a <= i < b ==> new_lines[#[trigger] cache_slot(n, a, i)].styles@ == last_line_spans(
            fresh.0,
            fresh.1,
            syntax_set,
            hl,
            through(t, tab_len, 0, i),
        )
}

proof fn lemma_checkpoints_mono(a: int, i: int, j: int)
    requires
        i <= j,
    ensures
        checkpoints(a, i) <= checkpoints(a, j),
    decreases j - i,
{
    if i < j {
        lemma_checkpoints_mono(a, i, j - 1);
    }
}

/// An update that goes on from the state reached from the start of the
/// text gives the styles of highlighting the text from its start.
proof fn lemma_from_start(
    old_states: Seq<(ParseState, HighlightState)>,
    new_states: Seq<(ParseState, HighlightState)>,
    old_lines: Seq<StyledLine>,
    new_lines: Seq<StyledLine>,
    syntax: SyntaxReference,
    syntax_set: SyntaxSet,
    hl: Highlighter<'static>,
    t: Seq<char>,
    start: usize,
    end: usize,
    tab_len: usize,
)
    requires
        ({
            let k = kept_states(old_states.len() as usize, start) as int;
            let a = first_updated_line(old_states.len() as usize, start) as int;
            let b = end_updated_line(end, line_count(t) as usize) as int;
            let n = old_lines.len() as int;
            let st = start_states(old_states, k, syntax, hl);
            &&& forall|i: int|
                a <= i < b ==> new_lines[#[trigger] cache_slot(n, a, i)].styles@ == last_line_spans(
                    st.0,
                    st.1,
                    syntax_set,
                    hl,
                    through(t, tab_len, a, i),
                )
        }),
    ensures
        ({
            let k = kept_states(old_states.len() as usize, start) as int;
            let a = first_updated_line(old_states.len() as usize, start) as int;
            let b = end_updated_line(end, line_count(t) as usize) as int;
            let n = old_lines.len() as int;
            let fresh = (fresh_parse_state(syntax), fresh_highlight_state(hl));
            (k == 0 || old_states[k - 1] == run_lines(fresh.0, fresh.1, syntax_set, hl, shown_lines(t, tab_len, 0, a)))
                ==> forall|i: int|
                a <= i < b ==> new_lines[#[trigger] cache_slot(n, a, i)].styles@ == last_line_spans(
                    fresh.0,
                    fresh.1,
                    syntax_set,
                    hl,
                    through(t, tab_len, 0, i),
                )
        }),
{
    let ks = kept_states(old_states.len() as usize, start);
    let k = ks as int;
    let a = first_updated_line(old_states.len() as usize, start) as int;
    let b = end_updated_line(end, line_count(t) as usize) as int;
    let n = old_lines.len() as int;
    let st = start_states(old_states, k, syntax, hl);
    let fresh = (fresh_parse_state(syntax), fresh_highlight_state(hl));
    if k == 0 || old_states[k - 1] == run_lines(fresh.0, fresh.1, syntax_set, hl, shown_lines(t, tab_len, 0, a)) {
        if k == 0 {
            assert(0usize << 4usize == 0usize) by (bit_vector);
            assert(a == 0);
            assert(shown_lines(t, tab_len, 0, 0) =~= Seq::<Seq<char>>::empty());
        }
        assert(st == run_lines(fresh.0, fresh.1, syntax_set, hl, shown_lines(t, tab_len, 0, a)));
        assert forall|i: int|
            a <= i < b implies new_lines[#[trigger] cache_slot(n, a, i)].styles@ == last_line_spans(
                fresh.0,
                fresh.1,
                syntax_set,
                hl,
                through(t, tab_len, 0, i),
            ) by {
            let pre = shown_lines(t, tab_len, 0, a);
            let mid = shown_lines(t, tab_len, a, i);
            lemma_run_lines_append(fresh.0, fresh.1, syntax_set, hl, pre, mid);
            assert(through(t, tab_len, a, i).drop_last() =~= mid);
            assert(through(t, tab_len, 0, i).drop_last() =~= pre + mid);
            assert(through(t, tab_len, 0, i).last() == through(t, tab_len, a, i).last());
        }
    }
}

/// The highlighting of one document in progress: its text, where the next
/// chunk of lines starts and how many lines it holds.
pub struct HighlighterState<'a> {
    pub doc_id: usize,
    pub syntax: &'a SyntaxReference,
    pub syntax_set: &'a SyntaxSet,
    pub state_cache: StateCache,
    pub current_index: usize,
    pub chunk_len: usize,
    pub rope: Rope,
    pub lines_cache: StyledLinesCache,
    pub tab_len: usize,
}

impl<'a> HighlighterState<'a> {
    /// The syntax can be parsed with the syntax set, and so can the cached
    /// parser states be moved on with it.
    pub open spec fn wf(self) -> bool {
        &&& syntax_in_set(*self.syntax, *self.syntax_set)
        &&& forall|j: int|
            0 <= j < self.state_cache.states@.len() ==> parse_state_in_set(
                #[trigger] self.state_cache.states@[j].0,
                *self.syntax_set,
            )
    }

    /// The highlighting of document `doc_id`, not started: an empty text,
    /// a first chunk of 100 lines, tabs 4 wide.
    pub fn new(
        doc_id: usize,
        syntax: &'a SyntaxReference,
        syntax_set: &'a SyntaxSet,
        highlighter: Highlighter<'static>,
    ) -> (r: Self)
        requires
            syntax_in_set(*syntax, *syntax_set),
        ensures
            r.wf(),
            r.doc_id == doc_id,
            r.syntax == syntax,
            r.syntax_set == syntax_set,
            r.state_cache.states@.len() == 0,
            r.state_cache.highlighter == highlighter,
            r.current_index == 0,
            r.chunk_len == 100,
            rope_text(r.rope) == Seq::<char>::empty(),
            r.lines_cache.lines@.len() == 0,
            r.tab_len == 4,
    {
        HighlighterState {
            doc_id,
            syntax,
            syntax_set,
            state_cache: StateCache::new(highlighter),
            current_index: 0,
            chunk_len: 100,
            rope: crate::text::rope_new(),
            lines_cache: StyledLinesCache::new(),
            tab_len: 4,
        }
    }

    /// Highlights the next chunk of lines with `StateCache::update_range`,
    /// then moves past it; later chunks are 1000 lines long.
    pub fn update_chunk(&mut self)
        requires
            old(self).wf(),
            old(self).current_index + old(self).chunk_len <= usize::MAX,
            forall|i: int|
                first_updated_line(old(self).state_cache.states.len(), old(self).current_index) <= i
                    < end_updated_line(
                    (old(self).current_index + old(self).chunk_len) as usize,
                    line_count(rope_text(old(self).rope)) as usize,
                ) ==> #[trigger] line_showable(rope_text(old(self).rope), i, old(self).tab_len),
        ensures
            final(self).wf(),
            final(self).current_index == old(self).current_index + old(self).chunk_len,
            final(self).chunk_len == 1000,
            final(self).doc_id == old(self).doc_id,
            final(self).syntax == old(self).syntax,
            final(self).syntax_set == old(self).syntax_set,
            final(self).rope == old(self).rope,
            final(self).tab_len == old(self).tab_len,
            final(self).state_cache.highlighter == old(self).state_cache.highlighter,
            range_updated(
                old(self).state_cache.states@,
                final(self).state_cache.states@,
                old(self).lines_cache.lines@,
                final(self).lines_cache.lines@,
                *old(self).syntax,
                *old(self).syntax_set,
                old(self).state_cache.highlighter,
                rope_text(old(self).rope),
                old(self).current_index,
                (old(self).current_index + old(self).chunk_len) as usize,
                old(self).tab_len,
            ),
    {
        let end = self.current_index + self.chunk_len;
        self.state_cache.update_range(
            &mut self.lines_cache,
            self.syntax,
            self.syntax_set,
            &self.rope,
            self.current_index,
            end,
            self.tab_len,
        );
        self.current_index = end;
        self.chunk_len = 1000;
    }
}

} // verus!
