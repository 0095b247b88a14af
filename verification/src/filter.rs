//! A list of strings filtered and ranked by a fuzzy pattern, with a
//! selected entry that moves cyclically.
use vstd::prelude::*;

verus! {

broadcast use vstd::seq_lib::to_multiset_insert, vstd::seq_lib::to_multiset_build;

/// The score of the best fuzzy match of `pattern` in `text`, or `None`
/// where `pattern` does not match (`sublime_fuzzy::best_match`).
pub uninterp spec fn fuzzy_match_score(pattern: Seq<char>, text: Seq<char>) -> Option<isize>;

/// `sublime_fuzzy::best_match(pattern, text)` and the score of the match.
/// Its documentation gives that an empty text never matches.
#[verifier::external_body]
fn best_match_score(pattern: &str, text: &str) -> (r: Option<isize>)
    ensures
        r == fuzzy_match_score(pattern@, text@),
        text@.len() == 0 ==> r is None,
{
    sublime_fuzzy::best_match(pattern, text).map(|m| m.score())
}

/// One entry of a filtered list: its place in the full list, its text, and
/// its score against the current pattern.
#[derive(Debug)]
pub struct FilterItem {
    pub index: usize,
    pub score: isize,
    pub text: String,
    pub excluded: bool,
}

impl FilterItem {
    /// A copy of this entry.
    pub fn duplicate(&self) -> (r: FilterItem)
        ensures
            r == *self,
    {
        FilterItem {
            index: self.index,
            score: self.score,
            text: self.text.clone(),
            excluded: self.excluded,
        }
    }
}

/// `a` comes before `b` in a ranked list: a higher score first, the place
/// in the full list among equal scores.
pub open spec fn ranks_before(a: FilterItem, b: FilterItem) -> bool {
    a.score > b.score || (a.score == b.score && a.index < b.index)
}

/// `r` holds the entries of `s`, ranked.
pub open spec fn is_ranking_of(r: Seq<FilterItem>, s: Seq<FilterItem>) -> bool {
    &&& r.to_multiset() == s.to_multiset()
    &&& forall|i: int, j: int| 0 <= i < j < r.len() ==> ranks_before(#[trigger] r[i], #[trigger] r[j])
}

/// The places in the full list rise along `s`.
pub open spec fn indices_rising(s: Seq<FilterItem>) -> bool {
    forall|i: int, j: int| 0 <= i < j < s.len() ==> (#[trigger] s[i]).index < (#[trigger] s[j]).index
}

/// The entry `it` scored against `pattern`.
pub open spec fn scored(it: FilterItem, pattern: Seq<char>) -> FilterItem {
    match fuzzy_match_score(pattern, it.text@) {
        Some(s) => FilterItem { index: it.index, score: s, text: it.text, excluded: false },
        None => FilterItem { index: it.index, score: 0, text: it.text, excluded: true },
    }
}

/// The entries of `s` that are not left out, in order.
pub open spec fn kept(s: Seq<FilterItem>) -> Seq<FilterItem>
    decreases s.len(),
{
    if s.len() == 0 {
        s
    } else if !s.last().excluded {
        kept(s.drop_last()).push(s.last())
    } else {
        kept(s.drop_last())
    }
}

/// The fresh entries of `texts`: each at its place, with score 0.
pub open spec fn fresh_items(texts: Seq<String>) -> Seq<FilterItem> {
    Seq::new(
        texts.len(),
        |i: int| FilterItem { index: i as usize, score: 0, text: texts[i], excluded: false },
    )
}

/// The selected place after one step down a list of `n` entries.
pub open spec fn next_idx(i: int, n: int) -> int {
    (i + 1) % n
}

/// The selected place after one step up a list of `n` entries.
pub open spec fn prev_idx(i: int, n: int) -> int {
    (i + n - 1) % n
}

/// A list of entries with the ones that match the current pattern, ranked,
/// and a selected place among those.
#[derive(Debug)]
pub struct Filter {
    pub items: Vec<FilterItem>,
    pub initial_selected_idx: usize,
    pub selected_idx: Option<usize>,
    pub filtered_items: Vec<FilterItem>,
}

proof fn lemma_kept_rising(s: Seq<FilterItem>)
    requires
        indices_rising(s),
    ensures
        indices_rising(kept(s)),
        kept(s).len() <= s.len(),
        forall|k: int| 0 <= k < kept(s).len() ==> exists|j: int| 0 <= j < s.len() && #[trigger] kept(s)[k] == s[j],
    decreases s.len(),
{
    if s.len() > 0 {
        let d = s.drop_last();
        assert(indices_rising(d)) by {
            assert forall|i: int, j: int| 0 <= i < j < d.len() implies (#[trigger] d[i]).index < (#[trigger] d[j]).index by {
                assert(d[i] == s[i] && d[j] == s[j]);
            }
        }
        lemma_kept_rising(d);
        let kd = kept(d);
        if !s.last().excluded {
            assert forall|k: int| 0 <= k < kd.len() implies (#[trigger] kd[k]).index < s.last().index by {
                let j = choose|j: int| 0 <= j < d.len() && kd[k] == d[j];
                assert(d[j] == s[j]);
                assert(s[j].index < s[s.len() - 1].index);
            }
            assert forall|k: int| 0 <= k < kept(s).len() implies exists|j: int| 0 <= j < s.len() && #[trigger] kept(s)[k] == s[j] by {
                if k < kd.len() {
                    let j = choose|j: int| 0 <= j < d.len() && kd[k] == d[j];
                    assert(kept(s)[k] == s[j]);
                } else {
                    assert(kept(s)[k] == s[s.len() - 1]);
                }
            }
        } else {
            assert forall|k: int| 0 <= k < kept(s).len() implies exists|j: int| 0 <= j < s.len() && #[trigger] kept(s)[k] == s[j] by {
                let j = choose|j: int| 0 <= j < d.len() && kd[k] == d[j];
                assert(kept(s)[k] == s[j]);
            }
        }
    }
}

/// The entries of `v` ranked: by score, highest first, and by place among
/// equal scores.
fn rank(v: Vec<FilterItem>) -> (r: Vec<FilterItem>)
    requires
        indices_rising(v@),
    ensures
        is_ranking_of(r@, v@),
{
    let mut r: Vec<FilterItem> = Vec::new();
    let mut rest = v;
    let ghost all = rest@;
    let n = rest.len();
    let ghost done: Seq<FilterItem> = Seq::empty();
    while rest.len() > 0
        invariant
            indices_rising(all),
            n == all.len(),
            rest@.len() + done.len() == n,
            done =~= all.take(done.len() as int),
            rest@ =~= all.skip(done.len() as int),
            r@.to_multiset() == done.to_multiset(),
            forall|a: int, b: int| 0 <= a < b < r@.len() ==> ranks_before(#[trigger] r@[a], #[trigger] r@[b]),
            forall|a: int| 0 <= a < r@.len() ==> exists|k: int| 0 <= k < done.len() && #[trigger] r@[a] == done[k],
        decreases rest@.len(),
    {
        let x = rest.remove(0);
        proof {
            assert(x == all[done.len() as int]);
        }
        let mut p: usize = 0;
        while p < r.len() && !(x.score > r[p].score || (x.score == r[p].score && x.index < r[p].index))
            invariant
                p <= r@.len(),
                forall|k: int| 0 <= k < p ==> !ranks_before(x, #[trigger] r@[k]),
            decreases r@.len() - p,
        {
            p += 1;
        }
        proof {
            assert forall|k: int| 0 <= k < r@.len() implies (#[trigger] r@[k]).index < x.index by {
                let j = choose|j: int| 0 <= j < done.len() && r@[k] == done[j];
                assert(done[j] == all[j]);
            }
        }
        let ghost before = r@;
        r.insert(p, x);
        proof {
            assert forall|a: int, b: int| 0 <= a < b < r@.len() implies ranks_before(#[trigger] r@[a], #[trigger] r@[b]) by {
                if a < p && b == p {
                    assert(!ranks_before(x, before[a]));
                } else if a == p && b > p {
                    if p < before.len() {
                        assert(ranks_before(x, before[p as int]));
                        if b - 1 > p {
                            assert(ranks_before(before[p as int], before[b - 1]));
                        }
                    }
                } else if a < p && b > p {
                    assert(r@[a] == before[a] && r@[b] == before[b - 1]);
                } else if b < p {
                    assert(r@[a] == before[a] && r@[b] == before[b]);
                } else {
                    assert(r@[a] == before[a - 1] && r@[b] == before[b - 1]);
                }
            }
            let nd = done.push(x);
            assert(nd =~= all.take(nd.len() as int));
            assert forall|a: int| 0 <= a < r@.len() implies exists|k: int| 0 <= k < nd.len() && #[trigger] r@[a] == nd[k] by {
                if a < p {
                    let k = choose|k: int| 0 <= k < done.len() && before[a] == done[k];
                    assert(r@[a] == nd[k]);
                } else if a == p {
                    assert(r@[a] == nd[done.len() as int]);
                } else {
                    let k = choose|k: int| 0 <= k < done.len() && before[a - 1] == done[k];
                    assert(r@[a] == nd[k]);
                }
            }
            done = nd;
        }
    }
    assert(done =~= all);
    r
}

impl Filter {
    /// The entries keep their places, and a selected place stands in a
    /// list that is not empty.
    pub open spec fn wf(self) -> bool {
        &&& forall|i: int| 0 <= i < self.items@.len() ==> (#[trigger] self.items@[i]).index == i
        &&& self.selected_idx is Some ==> self.filtered_items@.len() > 0
        &&& self.filtered_items@.len() <= self.items@.len()
    }

    /// What a filter made of `texts`, `pattern` and `initial_selected_idx`
    /// holds: the place selected first is at most the last place; with an
    /// empty pattern every entry is shown in its place, the first place
    /// selected; with another the entries are matched against it.
    pub open spec fn created(self, texts: Seq<String>, pattern: Seq<char>, initial_selected_idx: usize) -> bool {
        &&& self.wf()
        &&& self.initial_selected_idx == (if initial_selected_idx < texts.len() {
            initial_selected_idx as int
        } else if texts.len() == 0 {
            0
        } else {
            texts.len() - 1
        })
        &&& pattern.len() == 0 ==> {
            &&& self.items@ == fresh_items(texts)
            &&& self.filtered_items@ == fresh_items(texts)
            &&& self.selected_idx == (if texts.len() == 0 {
                None
            } else {
                Some(self.initial_selected_idx)
            })
        }
        &&& pattern.len() > 0 ==> self.matches_pattern(fresh_items(texts), pattern)
    }

    /// The entries of `texts`, filtered by `pattern`, with the place
    /// `initial_selected_idx` (at most the last place) selected.
    pub fn new(texts: Vec<String>, pattern: &str, initial_selected_idx: usize) -> (r: Filter)
        ensures
            r.created(texts@, pattern@, initial_selected_idx),
    {
        let n = texts.len();
        let mut items: Vec<FilterItem> = Vec::new();
        let mut rest = texts;
        let ghost all = rest@;
        let mut i: usize = 0;
        while rest.len() > 0
            invariant
                n == all.len(),
                i + rest@.len() == n,
                rest@ =~= all.skip(i as int),
                items@ =~= fresh_items(all).take(i as int),
            decreases rest@.len(),
        {
            let t = rest.remove(0);
            items.push(FilterItem { index: i, score: 0, text: t, excluded: false });
            i += 1;
        }
        assert(items@ =~= fresh_items(all));
        let initial = if n == 0 {
            0
        } else if initial_selected_idx < n {
            initial_selected_idx
        } else {
            n - 1
        };
        let selected_idx = if n == 0 {
            None
        } else {
            Some(initial)
        };
        let mut filtered_items: Vec<FilterItem> = Vec::new();
        let mut k: usize = 0;
        while k < items.len()
            invariant
                k <= items@.len(),
                filtered_items@ =~= items@.take(k as int),
            decreases items@.len() - k,
        {
            filtered_items.push(items[k].duplicate());
            k += 1;
        }
        let mut f = Filter { items, initial_selected_idx: initial, selected_idx, filtered_items };
        if !pattern.is_empty() {
            f.set_pattern(pattern);
        }
        f
    }

    /// What the state holds once the entries `base` were matched against
    /// `pattern`: the scored entries, the kept ones ranked, and the initial
    /// place selected where that many entries are kept.
    pub open spec fn matches_pattern(self, base: Seq<FilterItem>, pattern: Seq<char>) -> bool {
        let s = base.map_values(|it: FilterItem| scored(it, pattern));
        &&& self.items@ == s
        &&& is_ranking_of(self.filtered_items@, kept(s))
        &&& self.selected_idx == (if self.initial_selected_idx < kept(s).len() {
            Some(self.initial_selected_idx)
        } else {
            None
        })
    }

    /// The pattern became `pattern`. An empty pattern shows every entry in
    /// its place and keeps the selection; another scores every entry,
    /// keeps those that match, ranked, and selects the initial place where
    /// that many are kept.
    pub fn set_pattern(&mut self, pattern: &str)
        requires
            old(self).wf(),
        ensures
            final(self).wf(),
            final(self).initial_selected_idx == old(self).initial_selected_idx,
            pattern@.len() == 0 ==> {
                &&& final(self).items@ == old(self).items@
                &&& final(self).filtered_items@ == old(self).items@
                &&& final(self).selected_idx == old(self).selected_idx
            },
            pattern@.len() > 0 ==> final(self).matches_pattern(old(self).items@, pattern@),
    {
        if pattern.is_empty() {
            let mut filtered_items: Vec<FilterItem> = Vec::new();
            let mut k: usize = 0;
            while k < self.items.len()
                invariant
                    k <= self.items@.len(),
                    filtered_items@ =~= self.items@.take(k as int),
                decreases self.items@.len() - k,
            {
                filtered_items.push(self.items[k].duplicate());
                k += 1;
            }
            assert(filtered_items@ =~= self.items@);
            proof {
                if self.selected_idx is Some {
                    assert(self.filtered_items@.len() > 0);
                }
            }
            self.filtered_items = filtered_items;
            return ;
        }
        let ghost base = self.items@;
        let ghost init = self.initial_selected_idx;
        let mut k: usize = 0;
        while k < self.items.len()
            invariant
                self.initial_selected_idx == init,
                base.len() == self.items@.len(),
                k <= self.items@.len(),
                forall|j: int| 0 <= j < base.len() ==> (#[trigger] base[j]).index == j,
                forall|j: int| 0 <= j < k ==> #[trigger] self.items@[j] == scored(base[j], pattern@),
                forall|j: int| k <= j < base.len() ==> #[trigger] self.items@[j] == base[j],
            decreases self.items@.len() - k,
        {
            let m = best_match_score(pattern, self.items[k].text.as_str());
            let it = self.items[k].duplicate();
            let updated = match m {
                Some(s) => FilterItem { index: it.index, score: s, text: it.text, excluded: false },
                None => FilterItem { index: it.index, score: 0, text: it.text, excluded: true },
            };
            self.items.set(k, updated);
            k += 1;
        }
        let ghost s = base.map_values(|it: FilterItem| scored(it, pattern@));
        assert(self.items@ =~= s);
        let mut kept_items: Vec<FilterItem> = Vec::new();
        let mut j: usize = 0;
        while j < self.items.len()
            invariant
                self.items@ == s,
                j <= s.len(),
                kept_items@ =~= kept(s.take(j as int)),
            decreases s.len() - j,
        {
            proof {
                assert(s.take(j + 1).drop_last() =~= s.take(j as int));
            }
            if !self.items[j].excluded {
                kept_items.push(self.items[j].duplicate());
            }
            j += 1;
        }
        assert(s.take(s.len() as int) =~= s);
        proof {
            assert(indices_rising(s)) by {
                assert forall|a: int, b: int| 0 <= a < b < s.len() implies (#[trigger] s[a]).index < (#[trigger] s[b]).index by {
                    assert(s[a].index == base[a].index);
                    assert(s[b].index == base[b].index);
                }
            }
            lemma_kept_rising(s);
        }
        let count = kept_items.len();
        self.selected_idx = if self.initial_selected_idx < count {
            Some(self.initial_selected_idx)
        } else {
            None
        };
        self.filtered_items = rank(kept_items);
        proof {
            self.filtered_items@.to_multiset_ensures();
            kept(s).to_multiset_ensures();
        }
    }

    /// The entry at the selected place, if there is one.
    pub fn selected_item(&self) -> (r: Option<FilterItem>)
        ensures
            r == (match self.selected_idx {
                Some(i) => if i < self.filtered_items@.len() {
                    Some(self.filtered_items@[i as int])
                } else {
                    None
                },
                None => None,
            }),
    {
        match self.selected_idx {
            Some(i) => if i < self.filtered_items.len() {
                Some(self.filtered_items[i].duplicate())
            } else {
                None
            },
            None => None,
        }
    }

    /// Selects the next place, after the last one the first.
    pub fn next(&mut self)
        requires
            old(self).wf(),
        ensures
            final(self).wf(),
            final(self).items@ == old(self).items@,
            final(self).filtered_items@ == old(self).filtered_items@,
            final(self).initial_selected_idx == old(self).initial_selected_idx,
            final(self).selected_idx == (match old(self).selected_idx {
                Some(i) => Some(next_idx(i as int, old(self).filtered_items@.len() as int) as usize),
                None => None,
            }),
    {
        match self.selected_idx {
            None => {},
            Some(i) => {
                let n = self.filtered_items.len();
                let j = if i < n - 1 {
                    (i + 1) % n
                } else {
                    ((i % n) + 1) % n
                };
                proof {
                    assert(((i % n) + 1) % (n as int) == (i + 1) % (n as int)) by (nonlinear_arith)
                        requires
                            n > 0,
                    ;
                }
                self.selected_idx = Some(j);
            },
        }
    }

    /// Selects the previous place, before the first one the last.
    pub fn prev(&mut self)
        requires
            old(self).wf(),
        ensures
            final(self).wf(),
            final(self).items@ == old(self).items@,
            final(self).filtered_items@ == old(self).filtered_items@,
            final(self).initial_selected_idx == old(self).initial_selected_idx,
            final(self).selected_idx == (match old(self).selected_idx {
                Some(i) => Some(prev_idx(i as int, old(self).filtered_items@.len() as int) as usize),
                None => None,
            }),
    {
        match self.selected_idx {
            None => {},
            Some(i) => {
                let n = self.filtered_items.len();
                let r = i % n;
                let j = if r == 0 {
                    n - 1
                } else {
                    r - 1
                };
                proof {
                    if r == 0 {
                        assert((i + n - 1) % (n as int) == n - 1) by (nonlinear_arith)
                            requires
                                n > 0,
                                i % n == 0,
                        ;
                    } else {
                        assert((i + n - 1) % (n as int) == r - 1) by (nonlinear_arith)
                            requires
                                n > 0,
                                r == i % n,
                                r > 0,
                        ;
                    }
                }
                self.selected_idx = Some(j);
            },
        }
    }
}

/// One step down and one step up come back to the same place, and so do one
/// step up and one step down, in a list of `n` entries.
pub proof fn lemma_next_prev_inverse(i: int, n: int)
    requires
        0 <= i < n,
    ensures
        prev_idx(next_idx(i, n), n) == i,
        next_idx(prev_idx(i, n), n) == i,
        0 <= next_idx(i, n) < n,
        0 <= prev_idx(i, n) < n,
{
    if i + 1 < n {
        assert((i + 1) % n == i + 1) by (nonlinear_arith)
            requires
                0 <= i + 1 < n,
        ;
        assert((i + 1 + n - 1) % n == i) by (nonlinear_arith)
            requires
                0 <= i < n,
        ;
    } else {
        assert((i + 1) % n == 0) by (nonlinear_arith)
            requires
                i + 1 == n,
                n > 0,
        ;
        assert((0 + n - 1) % n == n - 1) by (nonlinear_arith)
            requires
                n > 0,
        ;
    }
    if i > 0 {
        assert((i + n - 1) % n == i - 1) by (nonlinear_arith)
            requires
                0 < i < n,
        ;
        assert((i - 1 + 1) % n == i) by (nonlinear_arith)
            requires
                0 <= i < n,
        ;
    } else {
        assert((i + n - 1) % n == n - 1) by (nonlinear_arith)
            requires
                i == 0,
                n > 0,
        ;
        assert((n - 1 + 1) % n == 0) by (nonlinear_arith)
            requires
                n > 0,
        ;
    }
}

/// A list shown in a palette: its filter, the hovered row, and what to do
/// with a chosen entry.
pub struct FilteredList<A> {
    pub filter: Filter,
    pub hovered_idx: Option<usize>,
    pub action: A,
    pub owner_id: u64,
}

impl<A> FilteredList<A> {
    /// The list of `texts` filtered by `pattern`, with `selected_idx`
    /// selected, nothing hovered, and `action` applied to the chosen entry
    /// on behalf of the widget `owner_id`.
    pub fn new(texts: Vec<String>, pattern: &str, selected_idx: usize, action: A, owner_id: u64) -> (r: FilteredList<A>)
        ensures
            r.filter.created(texts@, pattern@, selected_idx),
            r.hovered_idx is None,
            r.action == action,
            r.owner_id == owner_id,
    {
        FilteredList {
            filter: Filter::new(texts, pattern, selected_idx),
            hovered_idx: None,
            action,
            owner_id,
        }
    }

    /// The pointer hovers the row `row`.
    pub fn hover(&mut self, row: usize)
        ensures
            final(self).hovered_idx == Some(row),
            final(self).filter == old(self).filter,
    {
        self.hovered_idx = Some(row);
    }

    /// The pointer left the list.
    pub fn unhover(&mut self)
        ensures
            final(self).hovered_idx is None,
            final(self).filter == old(self).filter,
    {
        self.hovered_idx = None;
    }

    /// A click on the row `row` selects it; where an entry stands there,
    /// the row and the entry's text are what the action is applied to.
    pub fn click(&mut self, row: usize) -> (r: Option<(usize, String)>)
        ensures
            final(self).filter.selected_idx == Some(row),
            final(self).filter.filtered_items@ == old(self).filter.filtered_items@,
            final(self).filter.items@ == old(self).filter.items@,
            final(self).hovered_idx == old(self).hovered_idx,
            r == (if row < old(self).filter.filtered_items@.len() {
                Some((row, old(self).filter.filtered_items@[row as int].text))
            } else {
                None
            }),
    {
        self.filter.selected_idx = Some(row);
        if row < self.filter.filtered_items.len() {
            Some((row, self.filter.filtered_items[row].text.clone()))
        } else {
            None
        }
    }
}

} // verus!
