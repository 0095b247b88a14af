//! Keyboard shortcuts: keys, modifier sets, and the "Ctrl+Shift+k" text
//! form used in settings files.
use vstd::prelude::*;
use crate::rope_utils::{chars_of, push_char, str_eq};

verus! {

/// The named (non-character) keys that the editors react to.
#[derive(Debug, Clone, Copy, PartialEq, Eq, Structural)]
pub enum NamedKey {
    Tab,
    Enter,
    Escape,
    Backspace,
    Delete,
    ArrowLeft,
    ArrowRight,
    ArrowUp,
    ArrowDown,
    Home,
    End,
    PageUp,
    PageDown,
    Control,
    Shift,
    Alt,
    Super,
    Other,
}

/// A logical key: a named key or the text of a character key.
#[derive(Debug)]
pub enum Key {
    Named(NamedKey),
    Character(String),
}

/// A key seen as a named key or the chars of a character key.
pub enum KeyView {
    Named(NamedKey),
    Character(Seq<char>),
}

impl View for Key {
    type V = KeyView;

    open spec fn view(&self) -> KeyView {
        match self {
            Key::Named(k) => KeyView::Named(*k),
            Key::Character(s) => KeyView::Character(s@),
        }
    }
}

impl Key {
    /// Whether two keys are the same key.
    pub fn same_key(&self, other: &Key) -> (r: bool)
        ensures
            r == (self@ == other@),
    {
        match (self, other) {
            (Key::Named(a), Key::Named(b)) => *a == *b,
            (Key::Character(a), Key::Character(b)) => {
                let r = *a == *b;
                proof {
                    if r {
                        assert(self@ == other@);
                    }
                }
                r
            },
            _ => false,
        }
    }

    /// A copy of this key.
    pub fn duplicate(&self) -> (r: Key)
        ensures
            r@ == self@,
    {
        match self {
            Key::Named(k) => Key::Named(*k),
            Key::Character(s) => Key::Character(s.clone()),
        }
    }
}

/// A set of held modifier keys.
#[derive(Debug, Clone, Copy, PartialEq, Eq, Structural)]
pub struct ModifiersState {
    pub shift: bool,
    pub control: bool,
    pub alt: bool,
    pub super_key: bool,
}

impl ModifiersState {
    pub open spec fn none() -> ModifiersState {
        ModifiersState { shift: false, control: false, alt: false, super_key: false }
    }

    pub open spec fn spec_union(self, other: ModifiersState) -> ModifiersState {
        ModifiersState {
            shift: self.shift || other.shift,
            control: self.control || other.control,
            alt: self.alt || other.alt,
            super_key: self.super_key || other.super_key,
        }
    }

    /// No modifier.
    pub fn empty() -> (r: ModifiersState)
        ensures
            r == ModifiersState::none(),
    {
        ModifiersState { shift: false, control: false, alt: false, super_key: false }
    }

    /// The modifiers held in either set.
    pub fn union(self, other: ModifiersState) -> (r: ModifiersState)
        ensures
            r == self.spec_union(other),
    {
        ModifiersState {
            shift: self.shift || other.shift,
            control: self.control || other.control,
            alt: self.alt || other.alt,
            super_key: self.super_key || other.super_key,
        }
    }

    /// Whether every modifier of `other` is held here.
    pub fn contains(self, other: ModifiersState) -> (r: bool)
        ensures
            r == ((other.shift ==> self.shift) && (other.control ==> self.control) && (other.alt
                ==> self.alt) && (other.super_key ==> self.super_key)),
    {
        (!other.shift || self.shift) && (!other.control || self.control) && (!other.alt
            || self.alt) && (!other.super_key || self.super_key)
    }

    pub fn shift_key(self) -> (r: bool)
        ensures
            r == self.shift,
    {
        self.shift
    }

    pub fn control_key(self) -> (r: bool)
        ensures
            r == self.control,
    {
        self.control
    }

    /// Whether a held modifier may make this key press a shortcut: Control,
    /// Alt or Super.
    pub fn possible_shortcut(self) -> (r: bool)
        ensures
            r == (self.control || self.alt || self.super_key),
    {
        self.control || self.alt || self.super_key
    }
}

/// Queries of held modifiers.
pub trait ModifiersCustomExt {
    fn ctrl(&self) -> bool;

    fn shift(&self) -> bool;

    fn alt(&self) -> bool;

    fn meta(&self) -> bool;

    fn ctrl_alt(&self) -> bool;

    fn ctrl_shift(&self) -> bool;

    fn ctrl_shift_alt(&self) -> bool;
}

impl ModifiersCustomExt for ModifiersState {
    fn ctrl(&self) -> (r: bool)
        ensures
            r == self.control,
    {
        self.control
    }

    fn shift(&self) -> (r: bool)
        ensures
            r == self.shift,
    {
        self.shift
    }

    fn alt(&self) -> (r: bool)
        ensures
            r == self.alt,
    {
        self.alt
    }

    fn meta(&self) -> (r: bool)
        ensures
            r == self.super_key,
    {
        self.super_key
    }

    fn ctrl_alt(&self) -> (r: bool)
        ensures
            r == (self.control && self.alt),
    {
        self.control && self.alt
    }

    fn ctrl_shift(&self) -> (r: bool)
        ensures
            r == (self.control && self.shift),
    {
        self.control && self.shift
    }

    fn ctrl_shift_alt(&self) -> (r: bool)
        ensures
            r == (self.control && self.shift && self.alt),
    {
        self.control && self.shift && self.alt
    }
}

/// Why a shortcut text could not be read.
#[derive(Debug)]
pub enum ParseError {
    InvalidShortcut(String),
    InvalidKey(String),
    InvalidModifiers(String),
}

pub enum ParseErrorView {
    InvalidShortcut(Seq<char>),
    InvalidKey(Seq<char>),
    InvalidModifiers(Seq<char>),
}

impl View for ParseError {
    type V = ParseErrorView;

    open spec fn view(&self) -> ParseErrorView {
        match self {
            ParseError::InvalidShortcut(s) => ParseErrorView::InvalidShortcut(s@),
            ParseError::InvalidKey(s) => ParseErrorView::InvalidKey(s@),
            ParseError::InvalidModifiers(s) => ParseErrorView::InvalidModifiers(s@),
        }
    }
}

/// A key together with the modifiers that must be held.
#[derive(Debug)]
pub struct Shortcut {
    pub key: Key,
    pub modifiers: ModifiersState,
}

pub struct ShortcutView {
    pub key: KeyView,
    pub modifiers: ModifiersState,
}

impl View for Shortcut {
    type V = ShortcutView;

    open spec fn view(&self) -> ShortcutView {
        ShortcutView { key: self.key@, modifiers: self.modifiers }
    }
}

/// The text of `s` in upper case (`str::to_uppercase`).
pub uninterp spec fn uppercase_of(s: Seq<char>) -> Seq<char>;

/// `str::to_uppercase`.
#[verifier::external_body]
pub(crate) fn to_uppercase(s: &str) -> (r: String)
    ensures
        r@ == uppercase_of(s@),
{
    s.to_uppercase()
}

/// Whether a key event with `key` and held `modifiers` is `shortcut`.
pub fn event_match(key: &Key, modifiers: ModifiersState, shortcut: &Shortcut) -> (r: bool)
    ensures
        r == (key@ == shortcut.key@ && modifiers == shortcut.modifiers),
{
    key.same_key(&shortcut.key) && modifiers == shortcut.modifiers
}

pub open spec fn spec_modifier_state(s: Seq<char>) -> Option<ModifiersState> {
    if s == seq!['C', 't', 'r', 'l'] {
        Some(ModifiersState { control: true, ..ModifiersState::none() })
    } else if s == seq!['S', 'h', 'i', 'f', 't'] {
        Some(ModifiersState { shift: true, ..ModifiersState::none() })
    } else if s == seq!['A', 'l', 't'] {
        Some(ModifiersState { alt: true, ..ModifiersState::none() })
    } else if s == seq!['S', 'u', 'p', 'e', 'r'] {
        Some(ModifiersState { super_key: true, ..ModifiersState::none() })
    } else {
        None
    }
}

/// The modifier named `s`: "Ctrl", "Shift", "Alt" or "Super".
pub fn modifier_state_from_str(s: &str) -> (r: Result<ModifiersState, ParseError>)
    ensures
        match spec_modifier_state(s@) {
            Some(m) => r is Ok && r->Ok_0 == m,
            None => r is Err && r->Err_0@ == ParseErrorView::InvalidModifiers(s@),
        },
{
    proof {
        reveal_strlit("Ctrl");
        reveal_strlit("Shift");
        reveal_strlit("Alt");
        reveal_strlit("Super");
        assert("Ctrl"@ =~= seq!['C', 't', 'r', 'l']);
        assert("Shift"@ =~= seq!['S', 'h', 'i', 'f', 't']);
        assert("Alt"@ =~= seq!['A', 'l', 't']);
        assert("Super"@ =~= seq!['S', 'u', 'p', 'e', 'r']);
    }
    if str_eq(s, "Ctrl") {
        Ok(ModifiersState { control: true, ..ModifiersState::empty() })
    } else if str_eq(s, "Shift") {
        Ok(ModifiersState { shift: true, ..ModifiersState::empty() })
    } else if str_eq(s, "Alt") {
        Ok(ModifiersState { alt: true, ..ModifiersState::empty() })
    } else if str_eq(s, "Super") {
        Ok(ModifiersState { super_key: true, ..ModifiersState::empty() })
    } else {
        Err(ParseError::InvalidModifiers(s.to_owned()))
    }
}

/// The pieces of `s` between '+' separators (one piece when there is no
/// '+').
pub open spec fn split_plus(s: Seq<char>) -> Seq<Seq<char>>
    decreases s.len(),
{
    if s.len() == 0 {
        seq![Seq::empty()]
    } else {
        let p = split_plus(s.drop_last());
        if s.last() == '+' {
            p.push(Seq::empty())
        } else {
            p.update(p.len() - 1, p.last().push(s.last()))
        }
    }
}

proof fn lemma_parse_modifiers_err(p: Seq<Seq<char>>, j: int, n: int)
    requires
        j <= n,
        parse_modifiers(p, j) is Err,
    ensures
        parse_modifiers(p, n) == parse_modifiers(p, j),
    decreases n - j,
{
    if j < n {
        lemma_parse_modifiers_err(p, j, n - 1);
    }
}

proof fn lemma_join_push(names: Seq<Seq<char>>, x: Seq<char>)
    ensures
        join_plus(names.push(x)) == (if names.len() == 0 {
            x
        } else {
            join_plus(names) + seq!['+'] + x
        }),
{
    assert(names.push(x).drop_last() =~= names);
}

proof fn lemma_split_plus_len(s: Seq<char>)
    ensures
        split_plus(s).len() >= 1,
    decreases s.len(),
{
    if s.len() > 0 {
        lemma_split_plus_len(s.drop_last());
    }
}

/// The modifiers named by the pieces `p[..n]`, or the first piece that
/// names none.
pub open spec fn parse_modifiers(p: Seq<Seq<char>>, n: int) -> Result<ModifiersState, Seq<char>>
    decreases n,
{
    if n <= 0 {
        Ok(ModifiersState::none())
    } else {
        match parse_modifiers(p, n - 1) {
            Ok(m) => match spec_modifier_state(p[n - 1]) {
                Some(x) => Ok(m.spec_union(x)),
                None => Err(p[n - 1]),
            },
            Err(e) => Err(e),
        }
    }
}

/// What reading the text `s` as a shortcut gives: modifiers separated by
/// '+' and a last piece that is the key (upper-cased when Shift is held).
pub open spec fn spec_parse_shortcut(s: Seq<char>) -> Result<ShortcutView, ParseErrorView> {
    if !s.contains('+') {
        Err(ParseErrorView::InvalidShortcut(s))
    } else {
        let p = split_plus(s);
        let c = p.last();
        match parse_modifiers(p, p.len() - 1) {
            Err(bad) => Err(ParseErrorView::InvalidModifiers(bad)),
            Ok(m) => if c.len() == 0 {
                Err(ParseErrorView::InvalidKey(c))
            } else {
                Ok(
                    ShortcutView {
                        key: KeyView::Character(
                            if m.shift {
                                uppercase_of(c)
                            } else {
                                c
                            },
                        ),
                        modifiers: m,
                    },
                )
            },
        }
    }
}

/// The pieces of `s` between '+' separators.
fn split_on_plus(s: &str) -> (r: Vec<String>)
    ensures
        r@.len() == split_plus(s@).len(),
        forall|i: int| 0 <= i < r@.len() ==> (#[trigger] r@[i])@ == split_plus(s@)[i],
{
    let c = chars_of(s);
    let mut r: Vec<String> = Vec::new();
    r.push(String::new());
    assert(split_plus(c@.take(0)) =~= seq![Seq::<char>::empty()]) by {
        assert(c@.take(0) =~= Seq::<char>::empty());
    }
    for i in 0..c.len()
        invariant
            c@ == s@,
            r@.len() == split_plus(c@.take(i as int)).len(),
            r@.len() >= 1,
            forall|k: int| 0 <= k < r@.len() ==> (#[trigger] r@[k])@ == split_plus(c@.take(i as int))[k],
    {
        proof {
            assert(c@.take(i + 1).drop_last() =~= c@.take(i as int));
        }
        if c[i] == '+' {
            let ghost before = r@;
            r.push(String::new());
            proof {
                assert forall|k: int| 0 <= k < r@.len() implies (#[trigger] r@[k])@ == split_plus(c@.take(i + 1))[k] by {
                    if k < r@.len() - 1 {
                        assert(r@[k] == before[k]);
                    }
                }
            }
        } else {
            let last = r.len() - 1;
            let mut piece = r[last].clone();
            push_char(&mut piece, c[i]);
            r.set(last, piece);
        }
    }
    assert(c@.take(c@.len() as int) =~= c@);
    r
}

impl Shortcut {
    /// Reads a shortcut such as "Ctrl+o" or "Ctrl+Shift+K".
    pub fn from_str(s: &str) -> (r: Result<Shortcut, ParseError>)
        ensures
            match spec_parse_shortcut(s@) {
                Ok(v) => r is Ok && r->Ok_0@ == v,
                Err(e) => r is Err && r->Err_0@ == e,
            },
    {
        let chars = chars_of(s);
        let mut has_plus = false;
        for i in 0..chars.len()
            invariant
                chars@ == s@,
                has_plus == chars@.take(i as int).contains('+'),
        {
            proof {
                assert(chars@.take(i + 1) =~= chars@.take(i as int).push(chars@[i as int]));
            }
            if chars[i] == '+' {
                has_plus = true;
            }
            proof {
                let t = chars@.take(i as int);
                let t1 = chars@.take(i + 1);
                if t.contains('+') {
                    let j = choose|j: int| 0 <= j < t.len() && t[j] == '+';
                    assert(t1[j] == '+');
                }
                if chars@[i as int] == '+' {
                    assert(t1[i as int] == '+');
                }
                if t1.contains('+') && chars@[i as int] != '+' {
                    let j = choose|j: int| 0 <= j < t1.len() && t1[j] == '+';
                    assert(t[j] == '+');
                }
            }
        }
        assert(chars@.take(chars@.len() as int) =~= chars@);
        if !has_plus {
            return Err(ParseError::InvalidShortcut(s.to_owned()));
        }
        let keys = split_on_plus(s);
        proof {
            lemma_split_plus_len(s@);
        }
        let n = keys.len() - 1;
        let mut modifiers = ModifiersState::empty();
        for k in 0..n
            invariant
                s@.contains('+'),
                n == keys@.len() - 1,
                keys@.len() == split_plus(s@).len(),
                forall|i: int| 0 <= i < keys@.len() ==> (#[trigger] keys@[i])@ == split_plus(s@)[i],
                parse_modifiers(split_plus(s@), k as int) == Ok::<ModifiersState, Seq<char>>(modifiers),
        {
            match modifier_state_from_str(keys[k].as_str()) {
                Ok(m) => {
                    modifiers = modifiers.union(m);
                },
                Err(e) => {
                    proof {
                        assert(keys@[k as int]@ == split_plus(s@)[k as int]);
                        assert(parse_modifiers(split_plus(s@), k + 1) == Err::<ModifiersState, Seq<char>>(
                            split_plus(s@)[k as int],
                        ));
                        lemma_parse_modifiers_err(split_plus(s@), k + 1, n as int);
                    }
                    return Err(e);
                },
            }
        }
        let c = keys[n].as_str();
        if c.is_empty() {
            return Err(ParseError::InvalidKey(c.to_owned()));
        }
        let key = if modifiers.shift_key() {
            Key::Character(to_uppercase(c))
        } else {
            Key::Character(c.to_owned())
        };
        Ok(Shortcut { key, modifiers })
    }

    /// The shortcut of a character key with the given modifiers.
    pub fn character(c: &str, modifiers: ModifiersState) -> (r: Shortcut)
        ensures
            r@.key == KeyView::Character(c@),
            r@.modifiers == modifiers,
    {
        Shortcut { key: Key::Character(c.to_owned()), modifiers }
    }

    /// The shortcut of a named key with the given modifiers.
    pub fn named(k: NamedKey, modifiers: ModifiersState) -> (r: Shortcut)
        ensures
            r@.key == KeyView::Named(k),
            r@.modifiers == modifiers,
    {
        Shortcut { key: Key::Named(k), modifiers }
    }

    /// A copy of this shortcut.
    pub fn duplicate(&self) -> (r: Shortcut)
        ensures
            r@ == self@,
    {
        Shortcut { key: self.key.duplicate(), modifiers: self.modifiers }
    }

    /// Whether two shortcuts are the same.
    pub fn same_as(&self, other: &Shortcut) -> (r: bool)
        ensures
            r == (self@ == other@),
    {
        self.key.same_key(&other.key) && self.modifiers == other.modifiers
    }

    /// The text form of a character shortcut: the held modifiers among
    /// "Alt", "Ctrl", "Shift", "Meta" in that order, then the key, joined
    /// by '+'; `None` for a named key.
    pub fn to_setting_string(&self) -> (r: Option<String>)
        ensures
            match self.key@ {
                KeyView::Character(c) => r is Some && r->Some_0@ == spec_setting_string(self.modifiers, c),
                KeyView::Named(_) => r is None,
            },
    {
        match &self.key {
            Key::Character(c) => {
                let mut s = String::new();
                let mut first = true;
                let ghost m = self.modifiers;
                let ghost mut names: Seq<Seq<char>> = Seq::empty();
                proof {
                    reveal_strlit("Alt");
                    reveal_strlit("Ctrl");
                    reveal_strlit("Shift");
                    reveal_strlit("Meta");
                    assert("Alt"@ =~= seq!['A', 'l', 't']);
                    assert("Ctrl"@ =~= seq!['C', 't', 'r', 'l']);
                    assert("Shift"@ =~= seq!['S', 'h', 'i', 'f', 't']);
                    assert("Meta"@ =~= seq!['M', 'e', 't', 'a']);
                }
                if self.modifiers.alt {
                    s.append("Alt");
                    first = false;
                    proof {
                        lemma_join_push(names, "Alt"@);
                        names = names.push("Alt"@);
                    }
                }
                assert(s@ =~= join_plus(names) && first == (names.len() == 0));
                if self.modifiers.control {
                    if !first {
                        push_char(&mut s, '+');
                    }
                    s.append("Ctrl");
                    first = false;
                    proof {
                        lemma_join_push(names, "Ctrl"@);
                        names = names.push("Ctrl"@);
                    }
                }
                assert(s@ =~= join_plus(names) && first == (names.len() == 0));
                if self.modifiers.shift {
                    if !first {
                        push_char(&mut s, '+');
                    }
                    s.append("Shift");
                    first = false;
                    proof {
                        lemma_join_push(names, "Shift"@);
                        names = names.push("Shift"@);
                    }
                }
                assert(s@ =~= join_plus(names) && first == (names.len() == 0));
                if self.modifiers.super_key {
                    if !first {
                        push_char(&mut s, '+');
                    }
                    s.append("Meta");
                    proof {
                        lemma_join_push(names, "Meta"@);
                        names = names.push("Meta"@);
                    }
                }
                assert(s@ =~= join_plus(names));
                assert(names =~= modifier_names(m));
                push_char(&mut s, '+');
                s.append(c.as_str());
                assert(s@ =~= spec_setting_string(self.modifiers, c@));
                Some(s)
            },
            Key::Named(_) => None,
        }
    }
}

/// The names of the held modifiers, in the order Alt, Ctrl, Shift, Meta.
pub open spec fn modifier_names(m: ModifiersState) -> Seq<Seq<char>> {
    let a: Seq<Seq<char>> = if m.alt { seq![seq!['A', 'l', 't']] } else { Seq::empty() };
    let b: Seq<Seq<char>> = if m.control { seq![seq!['C', 't', 'r', 'l']] } else { Seq::empty() };
    let c: Seq<Seq<char>> = if m.shift { seq![seq!['S', 'h', 'i', 'f', 't']] } else { Seq::empty() };
    let d: Seq<Seq<char>> = if m.super_key { seq![seq!['M', 'e', 't', 'a']] } else { Seq::empty() };
    a + b + c + d
}

/// The pieces of `names` joined by '+'.
pub open spec fn join_plus(names: Seq<Seq<char>>) -> Seq<char>
    decreases names.len(),
{
    if names.len() == 0 {
        Seq::empty()
    } else if names.len() == 1 {
        names[0]
    } else {
        join_plus(names.drop_last()) + seq!['+'] + names.last()
    }
}

/// The text form of a character shortcut.
pub open spec fn spec_setting_string(m: ModifiersState, c: Seq<char>) -> Seq<char> {
    join_plus(modifier_names(m)) + seq!['+'] + c
}


proof fn lemma_split_plus_no_plus(x: Seq<char>)
    requires
        !x.contains('+'),
    ensures
        split_plus(x) == seq![x],
    decreases x.len(),
{
    if x.len() > 0 {
        let y = x.drop_last();
        assert(!y.contains('+')) by {
            if y.contains('+') {
                let j = choose|j: int| 0 <= j < y.len() && y[j] == '+';
                assert(x[j] == '+');
            }
        }
        lemma_split_plus_no_plus(y);
        assert(x.last() != '+') by {
            if x.last() == '+' {
                assert(x[x.len() - 1] == '+');
            }
        }
        assert(y.push(x.last()) =~= x);
        assert(split_plus(x) =~= seq![x]);
    } else {
        assert(x =~= Seq::<char>::empty());
        assert(split_plus(x) =~= seq![x]);
    }
}

proof fn lemma_split_plus_concat(a: Seq<char>, b: Seq<char>)
    ensures
        split_plus(a + seq!['+'] + b) == split_plus(a) + split_plus(b),
    decreases b.len(),
{
    let w = a + seq!['+'] + b;
    if b.len() == 0 {
        assert(w.drop_last() =~= a);
        assert(split_plus(b) =~= seq![Seq::<char>::empty()]);
        assert(split_plus(w) =~= split_plus(a) + split_plus(b));
    } else {
        let b1 = b.drop_last();
        lemma_split_plus_concat(a, b1);
        lemma_split_plus_len(b1);
        lemma_split_plus_len(a);
        assert(w.drop_last() =~= a + seq!['+'] + b1);
        assert(w.last() == b.last());
        let x = split_plus(a);
        let y = split_plus(b1);
        if b.last() == '+' {
            assert(split_plus(w) =~= split_plus(a) + split_plus(b));
        } else {
            assert((x + y).update((x + y).len() - 1, (x + y).last().push(b.last())) =~= x + y.update(
                y.len() - 1,
                y.last().push(b.last()),
            ));
            assert(split_plus(w) =~= split_plus(a) + split_plus(b));
        }
    }
}

proof fn lemma_split_join(names: Seq<Seq<char>>)
    requires
        names.len() >= 1,
        forall|i: int| 0 <= i < names.len() ==> !(#[trigger] names[i]).contains('+'),
    ensures
        split_plus(join_plus(names)) == names,
    decreases names.len(),
{
    if names.len() == 1 {
        lemma_split_plus_no_plus(names[0]);
        assert(seq![names[0]] =~= names);
    } else {
        let d = names.drop_last();
        assert forall|i: int| 0 <= i < d.len() implies !(#[trigger] d[i]).contains('+') by {
            assert(d[i] == names[i]);
        }
        lemma_split_join(d);
        lemma_split_plus_concat(join_plus(d), names.last());
        lemma_split_plus_no_plus(names.last());
        assert(d + seq![names.last()] =~= names);
    }
}

/// Writing a character shortcut in its text form and reading the text back
/// gives the same shortcut, provided it holds a modifier, no Super (written
/// "Meta", which is not read back), a key that is not empty and holds no
/// '+', and, with Shift held, a key already in upper case.
pub proof fn lemma_setting_string_round_trip(m: ModifiersState, c: Seq<char>)
    requires
        m.alt || m.control || m.shift,
        !m.super_key,
        c.len() > 0,
        !c.contains('+'),
        m.shift ==> uppercase_of(c) == c,
    ensures
        spec_parse_shortcut(spec_setting_string(m, c)) == Ok::<ShortcutView, ParseErrorView>(
            ShortcutView { key: KeyView::Character(c), modifiers: m },
        ),
{
    let names = modifier_names(m);
    let w = spec_setting_string(m, c);
    assert forall|i: int| 0 <= i < names.len() implies !(#[trigger] names[i]).contains('+') by {
        let x = names[i];
        if x.contains('+') {
            let j = choose|j: int| 0 <= j < x.len() && x[j] == '+';
            assert(x[j] == '+');
        }
    }
    lemma_split_join(names);
    lemma_split_plus_concat(join_plus(names), c);
    lemma_split_plus_no_plus(c);
    let p = split_plus(w);
    assert(p =~= names + seq![c]);
    assert(w[join_plus(names).len() as int] == '+');
    assert(w.contains('+'));
    assert(p.last() == c);
    let a: Seq<Seq<char>> = if m.alt { seq![seq!['A', 'l', 't']] } else { Seq::empty() };
    let b: Seq<Seq<char>> = if m.control { seq![seq!['C', 't', 'r', 'l']] } else { Seq::empty() };
    let d: Seq<Seq<char>> = if m.shift { seq![seq!['S', 'h', 'i', 'f', 't']] } else { Seq::empty() };
    assert(names =~= a + b + d);
    let ma = ModifiersState { alt: m.alt, ..ModifiersState::none() };
    let mb = ModifiersState { alt: m.alt, control: m.control, ..ModifiersState::none() };
    assert(parse_modifiers(p, a.len() as int) == Ok::<ModifiersState, Seq<char>>(ma)) by {
        if m.alt {
            assert(p[0] == seq!['A', 'l', 't']);
            assert(parse_modifiers(p, 0) == Ok::<ModifiersState, Seq<char>>(ModifiersState::none()));
        }
    }
    assert(parse_modifiers(p, (a.len() + b.len()) as int) == Ok::<ModifiersState, Seq<char>>(mb))
        by {
        if m.control {
            assert(p[a.len() as int] == seq!['C', 't', 'r', 'l']);
        }
    }
    assert(parse_modifiers(p, names.len() as int) == Ok::<ModifiersState, Seq<char>>(m)) by {
        if m.shift {
            assert(p[(a.len() + b.len()) as int] == seq!['S', 'h', 'i', 'f', 't']);
        }
    }
}

} // verus!
