use ndoc::syntax::{syntax_by_name, HighlighterState, StateCache, StyledLinesCache};
use ropey::Rope;
use syntect::highlighting::{Highlighter, ThemeSet};
use syntect::parsing::SyntaxSet;

fn highlighter() -> Highlighter<'static> {
    let themes: &'static ThemeSet = Box::leak(Box::new(ThemeSet::load_defaults()));
    Highlighter::new(&themes.themes["base16-ocean.dark"])
}

fn rust_text(lines: usize) -> Rope {
    let mut s = String::new();
    for i in 0..lines {
        s.push_str(&format!("let x{} = \"v\"; // n\n", i));
    }
    Rope::from_str(&s)
}

#[test]
fn update_range_highlights_whole_blocks_of_lines() {
    let ss = SyntaxSet::load_defaults_newlines();
    let syntax = syntax_by_name(&ss, "Rust").unwrap();
    let rope = rust_text(40);
    assert_eq!(rope.len_lines(), 41);
    let mut cache = StyledLinesCache::new();
    let mut sc = StateCache::new(highlighter());
    sc.update_range(&mut cache, syntax, &ss, &rope, 0, 20, 4);
    assert_eq!(cache.lines.len(), 32);
    assert_eq!(sc.states.len(), 2);
    let first = cache.get(0).unwrap();
    assert!(first.styles.len() > 1);
    assert_eq!(first.styles[0].start, 0);
    assert!(cache.get(32).is_none());

    let before: Vec<_> = (0..16).map(|i| cache.get(i).unwrap().styles).collect();
    sc.update_range(&mut cache, syntax, &ss, &rope, 20, 35, 4);
    assert_eq!(cache.lines.len(), 41);
    assert_eq!(sc.states.len(), 2);
    for (i, spans) in before.iter().enumerate() {
        assert_eq!(&cache.get(i).unwrap().styles, spans);
    }
}

#[test]
fn update_range_past_the_end_appends() {
    let ss = SyntaxSet::load_defaults_newlines();
    let syntax = syntax_by_name(&ss, "Plain Text").unwrap();
    let rope = rust_text(3);
    let mut cache = StyledLinesCache::new();
    let mut sc = StateCache::new(highlighter());
    sc.update_range(&mut cache, syntax, &ss, &rope, 100, 200, 4);
    assert_eq!(cache.lines.len(), 4);
    assert_eq!(sc.states.len(), 0);
}

#[test]
fn highlighter_state_moves_chunk_by_chunk() {
    let ss = SyntaxSet::load_defaults_newlines();
    let syntax = syntax_by_name(&ss, "Rust").unwrap();
    let mut h = HighlighterState::new(7, syntax, &ss, highlighter());
    assert_eq!(h.current_index, 0);
    assert_eq!(h.chunk_len, 100);
    h.rope = rust_text(250);
    h.update_chunk();
    assert_eq!(h.current_index, 100);
    assert_eq!(h.chunk_len, 1000);
    assert_eq!(h.lines_cache.lines.len(), 112);
    h.update_chunk();
    assert_eq!(h.current_index, 1100);
    assert_eq!(h.lines_cache.lines.len(), 251);
}

#[test]
fn change_theme_keeps_states() {
    let ss = SyntaxSet::load_defaults_newlines();
    let syntax = syntax_by_name(&ss, "Rust").unwrap();
    let rope = rust_text(20);
    let mut cache = StyledLinesCache::new();
    let mut sc = StateCache::new(highlighter());
    sc.update_range(&mut cache, syntax, &ss, &rope, 0, 5, 4);
    assert_eq!(sc.states.len(), 1);
    sc.change_theme(None);
    assert_eq!(sc.states.len(), 1);
    sc.change_theme(Some(highlighter()));
    assert_eq!(sc.states.len(), 1);
}

#[test]
fn resumed_highlighting_matches_highlighting_from_the_start() {
    let ss = SyntaxSet::load_defaults_newlines();
    let syntax = syntax_by_name(&ss, "Rust").unwrap();
    let mut text = String::new();
    for i in 0..50 {
        text.push_str(&format!("/* {} */ fn f{}() {{ let s = \"a\\tb\"; }}\n", i, i));
        if i == 20 {
            text.push_str("/* open comment\n");
        }
        if i == 30 {
            text.push_str("close */\n");
        }
    }
    let rope = Rope::from_str(&text);
    let mut whole = StyledLinesCache::new();
    let mut sc = StateCache::new(highlighter());
    sc.update_range(&mut whole, syntax, &ss, &rope, 0, 100, 4);
    let mut parts = StyledLinesCache::new();
    let mut sc2 = StateCache::new(highlighter());
    sc2.update_range(&mut parts, syntax, &ss, &rope, 0, 10, 4);
    sc2.update_range(&mut parts, syntax, &ss, &rope, 17, 40, 4);
    sc2.update_range(&mut parts, syntax, &ss, &rope, 40, 100, 4);
    assert_eq!(whole.lines.len(), parts.lines.len());
    for i in 0..whole.lines.len() {
        assert_eq!(whole.lines[i].styles, parts.lines[i].styles, "line {}", i);
    }
}

#[test]
fn syntax_by_name_finds_known_syntaxes() {
    let ss = SyntaxSet::load_defaults_newlines();
    assert!(syntax_by_name(&ss, "Rust").is_some());
    assert!(syntax_by_name(&ss, "No Such Syntax").is_none());
}
