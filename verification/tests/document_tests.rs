use ndoc::document::{char_to_position, position_to_char, Document};
use ndoc::file_info::{Indentation, LineFeed};
use ndoc::rope_utils::{byte_to_visible_col, char_to_grapheme};
use ndoc::selection::{MoveDirection, Position, Selection};
use ropey::Rope;

fn doc_with(text: &str, indentation: Indentation) -> Document {
    let mut d = Document::new(0, indentation, LineFeed::LF);
    d.insert(text);
    d
}

fn text_of(d: &Document) -> String {
    d.rope.to_string()
}

#[test]
fn test_byte_to_visible_col() {
    let s = "a\tb\tc";
    assert_eq!(byte_to_visible_col(s.as_bytes(), 0, 4), 0);
    assert_eq!(byte_to_visible_col(s.as_bytes(), 1, 4), 1);
    assert_eq!(byte_to_visible_col(s.as_bytes(), 2, 4), 4);
    assert_eq!(byte_to_visible_col(s.as_bytes(), 3, 4), 5);
    assert_eq!(byte_to_visible_col(s.as_bytes(), 4, 4), 8);
    assert_eq!(byte_to_visible_col(s.as_bytes(), 5, 4), 9);
}

#[test]
fn test_visible_col_to_byte() {
    let s = doc_with("a\tb\tc", Indentation::Tab(4));
    // "a   b   c"
    assert_eq!(s.visible_col_to_byte(0, 0), 0);
    assert_eq!(s.visible_col_to_byte(0, 1), 1);
    assert_eq!(s.visible_col_to_byte(0, 2), 2);
    assert_eq!(s.visible_col_to_byte(0, 3), 2);
    assert_eq!(s.visible_col_to_byte(0, 4), 2);
    assert_eq!(s.visible_col_to_byte(0, 5), 3);
    assert_eq!(s.visible_col_to_byte(0, 6), 4);
    assert_eq!(s.visible_col_to_byte(0, 7), 4);
    assert_eq!(s.visible_col_to_byte(0, 8), 4);
    assert_eq!(s.visible_col_to_byte(0, 9), 5);
}

#[test]
fn visible_col_to_byte_stops_at_line_end() {
    let s = doc_with("ab", Indentation::Tab(4));
    assert_eq!(s.visible_col_to_byte(0, 10), 2);
}

#[test]
fn test_position_to_char() {
    let r = Rope::from("aaaa\r\n\r\n\r\naaaa\r\n");
    assert_eq!(position_to_char(&r, Position::new(3, 0)), 10);
}

#[test]
fn test_char_to_grapheme() {
    let column = char_to_grapheme("  Diamonds:         ⋄ ᛜ ⌔ ◇ ⟐ ◈ ◆   ◊", 27);
    assert_eq!(column, 27);
}

#[test]
fn char_to_position_counts_graphemes() {
    let r = Rope::from("ab\ne\u{301}f");
    // 'e' + combining accent is one grapheme.
    let p = char_to_position(&r, 6);
    assert_eq!(p.line, 1);
    assert_eq!(p.column, 2);
}

#[test]
fn insert_then_undo_restores_text() {
    let mut d = doc_with("hello", Indentation::Space(4));
    assert_eq!(text_of(&d), "hello");
    assert!(d.is_dirty());
    d.insert(" world");
    assert_eq!(text_of(&d), "hello world");
    d.undo();
    assert_eq!(text_of(&d), "hello");
    d.redo();
    assert_eq!(text_of(&d), "hello world");
}

#[test]
fn backspace_and_delete() {
    let mut d = doc_with("abc", Indentation::Space(4));
    d.backspace();
    assert_eq!(text_of(&d), "ab");
    d.set_main_selection(Position::new(0, 0), Position::new(0, 0));
    d.delete();
    assert_eq!(text_of(&d), "b");
}

#[test]
fn backspace_removes_selection() {
    let mut d = doc_with("hello world", Indentation::Space(4));
    d.set_main_selection(Position::new(0, 5), Position::new(0, 0));
    d.backspace();
    assert_eq!(text_of(&d), " world");
}

#[test]
fn select_word_and_content() {
    let mut d = doc_with("foo bar baz", Indentation::Space(4));
    d.select_word(Position::new(0, 5));
    assert_eq!(d.get_selection_content(LineFeed::LF), "bar");
}

#[test]
fn select_all_and_line() {
    let mut d = doc_with("one\ntwo\nthree", Indentation::Space(4));
    d.select_all();
    assert_eq!(d.get_selection_content(LineFeed::LF), "one\ntwo\nthree");
    d.select_line(1);
    assert_eq!(d.get_selection_content(LineFeed::LF), "two\n");
}

#[test]
fn move_selections_left_right_up_down() {
    let mut d = doc_with("abc\nde", Indentation::Space(4));
    // cursor at end: line 1, column 2
    assert_eq!(d.selections[0].head, Position::new(1, 2));
    d.move_selections(MoveDirection::Up, false);
    assert_eq!(d.selections[0].head.line, 0);
    assert_eq!(d.selections[0].head.column, 2);
    d.move_selections(MoveDirection::Right, false);
    assert_eq!(d.selections[0].head, Position::new(0, 3));
    d.move_selections(MoveDirection::Down, true);
    assert_eq!(d.selections[0].head.line, 1);
    assert_eq!(d.selections[0].head.column, 2);
    assert_eq!(d.selections[0].tail, Position::new(0, 3));
    d.move_selections(MoveDirection::Left, false);
    assert_eq!(d.selections[0].head, Position::new(1, 1));
    assert_eq!(d.selections[0].tail, Position::new(1, 1));
}

#[test]
fn move_up_keeps_visible_column() {
    let mut d = doc_with("abcdef\nab\nabcdef", Indentation::Space(4));
    d.set_main_selection(Position::new(2, 5), Position::new(2, 5));
    d.move_selections(MoveDirection::Up, false);
    assert_eq!(d.selections[0].head.column, 2);
    d.move_selections(MoveDirection::Up, false);
    assert_eq!(d.selections[0].head.column, 5);
}

#[test]
fn move_selections_word() {
    let mut d = doc_with("foo bar", Indentation::Space(4));
    d.set_main_selection(Position::new(0, 0), Position::new(0, 0));
    d.move_selections_word(MoveDirection::Right, false);
    assert_eq!(d.selections[0].head, Position::new(0, 3));
    d.move_selections_word(MoveDirection::Left, false);
    assert_eq!(d.selections[0].head, Position::new(0, 0));
}

#[test]
fn home_and_end() {
    let mut d = doc_with("    indented", Indentation::Space(4));
    d.home(false);
    assert_eq!(d.selections[0].head, Position::new(0, 4));
    d.home(false);
    assert_eq!(d.selections[0].head, Position::new(0, 0));
    d.end(true);
    assert_eq!(d.selections[0].head, Position::new(0, 12));
    assert_eq!(d.selections[0].tail, Position::new(0, 0));
}

#[test]
fn page_up_and_down() {
    let mut d = doc_with("a\nb\nc\nd\ne", Indentation::Space(4));
    d.page_up(3, false);
    assert_eq!(d.selections[0].head.line, 1);
    d.page_up(3, false);
    assert_eq!(d.selections[0].head.line, 0);
    d.page_down(10, false);
    assert_eq!(d.selections[0].head.line, 4);
}

#[test]
fn duplicate_selection_adds_cursor_below() {
    let mut d = doc_with("aaa\nbbb\nccc", Indentation::Space(4));
    d.set_main_selection(Position::new(0, 1), Position::new(0, 1));
    d.duplicate_selection(MoveDirection::Down);
    assert_eq!(d.selections.len(), 2);
    d.insert("X");
    assert_eq!(text_of(&d), "aXaa\nbXbb\nccc");
    d.cancel_multi_cursor();
    assert_eq!(d.selections.len(), 1);
}

#[test]
fn duplicate_selection_up_at_top_does_nothing() {
    let mut d = doc_with("aaa\nbbb", Indentation::Space(4));
    d.set_main_selection(Position::new(0, 1), Position::new(0, 1));
    d.duplicate_selection(MoveDirection::Up);
    assert_eq!(d.selections.len(), 1);
}

#[test]
fn merge_selections_joins_overlaps() {
    let mut d = doc_with("abcdef", Indentation::Space(4));
    d.selections = vec![
        Selection::new(Position::new(0, 3), Position::new(0, 0), false),
        Selection::new(Position::new(0, 5), Position::new(0, 2), true),
    ];
    d.merge_selections();
    assert_eq!(d.selections.len(), 1);
    assert_eq!(d.selections[0].start(), Position::new(0, 0));
    assert_eq!(d.selections[0].end(), Position::new(0, 5));
}

#[test]
fn insert_many_one_line_per_cursor() {
    let mut d = doc_with("a\nb", Indentation::Space(4));
    d.selections = vec![
        Selection::new(Position::new(0, 1), Position::new(0, 1), false),
        Selection::new(Position::new(1, 1), Position::new(1, 1), true),
    ];
    d.insert_many("1\r\n2\n");
    assert_eq!(text_of(&d), "a1\nb2");
}

#[test]
fn insert_many_falls_back_to_insert() {
    let mut d = doc_with("a", Indentation::Space(4));
    d.insert_many("x\ny");
    assert_eq!(text_of(&d), "ax\ny");
}

#[test]
fn indent_and_deindent_lines() {
    let mut d = doc_with("a\nb", Indentation::Space(2));
    d.select_all();
    d.indent(false);
    assert_eq!(text_of(&d), "  a\n  b");
    d.deindent();
    assert_eq!(text_of(&d), "a\nb");
}

#[test]
fn indent_at_cursor_to_next_stop() {
    let mut d = doc_with("ab", Indentation::Space(4));
    d.set_main_selection(Position::new(0, 1), Position::new(0, 1));
    d.indent(false);
    assert_eq!(text_of(&d), "a   b");
}

#[test]
fn indent_with_tabs() {
    let mut d = doc_with("x", Indentation::Tab(4));
    d.indent(true);
    assert_eq!(text_of(&d), "\tx");
    d.deindent();
    assert_eq!(text_of(&d), "x");
}

#[test]
fn visible_line_expands_tabs() {
    let d = doc_with("\tab\tc", Indentation::Tab(4));
    assert_eq!(d.get_visible_line(0), "    ab  c");
    let e = doc_with("plain", Indentation::Tab(4));
    assert_eq!(e.get_visible_line(0), "plain");
}

#[test]
fn selection_areas_over_lines() {
    let d = doc_with("abc\ndefg\nhi", Indentation::Space(4));
    let s = Selection::new(Position::new(2, 1), Position::new(0, 1), false);
    let a = s.areas(&d.rope);
    assert_eq!(a.len(), 3);
    assert_eq!((a[0].col_start, a[0].col_end, a[0].line, a[0].include_eol), (1, 3, 0, true));
    assert_eq!((a[1].col_start, a[1].col_end, a[1].line, a[1].include_eol), (0, 4, 1, true));
    assert_eq!((a[2].col_start, a[2].col_end, a[2].line, a[2].include_eol), (0, 1, 2, false));
    let one = Selection::new(Position::new(0, 2), Position::new(0, 0), false);
    assert_eq!(one.areas(&d.rope).len(), 1);
}

#[test]
fn from_bytes_detects_bom_linefeed_and_indentation() {
    let bytes = b"\xEF\xBB\xBFfn a() {\r\n    x\r\n}\r\n";
    let d = Document::from_bytes(7, bytes, "a.rs".to_string(), "Rust".to_string(), LineFeed::LF);
    assert_eq!(d.id, 7);
    assert_eq!(d.file_info.encoding, "UTF-8");
    assert_eq!(d.file_info.bom, Some(vec![0xEF, 0xBB, 0xBF]));
    assert_eq!(d.file_info.linefeed, LineFeed::CRLF);
    assert_eq!(d.file_info.indentation, Indentation::Space(4));
    assert_eq!(text_of(&d), "fn a() {\r\n    x\r\n}\r\n");
    assert!(!d.is_dirty());
    let out = d.encoded_output();
    assert_eq!(out, bytes.to_vec());
}

#[test]
fn encoded_output_utf16le() {
    let bytes = b"\xFF\xFEh\x00i\x00";
    let d = Document::from_bytes(1, bytes, "x.txt".to_string(), "Plain Text".to_string(), LineFeed::LF);
    assert_eq!(d.file_info.encoding, "UTF-16LE");
    assert_eq!(text_of(&d), "hi");
    assert_eq!(d.encoded_output(), bytes.to_vec());
}

#[test]
fn mark_saved_clears_history() {
    let mut d = doc_with("abc", Indentation::Space(4));
    assert!(d.is_dirty());
    d.mark_saved("/tmp/a.txt".to_string());
    assert!(!d.is_dirty());
    assert_eq!(d.file_name, Some("/tmp/a.txt".to_string()));
}

#[test]
fn try_insert_refuses_invalid_selection() {
    let mut d = doc_with("abc", Indentation::Space(4));
    d.selections = vec![Selection::new(Position::new(5, 0), Position::new(5, 0), false)];
    assert!(!d.try_insert("x"));
    assert_eq!(text_of(&d), "abc");
    assert!(!d.selections_valid());
}

#[test]
fn insert_on_a_clean_document_then_undo_and_redo() {
    let mut d = Document::new(0, Indentation::Space(4), LineFeed::LF);
    d.insert("");
    assert!(!d.is_dirty());
    let before_text = text_of(&d);
    let before_sels = d.selections.clone();
    d.insert("abc");
    assert!(d.is_dirty());
    let after_text = text_of(&d);
    let after_sels = d.selections.clone();
    d.undo();
    assert_eq!(text_of(&d), before_text);
    assert_eq!(d.selections, before_sels);
    assert!(!d.is_dirty());
    d.redo();
    assert_eq!(text_of(&d), after_text);
    assert_eq!(d.selections, after_sels);
}

#[test]
fn position_round_trip_at_cluster_boundaries() {
    let r = Rope::from("ab\r\ncd\u{e9}e\u{301}f\nx");
    // char indices that start a grapheme of their line
    for c in [0usize, 1, 2, 4, 5, 6, 7, 9, 10, 11, 12] {
        let p = char_to_position(&r, c);
        assert_eq!(position_to_char(&r, p), c, "char {}", c);
    }
}

#[test]
fn utf8_file_with_bom_is_written_back_unchanged() {
    let mut bytes = vec![0xEFu8, 0xBB, 0xBF];
    bytes.extend_from_slice("h\u{e9}llo\n\tw\u{f6}rld\n".as_bytes());
    let d = Document::from_bytes(3, &bytes, "f.txt".to_string(), "Plain Text".to_string(), LineFeed::LF);
    assert_eq!(d.file_info.encoding, "UTF-8");
    assert_eq!(d.encoded_output(), bytes);
}

#[test]
fn runs_of_typing_make_a_document_dirty_only_with_text() {
    let mut d = Document::new(0, Indentation::Space(4), LineFeed::LF);
    d.insert("");
    d.insert("");
    assert!(!d.is_dirty());
    d.insert("x");
    assert!(d.is_dirty());
    d.insert("");
    assert!(d.is_dirty());
}
