use ndoc::doc_view::tab2space_char_idx;
use ndoc::document::Document;
use ndoc::file_info::{Indentation, LineFeed};
use ndoc::rope_utils::{
    byte_to_char, byte_to_grapheme, grapheme_to_byte, is_grapheme_boundary, next_grapheme_boundary_byte,
};
use ropey::Rope;

fn doc_with(text: &str, indentation: Indentation) -> Document {
    let mut d = Document::new(0, indentation, LineFeed::LF);
    d.insert(text);
    d
}

#[test]
fn col_to_vcol_expands_tabs() {
    let d = doc_with("a\tb\tc", Indentation::Tab(4));
    let expected = [0, 1, 4, 5, 8, 9];
    for (col, vcol) in expected.iter().enumerate() {
        assert_eq!(d.col_to_vcol(0, col), *vcol, "column {}", col);
    }
    assert_eq!(d.col_to_vcol(0, 10), 9);
}

#[test]
fn vcol_to_col_finds_the_column_passing_a_visible_column() {
    let d = doc_with("a\tb\tc", Indentation::Tab(4));
    assert_eq!(d.vcol_to_col(0, 0), 0);
    assert_eq!(d.vcol_to_col(0, 1), 1);
    assert_eq!(d.vcol_to_col(0, 3), 1);
    assert_eq!(d.vcol_to_col(0, 4), 2);
    assert_eq!(d.vcol_to_col(0, 8), 4);
    assert_eq!(d.vcol_to_col(0, 9), 5);
    assert_eq!(d.vcol_to_col(0, 100), 5);
}

#[test]
fn vcol_and_byte_of_the_shown_line() {
    let d = doc_with("a\tb\tc", Indentation::Tab(4));
    assert_eq!(d.get_visible_line(0), "a   b   c");
    assert_eq!(d.vcol_to_byte(0, 3), 3);
    assert_eq!(d.vcol_to_byte(0, 9), 9);
    assert_eq!(d.byte_to_vcol(0, 5), 5);
    assert_eq!(d.byte_to_vcol(0, 9), 9);
}

#[test]
fn col_to_byte_and_back() {
    let d = doc_with("a\tb\tc", Indentation::Tab(4));
    assert_eq!(d.col_to_byte(0, 2), 4);
    assert_eq!(d.col_to_byte(0, 3), 5);
    assert_eq!(d.byte_to_col(0, 4), 2);
    assert_eq!(d.byte_to_col(0, 5), 3);
}

#[test]
fn columns_on_a_line_without_tabs() {
    let d = doc_with("abc\nxy", Indentation::Space(4));
    assert_eq!(d.col_to_vcol(1, 1), 1);
    assert_eq!(d.vcol_to_col(1, 1), 1);
    assert_eq!(d.vcol_to_col(1, 2), 2);
    assert_eq!(d.col_to_byte(0, 2), 2);
}

#[test]
fn tab2space_char_idx_gives_the_column_before_each_char() {
    let rope = Rope::from_str("a\tb\n\tx");
    assert_eq!(tab2space_char_idx(&rope, 0, 4), vec![0, 1, 4, 5, 6]);
    assert_eq!(tab2space_char_idx(&rope, 1, 2), vec![0, 2, 3]);
    let plain = Rope::from_str("abc");
    assert_eq!(tab2space_char_idx(&plain, 0, 0), vec![0, 1, 2, 3]);
}

#[test]
fn byte_to_char_finds_the_char_holding_a_byte() {
    let s = "a\u{e9}b";
    assert_eq!(byte_to_char(s, 0), 0);
    assert_eq!(byte_to_char(s, 1), 1);
    assert_eq!(byte_to_char(s, 2), 1);
    assert_eq!(byte_to_char(s, 3), 2);
    assert_eq!(byte_to_char(s, 4), 3);
    assert_eq!(byte_to_char(s, 40), 3);
}

#[test]
fn graphemes_and_bytes() {
    let s = "ae\u{301}b";
    assert_eq!(grapheme_to_byte(s, 0), 0);
    assert_eq!(grapheme_to_byte(s, 1), 1);
    assert_eq!(grapheme_to_byte(s, 2), 4);
    assert_eq!(grapheme_to_byte(s, 9), 5);
    assert_eq!(byte_to_grapheme(s, 1), 1);
    assert_eq!(byte_to_grapheme(s, 3), 2);
    assert_eq!(byte_to_grapheme(s, 4), 2);
    assert_eq!(byte_to_grapheme(s, 5), 3);
}

#[test]
fn grapheme_boundaries_by_char_and_by_byte() {
    let s = "ae\u{301}b";
    assert!(is_grapheme_boundary(s, 0));
    assert!(is_grapheme_boundary(s, 1));
    assert!(!is_grapheme_boundary(s, 2));
    assert!(is_grapheme_boundary(s, 3));
    assert!(is_grapheme_boundary(s, 4));
    assert_eq!(next_grapheme_boundary_byte(s, 0), 1);
    assert_eq!(next_grapheme_boundary_byte(s, 1), 4);
    assert_eq!(next_grapheme_boundary_byte(s, 4), 5);
    assert_eq!(next_grapheme_boundary_byte(s, 5), 5);
}

#[test]
fn vcol_to_col_undoes_col_to_vcol() {
    let d = doc_with("a\tbc\t\td", Indentation::Tab(4));
    for col in 0..7 {
        let vcol = d.col_to_vcol(0, col);
        assert_eq!(d.vcol_to_col(0, vcol), col, "column {}", col);
    }
}

#[test]
fn title_is_the_file_name_or_untitled() {
    let mut d = Document::new(0, Indentation::Space(4), LineFeed::LF);
    assert_eq!(d.title(), Some("Untitled".to_string()));
    d.mark_saved("notes.txt".to_string());
    assert_eq!(d.title(), Some("notes.txt".to_string()));
    d.mark_saved("dir/sub/notes.txt".to_string());
    assert_eq!(d.title(), Some("notes.txt".to_string()));
    d.mark_saved("dir/..".to_string());
    assert_eq!(d.title(), None);
}

#[test]
fn document_byte_to_visible_col_walks_graphemes() {
    let d = doc_with("x\n\ta\u{e9}b", Indentation::Tab(4));
    assert_eq!(d.byte_to_visible_col(1, 0), 0);
    assert_eq!(d.byte_to_visible_col(1, 1), 4);
    assert_eq!(d.byte_to_visible_col(1, 4), 6);
    assert_eq!(d.byte_to_visible_col(1, 99), 7);
    let plain = doc_with("abc", Indentation::Tab(0));
    assert_eq!(plain.byte_to_visible_col(0, 2), 2);
    let accent = doc_with("\u{e9}", Indentation::Tab(4));
    assert_eq!(accent.byte_to_visible_col(0, 2), 1);
    assert_eq!(accent.byte_to_visible_col(0, 1), 1);
    let tabbed = doc_with("a\tb", Indentation::Tab(4));
    assert_eq!(tabbed.byte_to_visible_col(0, 2), 4);
}

#[test]
fn line_start_boundary_counts_leading_whitespace() {
    let rope = Rope::from_str("  \tab\nx");
    assert_eq!(ndoc::motion::get_line_start_boundary(&rope, 0), 3);
    assert_eq!(ndoc::motion::get_line_start_boundary(&rope, 1), 0);
}

#[test]
fn leading_whitespace_matches_char_is_whitespace() {
    for v in 0u32..0x3100 {
        if let Some(c) = char::from_u32(v) {
            let text = format!("{}x", c);
            let rope = Rope::from_str(&text);
            let expected = if c.is_whitespace() { 1 } else { 0 };
            assert_eq!(ndoc::motion::get_line_start_boundary(&rope, 0), expected, "U+{:04X}", v);
        }
    }
}
