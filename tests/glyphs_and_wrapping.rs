use scrivenwright::glyph_string::GlyphString;
use scrivenwright::text_wrapper::{Dir, TextWrapper};

fn glyphs_of(s: &str) -> GlyphString {
    GlyphString::new(s.to_string())
}

#[test]
fn glyphs_follow_grapheme_clusters() {
    let g = glyphs_of("a\u{310}e\u{301}o\u{308}\u{332}\r\n");
    assert_eq!(g.len(), 4);
    assert_eq!(g.glyphs, vec![(0, 3), (3, 6), (6, 11), (11, 13)]);
    assert_eq!(g.glyph_at(1), Some("e\u{301}"));
    assert_eq!(g.glyph_at(3), Some("\r\n"));
    assert_eq!(g.glyph_at(4), None);
}

#[test]
fn empty_text_has_no_glyphs() {
    let g = glyphs_of("");
    assert_eq!(g.len(), 0);
    assert_eq!(g.glyph_at(0), None);
    assert_eq!(g.index_of_ptr(0), 0);
}

#[test]
fn byte_offsets_map_to_glyphs() {
    let g = glyphs_of("a\u{310}e\u{301}o\u{308}\u{332}\r\n");
    assert_eq!(g.index_of_ptr(0), 0);
    assert_eq!(g.index_of_ptr(3), 1);
    assert_eq!(g.index_of_ptr(4), 2);
    assert_eq!(g.index_of_ptr(11), 3);
    assert_eq!(g.index_of_ptr(13), 4);
    assert_eq!(g.index_of_ptr(100), 4);
}

#[test]
fn glyph_walk_visits_each_glyph_once() {
    let g = glyphs_of("ab\u{1f1f7}\u{1f1fa}c");
    let mut walk = g.glyphs();
    assert_eq!(walk.next(), Some("a"));
    assert_eq!(walk.next(), Some("b"));
    assert_eq!(walk.next(), Some("\u{1f1f7}\u{1f1fa}"));
    assert_eq!(walk.next(), Some("c"));
    assert_eq!(walk.next(), None);
    let mut again = g.glyphs();
    assert_eq!(again.nth(2), Some("\u{1f1f7}\u{1f1fa}"));
    assert_eq!(again.nth(5), None);
}

#[test]
fn glyph_tests() {
    let g = glyphs_of("a \u{3000}e\u{301}");
    assert!(g.glyph_is_char(0, 'a'));
    assert!(!g.glyph_is_char(0, 'b'));
    assert!(!g.glyph_is_char(3, 'e'));
    assert!(!g.glyph_is_whitespace(0));
    assert!(g.glyph_is_whitespace(1));
    assert!(g.glyph_is_whitespace(2));
}

#[test]
fn wraps_words_at_width() {
    let g = glyphs_of("hello world foo");
    let mut w = TextWrapper::new();
    assert_eq!(w.lines(&g, 8, 0, 10), vec![(0, 6), (6, 12), (12, 15)]);
    assert_eq!(w.lines(&g, 8, 1, 1), vec![(6, 12)]);
    assert_eq!(w.lines(&g, 8, 2, usize::MAX), vec![(12, 15)]);
    assert_eq!(w.lines(&g, 8, 5, 3), vec![]);
}

#[test]
fn line_feeds_end_lines() {
    let g = glyphs_of("ab\ncd");
    let mut w = TextWrapper::new();
    assert_eq!(w.lines(&g, 40, 0, 10), vec![(0, 3), (3, 5)]);
    let g = glyphs_of("ab\n\ncd\r\n");
    let mut w = TextWrapper::new();
    assert_eq!(w.lines(&g, 40, 0, 10), vec![(0, 3), (3, 4), (4, 7)]);
}

#[test]
fn long_words_are_broken() {
    let g = glyphs_of("abcdefghij");
    let mut w = TextWrapper::new();
    let lines = w.lines(&g, 4, 0, 10);
    assert!(lines.len() >= 3);
    assert_eq!(lines[0].0, 0);
    assert_eq!(lines[lines.len() - 1].1, 10);
    for i in 1..lines.len() {
        assert_eq!(lines[i].0, lines[i - 1].1);
        assert!(lines[i].0 < lines[i].1);
    }
}

#[test]
fn same_width_twice_gives_same_lines() {
    let g = glyphs_of("the quick brown fox jumps over the lazy dog");
    let mut w = TextWrapper::new();
    let first = w.lines(&g, 10, 0, 100);
    let second = w.lines(&g, 10, 0, 100);
    assert_eq!(first, second);
    let wider = w.lines(&g, 30, 0, 100);
    assert_ne!(first, wider);
    assert_eq!(w.lines(&g, 10, 0, 100), first);
}

#[test]
fn every_glyph_lies_on_one_line() {
    let g = glyphs_of("the quick brown fox\njumps over the lazy dog");
    let mut w = TextWrapper::new();
    let lines = w.lines(&g, 9, 0, 100);
    for i in 0..g.len() {
        let (l, o) = w.line_offset_of_idx(&g, 9, i).unwrap();
        assert!(lines[l].0 <= i && i < lines[l].1);
        assert_eq!(o, i - lines[l].0);
        let holding = lines.iter().filter(|r| r.0 <= i && i < r.1).count();
        assert_eq!(holding, 1);
    }
    assert_eq!(w.line_offset_of_idx(&g, 9, g.len()), None);
}

#[test]
fn line_offsets() {
    let g = glyphs_of("hello world foo");
    let mut w = TextWrapper::new();
    assert_eq!(w.line_offset_of_idx(&g, 8, 0), Some((0, 0)));
    assert_eq!(w.line_offset_of_idx(&g, 8, 7), Some((1, 1)));
    assert_eq!(w.line_offset_of_idx(&g, 8, 14), Some((2, 2)));
    assert_eq!(w.line_offset_of_idx(&g, 8, 15), None);
}

#[test]
fn cursor_moves() {
    let g = glyphs_of("hello world foo");
    let mut w = TextWrapper::new();
    assert_eq!(w.move_cursor(&g, 8, 7, Dir::Up), Some(1));
    assert_eq!(w.move_cursor(&g, 8, 7, Dir::Down), Some(13));
    assert_eq!(w.move_cursor(&g, 8, 7, Dir::Left), Some(6));
    assert_eq!(w.move_cursor(&g, 8, 7, Dir::Right), Some(8));
    assert_eq!(w.move_cursor(&g, 8, 0, Dir::Up), None);
    assert_eq!(w.move_cursor(&g, 8, 13, Dir::Down), None);
    assert_eq!(w.move_cursor(&g, 8, 15, Dir::Left), None);
}

#[test]
fn cursor_stays_within_lines() {
    let g = glyphs_of("hello world foo");
    let mut w = TextWrapper::new();
    assert_eq!(w.move_cursor(&g, 8, 6, Dir::Left), Some(6));
    assert_eq!(w.move_cursor(&g, 8, 11, Dir::Right), Some(11));
    assert_eq!(w.move_cursor(&g, 8, 0, Dir::Left), Some(0));
    assert_eq!(w.move_cursor(&g, 8, 11, Dir::Down), Some(14));
    assert_eq!(w.move_cursor(&g, 8, 5, Dir::Down), Some(11));
}

#[test]
fn empty_text_has_no_lines() {
    let g = glyphs_of("");
    let mut w = TextWrapper::new();
    assert_eq!(w.lines(&g, 8, 0, 10), vec![]);
    assert_eq!(w.line_offset_of_idx(&g, 8, 0), None);
    assert_eq!(w.move_cursor(&g, 8, 0, Dir::Right), None);
}
