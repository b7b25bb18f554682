use scrivenwright::book::clean_book_text;

#[test]
fn book_text_is_cleaned() {
    let raw = "Line one\r\nline two\r\n\r\nNext para\r\n".to_string();
    assert_eq!(clean_book_text(raw), "Line one line two\n\nNext para");
}

#[test]
fn double_spaces_are_halved() {
    assert_eq!(clean_book_text("a  b".to_string()), "a b");
    assert_eq!(clean_book_text("x   y".to_string()), "x  y");
}

#[test]
fn breaks_are_joined_pairwise() {
    assert_eq!(clean_book_text("a\nb\nc".to_string()), "a b\nc");
    assert_eq!(clean_book_text(String::new()), "");
}
