use loe::buffer::Buffer;
use loe::input::CursorMove;

fn rows(b: &Buffer) -> Vec<String> {
    let mut out = Vec::new();
    let mut i = 0;
    while let Some(r) = b.get_row_at(i) {
        out.push(r);
        i += 1;
    }
    out
}

fn loaded(text: &str) -> Buffer {
    Buffer::load("/tmp/file.txt", text)
}

#[test]
fn new_buffer_has_one_empty_row_and_no_path() {
    let b = Buffer::new();
    assert_eq!(rows(&b), vec![String::new()]);
    assert_eq!(b.get_cursor(), (0, 0));
    assert_eq!(b.content_len(), 1);
    assert_eq!(b.source_path(), &None);
}

#[test]
fn create_keeps_path() {
    let b = Buffer::create("/tmp/new.txt");
    assert_eq!(rows(&b), vec![String::new()]);
    assert_eq!(b.source_path(), &Some("/tmp/new.txt".to_string()));
}

#[test]
fn load_splits_on_line_feeds() {
    let b = loaded("ab\ncd\n");
    assert_eq!(rows(&b), vec!["ab", "cd"]);
    assert_eq!(b.get_cursor(), (0, 0));
    assert_eq!(b.source_path(), &Some("/tmp/file.txt".to_string()));
}

#[test]
fn load_without_final_line_feed() {
    assert_eq!(rows(&loaded("ab\ncd")), vec!["ab", "cd"]);
}

#[test]
fn load_empty_text_gives_one_empty_row() {
    assert_eq!(rows(&loaded("")), vec![""]);
    assert_eq!(rows(&loaded("\n")), vec![""]);
}

#[test]
fn load_keeps_empty_rows_and_carriage_returns() {
    assert_eq!(rows(&loaded("a\n\nb\r\n")), vec!["a", "", "b\r"]);
}

#[test]
fn write_puts_line_feed_after_each_row() {
    let b = loaded("ab\n\ncd");
    let mut out = String::new();
    b.write(&mut out);
    assert_eq!(out, "ab\n\ncd\n");
}

#[test]
fn write_appends_to_what_is_there() {
    let b = loaded("x");
    let mut out = String::from(">");
    b.write(&mut out);
    assert_eq!(out, ">x\n");
}

#[test]
fn write_then_load_round_trip() {
    for text in ["", "\n", "a\n", "a\nbc\n\nd\n", "\n\n\n"] {
        let b = loaded(text);
        let mut out = String::new();
        b.write(&mut out);
        let again = loaded(&out);
        assert_eq!(rows(&again), rows(&b));
    }
}

#[test]
fn get_row_at_out_of_range_is_none() {
    let b = loaded("a\nb");
    assert_eq!(b.get_row_at(1), Some("b".to_string()));
    assert_eq!(b.get_row_at(2), None);
}

#[test]
fn insert_places_char_and_advances() {
    let mut b = loaded("ac");
    b.move_cursor(CursorMove::Absolute(1, 0));
    assert_eq!(b.insert('b'), Ok(()));
    assert_eq!(rows(&b), vec!["abc"]);
    assert_eq!(b.get_cursor(), (2, 0));
}

#[test]
fn insert_newline_splits_row() {
    let mut b = loaded("x\nabcdef\ny");
    b.move_cursor(CursorMove::Absolute(3, 1));
    assert_eq!(b.insert_newline(), Ok(()));
    assert_eq!(rows(&b), vec!["x", "abc", "def", "y"]);
    assert_eq!(b.get_cursor(), (0, 2));
}

#[test]
fn insert_newline_at_end_opens_empty_row() {
    let mut b = loaded("ab");
    b.move_cursor(CursorMove::EndOfRow(0));
    b.insert_newline().unwrap();
    assert_eq!(rows(&b), vec!["ab", ""]);
    assert_eq!(b.get_cursor(), (0, 1));
}

#[test]
fn remove_deletes_char_left_of_cursor() {
    let mut b = loaded("abc");
    b.move_cursor(CursorMove::Absolute(2, 0));
    assert_eq!(b.remove(), Ok(()));
    assert_eq!(rows(&b), vec!["ac"]);
    assert_eq!(b.get_cursor(), (1, 0));
}

#[test]
fn remove_at_start_of_non_empty_row_only_moves() {
    let mut b = loaded("abc\ndef");
    b.move_cursor(CursorMove::Absolute(0, 1));
    b.remove().unwrap();
    assert_eq!(rows(&b), vec!["abc", "def"]);
    assert_eq!(b.get_cursor(), (3, 0));
}

#[test]
fn remove_at_start_of_empty_row_deletes_it() {
    let mut b = loaded("abc\n\ndef");
    b.move_cursor(CursorMove::Absolute(0, 1));
    b.remove().unwrap();
    assert_eq!(rows(&b), vec!["abc", "def"]);
    assert_eq!(b.get_cursor(), (3, 0));
    assert_eq!(b.content_len(), 2);
}

#[test]
fn remove_at_very_start_changes_nothing() {
    let mut b = loaded("abc");
    b.remove().unwrap();
    assert_eq!(rows(&b), vec!["abc"]);
    assert_eq!(b.get_cursor(), (0, 0));
}

#[test]
fn move_to_missing_row_is_ignored() {
    let mut b = loaded("ab\ncd");
    b.move_cursor(CursorMove::Absolute(1, 1));
    b.move_cursor(CursorMove::Absolute(0, 2));
    assert_eq!(b.get_cursor(), (1, 1));
    b.move_cursor(CursorMove::Relative(0, -5));
    assert_eq!(b.get_cursor(), (1, 1));
    b.move_cursor(CursorMove::EndOfRow(-1));
    assert_eq!(b.get_cursor(), (1, 1));
}

#[test]
fn move_clamps_column_into_row() {
    let mut b = loaded("abcd\nx");
    b.move_cursor(CursorMove::Absolute(9, 0));
    assert_eq!(b.get_cursor(), (4, 0));
    b.move_cursor(CursorMove::Relative(0, 1));
    assert_eq!(b.get_cursor(), (1, 1));
    b.move_cursor(CursorMove::Relative(-7, 0));
    assert_eq!(b.get_cursor(), (0, 1));
    b.move_cursor(CursorMove::Relative(i64::MIN, i64::MIN));
    assert_eq!(b.get_cursor(), (0, 1));
}

#[test]
fn end_of_row_and_current_row() {
    let mut b = loaded("abc\nhello");
    b.move_cursor(CursorMove::EndOfRow(1));
    assert_eq!(b.get_cursor(), (5, 1));
    b.move_cursor(CursorMove::CurrentRow(2));
    assert_eq!(b.get_cursor(), (2, 1));
    b.move_cursor(CursorMove::CurrentRow(i64::MAX));
    assert_eq!(b.get_cursor(), (5, 1));
}

#[test]
fn moves_never_leave_the_rows() {
    let mut b = loaded("ab\n\nlonger row\nx");
    let moves = [
        CursorMove::Relative(1, 0),
        CursorMove::Relative(0, 1),
        CursorMove::Relative(5, 2),
        CursorMove::Relative(-3, -1),
        CursorMove::Absolute(100, 3),
        CursorMove::EndOfRow(2),
        CursorMove::CurrentRow(-4),
        CursorMove::Relative(i64::MAX, 0),
    ];
    for m in moves {
        b.move_cursor(m);
        let (c, r) = b.get_cursor();
        assert!(r >= 0 && (r as usize) < b.content_len());
        let len = b.get_row_at(r as usize).unwrap().chars().count() as i64;
        assert!(c >= 0 && c <= len);
    }
}
