use tedit::document::Document;
use tedit::document::cells;

#[test]
fn current_line_len() {
    let mut document = Document::blank();

    // Returns 0 when there is no current line
    assert_eq!(document.current_line_len(), 0);

    // Returns 1 when the line has 1 character
    document.insert(&String::from(" "));
    assert_eq!(document.current_line_len(), 1);

    // Returns 0 when current line is empty
    document.delete_prev();
    assert_eq!(document.current_line_len(), 0);
}

#[test]
fn insert_then_delete_prev_restores() {
    let mut document = Document::blank();
    document.insert(&String::from("a"));
    document.insert(&String::from("b"));
    document.left();
    let rows_before: Vec<String> = document.rows.iter().map(|r| r.as_string()).collect();
    let cursor_before = document.cursor;
    document.insert(&String::from("x"));
    document.delete_prev();
    let rows_after: Vec<String> = document.rows.iter().map(|r| r.as_string()).collect();
    assert_eq!(rows_before, rows_after);
    assert_eq!(cursor_before, document.cursor);
}

#[test]
fn insert_line_then_delete_prev_restores() {
    let mut document = Document::blank();
    document.insert(&String::from("a"));
    document.insert(&String::from("b"));
    document.insert(&String::from("c"));
    document.left();
    let cursor_before = document.cursor;
    document.insert_line();
    assert_eq!(document.rows.len(), 2);
    assert_eq!(document.rows[0].as_string(), "ab");
    assert_eq!(document.rows[1].as_string(), "c");
    document.delete_prev();
    assert_eq!(document.rows.len(), 1);
    assert_eq!(document.rows[0].as_string(), "abc");
    assert_eq!(cursor_before, document.cursor);
}

#[test]
fn start_and_end_of_line_idempotent() {
    let mut document = Document::blank();
    document.insert(&String::from("h"));
    document.insert(&String::from("i"));
    document.start_of_line();
    let once = document.cursor;
    document.start_of_line();
    assert_eq!(once, document.cursor);
    document.end_of_line();
    let once = document.cursor;
    document.end_of_line();
    assert_eq!(once, document.cursor);
    assert_eq!(document.cursor.x, 2);
}

#[test]
fn tab_inserts_four_spaces() {
    let mut document = Document::blank();
    document.tab();
    document.insert(&String::from("x"));
    assert_eq!(document.rows[0].as_string(), "    x");
    assert_eq!(document.cursor.x, 5);
    assert_eq!(document.cursor_display_x(), 5);
}

#[test]
fn tab_character_displays_four_columns() {
    let mut document = Document::blank();
    document.insert(&String::from("\t"));
    assert_eq!(document.rows[0].as_string(), "\t");
    assert_eq!(document.cursor.x, 1);
    assert_eq!(document.cursor_display_x(), 4);
}

#[test]
fn wide_grapheme_displays_two_columns() {
    let mut document = Document::blank();
    document.insert(&String::from("\u{4e16}"));
    assert_eq!(document.cursor.x, 1);
    assert_eq!(document.cursor_display_x(), 2);
}

#[test]
fn motions_cross_row_boundaries() {
    let mut document = Document::blank();
    document.insert(&String::from("a"));
    document.insert_line();
    document.insert(&String::from("b"));
    assert_eq!(document.cursor.y, 1);
    assert_eq!(document.cursor.x, 1);
    document.left();
    document.left();
    assert_eq!(document.cursor.y, 0);
    assert_eq!(document.cursor.x, 1);
    document.right();
    assert_eq!(document.cursor.y, 1);
    assert_eq!(document.cursor.x, 0);
    document.up();
    assert_eq!(document.cursor.y, 0);
    document.down();
    assert_eq!(document.cursor.y, 1);
}

#[test]
fn delete_next_merges_rows() {
    let mut document = Document::blank();
    document.insert(&String::from("a"));
    document.insert_line();
    document.insert(&String::from("b"));
    document.up();
    document.end_of_line();
    document.delete_next();
    assert_eq!(document.rows.len(), 1);
    assert_eq!(document.rows[0].as_string(), "ab");
}

#[test]
fn match_indices_finds_every_occurrence() {
    let row = cells("abcabcab");
    assert_eq!(row.match_indices("abc"), vec![0, 3]);
    assert_eq!(row.match_indices("ab"), vec![0, 3, 6]);
    assert_eq!(row.match_indices("zzz"), Vec::<usize>::new());
    let end = cells("foo");
    assert_eq!(end.match_indices("foo"), vec![0]);
}

#[test]
fn find_next_wraps_around() {
    let mut document = Document::blank();
    document.open_str(String::from("f"), "foo\nbarfoo\nfooqux");
    document.cursor.y = 2;
    document.cursor.x = 4;
    document.find_next(String::from("foo"));
    assert_eq!(document.cursor.y, 0);
    assert_eq!(document.cursor.x, 0);
}

#[test]
fn find_next_advances_past_current_hit() {
    let mut document = Document::blank();
    document.open_str(String::from("f"), "foo\nbarfoo\nfooqux");
    document.find_next(String::from("foo"));
    assert_eq!((document.cursor.x, document.cursor.y), (3, 1));
    document.find_next(String::from("foo"));
    assert_eq!((document.cursor.x, document.cursor.y), (0, 2));
    document.find_next(String::from("foo"));
    assert_eq!((document.cursor.x, document.cursor.y), (0, 0));
}

#[test]
fn open_then_save_adds_missing_trailing_newline() {
    let mut document = Document::blank();
    document.open_str(String::from("f"), "alpha\nbeta");
    assert_eq!(document.rows.len(), 2);
    assert_eq!(document.save_string(), "alpha\nbeta\n");
}

#[test]
fn open_then_save_keeps_trailing_newline() {
    let mut document = Document::blank();
    document.open_str(String::from("f"), "alpha\nbeta\n");
    assert_eq!(document.rows.len(), 2);
    assert_eq!(document.save_string(), "alpha\nbeta\n");
}

#[test]
fn open_empty_text_gives_empty_document() {
    let mut document = Document::blank();
    document.open_str(String::from("f"), "");
    assert_eq!(document.rows.len(), 0);
    assert_eq!(document.save_string(), "");
    assert_eq!(document.name(), "f");
}

#[test]
fn open_keeps_blank_interior_lines() {
    let mut document = Document::blank();
    document.open_str(String::from("f"), "a\n\nb\n");
    assert_eq!(document.rows.len(), 3);
    assert_eq!(document.rows[1].as_string(), "");
    assert_eq!(document.save_string(), "a\n\nb\n");
}

#[test]
fn combining_marks_round_trip_as_single_cells() {
    let mut document = Document::blank();
    document.open_str(String::from("x"), "\u{3b1}\n\u{3b2}\u{302}");
    assert_eq!(document.rows.len(), 2);
    assert_eq!(document.rows[0].len(), 1);
    assert_eq!(document.rows[1].len(), 1);
    let text = document.save_string();
    let mut second = Document::blank();
    second.open_str(String::from("x"), text.as_str());
    assert_eq!(second.rows.len(), 2);
    assert_eq!(second.rows[0].as_string(), "\u{3b1}");
    assert_eq!(second.rows[1].as_string(), "\u{3b2}\u{302}");
}

#[test]
fn name_falls_back_when_unnamed() {
    let document = Document::blank();
    assert_eq!(document.name(), "New File");
    let mut named = Document::blank();
    named.set_filename(String::from("notes.txt"));
    assert_eq!(named.name(), "notes.txt");
}
