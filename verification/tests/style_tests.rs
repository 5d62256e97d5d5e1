use tedit::style::Decoration;
use tedit::style::Style;
use tedit::style::decimal_string;
use tedit::style::styled;
use tedit::style::tabbed;
use tedit::document::cells;

#[test]
fn styled_prefixes_escape_sequences() {
    let plain = Style { foreground: 7, background: 234, decoration: Vec::new() };
    assert_eq!(
        styled(&plain, &String::from("hi")),
        "\u{1b}[0m\u{1b}[38;5;7m\u{1b}[48;5;234mhi"
    );
    let fancy = Style {
        foreground: 0,
        background: 15,
        decoration: vec![Decoration::Italic, Decoration::Underline],
    };
    assert_eq!(
        styled(&fancy, &String::from("x")),
        "\u{1b}[0m\u{1b}[3m\u{1b}[4m\u{1b}[38;5;0m\u{1b}[48;5;15mx"
    );
}

#[test]
fn styles_compare_by_value() {
    let a = Style { foreground: 1, background: 2, decoration: vec![Decoration::Italic] };
    let b = Style { foreground: 1, background: 2, decoration: vec![Decoration::Italic] };
    let c = Style { foreground: 1, background: 2, decoration: vec![Decoration::Underline] };
    assert!(a == b);
    assert!(a != c);
}

#[test]
fn tabbed_expands_tabs() {
    assert_eq!(tabbed(&String::from("a\tb")), "a    b");
    assert_eq!(tabbed(&String::from("\t\t")), "        ");
    assert_eq!(tabbed(&String::from("plain")), "plain");
}

#[test]
fn decimal_strings() {
    assert_eq!(decimal_string(0), "0");
    assert_eq!(decimal_string(7), "7");
    assert_eq!(decimal_string(10), "10");
    assert_eq!(decimal_string(234), "234");
    assert_eq!(decimal_string(100500), "100500");
}

#[test]
fn soft_wrap_lines_stay_under_the_width() {
    let row = cells("abcdefgh");
    let lines = row.split(3, "");
    assert_eq!(lines.len(), 4);
    let p = "\u{1b}[0m\u{1b}[38;5;7m\u{1b}[48;5;234m";
    assert_eq!(lines[0], format!("{}ab", p));
    assert_eq!(lines[1], format!("{}cd", p));
    assert_eq!(lines[2], format!("{}ef", p));
    assert_eq!(lines[3], format!("{}gh", p));
}

#[test]
fn soft_wrap_pads_last_short_line() {
    let row = cells("abc");
    let lines = row.split(10, "END");
    assert_eq!(lines.len(), 1);
    assert_eq!(lines[0], "\u{1b}[0m\u{1b}[38;5;7m\u{1b}[48;5;234mabcEND");
}

#[test]
fn soft_wrap_of_empty_row_is_one_line() {
    let row = cells("");
    let lines = row.split(5, "E");
    assert_eq!(lines.len(), 1);
    assert_eq!(lines[0], "\u{1b}[0m\u{1b}[38;5;7m\u{1b}[48;5;234mE");
}

#[test]
fn grapheme_segmentation_drives_cell_count() {
    // One combining mark: two chars, one cell.
    let row = cells("e\u{301}x");
    assert_eq!(row.len(), 2);
    assert_eq!(row.as_string(), "e\u{301}x");
}
