use tedit::terminal::Event;
use tedit::terminal::Signal;
use tedit::terminal::clear_line;
use tedit::terminal::ctrl;
use tedit::terminal::hide_cursor;
use tedit::terminal::keypress_event;
use tedit::terminal::parse_bracket;
use tedit::terminal::parse_escape;
use tedit::terminal::parse_o;
use tedit::terminal::parse_tilda;
use tedit::terminal::escape_needs_second;
use tedit::terminal::escape_needs_third;
use tedit::terminal::show_cursor;
use tedit::terminal::signal_from_tag;
use tedit::terminal::signal_tag;
use tedit::terminal::zero_cursor;

#[test]
fn control_codes() {
    assert_eq!(ctrl('q'), 17);
    assert_eq!(ctrl('s'), 19);
    assert_eq!(ctrl('f'), 6);
    assert_eq!(ctrl('z'), 26);
}

#[test]
fn keypresses_decode_per_table() {
    assert!(matches!(keypress_event('\u{11}'), Event::Exit));
    assert!(matches!(keypress_event('\u{f}'), Event::Open));
    assert!(matches!(keypress_event('\u{6}'), Event::Find));
    assert!(matches!(keypress_event('\u{1a}'), Event::Pause));
    assert!(matches!(keypress_event('\u{e}'), Event::Next));
    assert!(matches!(keypress_event('\u{10}'), Event::Prev));
    assert!(matches!(keypress_event('\u{14}'), Event::New));
    assert!(matches!(keypress_event('\u{17}'), Event::Close));
    assert!(matches!(keypress_event('\u{13}'), Event::Save));
    assert!(matches!(keypress_event('\r'), Event::Enter));
    assert!(matches!(keypress_event('\u{8}'), Event::Backspace));
    assert!(matches!(keypress_event('\u{7f}'), Event::Backspace));
    assert!(matches!(keypress_event('\t'), Event::Tab));
    assert!(matches!(keypress_event('\u{1}'), Event::Nothing));
    match keypress_event('a') {
        Event::Input(s) => assert_eq!(s, "a"),
        _ => panic!("printable bytes become input"),
    }
    match keypress_event('~') {
        Event::Input(s) => assert_eq!(s, "~"),
        _ => panic!("printable bytes become input"),
    }
}

#[test]
fn escape_sequences_decode_per_table() {
    assert!(matches!(parse_escape(Some('['), Some('A'), None), Event::Up));
    assert!(matches!(parse_escape(Some('['), Some('B'), None), Event::Down));
    assert!(matches!(parse_escape(Some('['), Some('C'), None), Event::Right));
    assert!(matches!(parse_escape(Some('['), Some('D'), None), Event::Left));
    assert!(matches!(parse_escape(Some('['), Some('H'), None), Event::Home));
    assert!(matches!(parse_escape(Some('['), Some('F'), None), Event::End));
    assert!(matches!(parse_escape(Some('['), Some('1'), Some('~')), Event::Home));
    assert!(matches!(parse_escape(Some('['), Some('3'), Some('~')), Event::Delete));
    assert!(matches!(parse_escape(Some('['), Some('4'), Some('~')), Event::End));
    assert!(matches!(parse_escape(Some('['), Some('5'), Some('~')), Event::PageUp));
    assert!(matches!(parse_escape(Some('['), Some('6'), Some('~')), Event::PageDown));
    assert!(matches!(parse_escape(Some('['), Some('7'), Some('~')), Event::Home));
    assert!(matches!(parse_escape(Some('['), Some('8'), Some('~')), Event::End));
    assert!(matches!(parse_escape(Some('['), Some('3'), Some('x')), Event::Escape));
    assert!(matches!(parse_escape(Some('O'), Some('H'), None), Event::Home));
    assert!(matches!(parse_escape(Some('O'), Some('F'), None), Event::End));
    assert!(matches!(parse_escape(Some('O'), Some('z'), None), Event::Escape));
    assert!(matches!(parse_escape(Some('x'), None, None), Event::Escape));
    assert!(matches!(parse_escape(None, None, None), Event::Escape));
}

#[test]
fn parse_helpers() {
    assert!(matches!(parse_tilda(Some('~'), Event::Home), Event::Home));
    assert!(matches!(parse_tilda(Some('x'), Event::Home), Event::Escape));
    assert!(matches!(parse_tilda(None, Event::Home), Event::Escape));
    assert!(matches!(parse_bracket(Some('A'), None), Event::Up));
    assert!(matches!(parse_bracket(None, None), Event::Escape));
    assert!(matches!(parse_o(Some('H')), Event::Home));
    assert!(matches!(parse_o(None), Event::Escape));
}

#[test]
fn escape_read_plan() {
    assert!(escape_needs_second(&Some('[')));
    assert!(escape_needs_second(&Some('O')));
    assert!(!escape_needs_second(&Some('x')));
    assert!(!escape_needs_second(&None));
    assert!(escape_needs_third(&Some('['), &Some('5')));
    assert!(!escape_needs_third(&Some('['), &Some('A')));
    assert!(!escape_needs_third(&Some('['), &Some('2')));
    assert!(!escape_needs_third(&Some('O'), &Some('5')));
}

#[test]
fn signal_tags_round_trip() {
    assert_eq!(signal_tag(&Signal::SIGWINCH), 0);
    assert_eq!(signal_tag(&Signal::SIGCONT), 1);
    assert_eq!(signal_from_tag(0), Some(Signal::SIGWINCH));
    assert_eq!(signal_from_tag(1), Some(Signal::SIGCONT));
    assert_eq!(signal_from_tag(7), None);
}

#[test]
fn escape_strings() {
    assert_eq!(clear_line(), "\u{1b}[K");
    assert_eq!(hide_cursor(), "\u{1b}[?25l");
    assert_eq!(show_cursor(), "\u{1b}[?25h");
    assert_eq!(zero_cursor(), "\u{1b}[H");
}
