//! The event vocabulary of the editor and the pure part of the terminal
//! pipeline: decoding keystrokes and escape sequences into events, the
//! signal tags carried over the self-pipe, and the escape sequences the
//! renderer emits. Reading bytes and writing them belongs to the caller.
use vstd::prelude::*;

verus! {

#[derive(Debug)]
pub enum Event {
    Input(String),
    Up,
    Down,
    Left,
    Right,
    PageUp,
    PageDown,
    Home,
    End,
    Tab,
    Delete,
    Backspace,
    Escape,
    Enter,
    Next,
    Prev,
    New,
    Open,
    Close,
    Nothing,
    Pause,
    Resume,
    Exit,
    Find,
    Save,
    Resize(usize, usize),
    Error(String),
}

#[allow(non_camel_case_types)]
#[derive(Clone, Copy, PartialEq, Eq, Structural, Debug)]
pub enum Signal {
    SIGWINCH,
    SIGCONT,
}

/// The one-byte tag a signal handler writes to the self-pipe.
pub fn signal_tag(s: &Signal) -> (r: u8)
    ensures
        s is SIGWINCH ==> r == 0,
        s is SIGCONT ==> r == 1,
{
    match s {
        Signal::SIGWINCH => 0,
        Signal::SIGCONT => 1,
    }
}

/// The signal a self-pipe byte stands for.
pub fn signal_from_tag(t: u8) -> (r: Option<Signal>)
    ensures
        t == 0 ==> r == Option::Some(Signal::SIGWINCH),
        t == 1 ==> r == Option::Some(Signal::SIGCONT),
        t >= 2 ==> r is None,
{
    if t == 0 {
        Option::Some(Signal::SIGWINCH)
    } else if t == 1 {
        Option::Some(Signal::SIGCONT)
    } else {
        Option::None
    }
}

/// The control-key code of a letter.
pub open spec fn ctrl_spec(k: char) -> int {
    (k as int) % 32
}

pub fn ctrl(k: char) -> (r: u32)
    requires
        k as int <= 0x10FFFF,
    ensures
        r == ctrl_spec(k),
{
    (k as u32) % 32
}

/// What a lone byte decodes to, once escape sequences are ruled out.
pub open spec fn keypress_spec(c: char, e: Event) -> bool {
    if c == '\u{13}' {
        e is Save
    } else if c == '\u{6}' {
        e is Find
    } else if c == '\u{11}' {
        e is Exit
    } else if c == '\u{1a}' {
        e is Pause
    } else if c == '\u{e}' {
        e is Next
    } else if c == '\u{10}' {
        e is Prev
    } else if c == '\u{14}' {
        e is New
    } else if c == '\u{f}' {
        e is Open
    } else if c == '\u{17}' {
        e is Close
    } else if c == '\u{d}' {
        e is Enter
    } else if c == '\u{8}' || c == '\u{7f}' {
        e is Backspace
    } else if c == '\u{9}' {
        e is Tab
    } else if '\u{20}' <= c && c <= '\u{7e}' {
        e matches Event::Input(s) && s@ == seq![c]
    } else {
        e is Nothing
    }
}

/// Decodes a single non-escape keystroke according to the key table:
/// control keys select commands, printable bytes become input.
pub fn keypress_event(c: char) -> (e: Event)
    ensures
        keypress_spec(c, e),
{
    if c == '\u{13}' {
        Event::Save
    } else if c == '\u{6}' {
        Event::Find
    } else if c == '\u{11}' {
        Event::Exit
    } else if c == '\u{1a}' {
        Event::Pause
    } else if c == '\u{e}' {
        Event::Next
    } else if c == '\u{10}' {
        Event::Prev
    } else if c == '\u{14}' {
        Event::New
    } else if c == '\u{f}' {
        Event::Open
    } else if c == '\u{17}' {
        Event::Close
    } else if c == '\u{d}' {
        Event::Enter
    } else if c == '\u{8}' || c == '\u{7f}' {
        Event::Backspace
    } else if c == '\u{9}' {
        Event::Tab
    } else if '\u{20}' <= c && c <= '\u{7e}' {
        Event::Input(crate::unicode::char_string(c))
    } else {
        Event::Nothing
    }
}

/// A `~`-terminated sequence yields its event; anything else, Escape.
pub open spec fn parse_tilda_spec(next: Option<char>, e: Event) -> Event {
    if next == Option::Some('~') {
        e
    } else {
        Event::Escape
    }
}

pub fn parse_tilda(next: Option<char>, event: Event) -> (r: Event)
    ensures
        r == parse_tilda_spec(next, event),
{
    match next {
        Option::Some(c) => {
            if c == '~' {
                event
            } else {
                Event::Escape
            }
        },
        Option::None => Event::Escape,
    }
}

/// Whether the character after `ESC [` announces one more character.
pub open spec fn bracket_takes_tilda(c: char) -> bool {
    c == '1' || c == '3' || c == '4' || c == '5' || c == '6' || c == '7' || c == '8'
}

/// The event of an `ESC [ c` (or `ESC [ c ~`) sequence.
pub open spec fn parse_bracket_spec(c: Option<char>, after: Option<char>) -> Event {
    match c {
        Option::None => Event::Escape,
        Option::Some(ch) => {
            if ch == '1' {
                parse_tilda_spec(after, Event::Home)
            } else if ch == '3' {
                parse_tilda_spec(after, Event::Delete)
            } else if ch == '4' {
                parse_tilda_spec(after, Event::End)
            } else if ch == '5' {
                parse_tilda_spec(after, Event::PageUp)
            } else if ch == '6' {
                parse_tilda_spec(after, Event::PageDown)
            } else if ch == '7' {
                parse_tilda_spec(after, Event::Home)
            } else if ch == '8' {
                parse_tilda_spec(after, Event::End)
            } else if ch == 'A' {
                Event::Up
            } else if ch == 'B' {
                Event::Down
            } else if ch == 'C' {
                Event::Right
            } else if ch == 'D' {
                Event::Left
            } else if ch == 'H' {
                Event::Home
            } else if ch == 'F' {
                Event::End
            } else {
                Event::Escape
            }
        },
    }
}

pub fn parse_bracket(c: Option<char>, after: Option<char>) -> (r: Event)
    ensures
        r == parse_bracket_spec(c, after),
{
    match c {
        Option::None => Event::Escape,
        Option::Some(ch) => match ch {
            '1' => parse_tilda(after, Event::Home),
            '3' => parse_tilda(after, Event::Delete),
            '4' => parse_tilda(after, Event::End),
            '5' => parse_tilda(after, Event::PageUp),
            '6' => parse_tilda(after, Event::PageDown),
            '7' => parse_tilda(after, Event::Home),
            '8' => parse_tilda(after, Event::End),
            'A' => Event::Up,
            'B' => Event::Down,
            'C' => Event::Right,
            'D' => Event::Left,
            'H' => Event::Home,
            'F' => Event::End,
            _ => Event::Escape,
        },
    }
}

/// The event of an `ESC O c` sequence.
pub open spec fn parse_o_spec(c: Option<char>) -> Event {
    match c {
        Option::Some('H') => Event::Home,
        Option::Some('F') => Event::End,
        _ => Event::Escape,
    }
}

pub fn parse_o(c: Option<char>) -> (r: Event)
    ensures
        r == parse_o_spec(c),
{
    match c {
        Option::Some(ch) => {
            if ch == 'H' {
                Event::Home
            } else if ch == 'F' {
                Event::End
            } else {
                Event::Escape
            }
        },
        Option::None => Event::Escape,
    }
}

/// The event of an escape sequence: `c1` follows the ESC byte, `c2` follows
/// `c1` where one was read, `c3` closes a `~`-terminated sequence.
pub open spec fn parse_escape_spec(c1: Option<char>, c2: Option<char>, c3: Option<char>) -> Event {
    match c1 {
        Option::Some('[') => parse_bracket_spec(c2, c3),
        Option::Some('O') => parse_o_spec(c2),
        _ => Event::Escape,
    }
}

pub fn parse_escape(c1: Option<char>, c2: Option<char>, c3: Option<char>) -> (r: Event)
    ensures
        r == parse_escape_spec(c1, c2, c3),
{
    match c1 {
        Option::Some(ch) => {
            if ch == '[' {
                parse_bracket(c2, c3)
            } else if ch == 'O' {
                parse_o(c2)
            } else {
                Event::Escape
            }
        },
        Option::None => Event::Escape,
    }
}

/// Whether the reader must fetch a second character after ESC.
pub fn escape_needs_second(c1: &Option<char>) -> (r: bool)
    ensures
        r == (c1 == Option::Some('[') || c1 == Option::Some('O')),
{
    match c1 {
        Option::Some(ch) => *ch == '[' || *ch == 'O',
        Option::None => false,
    }
}

/// Whether the reader must fetch a third character after `ESC [ c2`.
pub fn escape_needs_third(c1: &Option<char>, c2: &Option<char>) -> (r: bool)
    ensures
        r == (c1 == Option::Some('[') && (c2 matches Option::Some(ch) && bracket_takes_tilda(*ch))),
{
    match (c1, c2) {
        (Option::Some(a), Option::Some(b)) => *a == '[' && (*b == '1' || *b == '3' || *b == '4'
            || *b == '5' || *b == '6' || *b == '7' || *b == '8'),
        _ => false,
    }
}

/// The hide-cursor escape sequence.
pub open spec fn hide_cursor_spec() -> Seq<char> {
    seq!['\u{1b}', '[', '?', '2', '5', 'l']
}

pub fn hide_cursor() -> (s: String)
    ensures
        s@ == hide_cursor_spec(),
{
    proof {
        reveal_strlit("\u{1b}[?25l");
        assert("\u{1b}[?25l"@ =~= hide_cursor_spec());
    }
    String::from_str("\u{1b}[?25l")
}

/// The show-cursor escape sequence.
pub open spec fn show_cursor_spec() -> Seq<char> {
    seq!['\u{1b}', '[', '?', '2', '5', 'h']
}

pub fn show_cursor() -> (s: String)
    ensures
        s@ == show_cursor_spec(),
{
    proof {
        reveal_strlit("\u{1b}[?25h");
        assert("\u{1b}[?25h"@ =~= show_cursor_spec());
    }
    String::from_str("\u{1b}[?25h")
}

/// The home-cursor escape sequence.
pub open spec fn zero_cursor_spec() -> Seq<char> {
    seq!['\u{1b}', '[', 'H']
}

pub fn zero_cursor() -> (s: String)
    ensures
        s@ == zero_cursor_spec(),
{
    proof {
        reveal_strlit("\u{1b}[H");
        assert("\u{1b}[H"@ =~= zero_cursor_spec());
    }
    String::from_str("\u{1b}[H")
}

/// The clear-to-end-of-line escape sequence.
pub open spec fn clear_line_spec() -> Seq<char> {
    seq!['\u{1b}', '[', 'K']
}

pub fn clear_line() -> (s: String)
    ensures
        s@ == clear_line_spec(),
{
    proof {
        reveal_strlit("\u{1b}[K");
        assert("\u{1b}[K"@ =~= clear_line_spec());
    }
    String::from_str("\u{1b}[K")
}

} // verus!
