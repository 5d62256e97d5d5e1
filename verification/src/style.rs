//! Styles for terminal cells: a 256-color foreground/background pair plus a
//! set of decorations, and the functions that turn a styled text into the
//! escape-sequence-prefixed form the terminal understands.
use vstd::prelude::*;

verus! {

#[derive(Clone, Copy, PartialEq, Eq, Structural, Debug)]
pub enum Decoration {
    Italic,
    Underline,
}

#[derive(Debug)]
pub struct Style {
    pub foreground: u8,
    pub background: u8,
    pub decoration: Vec<Decoration>,
}

impl Clone for Style {
    fn clone(&self) -> (r: Style)
        ensures
            r@ == self@,
    {
        let r = Style {
            foreground: self.foreground,
            background: self.background,
            decoration: self.decoration.clone(),
        };
        proof {
            assert(r.decoration@ =~= self.decoration@);
        }
        r
    }
}

/// Mathematical model of a `Style`.
pub ghost struct StyleV {
    pub foreground: u8,
    pub background: u8,
    pub decoration: Seq<Decoration>,
}

impl View for Style {
    type V = StyleV;

    open spec fn view(&self) -> StyleV {
        StyleV {
            foreground: self.foreground,
            background: self.background,
            decoration: self.decoration@,
        }
    }
}

impl PartialEq for Style {
    fn eq(&self, other: &Style) -> (r: bool) {
        if self.foreground != other.foreground || self.background != other.background {
            return false;
        }
        if self.decoration.len() != other.decoration.len() {
            proof {
                assert(self@ != other@);
            }
            return false;
        }
        let n = self.decoration.len();
        let mut i: usize = 0;
        while i < n
            invariant
                n == self.decoration.len() == other.decoration.len(),
                i <= n,
                forall|j: int| 0 <= j < i ==> self.decoration@[j] == other.decoration@[j],
            decreases n - i,
        {
            if self.decoration[i] != other.decoration[i] {
                return false;
            }
            i += 1;
        }
        proof {
            assert(self.decoration@ =~= other.decoration@);
        }
        true
    }
}

impl vstd::std_specs::cmp::PartialEqSpecImpl for Style {
    open spec fn obeys_eq_spec() -> bool {
        true
    }

    open spec fn eq_spec(&self, other: &Style) -> bool {
        self@ == other@
    }
}

/// The default style text is shown in: light grey on dark grey.
pub open spec fn content_style_v() -> StyleV {
    StyleV { foreground: 7, background: 234, decoration: Seq::empty() }
}

pub fn content_style() -> (s: Style)
    ensures
        s@ == content_style_v(),
{
    let s = Style { foreground: 7, background: 234, decoration: Vec::new() };
    proof {
        assert(s@.decoration =~= content_style_v().decoration);
    }
    s
}

/// The escape sequence that switches one decoration on.
pub open spec fn decoration_code(d: Decoration) -> Seq<char> {
    match d {
        Decoration::Italic => seq!['\u{1b}', '[', '3', 'm'],
        Decoration::Underline => seq!['\u{1b}', '[', '4', 'm'],
    }
}

/// The concatenated escape sequences for a decoration list, in order.
pub open spec fn decoration_codes(deco: Seq<Decoration>) -> Seq<char>
    decreases deco.len(),
{
    if deco.len() == 0 {
        Seq::empty()
    } else {
        decoration_codes(deco.drop_last()) + decoration_code(deco.last())
    }
}

fn decoration(style: &Style) -> (r: String)
    ensures
        r@ == decoration_codes(style@.decoration),
{
    let mut decorations = String::new();
    let n = style.decoration.len();
    let mut i: usize = 0;
    while i < n
        invariant
            n == style.decoration.len(),
            i <= n,
            decorations@ == decoration_codes(style.decoration@.take(i as int)),
        decreases n - i,
    {
        match style.decoration[i] {
            Decoration::Italic => {
                decorations.append("\u{1b}[3m");
                proof {
                    reveal_strlit("\u{1b}[3m");
                    assert("\u{1b}[3m"@ =~= decoration_code(Decoration::Italic));
                }
            },
            Decoration::Underline => {
                decorations.append("\u{1b}[4m");
                proof {
                    reveal_strlit("\u{1b}[4m");
                    assert("\u{1b}[4m"@ =~= decoration_code(Decoration::Underline));
                }
            },
        }
        proof {
            assert(style.decoration@.take(i + 1).drop_last() =~= style.decoration@.take(i as int));
        }
        i += 1;
    }
    proof {
        assert(style.decoration@.take(n as int) =~= style.decoration@);
    }
    decorations
}

/// The decimal digit characters of `n`, most significant first.
pub open spec fn dec_digits(n: nat) -> Seq<char>
    decreases n,
{
    if n < 10 {
        seq![digit_char(n)]
    } else {
        dec_digits(n / 10).push(digit_char(n % 10))
    }
}

pub open spec fn digit_char(d: nat) -> char {
    if d == 0 {
        '0'
    } else if d == 1 {
        '1'
    } else if d == 2 {
        '2'
    } else if d == 3 {
        '3'
    } else if d == 4 {
        '4'
    } else if d == 5 {
        '5'
    } else if d == 6 {
        '6'
    } else if d == 7 {
        '7'
    } else if d == 8 {
        '8'
    } else {
        '9'
    }
}

fn digit_str(d: usize) -> (s: &'static str)
    requires
        d < 10,
    ensures
        s@ =~= seq![digit_char(d as nat)],
{
    proof {
        reveal_strlit("0");
        reveal_strlit("1");
        reveal_strlit("2");
        reveal_strlit("3");
        reveal_strlit("4");
        reveal_strlit("5");
        reveal_strlit("6");
        reveal_strlit("7");
        reveal_strlit("8");
        reveal_strlit("9");
    }
    match d {
        0 => "0",
        1 => "1",
        2 => "2",
        3 => "3",
        4 => "4",
        5 => "5",
        6 => "6",
        7 => "7",
        8 => "8",
        _ => "9",
    }
}

/// Appends the decimal form of `n` to `s`.
pub fn push_decimal(s: &mut String, n: usize)
    ensures
        final(s)@ == old(s)@ + dec_digits(n as nat),
    decreases n,
{
    if n < 10 {
        s.append(digit_str(n));
    } else {
        push_decimal(s, n / 10);
        s.append(digit_str(n % 10));
    }
}

/// The decimal form of `n` on its own.
pub fn decimal_string(n: usize) -> (s: String)
    ensures
        s@ == dec_digits(n as nat),
{
    let mut s = String::new();
    push_decimal(&mut s, n);
    s
}

/// `k` spaces.
pub open spec fn spaces(k: int) -> Seq<char>
    decreases k,
{
    if k <= 0 {
        Seq::empty()
    } else {
        spaces(k - 1).push(' ')
    }
}

/// A string of `k` spaces.
pub fn spaces_string(k: usize) -> (s: String)
    ensures
        s@ == spaces(k as int),
{
    let mut s = String::new();
    let mut i: usize = 0;
    while i < k
        invariant
            i <= k,
            s@ == spaces(i as int),
        decreases k - i,
    {
        s.append(" ");
        proof {
            reveal_strlit(" ");
            assert(" "@ =~= seq![' ']);
            assert(spaces(i + 1) == spaces(i as int).push(' '));
            assert(s@ =~= spaces(i as int) + seq![' ']);
            assert(spaces(i as int).push(' ') =~= spaces(i as int) + seq![' ']);
        }
        i += 1;
    }
    s
}

/// `text` with every TAB replaced by four spaces.
pub open spec fn tab_expanded(s: Seq<char>) -> Seq<char>
    decreases s.len(),
{
    if s.len() == 0 {
        Seq::empty()
    } else {
        tab_expanded(s.drop_last()) + (if s.last() == '\t' {
            seq![' ', ' ', ' ', ' ']
        } else {
            seq![s.last()]
        })
    }
}

pub fn tabbed(text: &String) -> (r: String)
    ensures
        r@ == tab_expanded(text@),
{
    let mut r = String::new();
    let n = text.as_str().unicode_len();
    let mut i: usize = 0;
    while i < n
        invariant
            n == text@.len(),
            i <= n,
            r@ == tab_expanded(text@.take(i as int)),
        decreases n - i,
    {
        let c = text.as_str().get_char(i);
        if c == '\t' {
            r.append("    ");
            proof {
                reveal_strlit("    ");
                assert("    "@ =~= seq![' ', ' ', ' ', ' ']);
            }
        } else {
            let piece = text.as_str().substring_char(i, i + 1);
            r.append(piece);
            proof {
                assert(piece@ =~= seq![text@[i as int]]);
            }
        }
        proof {
            assert(text@.take(i + 1).drop_last() =~= text@.take(i as int));
            assert(text@.take(i + 1).last() == text@[i as int]);
        }
        i += 1;
    }
    proof {
        assert(text@.take(n as int) =~= text@);
    }
    r
}

/// What `styled` produces: a style reset, the decoration codes, the
/// 256-color foreground and background selectors, then the text itself.
pub open spec fn styled_spec(style: StyleV, text: Seq<char>) -> Seq<char> {
    seq!['\u{1b}', '[', '0', 'm'] + decoration_codes(style.decoration) + seq![
        '\u{1b}',
        '[',
        '3',
        '8',
        ';',
        '5',
        ';',
    ] + dec_digits(style.foreground as nat) + seq!['m', '\u{1b}', '[', '4', '8', ';', '5', ';']
        + dec_digits(style.background as nat) + seq!['m'] + text
}

/// `text` prefixed with the escape sequences that select `style`.
pub fn styled(style: &Style, text: &String) -> (r: String)
    ensures
        r@ == styled_spec(style@, text@),
{
    let mut r = String::new();
    r.append("\u{1b}[0m");
    proof {
        reveal_strlit("\u{1b}[0m");
        assert("\u{1b}[0m"@ =~= seq!['\u{1b}', '[', '0', 'm']);
    }
    let deco = decoration(style);
    r.append(deco.as_str());
    r.append("\u{1b}[38;5;");
    proof {
        reveal_strlit("\u{1b}[38;5;");
        assert("\u{1b}[38;5;"@ =~= seq!['\u{1b}', '[', '3', '8', ';', '5', ';']);
    }
    push_decimal(&mut r, style.foreground as usize);
    r.append("m\u{1b}[48;5;");
    proof {
        reveal_strlit("m\u{1b}[48;5;");
        assert("m\u{1b}[48;5;"@ =~= seq!['m', '\u{1b}', '[', '4', '8', ';', '5', ';']);
    }
    push_decimal(&mut r, style.background as usize);
    r.append("m");
    proof {
        reveal_strlit("m");
        assert("m"@ =~= seq!['m']);
    }
    r.append(text.as_str());
    r
}

} // verus!
