//! The tab bar: a nonempty list of text areas with one selected. Tab events
//! rotate, create and close tabs; everything else goes to the selected tab.
use vstd::prelude::*;

use crate::document::DocV;
use crate::document::Document;
use crate::document::doc_name;
use crate::document::doc_wf;
use crate::style::Decoration;
use crate::style::Style;
use crate::style::dec_digits;
use crate::style::spaces;
use crate::style::spaces_string;
use crate::style::push_decimal;
use crate::style::styled;
use crate::style::styled_spec;
use crate::style::StyleV;
use crate::terminal::Event;
use crate::text_area::TextArea;
use crate::text_area::TextAreaV;
use crate::text_area::ta_render_rel;
use crate::text_area::ta_update_spec;
use crate::ui::WindowV;
use crate::document::CursorV;
use crate::ui::Component;
use crate::ui::FileAction;
use crate::ui::Window;
use crate::document::Cursor;
use vstd::arithmetic::div_mod::lemma_fundamental_div_mod_converse_mod;
use vstd::std_specs::vec::vec_index_mut;

verus! {

pub struct Tabs {
    children: Vec<TextArea>,
    selected: usize,
}

/// Mathematical model of the tab bar.
pub ghost struct TabsV {
    pub children: Seq<TextAreaV>,
    pub selected: int,
}

impl View for Tabs {
    type V = TabsV;

    closed spec fn view(&self) -> TabsV {
        TabsV {
            children: self.children@.map_values(|c: TextArea| c@),
            selected: self.selected as int,
        }
    }
}

/// There is always at least one tab, the selection points at one of them,
/// and every tab's document is well formed.
pub open spec fn tabs_wf(s: TabsV) -> bool {
    &&& s.children.len() >= 1
    &&& 0 <= s.selected < s.children.len()
    &&& forall|i: int| 0 <= i < s.children.len() ==> doc_wf((#[trigger] s.children[i]).doc)
}

/// A fresh tab: a blank document, not yet scrolled.
pub open spec fn blank_tab() -> TextAreaV {
    TextAreaV {
        doc: DocV {
            rows: Seq::empty(),
            cursor: crate::document::CursorV { x: 0, y: 0 },
            filename: Option::None,
        },
        window_offset: 0,
    }
}

/// What one event does to the tab bar, and whether the frame is dirty.
pub open spec fn tabs_update_spec(s: TabsV, e: Event, cols: int) -> (TabsV, bool) {
    let len = s.children.len() as int;
    match e {
        Event::Next => (TabsV { children: s.children, selected: (s.selected + 1) % len }, true),
        Event::Prev => (
            TabsV { children: s.children, selected: (s.selected + len - 1) % len },
            true,
        ),
        Event::New => (
            TabsV {
                children: s.children.insert(s.selected + 1, blank_tab()),
                selected: s.selected + 1,
            },
            true,
        ),
        Event::Close => {
            let removed = s.children.remove(s.selected);
            let kept = if removed.len() == 0 {
                seq![blank_tab()]
            } else {
                removed
            };
            let len2 = kept.len() as int;
            (TabsV { children: kept, selected: (s.selected + len2 - 1) % len2 }, true)
        },
        _ => {
            let (ta, dirty) = ta_update_spec(s.children[s.selected], e, cols);
            (TabsV { children: s.children.update(s.selected, ta), selected: s.selected }, dirty)
        },
    }
}

/// The centered header: the current file's name and the tab position.
pub open spec fn tabs_header_text(s: TabsV) -> Seq<char> {
    doc_name(s.children[s.selected].doc) + seq![' ', '('] + dec_digits((s.selected + 1) as nat)
        + seq!['/'] + dec_digits(s.children.len() as nat) + seq![')']
}

/// The header's style: inverted, italic, underlined.
pub open spec fn header_style_v() -> StyleV {
    StyleV {
        foreground: 7,
        background: 0,
        decoration: seq![Decoration::Italic, Decoration::Underline],
    }
}

/// The full header line: the text centered by spaces, with one more space
/// when the width is odd, under the header style; a text wider than the
/// window is left as it is.
pub open spec fn tabs_header_line(s: TabsV, width: int) -> Seq<char> {
    let t = tabs_header_text(s);
    if t.len() >= width {
        styled_spec(header_style_v(), t)
    } else {
        let side = (width - t.len()) / 2;
        let pad = if t.len() + 2 * side < width {
            seq![' ']
        } else {
            Seq::<char>::empty()
        };
        styled_spec(header_style_v(), spaces(side) + t + spaces(side) + pad)
    }
}

/// Everything one render of the tab bar guarantees: the tabs themselves are
/// kept; without a row to draw on, nothing comes back; otherwise the
/// selected tab renders one line shorter, the centered header is prepended,
/// and the cursor moves down past it.
pub open spec fn tabs_render_rel(s0: TabsV, s1: TabsV, w: WindowV, cols: int, rows: int) -> bool {
    &&& s1.selected == s0.selected
    &&& s1.children.len() == s0.children.len()
    &&& forall|j: int|
        0 <= j < s0.children.len() && j != s0.selected ==> #[trigger] s1.children[j]
            == s0.children[j]
    &&& rows == 0 ==> w.lines.len() == 0 && w.cursor == (CursorV { x: 0, y: 0 }) && s1 == s0
    &&& rows >= 1 ==> exists|cw: WindowV|
        {
            &&& #[trigger] ta_render_rel(
                s0.children[s0.selected],
                s1.children[s0.selected],
                cw,
                cols,
                rows - 1,
            )
            &&& w.lines == seq![tabs_header_line(s0, cols)] + cw.lines
            &&& w.cursor.x == cw.cursor.x
            &&& w.cursor.y == cw.cursor.y + 1
        }
}

impl Tabs {
    pub fn new(child: TextArea) -> (t: Tabs)
        ensures
            t@.children =~= seq![child@],
            t@.selected == 0,
    {
        let mut children: Vec<TextArea> = Vec::new();
        children.push(child);
        Tabs { children, selected: 0 }
    }

    /// The selected tab.
    fn current_child(&mut self) -> (c: &mut TextArea)
        requires
            0 <= old(self)@.selected < old(self)@.children.len(),
        ensures
            (*c)@ == old(self)@.children[old(self)@.selected],
            final(self)@.selected == old(self)@.selected,
            final(self)@.children.len() == old(self)@.children.len(),
            forall|j: int|
                0 <= j < old(self)@.children.len() && j != old(self)@.selected
                    ==> #[trigger] final(self)@.children[j] == old(self)@.children[j],
            final(self)@.children[old(self)@.selected] == final(c)@,
    {
        let i = self.selected;
        vec_index_mut(&mut self.children, i)
    }

    /// Applies a tab command, or forwards the event to the selected tab.
    pub fn update(&mut self, e: &Event, width: usize) -> (r: (bool, FileAction))
        requires
            tabs_wf(old(self)@),
        ensures
            final(self)@ == tabs_update_spec(old(self)@, *e, width as int).0,
            r.0 == tabs_update_spec(old(self)@, *e, width as int).1,
            r.1 is DoNothing,
            tabs_wf(final(self)@),
            !r.0 ==> final(self)@ == old(self)@,
    {
        let len = self.children.len();
        match e {
            Event::Next => {
                let ns = if self.selected + 1 == len {
                    0
                } else {
                    self.selected + 1
                };
                proof {
                    if old(self)@.selected + 1 == len {
                        lemma_fundamental_div_mod_converse_mod(
                            old(self)@.selected + 1,
                            len as int,
                            1,
                            0,
                        );
                    } else {
                        lemma_fundamental_div_mod_converse_mod(
                            old(self)@.selected + 1,
                            len as int,
                            0,
                            old(self)@.selected + 1,
                        );
                    }
                }
                self.selected = ns;
                (true, FileAction::DoNothing)
            },
            Event::Prev => {
                let ns = if self.selected == 0 {
                    len - 1
                } else {
                    self.selected - 1
                };
                proof {
                    if old(self)@.selected == 0 {
                        lemma_fundamental_div_mod_converse_mod(
                            old(self)@.selected + len - 1,
                            len as int,
                            0,
                            len - 1,
                        );
                    } else {
                        lemma_fundamental_div_mod_converse_mod(
                            old(self)@.selected + len - 1,
                            len as int,
                            1,
                            old(self)@.selected - 1,
                        );
                    }
                }
                self.selected = ns;
                (true, FileAction::DoNothing)
            },
            Event::New => {
                let fresh = TextArea::new(Document::blank());
                self.children.insert(self.selected + 1, fresh);
                self.selected = self.selected + 1;
                proof {
                    assert(final(self)@.children =~= old(self)@.children.insert(
                        old(self)@.selected + 1,
                        blank_tab(),
                    ));
                }
                (true, FileAction::DoNothing)
            },
            Event::Close => {
                self.children.remove(self.selected);
                let ghost removed = old(self)@.children.remove(old(self)@.selected);
                proof {
                    assert(self@.children =~= removed);
                }
                if self.children.len() == 0 {
                    let fresh = TextArea::new(Document::blank());
                    self.children.push(fresh);
                    proof {
                        assert(self@.children =~= seq![blank_tab()]);
                    }
                }
                let len2 = self.children.len();
                let ns = if self.selected == 0 {
                    len2 - 1
                } else {
                    self.selected - 1
                };
                proof {
                    if old(self)@.selected == 0 {
                        lemma_fundamental_div_mod_converse_mod(
                            old(self)@.selected + len2 - 1,
                            len2 as int,
                            0,
                            len2 - 1,
                        );
                    } else if old(self)@.selected == len2 {
                        lemma_fundamental_div_mod_converse_mod(
                            old(self)@.selected + len2 - 1,
                            len2 as int,
                            1,
                            len2 - 1,
                        );
                        assert(ns == len2 - 1);
                    } else {
                        lemma_fundamental_div_mod_converse_mod(
                            old(self)@.selected + len2 - 1,
                            len2 as int,
                            1,
                            old(self)@.selected - 1,
                        );
                    }
                }
                self.selected = ns;
                (true, FileAction::DoNothing)
            },
            _ => {
                let ghost pre = self@;
                let r = self.current_child().update(e, width);
                proof {
                    let ta2 = ta_update_spec(pre.children[pre.selected], *e, width as int).0;
                    assert(final(self)@.children =~= pre.children.update(pre.selected, ta2));
                    if !r.0 {
                        assert(final(self)@.children =~= pre.children);
                    }
                }
                r
            },
        }
    }

    /// Renders the selected tab one line shorter and prepends the header.
    pub fn render(&mut self, width: usize, height: usize) -> (w: Window)
        requires
            tabs_wf(old(self)@),
        ensures
            tabs_wf(final(self)@),
            final(self)@.selected == old(self)@.selected,
            final(self)@.children.len() == old(self)@.children.len(),
            forall|i: int|
                0 <= i < old(self)@.children.len() && i != old(self)@.selected
                    ==> #[trigger] final(self)@.children[i] == old(self)@.children[i],
            final(self)@.children[old(self)@.selected].doc
                == old(self)@.children[old(self)@.selected].doc,
            height == 0 ==> w@.lines.len() == 0 && final(self)@ == old(self)@ && w@.cursor == (
            crate::document::CursorV { x: 0, y: 0 }),
            height >= 1 ==> w@.lines.len() == (if width >= 1 { height as int } else { 1int })
                && w@.lines[0] == tabs_header_line(old(self)@, width as int) && 1 <= w@.cursor.y
                <= height && (width >= 1 ==> 0 <= w@.cursor.x < width) && (height >= 2 && width >= 1
                ==> w@.cursor.y < height),
            tabs_render_rel(old(self)@, final(self)@, w@, width as int, height as int),
    {
        if height == 0 {
            let w = Window { lines: Vec::new(), cursor: Cursor { x: 0, y: 0 } };
            proof {
                assert(w@.lines =~= Seq::<Seq<char>>::empty());
            }
            return w;
        }
        let child_window = self.current_child().render(width, height - 1);
        let count = self.children.len();
        let name = self.children[self.selected].doc().name();
        let mut text = name;
        text.append(" (");
        proof {
            assert(self@.selected < count);
        }
        push_decimal(&mut text, self.selected + 1);
        text.append("/");
        push_decimal(&mut text, count);
        text.append(")");
        proof {
            reveal_strlit(" (");
            reveal_strlit("/");
            reveal_strlit(")");
            assert(" ("@ =~= seq![' ', '(']);
            assert("/"@ =~= seq!['/']);
            assert(")"@ =~= seq![')']);
            assert(text@ =~= tabs_header_text(old(self)@));
        }
        let tlen = text.as_str().unicode_len();
        let style = Style {
            foreground: 7,
            background: 0,
            decoration: {
                let mut d: Vec<Decoration> = Vec::new();
                d.push(Decoration::Italic);
                d.push(Decoration::Underline);
                d
            },
        };
        proof {
            assert(style@.decoration =~= header_style_v().decoration);
        }
        let header: String;
        if tlen >= width {
            header = styled(&style, &text);
            proof {
                assert(style@ == header_style_v()) by {
                    assert(style@.decoration =~= header_style_v().decoration);
                }
                assert(header@ =~= tabs_header_line(old(self)@, width as int));
            }
        } else {
            let side = (width - tlen) / 2;
            let mut padded = spaces_string(side);
            padded.append(text.as_str());
            let right = spaces_string(side);
            padded.append(right.as_str());
            proof {
                assert(2 * side == side + side);
            }
            if tlen + side + side < width {
                padded.append(" ");
                proof {
                    reveal_strlit(" ");
                    assert(" "@ =~= seq![' ']);
                }
            }
            header = styled(&style, &padded);
            proof {
                assert(style@ == header_style_v()) by {
                    assert(style@.decoration =~= header_style_v().decoration);
                }
                assert(header@ =~= tabs_header_line(old(self)@, width as int));
            }
        }
        let ghost cwv = child_window@;
        let mut lines: Vec<String> = Vec::new();
        lines.push(header);
        let mut rest = child_window.lines;
        let ghost restv = rest@;
        lines.append(&mut rest);
        proof {
            assert(lines@.len() == 1 + restv.len());
            assert(lines@[0]@ == header@);
        }
        let w = Window {
            lines,
            cursor: Cursor { x: child_window.cursor.x, y: child_window.cursor.y + 1 },
        };
        proof {
            let sel = old(self)@.selected;
            assert(ta_render_rel(
                old(self)@.children[sel],
                final(self)@.children[sel],
                cwv,
                width as int,
                height - 1,
            ));
            assert(w@.lines =~= seq![tabs_header_line(old(self)@, width as int)] + cwv.lines);
            assert(w@.cursor.x == cwv.cursor.x && w@.cursor.y == cwv.cursor.y + 1);
        }
        w
    }

    /// The selected tab's document.
    pub fn doc(&self) -> (d: &Document)
        requires
            0 <= self@.selected < self@.children.len(),
        ensures
            d@ == self@.children[self@.selected].doc,
    {
        self.children[self.selected].doc()
    }

    /// Mutable access to the selected tab's document.
    pub fn doc_mut(&mut self) -> (d: &mut Document)
        requires
            0 <= old(self)@.selected < old(self)@.children.len(),
        ensures
            (*d)@ == old(self)@.children[old(self)@.selected].doc,
            final(self)@.selected == old(self)@.selected,
            final(self)@.children.len() == old(self)@.children.len(),
            forall|j: int|
                0 <= j < old(self)@.children.len() && j != old(self)@.selected
                    ==> #[trigger] final(self)@.children[j] == old(self)@.children[j],
            final(self)@.children[old(self)@.selected] == (TextAreaV {
                doc: final(d)@,
                window_offset: old(self)@.children[old(self)@.selected].window_offset,
            }),
    {
        let i = self.selected;
        let c = vec_index_mut(&mut self.children, i);
        c.doc_mut()
    }
}

impl Component for Tabs {
    open spec fn wf(&self) -> bool {
        tabs_wf(self@)
    }

    fn update(&mut self, e: &Event, width: usize) -> (r: (bool, FileAction)) {
        Tabs::update(self, e, width)
    }

    fn render(&mut self, width: usize, height: usize) -> (w: Window) {
        Tabs::render(self, width, height)
    }

    fn document(&self) -> (d: &Document) {
        Tabs::doc(self)
    }
}

} // verus!
