//! The find layer: while a search prompt is open it consumes input, builds
//! the search string, and on Enter moves the document cursor to the next
//! match; otherwise it passes events through.
use vstd::prelude::*;

use crate::document::DocV;
use crate::document::Document;
use crate::document::find_next_rel;
use crate::style::Style;
use crate::style::StyleV;
use crate::style::styled;
use crate::style::styled_spec;
use crate::tabs::Tabs;
use crate::tabs::TabsV;
use crate::tabs::tabs_render_rel;
use crate::ui::WindowV;
use crate::document::CursorV;
use crate::tabs::tabs_update_spec;
use crate::tabs::tabs_wf;
use crate::terminal::Event;
use crate::ui::Component;
use crate::ui::FileAction;
use crate::ui::Window;
use crate::document::Cursor;

verus! {

pub struct Find {
    child: Tabs,
    search: Option<String>,
}

/// Mathematical model of the find layer.
pub ghost struct FindV {
    pub child: TabsV,
    pub search: Option<Seq<char>>,
}

impl View for Find {
    type V = FindV;

    closed spec fn view(&self) -> FindV {
        FindV {
            child: self.child@,
            search: match self.search {
                Option::Some(s) => Option::Some(s@),
                Option::None => Option::None,
            },
        }
    }
}

pub open spec fn find_wf(s: FindV) -> bool {
    tabs_wf(s.child)
}

/// The document currently being edited underneath.
pub open spec fn find_doc(s: FindV) -> DocV {
    s.child.children[s.child.selected].doc
}

/// How one event changes the find layer. A Find event always opens a fresh
/// prompt. While the prompt is open: input extends the search string, Enter
/// searches (leaving the prompt open), Escape closes it, anything else is
/// consumed without effect. Otherwise events pass through.
pub open spec fn find_update_ok(s0: FindV, s1: FindV, e: Event, cols: int, dirty: bool) -> bool {
    if e is Find {
        s1 == (FindV { child: s0.child, search: Option::Some(Seq::<char>::empty()) }) && dirty
    } else {
        match s0.search {
            Option::Some(q) => match e {
                Event::Input(c) => {
                    s1 == (FindV { child: s0.child, search: Option::Some(q + c@) }) && dirty
                },
                Event::Enter => {
                    &&& dirty
                    &&& s1.search == s0.search
                    &&& if q.len() == 0 {
                        s1 == s0
                    } else {
                        let sel = s0.child.selected;
                        &&& s1.child.selected == sel
                        &&& s1.child.children.len() == s0.child.children.len()
                        &&& forall|j: int|
                            0 <= j < s0.child.children.len() && j != sel
                                ==> #[trigger] s1.child.children[j] == s0.child.children[j]
                        &&& s1.child.children[sel].window_offset
                            == s0.child.children[sel].window_offset
                        &&& find_next_rel(
                            s0.child.children[sel].doc,
                            s1.child.children[sel].doc,
                            q,
                        )
                    }
                },
                Event::Escape => {
                    s1 == (FindV { child: s0.child, search: Option::None }) && dirty
                },
                _ => s1 == s0 && !dirty,
            },
            Option::None => {
                let step = tabs_update_spec(s0.child, e, cols);
                s1 == (FindV { child: step.0, search: Option::None }) && dirty == step.1
            },
        }
    }
}

/// The footer shown while the prompt is open.
pub open spec fn footer_style_v() -> StyleV {
    StyleV { foreground: 7, background: 12, decoration: Seq::empty() }
}

pub open spec fn find_footer_line(q: Seq<char>) -> Seq<char> {
    styled_spec(footer_style_v(), seq![' ', 'F', 'I', 'N', 'D', ':', ' '] + q + seq![' '])
}

/// Everything one render of the find layer guarantees: while no prompt is
/// open the frame is the tab bar's; with one open, the tab bar renders one
/// line shorter and the prompt's footer is appended.
pub open spec fn find_render_rel(s0: FindV, s1: FindV, w: WindowV, cols: int, rows: int) -> bool {
    &&& s1.search == s0.search
    &&& rows == 0 ==> w.lines.len() == 0 && w.cursor == (CursorV { x: 0, y: 0 }) && s1 == s0
    &&& rows >= 1 ==> match s0.search {
        Option::None => tabs_render_rel(s0.child, s1.child, w, cols, rows),
        Option::Some(q) => exists|cw: WindowV|
            {
                &&& #[trigger] tabs_render_rel(s0.child, s1.child, cw, cols, rows - 1)
                &&& w.lines == cw.lines.push(find_footer_line(q))
                &&& w.cursor == cw.cursor
            },
    }
}

impl Find {
    pub fn new(child: Tabs) -> (f: Find)
        ensures
            f@.child == child@,
            f@.search is None,
    {
        Find { child, search: Option::None }
    }

    /// Handles the search prompt, or forwards the event.
    pub fn update(&mut self, e: &Event, width: usize) -> (r: (bool, FileAction))
        requires
            find_wf(old(self)@),
        ensures
            find_update_ok(old(self)@, final(self)@, *e, width as int, r.0),
            r.1 is DoNothing,
            find_wf(final(self)@),
            !r.0 ==> final(self)@ == old(self)@,
    {
        if let Event::Find = e {
            self.search = Option::Some(String::new());
            return (true, FileAction::DoNothing);
        }
        let active = match &self.search {
            Option::Some(_) => true,
            Option::None => false,
        };
        if active {
            match e {
                Event::Input(c) => {
                    let mut q = match &self.search {
                        Option::Some(s) => s.clone(),
                        Option::None => String::new(),
                    };
                    q.append(c.as_str());
                    self.search = Option::Some(q);
                    (true, FileAction::DoNothing)
                },
                Event::Enter => {
                    let q = match &self.search {
                        Option::Some(s) => s.clone(),
                        Option::None => String::new(),
                    };
                    if !q.as_str().is_empty() {
                        let ghost pre = self@;
                        self.child.doc_mut().find_next(q);
                        proof {
                            assert(find_wf(final(self)@)) by {
                                assert forall|i: int|
                                    0 <= i < final(self)@.child.children.len() implies
                                    crate::document::doc_wf(
                                    (#[trigger] final(self)@.child.children[i]).doc,
                                ) by {
                                    if i != pre.child.selected {
                                        assert(final(self)@.child.children[i]
                                            == pre.child.children[i]);
                                    }
                                }
                            }
                        }
                    }
                    (true, FileAction::DoNothing)
                },
                Event::Escape => {
                    self.search = Option::None;
                    (true, FileAction::DoNothing)
                },
                _ => (false, FileAction::DoNothing),
            }
        } else {
            let r = self.child.update(e, width);
            r
        }
    }

    /// Passes rendering through; while the prompt is open, one line is kept
    /// back for the footer.
    pub fn render(&mut self, width: usize, height: usize) -> (w: Window)
        requires
            find_wf(old(self)@),
        ensures
            find_wf(final(self)@),
            final(self)@.search == old(self)@.search,
            find_doc(final(self)@) == find_doc(old(self)@),
            height == 0 ==> w@.lines.len() == 0 && final(self)@ == old(self)@ && w@.cursor == (
            crate::document::CursorV { x: 0, y: 0 }),
            height >= 1 && width >= 1 ==> w@.lines.len() == height && 0 <= w@.cursor.x < width && 0
                <= w@.cursor.y <= height,
            height >= 2 && width >= 1 ==> w@.cursor.y < height,
            height >= 1 && width >= 1 && (old(self)@.search matches Option::Some(q)) ==> w@.lines[
                height - 1
            ] == find_footer_line(old(self)@.search->0) && w@.cursor.y < height,
            find_render_rel(old(self)@, final(self)@, w@, width as int, height as int),
    {
        if height == 0 {
            let w = Window { lines: Vec::new(), cursor: Cursor { x: 0, y: 0 } };
            proof {
                assert(w@.lines =~= Seq::<Seq<char>>::empty());
            }
            return w;
        }
        let active = match &self.search {
            Option::Some(_) => true,
            Option::None => false,
        };
        if !active {
            let w = self.child.render(width, height);
            return w;
        }
        let child_window = self.child.render(width, height - 1);
        let mut text = String::from_str(" FIND: ");
        proof {
            reveal_strlit(" FIND: ");
            assert(" FIND: "@ =~= seq![' ', 'F', 'I', 'N', 'D', ':', ' ']);
        }
        match &self.search {
            Option::Some(s) => {
                text.append(s.as_str());
            },
            Option::None => {},
        }
        text.append(" ");
        proof {
            reveal_strlit(" ");
            assert(" "@ =~= seq![' ']);
        }
        let style = Style { foreground: 7, background: 12, decoration: Vec::new() };
        proof {
            assert(style@.decoration =~= footer_style_v().decoration);
        }
        let footer = styled(&style, &text);
        let ghost cwv = child_window@;
        let mut lines = child_window.lines;
        let ghost pre_lines = lines@;
        lines.push(footer);
        let w = Window { lines, cursor: child_window.cursor };
        proof {
            assert(footer@ == styled_spec(footer_style_v(), text@)) by {
                assert(style@ == footer_style_v()) by {
                    assert(style@.decoration =~= footer_style_v().decoration);
                }
            }
            assert(text@ =~= seq![' ', 'F', 'I', 'N', 'D', ':', ' '] + (old(self)@.search->0)
                + seq![' ']);
            assert(w@.lines =~= cwv.lines.push(find_footer_line(old(self)@.search->0)));
            assert(w@.cursor == cwv.cursor);
            if width >= 1 {
                assert(style@ == footer_style_v()) by {
                    assert(style@.decoration =~= footer_style_v().decoration);
                }
                assert(text@ =~= seq![' ', 'F', 'I', 'N', 'D', ':', ' '] + (old(self)@.search->0)
                    + seq![' ']);
                assert(w@.lines[height - 1] == lines@[height - 1]@);
                assert(footer@ == find_footer_line(old(self)@.search->0));
                assert(w@.lines[height - 1] == find_footer_line(old(self)@.search->0));
            }
        }
        w
    }

    /// The document being edited.
    pub fn doc(&self) -> (d: &Document)
        requires
            find_wf(self@),
        ensures
            d@ == find_doc(self@),
    {
        self.child.doc()
    }

    /// Mutable access to the document being edited.
    pub fn doc_mut(&mut self) -> (d: &mut Document)
        requires
            find_wf(old(self)@),
        ensures
            (*d)@ == find_doc(old(self)@),
            final(self)@.search == old(self)@.search,
            final(self)@.child.selected == old(self)@.child.selected,
            final(self)@.child.children.len() == old(self)@.child.children.len(),
            forall|j: int|
                0 <= j < old(self)@.child.children.len() && j != old(self)@.child.selected
                    ==> #[trigger] final(self)@.child.children[j] == old(self)@.child.children[j],
            final(self)@.child.children[old(self)@.child.selected] == (crate::text_area::TextAreaV {
                doc: final(d)@,
                window_offset: old(self)@.child.children[old(self)@.child.selected].window_offset,
            }),
    {
        self.child.doc_mut()
    }
}

impl Component for Find {
    open spec fn wf(&self) -> bool {
        find_wf(self@)
    }

    fn update(&mut self, e: &Event, width: usize) -> (r: (bool, FileAction)) {
        Find::update(self, e, width)
    }

    fn render(&mut self, width: usize, height: usize) -> (w: Window) {
        Find::render(self, width, height)
    }

    fn document(&self) -> (d: &Document) {
        Find::doc(self)
    }
}

} // verus!
