//! The file chooser: prompts for a name on open and on the first save, and
//! decides which file work the caller must perform. It touches no file
//! itself; the caller opens or writes and reports back, and only a
//! successful open or save closes the prompt.
use vstd::prelude::*;

use crate::document::DocV;
use crate::document::Document;
use crate::document::doc_wf;
use crate::document::opened_doc;
use crate::find::Find;
use crate::find::FindV;
use crate::find::find_doc;
use crate::find::find_update_ok;
use crate::find::find_wf;
use crate::find::footer_style_v;
use crate::find::find_render_rel;
use crate::ui::WindowV;
use crate::document::CursorV;
use crate::style::Style;
use crate::style::styled;
use crate::style::styled_spec;
use crate::terminal::Event;
use crate::ui::Component;
use crate::ui::FileAction;
use crate::ui::Window;
use crate::document::Cursor;

verus! {

enum Selection {
    Open(String),
    Save(String),
}

pub struct FileChooser {
    child: Find,
    selection: Option<Selection>,
}

/// Mathematical model of a pending prompt: what is typed so far, and
/// whether it will save rather than open.
pub ghost struct SelV {
    pub saving: bool,
    pub text: Seq<char>,
}

/// Mathematical model of the file chooser.
pub ghost struct FileChooserV {
    pub child: FindV,
    pub selection: Option<SelV>,
}

impl View for FileChooser {
    type V = FileChooserV;

    closed spec fn view(&self) -> FileChooserV {
        FileChooserV {
            child: self.child@,
            selection: match self.selection {
                Option::Some(Selection::Open(s)) => Option::Some(
                    SelV { saving: false, text: s@ },
                ),
                Option::Some(Selection::Save(s)) => Option::Some(SelV { saving: true, text: s@ }),
                Option::None => Option::None,
            },
        }
    }
}

pub open spec fn fc_wf(s: FileChooserV) -> bool {
    find_wf(s.child)
}

/// The document currently being edited underneath.
pub open spec fn fc_doc(s: FileChooserV) -> DocV {
    find_doc(s.child)
}

/// The chooser's view with only the selection changed.
pub open spec fn fc_with_selection(s: FileChooserV, sel: Option<SelV>) -> FileChooserV {
    FileChooserV { child: s.child, selection: sel }
}

/// How one event changes the chooser, what it returns, and what file work
/// it asks for. While a prompt is open: input extends the name; Enter on a
/// nonempty name asks for the open (after a fresh tab was requested below)
/// or records the name and asks for the save, keeping the prompt; Escape
/// cancels; anything else is consumed. Otherwise Open starts an open
/// prompt, Save asks to save under the known name or starts a prompt, and
/// the rest passes through.
pub open spec fn fc_update_ok(
    s0: FileChooserV,
    s1: FileChooserV,
    e: Event,
    cols: int,
    dirty: bool,
    action: FileAction,
) -> bool {
    match s0.selection {
        Option::Some(sel) => match e {
            Event::Input(c) => {
                &&& s1 == fc_with_selection(
                    s0,
                    Option::Some(SelV { saving: sel.saving, text: sel.text + c@ }),
                )
                &&& dirty
                &&& action is DoNothing
            },
            Event::Enter => {
                if sel.text.len() == 0 {
                    s1 == s0 && dirty && action is DoNothing
                } else if sel.saving {
                    &&& s1.selection == s0.selection
                    &&& s1.child.search == s0.child.search
                    &&& s1.child.child.selected == s0.child.child.selected
                    &&& s1.child.child.children.len() == s0.child.child.children.len()
                    &&& forall|j: int|
                        0 <= j < s0.child.child.children.len() && j != s0.child.child.selected
                            ==> #[trigger] s1.child.child.children[j]
                            == s0.child.child.children[j]
                    &&& s1.child.child.children[s0.child.child.selected].window_offset
                        == s0.child.child.children[s0.child.child.selected].window_offset
                    &&& fc_doc(s1).rows == fc_doc(s0).rows
                    &&& fc_doc(s1).cursor == fc_doc(s0).cursor
                    &&& fc_doc(s1).filename == Option::Some(sel.text)
                    &&& dirty
                    &&& (action matches FileAction::SaveFile(n) && n@ == sel.text)
                } else {
                    &&& s1.selection == s0.selection
                    &&& find_update_ok(s0.child, s1.child, Event::New, cols, dirty)
                    &&& (action matches FileAction::OpenFile(n) && n@ == sel.text)
                }
            },
            Event::Escape => {
                s1 == fc_with_selection(s0, Option::None) && dirty && action is DoNothing
            },
            _ => s1 == s0 && !dirty && action is DoNothing,
        },
        Option::None => match e {
            Event::Open => {
                &&& s1 == fc_with_selection(
                    s0,
                    Option::Some(SelV { saving: false, text: Seq::empty() }),
                )
                &&& dirty
                &&& action is DoNothing
            },
            Event::Save => {
                match fc_doc(s0).filename {
                    Option::Some(name) => {
                        &&& s1 == s0
                        &&& dirty
                        &&& (action matches FileAction::SaveFile(n) && n@ == name)
                    },
                    Option::None => {
                        &&& s1 == fc_with_selection(
                            s0,
                            Option::Some(SelV { saving: true, text: Seq::empty() }),
                        )
                        &&& dirty
                        &&& action is DoNothing
                    },
                }
            },
            _ => {
                &&& s1.selection == s0.selection
                &&& find_update_ok(s0.child, s1.child, e, cols, dirty)
                &&& action is DoNothing
            },
        },
    }
}

/// Everything one render of the chooser guarantees: while no prompt is open
/// the frame is the find layer's; with one open, the layers below render
/// one line shorter and the prompt's footer is appended.
pub open spec fn fc_render_rel(
    s0: FileChooserV,
    s1: FileChooserV,
    w: WindowV,
    cols: int,
    rows: int,
) -> bool {
    &&& s1.selection == s0.selection
    &&& rows == 0 ==> w.lines.len() == 0 && w.cursor == (CursorV { x: 0, y: 0 }) && s1 == s0
    &&& rows >= 1 ==> match s0.selection {
        Option::None => find_render_rel(s0.child, s1.child, w, cols, rows),
        Option::Some(sel) => exists|cw: WindowV|
            {
                &&& #[trigger] find_render_rel(s0.child, s1.child, cw, cols, rows - 1)
                &&& w.lines == cw.lines.push(fc_footer_line(sel))
                &&& w.cursor == cw.cursor
            },
    }
}

/// The prompt's footer text, before styling.
pub open spec fn fc_prompt_text(sel: SelV) -> Seq<char> {
    if sel.saving {
        seq![' ', 'S', 'A', 'V', 'E', ' ', 'A', 'S', ':', ' '] + sel.text + seq![' ']
    } else {
        seq![' ', 'O', 'P', 'E', 'N', ':', ' '] + sel.text + seq![' ']
    }
}

pub open spec fn fc_footer_line(sel: SelV) -> Seq<char> {
    styled_spec(footer_style_v(), fc_prompt_text(sel))
}

impl FileChooser {
    pub fn new(child: Find) -> (f: FileChooser)
        ensures
            f@.child == child@,
            f@.selection is None,
    {
        FileChooser { child, selection: Option::None }
    }

    /// Handles the prompt, or forwards the event.
    pub fn update(&mut self, e: &Event, width: usize) -> (r: (bool, FileAction))
        requires
            fc_wf(old(self)@),
        ensures
            fc_update_ok(old(self)@, final(self)@, *e, width as int, r.0, r.1),
            fc_wf(final(self)@),
            !r.0 ==> final(self)@ == old(self)@,
    {
        let active = match &self.selection {
            Option::Some(_) => true,
            Option::None => false,
        };
        if active {
            match e {
                Event::Input(c) => {
                    let saving = match &self.selection {
                        Option::Some(Selection::Save(_)) => true,
                        _ => false,
                    };
                    let mut text = match &self.selection {
                        Option::Some(Selection::Open(s)) => s.clone(),
                        Option::Some(Selection::Save(s)) => s.clone(),
                        Option::None => String::new(),
                    };
                    text.append(c.as_str());
                    if saving {
                        self.selection = Option::Some(Selection::Save(text));
                    } else {
                        self.selection = Option::Some(Selection::Open(text));
                    }
                    (true, FileAction::DoNothing)
                },
                Event::Enter => {
                    let saving = match &self.selection {
                        Option::Some(Selection::Save(_)) => true,
                        _ => false,
                    };
                    let text = match &self.selection {
                        Option::Some(Selection::Open(s)) => s.clone(),
                        Option::Some(Selection::Save(s)) => s.clone(),
                        Option::None => String::new(),
                    };
                    if text.as_str().is_empty() {
                        (true, FileAction::DoNothing)
                    } else if saving {
                        let ghost pre = self@;
                        self.child.doc_mut().set_filename(text.clone());
                        proof {
                            assert(fc_wf(final(self)@)) by {
                                assert forall|i: int|
                                    0 <= i < final(self)@.child.child.children.len() implies doc_wf(
                                    (#[trigger] final(self)@.child.child.children[i]).doc,
                                ) by {
                                    if i != pre.child.child.selected {
                                        assert(final(self)@.child.child.children[i]
                                            == pre.child.child.children[i]);
                                    }
                                }
                            }
                        }
                        (true, FileAction::SaveFile(text))
                    } else {
                        let dirty = self.child.update(&Event::New, width).0;
                        (dirty, FileAction::OpenFile(text))
                    }
                },
                Event::Escape => {
                    self.selection = Option::None;
                    (true, FileAction::DoNothing)
                },
                _ => (false, FileAction::DoNothing),
            }
        } else {
            match e {
                Event::Open => {
                    self.selection = Option::Some(Selection::Open(String::new()));
                    (true, FileAction::DoNothing)
                },
                Event::Save => {
                    let existing = match &self.child.doc().filename {
                        Option::Some(name) => Option::Some(name.clone()),
                        Option::None => Option::None,
                    };
                    match existing {
                        Option::Some(name) => (true, FileAction::SaveFile(name)),
                        Option::None => {
                            self.selection = Option::Some(Selection::Save(String::new()));
                            (true, FileAction::DoNothing)
                        },
                    }
                },
                _ => {
                    let r = self.child.update(e, width);
                    r
                },
            }
        }
    }

    /// A successful open lands here: the prompt closes and the new tab is
    /// filled with the file's lines under its name.
    pub fn finish_open(&mut self, filename: String, contents: &str)
        requires
            fc_wf(old(self)@),
        ensures
            fc_wf(final(self)@),
            final(self)@.selection is None,
            final(self)@.child.search == old(self)@.child.search,
            final(self)@.child.child.selected == old(self)@.child.child.selected,
            final(self)@.child.child.children.len() == old(self)@.child.child.children.len(),
            forall|j: int|
                0 <= j < old(self)@.child.child.children.len() && j != old(
                    self,
                )@.child.child.selected ==> #[trigger] final(self)@.child.child.children[j] == old(
                    self,
                )@.child.child.children[j],
            opened_doc(fc_doc(final(self)@), filename@, contents@),
    {
        self.selection = Option::None;
        let ghost pre = self@;
        self.child.doc_mut().open_str(filename, contents);
        proof {
            assert(fc_wf(final(self)@)) by {
                assert forall|i: int|
                    0 <= i < final(self)@.child.child.children.len() implies doc_wf(
                    (#[trigger] final(self)@.child.child.children[i]).doc,
                ) by {
                    if i != pre.child.child.selected {
                        assert(final(self)@.child.child.children[i]
                            == pre.child.child.children[i]);
                    }
                }
            }
        }
    }

    /// A successful save lands here: the prompt closes.
    pub fn finish_save(&mut self)
        ensures
            final(self)@ == fc_with_selection(old(self)@, Option::None),
            fc_wf(old(self)@) ==> fc_wf(final(self)@),
    {
        self.selection = Option::None;
    }

    /// Passes rendering through; while the prompt is open, one line is kept
    /// back for the footer.
    pub fn render(&mut self, width: usize, height: usize) -> (w: Window)
        requires
            fc_wf(old(self)@),
        ensures
            fc_wf(final(self)@),
            final(self)@.selection == old(self)@.selection,
            fc_doc(final(self)@) == fc_doc(old(self)@),
            height == 0 ==> w@.lines.len() == 0 && final(self)@ == old(self)@ && w@.cursor == (
            crate::document::CursorV { x: 0, y: 0 }),
            height >= 1 && width >= 1 ==> w@.lines.len() == height && 0 <= w@.cursor.x < width && 0
                <= w@.cursor.y <= height,
            height >= 2 && width >= 1 ==> w@.cursor.y < height,
            height >= 1 && width >= 1 && (old(self)@.selection matches Option::Some(sel))
                ==> w@.lines[height - 1] == fc_footer_line(old(self)@.selection->0)
                && w@.cursor.y < height,
            fc_render_rel(old(self)@, final(self)@, w@, width as int, height as int),
    {
        if height == 0 {
            let w = Window { lines: Vec::new(), cursor: Cursor { x: 0, y: 0 } };
            proof {
                assert(w@.lines =~= Seq::<Seq<char>>::empty());
            }
            return w;
        }
        let active = match &self.selection {
            Option::Some(_) => true,
            Option::None => false,
        };
        if !active {
            let w = self.child.render(width, height);
            return w;
        }
        let child_window = self.child.render(width, height - 1);
        let saving = match &self.selection {
            Option::Some(Selection::Save(_)) => true,
            _ => false,
        };
        let mut text: String;
        if saving {
            text = String::from_str(" SAVE AS: ");
            proof {
                reveal_strlit(" SAVE AS: ");
                assert(" SAVE AS: "@ =~= seq![' ', 'S', 'A', 'V', 'E', ' ', 'A', 'S', ':', ' ']);
            }
        } else {
            text = String::from_str(" OPEN: ");
            proof {
                reveal_strlit(" OPEN: ");
                assert(" OPEN: "@ =~= seq![' ', 'O', 'P', 'E', 'N', ':', ' ']);
            }
        }
        match &self.selection {
            Option::Some(Selection::Open(s)) => {
                text.append(s.as_str());
            },
            Option::Some(Selection::Save(s)) => {
                text.append(s.as_str());
            },
            Option::None => {},
        }
        text.append(" ");
        proof {
            reveal_strlit(" ");
            assert(" "@ =~= seq![' ']);
        }
        let style = Style { foreground: 7, background: 12, decoration: Vec::new() };
        let footer = styled(&style, &text);
        let ghost cwv = child_window@;
        let mut lines = child_window.lines;
        lines.push(footer);
        let w = Window { lines, cursor: child_window.cursor };
        proof {
            assert(style@ == footer_style_v()) by {
                assert(style@.decoration =~= footer_style_v().decoration);
            }
            assert(text@ =~= fc_prompt_text(old(self)@.selection->0));
            assert(footer@ == fc_footer_line(old(self)@.selection->0));
            assert(w@.lines =~= cwv.lines.push(fc_footer_line(old(self)@.selection->0)));
            assert(w@.cursor == cwv.cursor);
            if width >= 1 {
                assert(w@.lines[height - 1] == lines@[height - 1]@);
                assert(w@.lines[height - 1] == fc_footer_line(old(self)@.selection->0));
            }
        }
        w
    }

    /// The document being edited.
    pub fn doc(&self) -> (d: &Document)
        requires
            fc_wf(self@),
        ensures
            d@ == fc_doc(self@),
    {
        self.child.doc()
    }
}

impl Component for FileChooser {
    open spec fn wf(&self) -> bool {
        fc_wf(self@)
    }

    fn update(&mut self, e: &Event, width: usize) -> (r: (bool, FileAction)) {
        FileChooser::update(self, e, width)
    }

    fn render(&mut self, width: usize, height: usize) -> (w: Window) {
        FileChooser::render(self, width, height)
    }

    fn document(&self) -> (d: &Document) {
        FileChooser::doc(self)
    }
}

} // verus!
