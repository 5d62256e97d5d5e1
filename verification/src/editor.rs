//! The editor: the UI stack over a blank document, the current terminal
//! size, and the computation of the byte stream one frame costs, reusing
//! unchanged lines of the previous frame. The caller owns the loop: it reads
//! events, performs the file work and the writes, and feeds errors back.
use vstd::prelude::*;

use crate::document::Document;
use crate::document::doc_wf;
use crate::file_chooser::FileChooser;
use crate::file_chooser::FileChooserV;
use crate::find::Find;
use crate::find::FindV;
use crate::status::Status;
use crate::status::StatusV;
use crate::status::status_doc;
use crate::status::status_footer_line;
use crate::status::status_update_ok;
use crate::status::status_render_rel;
use crate::status::status_wf;
use crate::status::inc_sat;
use crate::style::dec_digits;
use crate::style::push_decimal;
use crate::tabs::Tabs;
use crate::tabs::TabsV;
use crate::terminal::Event;
use crate::terminal::clear_line_spec;
use crate::terminal::hide_cursor;
use crate::terminal::hide_cursor_spec;
use crate::terminal::show_cursor;
use crate::terminal::show_cursor_spec;
use crate::terminal::zero_cursor;
use crate::terminal::zero_cursor_spec;
use crate::text_area::TextArea;
use crate::text_area::TextAreaV;
use crate::ui::FileAction;
use crate::ui::Window;
use crate::ui::WindowV;

verus! {

pub struct Editor {
    width: usize,
    height: usize,
    root: Status,
}

/// Mathematical model of the editor.
pub ghost struct EditorV {
    pub width: int,
    pub height: int,
    pub root: StatusV,
}

impl View for Editor {
    type V = EditorV;

    closed spec fn view(&self) -> EditorV {
        EditorV { width: self.width as int, height: self.height as int, root: self.root@ }
    }
}

pub open spec fn editor_wf(s: EditorV) -> bool {
    status_wf(s.root)
}

/// What the main loop does with an event before dispatching it.
pub enum Control {
    PauseNow,
    ResumeNow,
    Quit,
    Dispatch,
}

/// Pause, Resume and Exit steer the loop itself; everything else is
/// dispatched to the UI stack.
pub fn control_of(e: &Event) -> (c: Control)
    ensures
        (e is Pause) == (c is PauseNow),
        (e is Resume) == (c is ResumeNow),
        (e is Exit) == (c is Quit),
        !(e is Pause) && !(e is Resume) && !(e is Exit) ==> c is Dispatch,
{
    match e {
        Event::Pause => Control::PauseNow,
        Event::Resume => Control::ResumeNow,
        Event::Exit => Control::Quit,
        _ => Control::Dispatch,
    }
}

/// The cursor-positioning escape sequence, one-based.
pub open spec fn position_cursor_spec(x: int, y: int) -> Seq<char> {
    seq!['\u{1b}', '['] + dec_digits(inc_sat(y) as nat) + seq![';'] + dec_digits(
        inc_sat(x) as nat,
    ) + seq!['H']
}

/// The bytes that redraw rows `i..=height`: an unchanged line is skipped by
/// repositioning the cursor below it; a changed line is written, cleared to
/// the edge when short, and followed by a newline unless it is the last.
pub open spec fn draw_lines_spec(
    lines: Seq<Seq<char>>,
    prev: Seq<Seq<char>>,
    width: int,
    height: int,
    i: int,
) -> Seq<char>
    decreases height - i + 1,
{
    if i > height || i < 1 {
        Seq::empty()
    } else {
        let line = lines[i - 1];
        let piece = if 0 <= i - 1 < prev.len() && prev[i - 1] == line {
            position_cursor_spec(0, i)
        } else {
            line + (if line.len() < width {
                clear_line_spec()
            } else {
                Seq::<char>::empty()
            }) + (if i < height {
                seq!['\r', '\n']
            } else {
                Seq::<char>::empty()
            })
        };
        piece + draw_lines_spec(lines, prev, width, height, i + 1)
    }
}

/// The whole byte stream of one frame: cursor hidden and homed, the rows,
/// the cursor placed and shown again; nothing between when the window has
/// no extent.
pub open spec fn frame_spec(wv: WindowV, prev: WindowV, width: int, height: int) -> Seq<char> {
    hide_cursor_spec() + zero_cursor_spec() + (if width >= 1 && height >= 1 {
        draw_lines_spec(wv.lines, prev.lines, width, height, 1) + position_cursor_spec(
            wv.cursor.x,
            wv.cursor.y,
        )
    } else {
        Seq::<char>::empty()
    }) + show_cursor_spec()
}

/// Appends the cursor-positioning sequence for `(x, y)`.
fn push_position_cursor(out: &mut String, x: usize, y: usize)
    ensures
        final(out)@ == old(out)@ + position_cursor_spec(x as int, y as int),
{
    out.append("\u{1b}[");
    proof {
        reveal_strlit("\u{1b}[");
        assert("\u{1b}["@ =~= seq!['\u{1b}', '[']);
    }
    let y1 = if y < usize::MAX {
        y + 1
    } else {
        y
    };
    push_decimal(out, y1);
    out.append(";");
    proof {
        reveal_strlit(";");
        assert(";"@ =~= seq![';']);
    }
    let x1 = if x < usize::MAX {
        x + 1
    } else {
        x
    };
    push_decimal(out, x1);
    out.append("H");
    proof {
        reveal_strlit("H");
        assert("H"@ =~= seq!['H']);
    }
}

impl Editor {
    /// The standard stack: status over file chooser over find over tabs
    /// over one text area.
    pub fn create_root(document: Document) -> (r: Status)
        requires
            doc_wf(document@),
        ensures
            r@ == (StatusV {
                child: FileChooserV {
                    child: FindV {
                        child: TabsV {
                            children: seq![
                                TextAreaV { doc: document@, window_offset: 0 },
                            ],
                            selected: 0,
                        },
                        search: Option::None,
                    },
                    selection: Option::None,
                },
                error: Option::None,
            }),
            status_wf(r@),
    {
        let r = Status::new(
            FileChooser::new(Find::new(Tabs::new(TextArea::new(document)))),
        );
        proof {
            assert(r@.child.child.child.children =~= seq![
                TextAreaV { doc: document@, window_offset: 0 },
            ]);
        }
        r
    }

    /// A fresh editor: no known size yet, a single tab on a blank document.
    pub fn new() -> (r: Editor)
        ensures
            r@.width == 0,
            r@.height == 0,
            editor_wf(r@),
            r@.root == (StatusV {
                child: FileChooserV {
                    child: FindV {
                        child: TabsV {
                            children: seq![crate::tabs::blank_tab()],
                            selected: 0,
                        },
                        search: Option::None,
                    },
                    selection: Option::None,
                },
                error: Option::None,
            }),
    {
        let r = Editor { width: 0, height: 0, root: Editor::create_root(Document::blank()) };
        proof {
            assert(r@.root.child.child.child.children =~= seq![crate::tabs::blank_tab()]);
        }
        r
    }

    /// A resize is applied here; every other event goes down the stack.
    pub fn update(&mut self, e: Event) -> (r: (bool, FileAction))
        requires
            editor_wf(old(self)@),
        ensures
            editor_wf(final(self)@),
            (e matches Event::Resize(w, h)) ==> final(self)@ == (EditorV {
                width: e->Resize_0 as int,
                height: e->Resize_1 as int,
                root: old(self)@.root,
            }) && r.0 && r.1 is DoNothing,
            !(e matches Event::Resize(w, h)) ==> final(self)@.width == old(self)@.width
                && final(self)@.height == old(self)@.height && status_update_ok(
                old(self)@.root,
                final(self)@.root,
                e,
                old(self)@.width,
                r.0,
                r.1,
            ),
    {
        match e {
            Event::Resize(w, h) => {
                self.width = w;
                self.height = h;
                (true, FileAction::DoNothing)
            },
            _ => self.root.update(&e, self.width),
        }
    }

    /// Renders one frame and computes the bytes that bring the screen from
    /// the previous frame to it.
    pub fn draw(&mut self, prev: &Window) -> (r: (Window, String))
        requires
            editor_wf(old(self)@),
        ensures
            editor_wf(final(self)@),
            final(self)@.width == old(self)@.width,
            final(self)@.height == old(self)@.height,
            final(self)@.root.error == old(self)@.root.error,
            status_doc(final(self)@.root) == status_doc(old(self)@.root),
            r.1@ == frame_spec(r.0@, prev@, old(self)@.width, old(self)@.height),
            status_render_rel(
                old(self)@.root,
                final(self)@.root,
                r.0@,
                old(self)@.width,
                old(self)@.height,
            ),
            old(self)@.width >= 1 && old(self)@.height >= 1 ==> r.0@.lines.len() == old(
                self,
            )@.height && 0 <= r.0@.cursor.x < old(self)@.width && 0 <= r.0@.cursor.y < old(
                self,
            )@.height && r.0@.lines[old(self)@.height - 1] == status_footer_line(
                old(self)@.root,
                old(self)@.width,
            ),
    {
        let mut out = hide_cursor();
        let zero = zero_cursor();
        out.append(zero.as_str());
        if self.width == 0 || self.height == 0 {
            let window = self.root.render(self.width, self.height);
            let ghost pre = out@;
            let show = show_cursor();
            out.append(show.as_str());
            proof {
                if self@.height == 0 {
                    assert(window@.lines =~= Seq::<Seq<char>>::empty());
                }
                assert(out@ =~= frame_spec(window@, prev@, old(self)@.width, old(self)@.height));
            }
            return (window, out);
        }
        let window = self.root.render(self.width, self.height);
        let height = self.height;
        let width = self.width;
        let ghost lv = window@.lines;
        let ghost pv = prev@.lines;
        let mut j: usize = 0;
        proof {
            assert(out@ =~= hide_cursor_spec() + zero_cursor_spec());
        }
        while j < height
            invariant
                0 <= j <= height,
                height >= 1,
                width >= 1,
                lv == window@.lines,
                pv == prev@.lines,
                window@.lines.len() == height,
                prev.lines@.len() == pv.len(),
                window.lines@.len() == lv.len(),
                forall|k: int| 0 <= k < lv.len() ==> #[trigger] window.lines@[k]@ == lv[k],
                forall|k: int| 0 <= k < pv.len() ==> #[trigger] prev.lines@[k]@ == pv[k],
                out@ + draw_lines_spec(lv, pv, width as int, height as int, j + 1)
                    =~= hide_cursor_spec() + zero_cursor_spec() + draw_lines_spec(
                    lv,
                    pv,
                    width as int,
                    height as int,
                    1,
                ),
            decreases height - j,
        {
            let i = j + 1;
            let line = &window.lines[i - 1];
            let mut same = false;
            if i - 1 < prev.lines.len() {
                if prev.lines[i - 1] == *line {
                    same = true;
                }
            }
            if same {
                push_position_cursor(&mut out, 0, i);
            } else {
                out.append(line.as_str());
                if line.as_str().unicode_len() < width {
                    let clear = crate::terminal::clear_line();
                    out.append(clear.as_str());
                }
                if i < height {
                    out.append("\r\n");
                    proof {
                        reveal_strlit("\r\n");
                        assert("\r\n"@ =~= seq!['\r', '\n']);
                    }
                }
            }
            j = i;
        }
        push_position_cursor(&mut out, window.cursor.x, window.cursor.y);
        let show = show_cursor();
        out.append(show.as_str());
        proof {
            assert(draw_lines_spec(lv, pv, width as int, height as int, height + 1)
                =~= Seq::<char>::empty());
            assert(out@ =~= frame_spec(window@, prev@, old(self)@.width, old(self)@.height));
        }
        (window, out)
    }

    /// The document being edited.
    pub fn doc(&self) -> (d: &Document)
        requires
            editor_wf(self@),
        ensures
            d@ == status_doc(self@.root),
    {
        self.root.doc()
    }

    /// A successful open lands here.
    pub fn finish_open(&mut self, filename: String, contents: &str)
        requires
            editor_wf(old(self)@),
        ensures
            editor_wf(final(self)@),
            final(self)@.width == old(self)@.width,
            final(self)@.height == old(self)@.height,
            crate::document::opened_doc(status_doc(final(self)@.root), filename@, contents@),
    {
        self.root.finish_open(filename, contents);
    }

    /// A successful save lands here.
    pub fn finish_save(&mut self)
        requires
            editor_wf(old(self)@),
        ensures
            editor_wf(final(self)@),
            final(self)@.width == old(self)@.width,
            final(self)@.height == old(self)@.height,
            final(self)@.root.child.selection is None,
            status_doc(final(self)@.root) == status_doc(old(self)@.root),
    {
        self.root.finish_save();
    }
}

} // verus!
