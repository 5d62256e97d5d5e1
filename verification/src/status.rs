//! The status layer, outermost: it shows a footer with the cursor position,
//! catches error events into a banner, and while the banner is up swallows
//! everything but Escape.
use vstd::prelude::*;

use crate::document::DocV;
use crate::document::Document;
use crate::document::opened_doc;
use crate::file_chooser::FileChooser;
use crate::file_chooser::FileChooserV;
use crate::file_chooser::fc_doc;
use crate::file_chooser::fc_update_ok;
use crate::file_chooser::fc_wf;
use crate::file_chooser::fc_with_selection;
use crate::file_chooser::fc_render_rel;
use crate::ui::WindowV;
use crate::document::CursorV;
use crate::style::Style;
use crate::style::StyleV;
use crate::style::dec_digits;
use crate::style::push_decimal;
use crate::style::styled;
use crate::style::styled_spec;
use crate::style::spaces;
use crate::terminal::Event;
use crate::ui::Component;
use crate::ui::FileAction;
use crate::ui::Window;
use crate::document::Cursor;

verus! {

pub struct Status {
    child: FileChooser,
    error: Option<String>,
}

/// Mathematical model of the status layer.
pub ghost struct StatusV {
    pub child: FileChooserV,
    pub error: Option<Seq<char>>,
}

impl View for Status {
    type V = StatusV;

    closed spec fn view(&self) -> StatusV {
        StatusV {
            child: self.child@,
            error: match self.error {
                Option::Some(s) => Option::Some(s@),
                Option::None => Option::None,
            },
        }
    }
}

pub open spec fn status_wf(s: StatusV) -> bool {
    fc_wf(s.child)
}

/// The document currently being edited underneath.
pub open spec fn status_doc(s: StatusV) -> DocV {
    fc_doc(s.child)
}

/// How one event changes the status layer: an error event raises the
/// banner; while the banner is up only Escape (which clears it) has any
/// effect; otherwise events pass through.
pub open spec fn status_update_ok(
    s0: StatusV,
    s1: StatusV,
    e: Event,
    cols: int,
    dirty: bool,
    action: FileAction,
) -> bool {
    match e {
        Event::Error(msg) => {
            &&& s1 == (StatusV { child: s0.child, error: Option::Some(msg@) })
            &&& dirty
            &&& action is DoNothing
        },
        _ => {
            match s0.error {
                Option::Some(_) => {
                    if e is Escape {
                        s1 == (StatusV { child: s0.child, error: Option::None }) && dirty
                            && action is DoNothing
                    } else {
                        s1 == s0 && !dirty && action is DoNothing
                    }
                },
                Option::None => {
                    &&& s1.error is None
                    &&& fc_update_ok(s0.child, s1.child, e, cols, dirty, action)
                },
            }
        },
    }
}

/// One more, saturating at the machine bound.
pub open spec fn inc_sat(v: int) -> int {
    if v + 1 <= usize::MAX {
        v + 1
    } else {
        v
    }
}

/// The footer's text before styling: a space, the error banner if one is
/// up, spaces to push the cursor position to the right edge, the one-based
/// position, a space.
pub open spec fn status_text(s: StatusV, width: int) -> Seq<char> {
    let banner = match s.error {
        Option::Some(msg) => seq!['E', 'R', 'R', 'O', 'R', ':', ' '] + msg,
        Option::None => Seq::<char>::empty(),
    };
    let position = dec_digits(inc_sat(status_doc(s).cursor.y) as nat) + seq![':'] + dec_digits(
        inc_sat(status_doc(s).cursor.x) as nat,
    );
    let gap = width - banner.len() - position.len() - 2;
    seq![' '] + banner + spaces(gap) + position + seq![' ']
}

/// The footer's style: alarming while the banner is up, plain otherwise.
pub open spec fn status_style_v(s: StatusV) -> StyleV {
    match s.error {
        Option::Some(_) => StyleV { foreground: 7, background: 9, decoration: Seq::empty() },
        Option::None => StyleV { foreground: 0, background: 7, decoration: Seq::empty() },
    }
}

pub open spec fn status_footer_line(s: StatusV, width: int) -> Seq<char> {
    styled_spec(status_style_v(s), status_text(s, width))
}

/// Everything one render of the status layer guarantees: the layers below
/// render one line shorter and the footer is appended.
pub open spec fn status_render_rel(
    s0: StatusV,
    s1: StatusV,
    w: WindowV,
    cols: int,
    rows: int,
) -> bool {
    &&& s1.error == s0.error
    &&& rows == 0 ==> w.lines.len() == 0 && w.cursor == (CursorV { x: 0, y: 0 }) && s1 == s0
    &&& rows >= 1 ==> exists|cw: WindowV|
        {
            &&& #[trigger] fc_render_rel(s0.child, s1.child, cw, cols, rows - 1)
            &&& w.lines == cw.lines.push(status_footer_line(s0, cols))
            &&& w.cursor == cw.cursor
        }
}

impl Status {
    pub fn new(child: FileChooser) -> (s: Status)
        ensures
            s@.child == child@,
            s@.error is None,
    {
        Status { child, error: Option::None }
    }

    /// Catches errors, swallows events while the banner is up, forwards the
    /// rest.
    pub fn update(&mut self, e: &Event, width: usize) -> (r: (bool, FileAction))
        requires
            status_wf(old(self)@),
        ensures
            status_update_ok(old(self)@, final(self)@, *e, width as int, r.0, r.1),
            status_wf(final(self)@),
            !r.0 ==> final(self)@ == old(self)@,
    {
        if let Event::Error(msg) = e {
            self.error = Option::Some(msg.clone());
            return (true, FileAction::DoNothing);
        }
        let banner_up = match &self.error {
            Option::Some(_) => true,
            Option::None => false,
        };
        if banner_up {
            if let Event::Escape = e {
                self.error = Option::None;
                (true, FileAction::DoNothing)
            } else {
                (false, FileAction::DoNothing)
            }
        } else {
            let r = self.child.update(e, width);
            r
        }
    }

    /// A successful open lands here: it reaches the chooser below.
    pub fn finish_open(&mut self, filename: String, contents: &str)
        requires
            status_wf(old(self)@),
        ensures
            status_wf(final(self)@),
            final(self)@.error == old(self)@.error,
            final(self)@.child.selection is None,
            opened_doc(status_doc(final(self)@), filename@, contents@),
    {
        self.child.finish_open(filename, contents);
    }

    /// A successful save lands here: it reaches the chooser below.
    pub fn finish_save(&mut self)
        requires
            status_wf(old(self)@),
        ensures
            status_wf(final(self)@),
            final(self)@.error == old(self)@.error,
            final(self)@ == (StatusV {
                child: fc_with_selection(old(self)@.child, Option::None),
                error: old(self)@.error,
            }),
    {
        self.child.finish_save();
    }

    /// Renders the layers below one line shorter and appends the footer.
    pub fn render(&mut self, width: usize, height: usize) -> (w: Window)
        requires
            status_wf(old(self)@),
        ensures
            status_wf(final(self)@),
            final(self)@.error == old(self)@.error,
            status_doc(final(self)@) == status_doc(old(self)@),
            height == 0 ==> w@.lines.len() == 0 && final(self)@ == old(self)@ && w@.cursor == (
            crate::document::CursorV { x: 0, y: 0 }),
            height >= 1 && width >= 1 ==> w@.lines.len() == height && 0 <= w@.cursor.x < width && 0
                <= w@.cursor.y < height && w@.lines[height - 1] == status_footer_line(
                old(self)@,
                width as int,
            ),
            status_render_rel(old(self)@, final(self)@, w@, width as int, height as int),
    {
        if height == 0 {
            let w = Window { lines: Vec::new(), cursor: Cursor { x: 0, y: 0 } };
            proof {
                assert(w@.lines =~= Seq::<Seq<char>>::empty());
            }
            return w;
        }
        let child_window = self.child.render(width, height - 1);
        let mut banner = String::new();
        match &self.error {
            Option::Some(msg) => {
                banner.append("ERROR: ");
                proof {
                    reveal_strlit("ERROR: ");
                    assert("ERROR: "@ =~= seq!['E', 'R', 'R', 'O', 'R', ':', ' ']);
                }
                banner.append(msg.as_str());
            },
            Option::None => {},
        }
        let doc = self.child.doc();
        let cy = doc.cursor.y;
        let cx = doc.cursor.x;
        let row1 = if cy < usize::MAX {
            cy + 1
        } else {
            cy
        };
        let col1 = if cx < usize::MAX {
            cx + 1
        } else {
            cx
        };
        let mut position = String::new();
        push_decimal(&mut position, row1);
        position.append(":");
        proof {
            reveal_strlit(":");
            assert(":"@ =~= seq![':']);
        }
        push_decimal(&mut position, col1);
        let blen = banner.as_str().unicode_len();
        let plen = position.as_str().unicode_len();
        let mut text = String::from_str(" ");
        proof {
            reveal_strlit(" ");
            assert(" "@ =~= seq![' ']);
        }
        text.append(banner.as_str());
        if width > 2 && blen < width - 2 && plen < width - 2 - blen {
            let gap = crate::style::spaces_string(width - 2 - blen - plen);
            text.append(gap.as_str());
        } else {
            proof {
                assert(width as int - blen - plen - 2 <= 0);
                assert(spaces(width as int - blen - plen - 2) =~= Seq::<char>::empty());
            }
        }
        text.append(position.as_str());
        text.append(" ");
        let style = match &self.error {
            Option::Some(_) => Style { foreground: 7, background: 9, decoration: Vec::new() },
            Option::None => Style { foreground: 0, background: 7, decoration: Vec::new() },
        };
        let footer = styled(&style, &text);
        let ghost cwv = child_window@;
        let mut lines = child_window.lines;
        lines.push(footer);
        let w = Window { lines, cursor: child_window.cursor };
        proof {
            assert(style@ == status_style_v(old(self)@)) by {
                assert(style@.decoration =~= status_style_v(old(self)@).decoration);
            }
            assert(text@ =~= status_text(old(self)@, width as int));
            assert(footer@ == status_footer_line(old(self)@, width as int));
            assert(w@.lines =~= cwv.lines.push(status_footer_line(old(self)@, width as int)));
            assert(w@.cursor == cwv.cursor);
            if width >= 1 {
                assert(w@.lines[height - 1] == lines@[height - 1]@);
            }
        }
        w
    }

    /// The document being edited.
    pub fn doc(&self) -> (d: &Document)
        requires
            status_wf(self@),
        ensures
            d@ == status_doc(self@),
    {
        self.child.doc()
    }
}

impl Component for Status {
    open spec fn wf(&self) -> bool {
        status_wf(self@)
    }

    fn update(&mut self, e: &Event, width: usize) -> (r: (bool, FileAction)) {
        Status::update(self, e, width)
    }

    fn render(&mut self, width: usize, height: usize) -> (w: Window) {
        Status::render(self, width, height)
    }

    fn document(&self) -> (d: &Document) {
        Status::doc(self)
    }
}

} // verus!
