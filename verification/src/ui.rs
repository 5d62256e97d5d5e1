//! The UI composition pipeline: a Window is one rendered frame, a Component
//! is one layer of the stack that takes events and contributes lines, and a
//! FileAction is the file work a layer asks its caller to perform, since no
//! component touches the disk itself.
use vstd::prelude::*;

use crate::document::Cursor;
use crate::document::CursorV;
use crate::document::Document;
use crate::terminal::Event;

verus! {

pub struct Window {
    pub lines: Vec<String>,
    pub cursor: Cursor,
}

/// Mathematical model of a rendered frame.
pub ghost struct WindowV {
    pub lines: Seq<Seq<char>>,
    pub cursor: CursorV,
}

impl View for Window {
    type V = WindowV;

    open spec fn view(&self) -> WindowV {
        WindowV { lines: self.lines@.map_values(|l: String| l@), cursor: self.cursor@ }
    }
}

/// File work that an update decided on and hands to the caller: opening a
/// named file into the current document, or saving the current document
/// under a name. The caller reports failure back as an error event.
pub enum FileAction {
    DoNothing,
    OpenFile(String),
    SaveFile(String),
}

/// One layer of the UI stack: it takes each event, either handling it or
/// passing it to its child, renders its share of the frame, and exposes the
/// document being edited.
pub trait Component: Sized {
    /// The layer's own well-formedness: every update and render keeps it.
    spec fn wf(&self) -> bool;

    fn update(&mut self, e: &Event, width: usize) -> (r: (bool, FileAction))
        requires
            old(self).wf(),
        ensures
            final(self).wf(),
    ;

    fn render(&mut self, width: usize, height: usize) -> (w: Window)
        requires
            old(self).wf(),
        ensures
            final(self).wf(),
    ;

    fn document(&self) -> (d: &Document)
        requires
            self.wf(),
    ;
}

} // verus!
