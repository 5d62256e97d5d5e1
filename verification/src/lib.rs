//! Core of a terminal text editor: a document of rows of styled cells with a
//! cursor, soft-wrapping viewport logic, a stack of UI components that hand
//! events down and compose rendered frames, and the pure part of the
//! terminal event pipeline. All I/O lives outside this crate; everything
//! here is verified.
pub mod document;
pub mod editor;
pub mod file_chooser;
pub mod find;
pub mod status;
pub mod style;
pub mod tabs;
pub mod terminal;
pub mod text_area;
pub mod ui;
pub mod unicode;
