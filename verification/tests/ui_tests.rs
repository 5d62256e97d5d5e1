use tedit::document::Cursor;
use tedit::document::Document;
use tedit::editor::Control;
use tedit::editor::Editor;
use tedit::editor::control_of;
use tedit::file_chooser::FileChooser;
use tedit::find::Find;
use tedit::status::Status;
use tedit::tabs::Tabs;
use tedit::terminal::Event;
use tedit::text_area::TextArea;
use tedit::ui::FileAction;

fn prefix() -> String {
    String::from("\u{1b}[0m\u{1b}[38;5;7m\u{1b}[48;5;234m")
}

#[test]
fn insert_and_render_scenario() {
    let mut area = TextArea::new(Document::blank());
    area.update(&Event::Input(String::from("h")), 80);
    area.update(&Event::Input(String::from("i")), 80);
    area.update(&Event::Enter, 80);
    area.update(&Event::Input(String::from("!")), 80);
    assert_eq!(area.doc().rows.len(), 2);
    assert_eq!(area.doc().rows[0].as_string(), "hi");
    assert_eq!(area.doc().rows[1].as_string(), "!");
    assert_eq!(area.doc().cursor, Cursor { x: 1, y: 1 });
    let window = area.render(80, 24);
    assert_eq!(window.lines.len(), 24);
    assert_eq!(window.cursor, Cursor { x: 1, y: 1 });
}

#[test]
fn soft_wrap_scenario() {
    let mut area = TextArea::new(Document::blank());
    {
        let doc = area.doc_mut();
        doc.open_str(String::from("f"), "aaaaaaaaaa");
    }
    let window = area.render(4, 5);
    assert_eq!(window.lines.len(), 5);
    let clear = "\u{1b}[K";
    assert_eq!(window.lines[0], format!("{}{}aaa", prefix(), prefix()));
    assert_eq!(window.lines[1], format!("{}{}aaa", prefix(), prefix()));
    assert_eq!(window.lines[2], format!("{}{}aaa", prefix(), prefix()));
    assert_eq!(window.lines[3], format!("{}{}a{}", prefix(), prefix(), clear));
    assert_eq!(window.lines[4], format!("{}~{}", prefix(), clear));
    assert_eq!(window.cursor, Cursor { x: 0, y: 0 });
}

#[test]
fn viewport_scrolls_to_reveal_cursor() {
    let mut area = TextArea::new(Document::blank());
    {
        let doc = area.doc_mut();
        doc.open_str(String::from("f"), "1\n2\n3\n4\n5\n6");
        doc.cursor.y = 5;
    }
    let window = area.render(10, 3);
    assert_eq!(window.lines.len(), 3);
    assert_eq!(window.cursor, Cursor { x: 0, y: 2 });
    let again = area.render(10, 3);
    assert_eq!(again.cursor, Cursor { x: 0, y: 2 });
}

#[test]
fn vertical_motion_in_wrapped_row() {
    let mut area = TextArea::new(Document::blank());
    {
        let doc = area.doc_mut();
        doc.open_str(String::from("f"), "aaaaaaaaaa");
        doc.cursor.x = 9;
    }
    area.up(4);
    assert_eq!(area.doc().cursor.x, 5);
    area.down(4);
    assert_eq!(area.doc().cursor.x, 9);
    area.up(4);
    area.up(4);
    area.up(4);
    assert_eq!(area.doc().cursor.x, 0);
}

#[test]
fn tabs_rotate_create_and_close() {
    let mut tabs = Tabs::new(TextArea::new(Document::blank()));
    let (dirty, _) = tabs.update(&Event::New, 80);
    assert!(dirty);
    tabs.update(&Event::Input(String::from("b")), 80);
    assert_eq!(tabs.doc().rows[0].as_string(), "b");
    tabs.update(&Event::Prev, 80);
    assert_eq!(tabs.doc().rows.len(), 0);
    tabs.update(&Event::Next, 80);
    assert_eq!(tabs.doc().rows[0].as_string(), "b");
    tabs.update(&Event::Close, 80);
    assert_eq!(tabs.doc().rows.len(), 0);
    tabs.update(&Event::Close, 80);
    assert_eq!(tabs.doc().rows.len(), 0);
}

#[test]
fn tabs_header_is_centered() {
    let mut tabs = Tabs::new(TextArea::new(Document::blank()));
    let window = tabs.render(20, 3);
    assert_eq!(window.lines.len(), 3);
    let header = "\u{1b}[0m\u{1b}[3m\u{1b}[4m\u{1b}[38;5;7m\u{1b}[48;5;0m";
    assert_eq!(
        window.lines[0],
        format!("{}   New File (1/1)   ", header)
    );
    assert_eq!(window.cursor, Cursor { x: 0, y: 1 });
}

#[test]
fn find_collects_input_and_moves_cursor() {
    let mut find = Find::new(Tabs::new(TextArea::new(Document::blank())));
    {
        // Reach the document through the stack to load a file.
        let doc = find.doc_mut();
        doc.open_str(String::from("f"), "foo\nbarfoo");
    }
    let (dirty, _) = find.update(&Event::Find, 80);
    assert!(dirty);
    find.update(&Event::Input(String::from("f")), 80);
    find.update(&Event::Input(String::from("o")), 80);
    find.update(&Event::Input(String::from("o")), 80);
    find.update(&Event::Enter, 80);
    assert_eq!(find.doc().cursor, Cursor { x: 3, y: 1 });
    // While the prompt is open, editing events are consumed.
    let (dirty, _) = find.update(&Event::Backspace, 80);
    assert!(!dirty);
    assert_eq!(find.doc().rows.len(), 2);
    find.update(&Event::Escape, 80);
    // Now events reach the text area again.
    let (dirty, _) = find.update(&Event::Backspace, 80);
    assert!(dirty);
}

#[test]
fn find_renders_footer() {
    let mut find = Find::new(Tabs::new(TextArea::new(Document::blank())));
    find.update(&Event::Find, 80);
    find.update(&Event::Input(String::from("q")), 80);
    let window = find.render(20, 4);
    assert_eq!(window.lines.len(), 4);
    assert_eq!(
        window.lines[3],
        "\u{1b}[0m\u{1b}[38;5;7m\u{1b}[48;5;12m FIND: q "
    );
}

#[test]
fn file_chooser_open_flow() {
    let mut chooser = FileChooser::new(Find::new(Tabs::new(TextArea::new(Document::blank()))));
    let (dirty, action) = chooser.update(&Event::Open, 80);
    assert!(dirty);
    assert!(matches!(action, FileAction::DoNothing));
    chooser.update(&Event::Input(String::from("n")), 80);
    chooser.update(&Event::Input(String::from("o")), 80);
    let (_, action) = chooser.update(&Event::Enter, 80);
    match action {
        FileAction::OpenFile(name) => assert_eq!(name, "no"),
        _ => panic!("expected an open request"),
    }
    chooser.finish_open(String::from("no"), "line\n");
    assert_eq!(chooser.doc().rows[0].as_string(), "line");
    assert_eq!(chooser.doc().name(), "no");
    // The prompt is closed: editing events pass through again.
    let (dirty, _) = chooser.update(&Event::Input(String::from("x")), 80);
    assert!(dirty);
    assert_eq!(chooser.doc().rows[0].as_string(), "xline");
}

#[test]
fn file_chooser_save_flow() {
    let mut chooser = FileChooser::new(Find::new(Tabs::new(TextArea::new(Document::blank()))));
    // No file name yet: Save opens the prompt.
    let (dirty, action) = chooser.update(&Event::Save, 80);
    assert!(dirty);
    assert!(matches!(action, FileAction::DoNothing));
    chooser.update(&Event::Input(String::from("f")), 80);
    let (_, action) = chooser.update(&Event::Enter, 80);
    match action {
        FileAction::SaveFile(name) => assert_eq!(name, "f"),
        _ => panic!("expected a save request"),
    }
    chooser.finish_save();
    assert_eq!(chooser.doc().name(), "f");
    // With the name known, Save asks directly.
    let (_, action) = chooser.update(&Event::Save, 80);
    match action {
        FileAction::SaveFile(name) => assert_eq!(name, "f"),
        _ => panic!("expected a save request"),
    }
}

#[test]
fn file_chooser_escape_cancels() {
    let mut chooser = FileChooser::new(Find::new(Tabs::new(TextArea::new(Document::blank()))));
    chooser.update(&Event::Open, 80);
    chooser.update(&Event::Input(String::from("n")), 80);
    chooser.update(&Event::Escape, 80);
    let (dirty, _) = chooser.update(&Event::Input(String::from("x")), 80);
    assert!(dirty);
    assert_eq!(chooser.doc().rows[0].as_string(), "x");
}

#[test]
fn status_banner_swallows_until_escape() {
    let mut status = Status::new(FileChooser::new(Find::new(Tabs::new(TextArea::new(
        Document::blank(),
    )))));
    let (dirty, _) = status.update(&Event::Error(String::from("boom")), 80);
    assert!(dirty);
    // Swallowed: the document does not change, the frame is not dirty.
    let (dirty, _) = status.update(&Event::Input(String::from("x")), 80);
    assert!(!dirty);
    assert_eq!(status.doc().rows.len(), 0);
    let (dirty, _) = status.update(&Event::Escape, 80);
    assert!(dirty);
    let (dirty, _) = status.update(&Event::Input(String::from("x")), 80);
    assert!(dirty);
    assert_eq!(status.doc().rows[0].as_string(), "x");
}

#[test]
fn status_footer_shows_position() {
    let mut status = Status::new(FileChooser::new(Find::new(Tabs::new(TextArea::new(
        Document::blank(),
    )))));
    status.update(&Event::Input(String::from("a")), 20);
    let window = status.render(20, 4);
    assert_eq!(window.lines.len(), 4);
    assert_eq!(
        window.lines[3],
        format!("\u{1b}[0m\u{1b}[38;5;0m\u{1b}[48;5;7m {}1:2 ", " ".repeat(15))
    );
}

#[test]
fn status_footer_shows_error() {
    let mut status = Status::new(FileChooser::new(Find::new(Tabs::new(TextArea::new(
        Document::blank(),
    )))));
    status.update(&Event::Error(String::from("bad")), 24);
    let window = status.render(24, 4);
    assert_eq!(
        window.lines[3],
        format!("\u{1b}[0m\u{1b}[38;5;7m\u{1b}[48;5;9m ERROR: bad{}1:1 ", " ".repeat(9))
    );
}

#[test]
fn editor_applies_resize_and_classifies_control() {
    let mut editor = Editor::new();
    let (dirty, _) = editor.update(Event::Resize(100, 30));
    assert!(dirty);
    let prev = tedit::ui::Window { lines: Vec::new(), cursor: Cursor { x: 0, y: 0 } };
    let (window, bytes) = editor.draw(&prev);
    assert_eq!(window.lines.len(), 30);
    assert!(bytes.starts_with("\u{1b}[?25l\u{1b}[H"));
    assert!(bytes.ends_with("\u{1b}[?25h"));
    assert!(matches!(control_of(&Event::Pause), Control::PauseNow));
    assert!(matches!(control_of(&Event::Resume), Control::ResumeNow));
    assert!(matches!(control_of(&Event::Exit), Control::Quit));
    assert!(matches!(control_of(&Event::Input(String::from("a"))), Control::Dispatch));
}

#[test]
fn editor_draw_skips_unchanged_lines() {
    let mut editor = Editor::new();
    editor.update(Event::Resize(10, 3));
    let prev = tedit::ui::Window { lines: Vec::new(), cursor: Cursor { x: 0, y: 0 } };
    let (window, first) = editor.draw(&prev);
    let (_, second) = editor.draw(&window);
    // Nothing changed, so the second frame only repositions the cursor.
    assert!(second.len() < first.len());
    assert!(second.contains("\u{1b}[3;1H"));
    assert!(!first.contains("\u{1b}[3;1H"));
}

#[test]
fn render_survives_narrow_window_and_wide_cells() {
    let mut area = TextArea::new(Document::blank());
    {
        let doc = area.doc_mut();
        doc.open_str(String::from("f"), "\ta\tb\t");
        doc.cursor.x = 5;
    }
    for (w, h) in [(1, 1), (2, 3), (3, 2), (4, 4)] {
        let window = area.render(w, h);
        assert_eq!(window.lines.len(), h);
        assert!((window.cursor.x) < w);
        assert!((window.cursor.y) < h);
    }
}

#[test]
fn cursor_stays_in_bounds_through_edits() {
    let mut area = TextArea::new(Document::blank());
    let events = [
        Event::Input(String::from("a")),
        Event::Tab,
        Event::Enter,
        Event::Input(String::from("b")),
        Event::Up,
        Event::End,
        Event::Delete,
        Event::Down,
        Event::Backspace,
        Event::Left,
        Event::Right,
        Event::Home,
        Event::Enter,
        Event::Backspace,
    ];
    for e in events {
        area.update(&e, 8);
        let doc = area.doc();
        let rows = doc.rows.len();
        assert!(doc.cursor.y < if rows == 0 { 1 } else { rows });
        if rows > 0 {
            assert!(doc.cursor.x <= doc.rows[doc.cursor.y].len());
        } else {
            assert_eq!(doc.cursor.x, 0);
        }
    }
}
