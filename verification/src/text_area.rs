//! The leaf of the UI stack: it owns the document, applies editing events to
//! it, and renders the soft-wrapped viewport around the cursor.
use vstd::prelude::*;

use crate::document::CellV;
use crate::document::Cursor;
use crate::document::CursorV;
use crate::document::DocV;
use crate::document::Document;
use crate::document::current_len;
use crate::document::cursor_display_x_at;
use crate::document::delete_next_tx;
use crate::document::delete_prev_tx;
use crate::document::doc_wf;
use crate::document::down_tx;
use crate::document::end_of_line_tx;
use crate::document::insert_line_tx;
use crate::document::insert_tx;
use crate::document::lemma_render_wrap_len;
use crate::document::row_prefix_width;
use crate::document::row_width;
use crate::document::soft_wrap_spec;
use crate::document::start_of_line_tx;
use crate::document::tab_tx;
use crate::document::up_tx;
use crate::document::with_cursor;
use crate::document::wrap_from;
use crate::document::wrap_rows;
use crate::style::content_style;
use crate::style::content_style_v;
use crate::style::styled;
use crate::style::styled_spec;
use crate::terminal::Event;
use crate::terminal::clear_line;
use crate::terminal::clear_line_spec;
use crate::ui::Component;
use crate::ui::FileAction;
use crate::ui::Window;
use crate::ui::WindowV;
use vstd::arithmetic::div_mod::lemma_fundamental_div_mod;
use vstd::arithmetic::div_mod::lemma_multiply_divide_lt;

verus! {

pub struct TextArea {
    document: Document,
    window_offset: usize,
}

/// Mathematical model of the text area: the document and the first visible
/// visual line.
pub ghost struct TextAreaV {
    pub doc: DocV,
    pub window_offset: int,
}

impl View for TextArea {
    type V = TextAreaV;

    closed spec fn view(&self) -> TextAreaV {
        TextAreaV { doc: self.document@, window_offset: self.window_offset as int }
    }
}

/// Cursor motion one visual line up: within a wrapped row when a full wrap
/// width fits below the cursor column, otherwise onto the last visual line
/// of the row above, clamped to its end.
pub open spec fn ta_up_spec(s: TextAreaV, cols: int) -> TextAreaV {
    let d = s.doc;
    if d.cursor.x >= cols {
        TextAreaV {
            doc: with_cursor(d, d.cursor.x - cols, d.cursor.y),
            window_offset: s.window_offset,
        }
    } else if d.cursor.y == 0 {
        TextAreaV { doc: with_cursor(d, 0, d.cursor.y), window_offset: s.window_offset }
    } else {
        let d2 = up_tx(d);
        let len = current_len(d2);
        let jump = (len / cols) * cols;
        let nx = if d2.cursor.x + jump <= len {
            d2.cursor.x + jump
        } else {
            len
        };
        TextAreaV { doc: with_cursor(d2, nx, d2.cursor.y), window_offset: s.window_offset }
    }
}

/// Cursor motion one visual line down: within the wrapped row while another
/// wrap width fits before its end, otherwise onto the row below at the same
/// visual column.
pub open spec fn ta_down_spec(s: TextAreaV, cols: int) -> TextAreaV {
    let d = s.doc;
    if d.rows.len() == 0 {
        s
    } else if d.cursor.x + cols < current_len(d) {
        TextAreaV {
            doc: with_cursor(d, d.cursor.x + cols, d.cursor.y),
            window_offset: s.window_offset,
        }
    } else {
        TextAreaV {
            doc: down_tx(with_cursor(d, d.cursor.x % cols, d.cursor.y)),
            window_offset: s.window_offset,
        }
    }
}

/// What one event does to the text area, and whether the frame is dirty.
pub open spec fn ta_update_spec(s: TextAreaV, e: Event, cols: int) -> (TextAreaV, bool) {
    match e {
        Event::Input(c) => {
            if c@.len() == 1 && c@[0] != '\n' {
                (TextAreaV { doc: insert_tx(s.doc, c@), window_offset: s.window_offset }, true)
            } else {
                (s, false)
            }
        },
        Event::Up => (if cols >= 1 { ta_up_spec(s, cols) } else { s }, true),
        Event::Down => (if cols >= 1 { ta_down_spec(s, cols) } else { s }, true),
        Event::Left => (TextAreaV { doc: crate::document::left_tx(s.doc), window_offset: s.window_offset }, true),
        Event::Right => (TextAreaV { doc: crate::document::right_tx(s.doc), window_offset: s.window_offset }, true),
        Event::PageUp => (s, true),
        Event::PageDown => (s, true),
        Event::Home => (TextAreaV { doc: start_of_line_tx(s.doc), window_offset: s.window_offset }, true),
        Event::End => (TextAreaV { doc: end_of_line_tx(s.doc), window_offset: s.window_offset }, true),
        Event::Tab => (TextAreaV { doc: tab_tx(s.doc), window_offset: s.window_offset }, true),
        Event::Delete => (TextAreaV { doc: delete_next_tx(s.doc), window_offset: s.window_offset }, true),
        Event::Backspace => (TextAreaV { doc: delete_prev_tx(s.doc), window_offset: s.window_offset }, true),
        Event::Enter => (TextAreaV { doc: insert_line_tx(s.doc), window_offset: s.window_offset }, true),
        _ => (s, false),
    }
}

/// The wrapped lines of the first `k` rows, flattened in order.
pub open spec fn flat_upto(rows: Seq<Seq<CellV>>, cols: int, k: int) -> Seq<Seq<char>>
    decreases k,
{
    if k <= 0 {
        Seq::empty()
    } else {
        flat_upto(rows, cols, k - 1) + soft_wrap_spec(rows[k - 1], cols, clear_line_spec())
    }
}

/// Every row of the document wrapped, flattened into one list of lines.
pub open spec fn flat_lines(d: DocV, cols: int) -> Seq<Seq<char>> {
    flat_upto(d.rows, cols, d.rows.len() as int)
}

/// The visual column of the cursor.
pub open spec fn wrapped_cursor_x(d: DocV, cols: int) -> int {
    cursor_display_x_at(d) % cols
}

/// The index of the cursor's visual line among all wrapped lines.
pub open spec fn wrapped_cursor_y(d: DocV, cols: int) -> int {
    flat_upto(d.rows, cols, d.cursor.y).len() + cursor_display_x_at(d) / cols
}

/// Scrolling to reveal: the window moves just enough to contain line `cy`.
pub open spec fn scrolled_offset(off: int, cy: int, height: int) -> int {
    if cy < off {
        cy
    } else if cy > off + height - 1 {
        cy - height + 1
    } else {
        off
    }
}

/// `k` filler lines: a tilde, then clear-to-end-of-line.
pub open spec fn pad_lines(k: int) -> Seq<Seq<char>>
    decreases k,
{
    if k <= 0 {
        Seq::empty()
    } else {
        pad_lines(k - 1).push(seq!['~'] + clear_line_spec())
    }
}

/// The `height` lines shown from `off`: wrapped lines while they last, then
/// filler.
pub open spec fn ta_visible(flat: Seq<Seq<char>>, off: int, height: int) -> Seq<Seq<char>> {
    let to = if off + height <= flat.len() {
        off + height
    } else {
        flat.len() as int
    };
    flat.subrange(off, to) + pad_lines(height - (to - off))
}

/// Every cell of the document is narrower than the wrap width.
pub open spec fn narrow_doc(d: DocV, cols: int) -> bool {
    forall|i: int, j: int|
        0 <= i < d.rows.len() && 0 <= j < d.rows[i].len() ==> 0 <= (#[trigger] d.rows[i][j]).width
            < cols
}

/// Row widths add over concatenation.
proof fn lemma_row_width_concat(a: Seq<CellV>, b: Seq<CellV>)
    ensures
        row_width(a + b) == row_width(a) + row_width(b),
    decreases b.len(),
{
    if b.len() == 0 {
        assert(a + b =~= a);
    } else {
        lemma_row_width_concat(a, b.drop_last());
        assert((a + b).drop_last() =~= a + b.drop_last());
        assert((a + b).last() == b.last());
    }
}

/// A prefix sum of cell widths never exceeds the row's full width, when no
/// cell has negative width.
proof fn lemma_prefix_width_le(r: Seq<CellV>, x: int)
    requires
        0 <= x <= r.len(),
        forall|i: int| 0 <= i < r.len() ==> (#[trigger] r[i]).width >= 0,
    ensures
        row_prefix_width(r, x) <= row_width(r),
        row_prefix_width(r, x) >= 0,
    decreases r.len(),
{
    if r.len() == 0 {
    } else if x == r.len() {
        lemma_prefix_width_le(r.drop_last(), x - 1);
        assert forall|i: int| 0 <= i < r.drop_last().len() implies (#[trigger] r.drop_last()[i]).width
            >= 0 by {
            assert(r.drop_last()[i] == r[i]);
        }
        lemma_prefix_width_equal_drop(r, x - 1);
    } else {
        assert forall|i: int| 0 <= i < r.drop_last().len() implies (#[trigger] r.drop_last()[i]).width
            >= 0 by {
            assert(r.drop_last()[i] == r[i]);
        }
        lemma_prefix_width_le(r.drop_last(), x);
        lemma_prefix_width_equal_drop(r, x);
        assert(row_width(r) == row_width(r.drop_last()) + r.last().width);
    }
}

/// A prefix sum only reads the cells before its bound.
proof fn lemma_prefix_width_equal_drop(r: Seq<CellV>, x: int)
    requires
        0 <= x < r.len(),
    ensures
        row_prefix_width(r, x) == row_prefix_width(r.drop_last(), x),
    decreases x,
{
    if x > 0 {
        lemma_prefix_width_equal_drop(r, x - 1);
        assert(r.drop_last()[x - 1] == r[x - 1]);
    }
}

/// A row of narrow cells is strictly narrower than its wrap count times the
/// wrap width.
proof fn lemma_wrap_total_width(cells: Seq<CellV>, cols: int, cur: Seq<CellV>)
    requires
        cols >= 1,
        forall|i: int| 0 <= i < cells.len() ==> 0 <= (#[trigger] cells[i]).width < cols,
        row_width(cur) < cols,
    ensures
        row_width(cur) + row_width(cells) < wrap_from(cells, cols, cur).len() * cols,
    decreases cells.len(),
{
    if cells.len() == 0 {
        assert(row_width(cells) == 0);
        assert(wrap_from(cells, cols, cur).len() == 1);
    } else {
        let c = cells.first();
        assert(cells[0] == c);
        assert(forall|i: int|
            0 <= i < cells.drop_first().len() ==> 0 <= (#[trigger] cells.drop_first()[i]).width
                < cols);
        assert(row_width(cells) == c.width + row_width(cells.drop_first())) by {
            assert(cells =~= seq![c] + cells.drop_first());
            lemma_row_width_concat(seq![c], cells.drop_first());
            crate::document::lemma_row_width_singleton(c);
        }
        if row_width(cur) + c.width >= cols {
            crate::document::lemma_row_width_singleton(c);
            lemma_wrap_total_width(cells.drop_first(), cols, seq![c]);
            let rest = wrap_from(cells.drop_first(), cols, seq![c]);
            assert(wrap_from(cells, cols, cur) == seq![cur] + rest);
            assert((seq![cur] + rest).len() == 1 + rest.len());
            assert((1 + rest.len()) * cols == cols + rest.len() * cols) by (nonlinear_arith);
        } else {
            assert(row_width(cur.push(c)) == row_width(cur) + c.width) by {
                assert(cur.push(c).drop_last() =~= cur);
            }
            lemma_wrap_total_width(cells.drop_first(), cols, cur.push(c));
            assert(wrap_from(cells, cols, cur) == wrap_from(cells.drop_first(), cols, cur.push(c)));
        }
    }
}

/// A wrap has at least one visual line.
proof fn lemma_wrap_len_ge_one(cells: Seq<CellV>, cols: int, cur: Seq<CellV>)
    ensures
        wrap_from(cells, cols, cur).len() >= 1,
    decreases cells.len(),
{
    if cells.len() == 0 {
    } else {
        let c = cells.first();
        if row_width(cur) + c.width >= cols {
            lemma_wrap_len_ge_one(cells.drop_first(), cols, seq![c]);
        } else {
            lemma_wrap_len_ge_one(cells.drop_first(), cols, cur.push(c));
        }
    }
}

/// The number of rendered lines of a row equals its wrap count and is at
/// least one.
proof fn lemma_soft_wrap_len(cells: Seq<CellV>, cols: int, end: Seq<char>)
    ensures
        soft_wrap_spec(cells, cols, end).len() == wrap_rows(cells, cols).len(),
        soft_wrap_spec(cells, cols, end).len() >= 1,
{
    assert(row_width(Seq::<CellV>::empty()) == 0);
    lemma_render_wrap_len(
        cells,
        cols,
        end,
        styled_spec(content_style_v(), Seq::empty()),
        Seq::empty(),
        content_style_v(),
    );
    lemma_wrap_len_ge_one(cells, cols, Seq::empty());
}

/// Flat line counts grow with the number of rows taken.
proof fn lemma_flat_upto_mono(rows: Seq<Seq<CellV>>, cols: int, k1: int, k2: int)
    requires
        0 <= k1 <= k2,
    ensures
        flat_upto(rows, cols, k1).len() <= flat_upto(rows, cols, k2).len(),
    decreases k2 - k1,
{
    if k1 < k2 {
        lemma_flat_upto_mono(rows, cols, k1, k2 - 1);
    }
}

/// Everything one render of the text area guarantees: the document is kept;
/// a window without extent is empty and leaves the scroll alone; otherwise
/// exactly `rows` lines come back with the cursor inside them; and when
/// every cell fits the width (and the cursor column is not astronomically
/// far right), the lines are exactly the visible slice of the wrapped
/// document under the default style, scrolled to reveal the cursor.
pub open spec fn ta_render_rel(
    s0: TextAreaV,
    s1: TextAreaV,
    w: WindowV,
    cols: int,
    rows: int,
) -> bool {
    &&& s1.doc == s0.doc
    &&& (cols == 0 || rows == 0) ==> w.lines.len() == 0 && w.cursor == (CursorV { x: 0, y: 0 })
        && s1 == s0
    &&& (cols >= 1 && rows >= 1) ==> w.lines.len() == rows && 0 <= w.cursor.x < cols && 0
        <= w.cursor.y < rows
    &&& (cols >= 1 && rows >= 1 && narrow_doc(s0.doc, cols) && 4 * s0.doc.cursor.x
        <= usize::MAX as int) ==> {
        let flat = flat_lines(s0.doc, cols);
        let cy = wrapped_cursor_y(s0.doc, cols);
        let off = scrolled_offset(s0.window_offset, cy, rows);
        &&& s1.window_offset == off
        &&& w.lines =~= ta_visible(flat, off, rows).map_values(
            |l: Seq<char>| styled_spec(content_style_v(), l),
        )
        &&& w.cursor.x == wrapped_cursor_x(s0.doc, cols)
        &&& w.cursor.y == cy - off
    }
}

impl TextArea {
    pub fn new(document: Document) -> (t: TextArea)
        ensures
            t@.doc == document@,
            t@.window_offset == 0,
    {
        TextArea { document, window_offset: 0 }
    }

    /// Moves the cursor one visual line up.
    pub fn up(&mut self, width: usize)
        requires
            doc_wf(old(self)@.doc),
            width >= 1,
        ensures
            final(self)@ == ta_up_spec(old(self)@, width as int),
            doc_wf(final(self)@.doc),
    {
        if self.document.cursor.x >= width {
            self.document.cursor.x = self.document.cursor.x - width;
        } else if self.document.on_first_line() {
            self.document.start_of_line();
        } else {
            self.document.up();
            let len = self.document.current_line_len();
            proof {
                lemma_fundamental_div_mod(len as int, width as int);
                assert((len as int % width as int) >= 0);
                assert((len as int / width as int) * (width as int) <= len as int);
                assert((len as int / width as int) >= 0);
            }
            let jump = (len / width) * width;
            let x = self.document.cursor.x;
            if x <= len - jump {
                self.document.cursor.x = x + jump;
            } else {
                self.document.cursor.x = len;
            }
        }
    }

    /// Moves the cursor one visual line down.
    pub fn down(&mut self, width: usize)
        requires
            doc_wf(old(self)@.doc),
            width >= 1,
        ensures
            final(self)@ == ta_down_spec(old(self)@, width as int),
            doc_wf(final(self)@.doc),
    {
        if self.document.rows.len() == 0 {
            return ;
        }
        let len = self.document.current_line_len();
        let x = self.document.cursor.x;
        if width < len - x {
            self.document.cursor.x = x + width;
        } else {
            proof {
                assert(x as int % width as int <= x as int) by {
                    lemma_fundamental_div_mod(x as int, width as int);
                    assert((x as int / width as int) * (width as int) >= 0) by (nonlinear_arith)
                        requires (x as int / width as int) >= 0 && width as int >= 1;
                    assert(x as int / width as int >= 0);
                }
            }
            self.document.cursor.x = x % width;
            self.document.down();
        }
    }

    /// Applies one editing event to the document; motion, insertion and
    /// deletion dirty the frame, anything else is left to the layers above.
    pub fn update(&mut self, e: &Event, width: usize) -> (r: (bool, FileAction))
        requires
            doc_wf(old(self)@.doc),
        ensures
            final(self)@ == ta_update_spec(old(self)@, *e, width as int).0,
            r.0 == ta_update_spec(old(self)@, *e, width as int).1,
            r.1 is DoNothing,
            doc_wf(final(self)@.doc),
            !r.0 ==> final(self)@ == old(self)@,
    {
        match e {
            Event::Input(c) => {
                let n = c.as_str().unicode_len();
                if n == 1 && c.as_str().get_char(0) != '\n' {
                    self.document.insert(c);
                    (true, FileAction::DoNothing)
                } else {
                    (false, FileAction::DoNothing)
                }
            },
            Event::Up => {
                if width >= 1 {
                    self.up(width);
                }
                (true, FileAction::DoNothing)
            },
            Event::Down => {
                if width >= 1 {
                    self.down(width);
                }
                (true, FileAction::DoNothing)
            },
            Event::Left => {
                self.document.left();
                (true, FileAction::DoNothing)
            },
            Event::Right => {
                self.document.right();
                (true, FileAction::DoNothing)
            },
            Event::PageUp => (true, FileAction::DoNothing),
            Event::PageDown => (true, FileAction::DoNothing),
            Event::Home => {
                self.document.start_of_line();
                (true, FileAction::DoNothing)
            },
            Event::End => {
                self.document.end_of_line();
                (true, FileAction::DoNothing)
            },
            Event::Tab => {
                self.document.tab();
                (true, FileAction::DoNothing)
            },
            Event::Delete => {
                self.document.delete_next();
                (true, FileAction::DoNothing)
            },
            Event::Backspace => {
                self.document.delete_prev();
                (true, FileAction::DoNothing)
            },
            Event::Enter => {
                self.document.insert_line();
                (true, FileAction::DoNothing)
            },
            _ => (false, FileAction::DoNothing),
        }
    }

    /// Renders the soft-wrapped document into exactly `height` lines of at
    /// most `width` columns, scrolling the window to keep the cursor inside.
    pub fn render(&mut self, width: usize, height: usize) -> (w: Window)
        requires
            doc_wf(old(self)@.doc),
        ensures
            final(self)@.doc == old(self)@.doc,
            (width == 0 || height == 0) ==> w@.lines.len() == 0 && w@.cursor == (CursorV {
                x: 0,
                y: 0,
            }) && final(self)@ == old(self)@,
            width >= 1 && height >= 1 ==> w@.lines.len() == height && 0 <= w@.cursor.x < width && 0
                <= w@.cursor.y < height,
            width >= 1 && height >= 1 && narrow_doc(old(self)@.doc, width as int) && 4 * old(
                self,
            )@.doc.cursor.x <= usize::MAX as int ==> {
                let d = old(self)@.doc;
                let flat = flat_lines(d, width as int);
                let cy = wrapped_cursor_y(d, width as int);
                let off = scrolled_offset(old(self)@.window_offset, cy, height as int);
                &&& final(self)@.window_offset == off
                &&& w@.lines =~= ta_visible(flat, off, height as int).map_values(
                    |l: Seq<char>| styled_spec(content_style_v(), l),
                )
                &&& w@.cursor.x == wrapped_cursor_x(d, width as int)
                &&& w@.cursor.y == cy - off
            },
            ta_render_rel(old(self)@, final(self)@, w@, width as int, height as int),
    {
        let ghost d = self@.doc;
        if width == 0 || height == 0 {
            let w = Window { lines: Vec::new(), cursor: Cursor { x: 0, y: 0 } };
            proof {
                assert(w@.lines =~= Seq::<Seq<char>>::empty());
            }
            return w;
        }
        let clear = clear_line();
        let mut lines: Vec<String> = Vec::new();
        let n = self.document.rows.len();
        let y = self.document.cursor.y;
        let mut base: usize = 0;
        let mut i: usize = 0;
        while i < n
            invariant
                doc_wf(d),
                d == self@.doc,
                n == d.rows.len(),
                y == d.cursor.y,
                width >= 1,
                clear@ == clear_line_spec(),
                i <= n,
                lines@.map_values(|l: String| l@) =~= flat_upto(d.rows, width as int, i as int),
                i > y ==> base == flat_upto(d.rows, width as int, y as int).len(),
                n > 0 && i > y ==> base + soft_wrap_spec(
                    d.rows[y as int],
                    width as int,
                    clear_line_spec(),
                ).len() <= lines@.len(),
            decreases n - i,
        {
            if i == y {
                base = lines.len();
            }
            let mut sp = self.document.rows[i].split(width, clear.as_str());
            let ghost pre = lines@;
            let ghost spv = sp@;
            lines.append(&mut sp);
            proof {
                assert(self.document.rows@[i as int]@ == d.rows[i as int]);
                assert forall|k: int| 0 <= k < lines@.len() implies #[trigger] lines@[k]@
                    == flat_upto(d.rows, width as int, i + 1)[k] by {
                    if k < pre.len() {
                        assert(lines@[k] == pre[k]);
                        assert(pre.map_values(|l: String| l@)[k] == flat_upto(
                            d.rows,
                            width as int,
                            i as int,
                        )[k]);
                    } else {
                        assert(lines@[k] == spv[k - pre.len()]);
                        assert(spv.map_values(|l: String| l@)[k - pre.len()] == soft_wrap_spec(
                            d.rows[i as int],
                            width as int,
                            clear_line_spec(),
                        )[k - pre.len()]);
                    }
                }
                assert(lines@.map_values(|l: String| l@) =~= flat_upto(
                    d.rows,
                    width as int,
                    i + 1,
                ));
                if i == y {
                    lemma_soft_wrap_len(d.rows[y as int], width as int, clear_line_spec());
                }
                if i > y && n > 0 {
                    lemma_flat_upto_mono(d.rows, width as int, y + 1, i + 1);
                }
            }
            i += 1;
        }
        let xcur = self.document.cursor.x;
        let cdx = if xcur <= usize::MAX / 4 {
            self.document.cursor_display_x()
        } else {
            usize::MAX
        };
        let cx = cdx % width;
        let quot = cdx / width;
        let total = lines.len();
        let mut cy: usize = 0;
        proof {
            assert(lines@.map_values(|l: String| l@).len() == lines@.len());
        }
        if n > 0 {
            proof {
                lemma_soft_wrap_len(d.rows[y as int], width as int, clear_line_spec());
                lemma_flat_upto_mono(d.rows, width as int, y + 1, n as int);
                assert(base + 1 <= total);
                if narrow_doc(d, width as int) && 4 * d.cursor.x <= usize::MAX as int {
                    let row = d.rows[y as int];
                    assert(forall|j: int| 0 <= j < row.len() ==> 0 <= (#[trigger] row[j]).width
                        < width as int);
                    assert(row_width(Seq::<CellV>::empty()) == 0);
                    lemma_wrap_total_width(row, width as int, Seq::<CellV>::empty());
                    lemma_prefix_width_le(row, d.cursor.x);
                    let county = wrap_rows(row, width as int).len() as int;
                    assert(row_width(row) < county * width as int);
                    assert(cdx as int <= row_width(row));
                    assert(county * (width as int) == (width as int) * county) by (nonlinear_arith);
                    lemma_multiply_divide_lt(cdx as int, width as int, county);
                    assert((quot as int) < county);
                    assert(base + county <= total);
                }
            }
            if quot <= total - 1 - base {
                cy = base + quot;
            } else {
                cy = total - 1;
            }
        }
        if cy < self.window_offset {
            self.window_offset = cy;
        }
        if cy >= self.window_offset && cy - self.window_offset > height - 1 {
            self.window_offset = cy - (height - 1);
        }
        let off = self.window_offset;
        let cy_rel = cy - off;
        let avail = total - off;
        let v = if avail < height {
            avail
        } else {
            height
        };
        let style = content_style();
        let mut styled_lines: Vec<String> = Vec::new();
        let mut k: usize = 0;
        while k < v
            invariant
                k <= v,
                v <= total - off,
                off + v <= lines@.len(),
                total == lines@.len(),
                styled_lines@.len() == k,
                style@ == content_style_v(),
                forall|t: int|
                    0 <= t < k ==> #[trigger] styled_lines@[t]@ == styled_spec(
                        content_style_v(),
                        lines@[off + t]@,
                    ),
            decreases v - k,
        {
            let sl = styled(&style, &lines[off + k]);
            styled_lines.push(sl);
            k += 1;
        }
        let mut pad = String::from_str("~");
        pad.append(clear.as_str());
        proof {
            reveal_strlit("~");
            assert("~"@ =~= seq!['~']);
            assert(pad@ =~= seq!['~'] + clear_line_spec());
        }
        let mut t = v;
        while t < height
            invariant
                v <= t <= height,
                pad@ == seq!['~'] + clear_line_spec(),
                style@ == content_style_v(),
                styled_lines@.len() == t,
                forall|q: int|
                    v <= q < t ==> #[trigger] styled_lines@[q]@ == styled_spec(
                        content_style_v(),
                        seq!['~'] + clear_line_spec(),
                    ),
                forall|q: int|
                    0 <= q < v ==> #[trigger] styled_lines@[q]@ == styled_spec(
                        content_style_v(),
                        lines@[off + q]@,
                    ),
            decreases height - t,
        {
            let sl = styled(&style, &pad);
            styled_lines.push(sl);
            t += 1;
        }
        let w = Window { lines: styled_lines, cursor: Cursor { x: cx, y: cy_rel } };
        proof {
            let cols = width as int;
            let flat = flat_upto(d.rows, cols, n as int);
            if narrow_doc(d, cols) && 4 * d.cursor.x <= usize::MAX as int {
                if n > 0 {
                    assert(cy == wrapped_cursor_y(d, cols));
                } else {
                    assert(flat_upto(d.rows, cols, d.cursor.y).len() == 0);
                    assert(cursor_display_x_at(d) == 0);
                    assert(cy == wrapped_cursor_y(d, cols));
                }
                assert(final(self)@.window_offset == scrolled_offset(
                    old(self)@.window_offset,
                    cy as int,
                    height as int,
                ));
                let to = if off + height <= flat.len() {
                    off + height as int
                } else {
                    flat.len() as int
                };
                assert(to - off == v);
                lemma_pad_lines_index(height - v, 0);
                assert(ta_visible(flat, off as int, height as int).len() == height);
                assert forall|q: int| 0 <= q < height implies #[trigger] w@.lines[q] == ta_visible(
                    flat,
                    off as int,
                    height as int,
                ).map_values(|l: Seq<char>| styled_spec(content_style_v(), l))[q] by {
                    lemma_pad_lines_index(height - v, q - v);
                    if q < v {
                        assert(flat[off + q] == lines@.map_values(|l: String| l@)[off + q]);
                        assert(ta_visible(flat, off as int, height as int)[q] == flat[off + q]);
                    } else {
                        assert(ta_visible(flat, off as int, height as int)[q] == pad_lines(
                            height - v,
                        )[q - v]);
                    }
                }
                assert(w@.lines =~= ta_visible(flat, off as int, height as int).map_values(
                    |l: Seq<char>| styled_spec(content_style_v(), l),
                ));
            }
        }
        w
    }

    /// The document being edited.
    pub fn doc(&self) -> (r: &Document)
        ensures
            r@ == self@.doc,
    {
        &self.document
    }

    /// Mutable access to the document being edited.
    pub fn doc_mut(&mut self) -> (r: &mut Document)
        ensures
            (*r)@ == old(self)@.doc,
            final(self)@ == (TextAreaV {
                doc: final(r)@,
                window_offset: old(self)@.window_offset,
            }),
    {
        &mut self.document
    }
}

/// Filler lines all read the same.
proof fn lemma_pad_lines_index(k: int, q: int)
    ensures
        pad_lines(k).len() == if k <= 0 { 0int } else { k },
        0 <= q < k ==> pad_lines(k)[q] == seq!['~'] + clear_line_spec(),
    decreases k,
{
    if k > 0 {
        lemma_pad_lines_index(k - 1, q);
    }
}

impl Component for TextArea {
    open spec fn wf(&self) -> bool {
        doc_wf(self@.doc)
    }

    fn update(&mut self, e: &Event, width: usize) -> (r: (bool, FileAction)) {
        TextArea::update(self, e, width)
    }

    fn render(&mut self, width: usize, height: usize) -> (w: Window) {
        TextArea::render(self, width, height)
    }

    fn document(&self) -> (d: &Document) {
        TextArea::doc(self)
    }
}

} // verus!
