//! The edit buffer: rows of styled cells, a cursor in cell coordinates, and
//! the operations the editor performs on them.
use vstd::prelude::*;

use crate::style::Style;
use crate::style::StyleV;
use crate::style::content_style;
use crate::style::styled;
use crate::style::styled_spec;
use crate::style::content_style_v;
use crate::unicode::concat_all;
use crate::unicode::grapheme_clusters;
use crate::unicode::graphemes_of;
use crate::unicode::lemma_concat_char_free;
use crate::unicode::lemma_concat_singleton;
use crate::unicode::str_display_width;
use crate::unicode::str_width;
use vstd::std_specs::vec::vec_index_mut;

verus! {

#[derive(Clone, Copy, PartialEq, Eq, Structural, Debug)]
pub struct Cursor {
    pub x: usize,
    pub y: usize,
}

/// Mathematical model of a cursor position.
pub ghost struct CursorV {
    pub x: int,
    pub y: int,
}

impl View for Cursor {
    type V = CursorV;

    open spec fn view(&self) -> CursorV {
        CursorV { x: self.x as int, y: self.y as int }
    }
}

pub struct Cell {
    grapheme: String,
    width: usize,
    style: Style,
}

/// Mathematical model of a cell: one grapheme cluster, its display width in
/// columns, and its style.
pub ghost struct CellV {
    pub grapheme: Seq<char>,
    pub width: int,
    pub style: StyleV,
}

impl View for Cell {
    type V = CellV;

    closed spec fn view(&self) -> CellV {
        CellV { grapheme: self.grapheme@, width: self.width as int, style: self.style@ }
    }
}

impl Clone for Cell {
    fn clone(&self) -> (r: Cell)
        ensures
            r@ == self@,
    {
        Cell { grapheme: self.grapheme.clone(), width: self.width, style: self.style.clone() }
    }
}

/// A well-formed cell holds a nonempty grapheme without a newline, occupying
/// between one and four columns.
pub open spec fn cell_wf(c: CellV) -> bool {
    &&& c.grapheme.len() > 0
    &&& forall|j: int| 0 <= j < c.grapheme.len() ==> c.grapheme[j] != '\n'
    &&& 1 <= c.width <= 4
}

pub struct Row {
    cells: Vec<Cell>,
}

impl View for Row {
    type V = Seq<CellV>;

    closed spec fn view(&self) -> Seq<CellV> {
        self.cells@.map_values(|c: Cell| c@)
    }
}

impl Clone for Row {
    fn clone(&self) -> (r: Row)
        ensures
            r@ == self@,
    {
        let cloned = Row { cells: self.cells.clone() };
        proof {
            assert(cloned@ =~= self@);
        }
        cloned
    }
}

pub open spec fn row_wf(r: Seq<CellV>) -> bool {
    forall|i: int| 0 <= i < r.len() ==> cell_wf(#[trigger] r[i])
}

/// The text a row stands for: its graphemes, concatenated.
pub open spec fn row_text(r: Seq<CellV>) -> Seq<char>
    decreases r.len(),
{
    if r.len() == 0 {
        Seq::empty()
    } else {
        row_text(r.drop_last()) + r.last().grapheme
    }
}

/// The display width a grapheme cluster is given: four columns for a TAB,
/// otherwise its measured width clamped to one or two columns.
pub open spec fn cell_width_of(g: Seq<char>) -> int {
    if g == seq!['\t'] {
        4
    } else if str_width(g) == 0 {
        1
    } else if str_width(g) > 2 {
        2
    } else {
        str_width(g) as int
    }
}

/// The cell a grapheme cluster is parsed into.
pub open spec fn cell_of(g: Seq<char>) -> CellV {
    CellV { grapheme: g, width: cell_width_of(g), style: content_style_v() }
}

/// The cells a text line is parsed into: one per grapheme cluster.
pub open spec fn cells_of(s: Seq<char>) -> Seq<CellV> {
    graphemes_of(s).map_values(|g: Seq<char>| cell_of(g))
}

/// The text of a parsed line is the line itself.
pub proof fn lemma_row_text_of_cells(gs: Seq<Seq<char>>)
    ensures
        row_text(gs.map_values(|g: Seq<char>| cell_of(g))) == concat_all(gs),
    decreases gs.len(),
{
    let cs = gs.map_values(|g: Seq<char>| cell_of(g));
    if gs.len() == 0 {
        assert(row_text(cs) =~= concat_all(gs));
    } else {
        lemma_row_text_of_cells(gs.drop_last());
        assert(cs.drop_last() =~= gs.drop_last().map_values(|g: Seq<char>| cell_of(g)));
        assert(row_text(cs) =~= concat_all(gs));
    }
}

/// Parses one line of text into a row, one cell per grapheme cluster.
pub fn cells(line: &str) -> (r: Row)
    ensures
        r@ == cells_of(line@),
        row_text(r@) == line@,
        concat_all(graphemes_of(line@)) == line@,
        forall|i: int| 0 <= i < graphemes_of(line@).len() ==> graphemes_of(line@)[i].len() > 0,
        (forall|k: int| 0 <= k < line@.len() ==> line@[k] != '\n') ==> row_wf(r@),
{
    let gs = grapheme_clusters(line);
    let ghost gseq = graphemes_of(line@);
    let mut cs: Vec<Cell> = Vec::new();
    let n = gs.len();
    let mut i: usize = 0;
    while i < n
        invariant
            n == gs.len(),
            i <= n,
            gs@.map_values(|g: String| g@) == gseq,
            cs@.len() == i,
            forall|j: int| 0 <= j < i ==> #[trigger] cs@[j]@ == cell_of(gseq[j]),
        decreases n - i,
    {
        let g = &gs[i];
        proof {
            assert(gs@.map_values(|g2: String| g2@)[i as int] == gseq[i as int]);
            assert(g@ == gseq[i as int]);
        }
        let tab = g.as_str().unicode_len() == 1 && g.as_str().get_char(0) == '\t';
        let width: usize = if tab {
            proof {
                assert(g@ =~= seq!['\t']);
            }
            4
        } else {
            proof {
                if g@ == seq!['\t'] {
                    assert(g@.len() == 1 && g@[0] == '\t');
                }
            }
            let uw = str_display_width(g.as_str());
            if uw == 0 {
                1
            } else if uw > 2 {
                2
            } else {
                uw
            }
        };
        let style = content_style();
        cs.push(Cell { grapheme: g.clone(), width, style });
        proof {
            assert(cs@.last()@ == cell_of(gseq[i as int]));
        }
        i += 1;
    }
    let r = Row { cells: cs };
    proof {
        assert forall|j: int| 0 <= j < r@.len() implies #[trigger] r@[j] == cells_of(line@)[j] by {
            assert(r@[j] == cs@[j]@);
        }
        assert(r@ =~= cells_of(line@));
        lemma_row_text_of_cells(gseq);
        if forall|k: int| 0 <= k < line@.len() ==> line@[k] != '\n' {
            lemma_concat_char_free(gseq, '\n');
            assert forall|j: int| 0 <= j < r@.len() implies cell_wf(#[trigger] r@[j]) by {
                assert(r@[j] == cell_of(gseq[j]));
            }
        }
    }
    r
}

impl Row {
    fn new() -> (r: Row)
        ensures
            r@ =~= Seq::<CellV>::empty(),
    {
        Row { cells: Vec::new() }
    }

    pub fn len(&self) -> (n: usize)
        ensures
            n == self@.len(),
    {
        self.cells.len()
    }

    /// Splices the cells of `s` into the row at `position`.
    fn insert_str(&mut self, position: usize, s: &str)
        requires
            position <= old(self)@.len(),
        ensures
            final(self)@ == old(self)@.subrange(0, position as int) + cells_of(s@) + old(
                self,
            )@.subrange(position as int, old(self)@.len() as int),
            concat_all(graphemes_of(s@)) == s@,
            forall|i: int| 0 <= i < graphemes_of(s@).len() ==> graphemes_of(s@)[i].len() > 0,
    {
        let mut tail = self.cells.split_off(position);
        let mut mid = cells(s);
        self.cells.append(&mut mid.cells);
        self.cells.append(&mut tail);
        proof {
            assert(final(self)@ =~= old(self)@.subrange(0, position as int) + cells_of(s@) + old(
                self,
            )@.subrange(position as int, old(self)@.len() as int));
        }
    }

    /// The rows holding the cells before and from `position`.
    fn split_at(&self, position: usize) -> (lr: (Row, Row))
        requires
            position <= self@.len(),
        ensures
            lr.0@ == self@.subrange(0, position as int),
            lr.1@ == self@.subrange(position as int, self@.len() as int),
    {
        let mut left = self.cells.clone();
        let right = left.split_off(position);
        proof {
            assert(left@.map_values(|c: Cell| c@) =~= self@.subrange(0, position as int));
            assert(right@.map_values(|c: Cell| c@) =~= self@.subrange(
                position as int,
                self@.len() as int,
            ));
        }
        (Row { cells: left }, Row { cells: right })
    }

    fn append(&mut self, row: Row)
        ensures
            final(self)@ == old(self)@ + row@,
    {
        let mut other = row;
        self.cells.append(&mut other.cells);
        proof {
            assert(final(self)@ =~= old(self)@ + row@);
        }
    }

    fn remove(&mut self, position: usize)
        requires
            position < old(self)@.len(),
        ensures
            final(self)@ == old(self)@.remove(position as int),
    {
        self.cells.remove(position);
        proof {
            assert(final(self)@ =~= old(self)@.remove(position as int));
        }
    }

    /// The row's text: its graphemes concatenated, as written to disk.
    pub fn as_string(&self) -> (s: String)
        ensures
            s@ == row_text(self@),
    {
        let mut line = String::new();
        let n = self.cells.len();
        let mut i: usize = 0;
        while i < n
            invariant
                n == self.cells.len(),
                i <= n,
                line@ == row_text(self@.take(i as int)),
            decreases n - i,
        {
            line.append(self.cells[i].grapheme.as_str());
            proof {
                assert(self@.take(i + 1).drop_last() =~= self@.take(i as int));
                assert(self@.take(i + 1).last() == self@[i as int]);
            }
            i += 1;
        }
        proof {
            assert(self@.take(n as int) =~= self@);
        }
        line
    }
}

/// The pattern's graphemes equal the cell graphemes starting at cell `i`.
pub open spec fn pattern_match_at(r: Seq<CellV>, pg: Seq<Seq<char>>, i: int) -> bool {
    &&& 0 <= i
    &&& i + pg.len() <= r.len()
    &&& forall|j: int| 0 <= j < pg.len() ==> r[i + j].grapheme == #[trigger] pg[j]
}

impl Row {
    /// The cell indices at which the pattern's graphemes match consecutive
    /// cell graphemes, in ascending order, complete.
    pub fn match_indices(&self, pattern: &str) -> (res: Vec<usize>)
        ensures
            forall|k: int|
                0 <= k < res@.len() ==> pattern_match_at(
                    self@,
                    graphemes_of(pattern@),
                    #[trigger] res@[k] as int,
                ),
            forall|k1: int, k2: int|
                0 <= k1 < k2 < res@.len() ==> res@[k1] < res@[k2],
            forall|i: int|
                pattern_match_at(self@, graphemes_of(pattern@), i) ==> res@.contains(i as usize),
    {
        let pgs = grapheme_clusters(pattern);
        let ghost pg = graphemes_of(pattern@);
        let plen = pgs.len();
        let n = self.cells.len();
        let mut matches: Vec<usize> = Vec::new();
        if plen > n {
            return matches;
        }
        let mut i: usize = 0;
        if plen == 0 {
            while i < n
                invariant
                    n == self.cells.len() == self@.len(),
                    i <= n,
                    matches@.len() == i,
                    forall|k: int| 0 <= k < i ==> #[trigger] matches@[k] == k,
                decreases n - i,
            {
                matches.push(i);
                i += 1;
            }
            matches.push(n);
            proof {
                assert(pg.len() == 0);
                assert forall|t: int| pattern_match_at(self@, pg, t) implies matches@.contains(
                    t as usize,
                ) by {
                    assert(matches@[t] == t as usize);
                }
            }
            return matches;
        }
        while i <= n - plen
            invariant
                plen == pgs.len() == pg.len(),
                n == self.cells.len() == self@.len(),
                plen <= n,
                i <= n - plen + 1,
                pgs@.map_values(|g: String| g@) == pg,
                forall|k: int|
                    0 <= k < matches@.len() ==> pattern_match_at(
                        self@,
                        pg,
                        #[trigger] matches@[k] as int,
                    ),
                forall|k: int| 0 <= k < matches@.len() ==> matches@[k] < i,
                forall|k1: int, k2: int|
                    0 <= k1 < k2 < matches@.len() ==> matches@[k1] < matches@[k2],
                forall|t: int|
                    0 <= t < i && pattern_match_at(self@, pg, t) ==> matches@.contains(t as usize),
                plen >= 1,
            decreases n - plen - i + 1,
        {
            let mut does_match = true;
            let mut j: usize = 0;
            while j < plen && does_match
                invariant
                    plen == pgs.len() == pg.len(),
                    n == self.cells.len() == self@.len(),
                    i + plen <= n,
                    j <= plen,
                    pgs@.map_values(|g: String| g@) == pg,
                    does_match ==> forall|t: int|
                        0 <= t < j ==> self@[i + t].grapheme == #[trigger] pg[t],
                    !does_match ==> !pattern_match_at(self@, pg, i as int),
                decreases 2 * (plen - j) + (if does_match { 1int } else { 0 }),
            {
                proof {
                    assert(pgs@.map_values(|g: String| g@)[j as int] == pg[j as int]);
                }
                if self.cells[i + j].grapheme == pgs[j] {
                    proof {
                        assert(self@[i + j] == self.cells@[i + j]@);
                        assert(self@[i + j].grapheme == pg[j as int]);
                    }
                    j += 1;
                } else {
                    proof {
                        assert(self@[i + j].grapheme != pg[j as int]);
                    }
                    does_match = false;
                }
            }
            proof {
                if does_match {
                    assert(j == plen);
                    assert(pattern_match_at(self@, pg, i as int));
                }
            }
            let ghost pre = matches@;
            if does_match {
                matches.push(i);
            }
            proof {
                assert forall|t: int|
                    0 <= t < i + 1 && pattern_match_at(self@, pg, t) implies matches@.contains(
                    t as usize,
                ) by {
                    if t < i {
                        assert(pre.contains(t as usize));
                        let k = choose|k: int| 0 <= k < pre.len() && pre[k] == t as usize;
                        assert(matches@[k] == t as usize);
                    } else {
                        assert(matches@[matches@.len() - 1] == i);
                    }
                }
            }
            i += 1;
        }
        proof {
            assert forall|t: int| pattern_match_at(self@, pg, t) implies matches@.contains(
                t as usize,
            ) by {
                assert(t + plen <= n);
                assert(t < i);
            }
        }
        matches
    }
}

pub struct Document {
    pub rows: Vec<Row>,
    pub cursor: Cursor,
    pub filename: Option<String>,
}

/// Mathematical model of a document: its rows of cells, the cursor, and the
/// optional file name.
pub ghost struct DocV {
    pub rows: Seq<Seq<CellV>>,
    pub cursor: CursorV,
    pub filename: Option<Seq<char>>,
}

impl View for Document {
    type V = DocV;

    open spec fn view(&self) -> DocV {
        DocV {
            rows: self.rows@.map_values(|r: Row| r@),
            cursor: self.cursor@,
            filename: match self.filename {
                Option::Some(f) => Option::Some(f@),
                Option::None => Option::None,
            },
        }
    }
}

/// The length of the row under the cursor, or zero for an empty document.
pub open spec fn current_len(d: DocV) -> int {
    if d.rows.len() == 0 {
        0
    } else {
        d.rows[d.cursor.y].len() as int
    }
}

/// The cursor invariant: the cursor sits on an existing row (or at the
/// origin of an empty document), at or before the row's append point, and
/// every cell is well formed.
pub open spec fn doc_wf(d: DocV) -> bool {
    &&& forall|i: int| 0 <= i < d.rows.len() ==> row_wf(#[trigger] d.rows[i])
    &&& if d.rows.len() == 0 {
        d.cursor.x == 0 && d.cursor.y == 0
    } else {
        0 <= d.cursor.y < d.rows.len() && 0 <= d.cursor.x <= d.rows[d.cursor.y].len()
    }
}

pub open spec fn with_cursor(d: DocV, x: int, y: int) -> DocV {
    DocV { rows: d.rows, cursor: CursorV { x, y }, filename: d.filename }
}

pub open spec fn start_of_line_tx(d: DocV) -> DocV {
    with_cursor(d, 0, d.cursor.y)
}

pub open spec fn end_of_line_tx(d: DocV) -> DocV {
    with_cursor(d, current_len(d), d.cursor.y)
}

pub open spec fn on_first_line_at(d: DocV) -> bool {
    d.cursor.y == 0
}

pub open spec fn on_last_line_at(d: DocV) -> bool {
    d.rows.len() == 0 || d.cursor.y == d.rows.len() - 1
}

pub open spec fn on_first_char_at(d: DocV) -> bool {
    d.cursor.x == 0
}

pub open spec fn on_last_char_at(d: DocV) -> bool {
    d.cursor.x == current_len(d)
}

pub open spec fn up_tx(d: DocV) -> DocV {
    if on_first_line_at(d) {
        start_of_line_tx(d)
    } else {
        let len = d.rows[d.cursor.y - 1].len() as int;
        with_cursor(d, if d.cursor.x <= len { d.cursor.x } else { len }, d.cursor.y - 1)
    }
}

pub open spec fn down_tx(d: DocV) -> DocV {
    if on_last_line_at(d) {
        end_of_line_tx(d)
    } else {
        let len = d.rows[d.cursor.y + 1].len() as int;
        with_cursor(d, if d.cursor.x <= len { d.cursor.x } else { len }, d.cursor.y + 1)
    }
}

pub open spec fn left_tx(d: DocV) -> DocV {
    if on_first_char_at(d) && !on_first_line_at(d) {
        with_cursor(d, d.rows[d.cursor.y - 1].len() as int, d.cursor.y - 1)
    } else if !on_first_char_at(d) {
        with_cursor(d, d.cursor.x - 1, d.cursor.y)
    } else {
        d
    }
}

pub open spec fn right_tx(d: DocV) -> DocV {
    if d.rows.len() == 0 {
        d
    } else if on_last_char_at(d) && !on_last_line_at(d) {
        with_cursor(d, 0, d.cursor.y + 1)
    } else if !on_last_char_at(d) {
        with_cursor(d, d.cursor.x + 1, d.cursor.y)
    } else {
        d
    }
}

pub open spec fn insert_tx(d: DocV, g: Seq<char>) -> DocV {
    let rows0 = if d.rows.len() == 0 {
        seq![Seq::<CellV>::empty()]
    } else {
        d.rows
    };
    DocV {
        rows: rows0.update(d.cursor.y, rows0[d.cursor.y].insert(d.cursor.x, cell_of(g))),
        cursor: CursorV { x: d.cursor.x + 1, y: d.cursor.y },
        filename: d.filename,
    }
}

pub open spec fn insert_line_tx(d: DocV) -> DocV {
    if d.rows.len() == 0 {
        d
    } else {
        let y = d.cursor.y;
        let x = d.cursor.x;
        DocV {
            rows: d.rows.subrange(0, y) + seq![d.rows[y].take(x), d.rows[y].skip(x)]
                + d.rows.subrange(y + 1, d.rows.len() as int),
            cursor: CursorV { x: 0, y: y + 1 },
            filename: d.filename,
        }
    }
}

pub open spec fn delete_prev_tx(d: DocV) -> DocV {
    if on_first_char_at(d) && !on_first_line_at(d) {
        let y = d.cursor.y;
        DocV {
            rows: d.rows.subrange(0, y - 1) + seq![d.rows[y - 1] + d.rows[y]] + d.rows.subrange(
                y + 1,
                d.rows.len() as int,
            ),
            cursor: CursorV { x: d.rows[y - 1].len() as int, y: y - 1 },
            filename: d.filename,
        }
    } else if !on_first_char_at(d) {
        DocV {
            rows: d.rows.update(d.cursor.y, d.rows[d.cursor.y].remove(d.cursor.x - 1)),
            cursor: CursorV { x: d.cursor.x - 1, y: d.cursor.y },
            filename: d.filename,
        }
    } else {
        d
    }
}

pub open spec fn delete_next_tx(d: DocV) -> DocV {
    if d.rows.len() == 0 {
        d
    } else if on_last_line_at(d) && on_last_char_at(d) {
        d
    } else {
        delete_prev_tx(right_tx(d))
    }
}

pub open spec fn tab_tx(d: DocV) -> DocV {
    insert_tx(insert_tx(insert_tx(insert_tx(d, seq![' ']), seq![' ']), seq![' ']), seq![' '])
}

/// The display columns taken by the cells before the cursor in its row.
pub open spec fn row_prefix_width(r: Seq<CellV>, x: int) -> int
    decreases x,
{
    if x <= 0 {
        0
    } else {
        row_prefix_width(r, x - 1) + r[x - 1].width
    }
}

pub open spec fn cursor_display_x_at(d: DocV) -> int {
    if d.rows.len() == 0 {
        0
    } else {
        row_prefix_width(d.rows[d.cursor.y], d.cursor.x)
    }
}

pub open spec fn doc_name(d: DocV) -> Seq<char> {
    match d.filename {
        Option::Some(f) => f,
        Option::None => "New File"@,
    }
}

impl Document {
    /// A fresh document: no rows, cursor at the origin, no file name.
    pub fn blank() -> (d: Document)
        ensures
            d@.rows =~= Seq::<Seq<CellV>>::empty(),
            d@.cursor == (CursorV { x: 0, y: 0 }),
            d@.filename is None,
            doc_wf(d@),
    {
        let d = Document {
            rows: Vec::new(),
            cursor: Cursor { x: 0, y: 0 },
            filename: Option::None,
        };
        proof {
            assert(d@.rows =~= Seq::<Seq<CellV>>::empty());
        }
        d
    }

    /// The file name shown in the interface, or a placeholder.
    pub fn name(&self) -> (r: String)
        ensures
            r@ == doc_name(self@),
    {
        match &self.filename {
            Option::Some(f) => f.clone(),
            Option::None => String::from_str("New File"),
        }
    }

    pub fn set_filename(&mut self, filename: String)
        ensures
            final(self)@.rows == old(self)@.rows,
            final(self)@.cursor == old(self)@.cursor,
            final(self)@.filename == Option::Some(filename@),
            doc_wf(old(self)@) ==> doc_wf(final(self)@),
    {
        self.filename = Option::Some(filename);
    }

    pub fn on_first_line(&self) -> (r: bool)
        ensures
            r == on_first_line_at(self@),
    {
        self.cursor.y == 0
    }

    pub fn on_last_line(&self) -> (r: bool)
        ensures
            r == on_last_line_at(self@),
    {
        self.rows.len() == 0 || self.cursor.y == self.rows.len() - 1
    }

    fn on_first_char(&self) -> (r: bool)
        ensures
            r == on_first_char_at(self@),
    {
        self.cursor.x == 0
    }

    fn on_last_char(&self) -> (r: bool)
        requires
            self@.rows.len() == 0 || 0 <= self@.cursor.y < self@.rows.len(),
        ensures
            r == on_last_char_at(self@),
    {
        self.cursor.x == self.current_line_len()
    }

    /// The cell count of the row under the cursor; zero if there is none.
    pub fn current_line_len(&self) -> (n: usize)
        requires
            self@.rows.len() == 0 || 0 <= self@.cursor.y < self@.rows.len(),
        ensures
            n == current_len(self@),
    {
        if self.rows.len() == 0 {
            return 0;
        }
        self.rows[self.cursor.y].len()
    }

    pub fn start_of_line(&mut self)
        ensures
            final(self)@ == start_of_line_tx(old(self)@),
            doc_wf(old(self)@) ==> doc_wf(final(self)@),
    {
        self.cursor.x = 0;
    }

    pub fn end_of_line(&mut self)
        requires
            doc_wf(old(self)@),
        ensures
            final(self)@ == end_of_line_tx(old(self)@),
            doc_wf(final(self)@),
    {
        self.cursor.x = self.current_line_len();
    }

    pub fn up(&mut self)
        requires
            doc_wf(old(self)@),
        ensures
            final(self)@ == up_tx(old(self)@),
            doc_wf(final(self)@),
    {
        if self.on_first_line() {
            self.start_of_line();
        } else {
            self.cursor.y = self.cursor.y - 1;
            let len = self.current_line_len();
            if self.cursor.x > len {
                self.cursor.x = len;
            }
        }
    }

    pub fn down(&mut self)
        requires
            doc_wf(old(self)@),
        ensures
            final(self)@ == down_tx(old(self)@),
            doc_wf(final(self)@),
    {
        if self.on_last_line() {
            self.end_of_line();
        } else {
            let n = self.rows.len();
            self.cursor.y = self.cursor.y + 1;
            let len = self.current_line_len();
            if self.cursor.x > len {
                self.cursor.x = len;
            }
        }
    }

    pub fn left(&mut self)
        requires
            doc_wf(old(self)@),
        ensures
            final(self)@ == left_tx(old(self)@),
            doc_wf(final(self)@),
    {
        if self.on_first_char() && !self.on_first_line() {
            self.cursor.y = self.cursor.y - 1;
            self.cursor.x = self.rows[self.cursor.y].len();
        } else if !self.on_first_char() {
            self.cursor.x = self.cursor.x - 1;
        }
    }

    pub fn right(&mut self)
        requires
            doc_wf(old(self)@),
        ensures
            final(self)@ == right_tx(old(self)@),
            doc_wf(final(self)@),
    {
        if self.rows.len() == 0 {
            return ;
        }
        if self.on_last_char() && !self.on_last_line() {
            let n = self.rows.len();
            self.cursor.y = self.cursor.y + 1;
            self.cursor.x = 0;
        } else if !self.on_last_char() {
            let le = self.current_line_len();
            self.cursor.x = self.cursor.x + 1;
        }
    }

    /// Inserts one grapheme at the cursor and steps past it.
    pub fn insert(&mut self, c: &String)
        requires
            doc_wf(old(self)@),
            c@.len() == 1,
            c@[0] != '\n',
        ensures
            final(self)@ == insert_tx(old(self)@, c@),
            doc_wf(final(self)@),
    {
        if self.rows.len() == 0 {
            self.rows.push(Row::new());
        }
        let ghost rows0 = self@.rows;
        let y = self.cursor.y;
        let x = self.cursor.x;
        let row = vec_index_mut(&mut self.rows, y);
        row.insert_str(x, c.as_str());
        let le = row.len();
        proof {
            lemma_concat_singleton(graphemes_of(c@), c@);
            assert(cells_of(c@) =~= seq![cell_of(c@)]);
            assert(row@ =~= rows0[y as int].insert(x as int, cell_of(c@)));
        }
        self.cursor.x = x + 1;
        proof {
            let dv = insert_tx(old(self)@, c@);
            assert(final(self)@.rows =~= dv.rows);
            assert(final(self)@ == dv);
            assert forall|i: int| 0 <= i < final(self)@.rows.len() implies row_wf(
                #[trigger] final(self)@.rows[i],
            ) by {
                if i == y as int {
                    let newrow = final(self)@.rows[i];
                    let oldrow = rows0[i];
                            assert forall|j: int| 0 <= j < newrow.len() implies cell_wf(
                        #[trigger] newrow[j],
                    ) by {
                        if j < x as int {
                            assert(newrow[j] == oldrow[j]);
                        } else if j == x as int {
                            assert(newrow[j] == cell_of(c@));
                            assert(cell_wf(cell_of(c@)));
                        } else {
                            assert(newrow[j] == oldrow[j - 1]);
                        }
                    }
                }
            }
        }
    }

    /// Splits the row under the cursor at the cursor and moves to the start
    /// of the second half.
    pub fn insert_line(&mut self)
        requires
            doc_wf(old(self)@),
        ensures
            final(self)@ == insert_line_tx(old(self)@),
            doc_wf(final(self)@),
    {
        if self.rows.len() == 0 {
            return ;
        }
        let y = self.cursor.y;
        let row = self.rows.remove(y);
        let (first, last) = row.split_at(self.cursor.x);
        self.rows.insert(y, last);
        self.rows.insert(y, first);
        self.cursor.y = y + 1;
        self.cursor.x = 0;
        proof {
            let dv = insert_line_tx(old(self)@);
            let x = old(self)@.cursor.x;
            assert(first@ =~= old(self)@.rows[y as int].take(x));
            assert(last@ =~= old(self)@.rows[y as int].skip(x));
            assert(final(self)@.rows =~= dv.rows);
            assert(final(self)@ == dv);
        }
    }

    /// Backspace: removes the cell before the cursor, or merges the row with
    /// the one above when the cursor is at the start of a row.
    pub fn delete_prev(&mut self)
        requires
            doc_wf(old(self)@),
        ensures
            final(self)@ == delete_prev_tx(old(self)@),
            doc_wf(final(self)@),
    {
        if self.on_first_char() && !self.on_first_line() {
            let y = self.cursor.y;
            let prev = self.rows.remove(y);
            self.cursor.y = y - 1;
            self.cursor.x = self.current_line_len();
            let row = vec_index_mut(&mut self.rows, y - 1);
            row.append(prev);
            proof {
                let dv = delete_prev_tx(old(self)@);
                assert(final(self)@.rows =~= dv.rows);
                assert(final(self)@ == dv);
                assert forall|i: int| 0 <= i < final(self)@.rows.len() implies row_wf(
                    #[trigger] final(self)@.rows[i],
                ) by {
                    let merged = final(self)@.rows[i];
                    if i == y - 1 {
                        assert forall|j: int| 0 <= j < merged.len() implies cell_wf(
                            #[trigger] merged[j],
                        ) by {
                            if j < old(self)@.rows[y - 1].len() {
                                assert(merged[j] == old(self)@.rows[y - 1][j]);
                            } else {
                                assert(merged[j] == old(self)@.rows[y as int][j - old(
                                    self,
                                )@.rows[y - 1].len()]);
                            }
                        }
                    }
                }
            }
        } else if !self.on_first_char() {
            self.cursor.x = self.cursor.x - 1;
            let x = self.cursor.x;
            let y = self.cursor.y;
            let row = vec_index_mut(&mut self.rows, y);
            row.remove(x);
            proof {
                let dv = delete_prev_tx(old(self)@);
                assert(final(self)@.rows =~= dv.rows);
                assert(final(self)@ == dv);
                assert forall|i: int| 0 <= i < final(self)@.rows.len() implies row_wf(
                    #[trigger] final(self)@.rows[i],
                ) by {
                    if i == y as int {
                        let newrow = final(self)@.rows[i];
                        let oldrow = old(self)@.rows[i];
                        assert forall|j: int| 0 <= j < newrow.len() implies cell_wf(
                            #[trigger] newrow[j],
                        ) by {
                            if j < x as int {
                                assert(newrow[j] == oldrow[j]);
                            } else {
                                assert(newrow[j] == oldrow[j + 1]);
                            }
                        }
                    }
                }
            }
        }
    }

    /// Forward delete: steps right, then backspaces, unless at the very end.
    pub fn delete_next(&mut self)
        requires
            doc_wf(old(self)@),
        ensures
            final(self)@ == delete_next_tx(old(self)@),
            doc_wf(final(self)@),
    {
        if self.rows.len() == 0 {
            return ;
        }
        if !(self.on_last_line() && self.on_last_char()) {
            self.right();
            self.delete_prev();
        }
    }

    /// Inserts four spaces.
    pub fn tab(&mut self)
        requires
            doc_wf(old(self)@),
        ensures
            final(self)@ == tab_tx(old(self)@),
            doc_wf(final(self)@),
    {
        proof {
            reveal_strlit(" ");
            assert(" "@ =~= seq![' ']);
        }
        let space = String::from_str(" ");
        self.insert(&space);
        self.insert(&space);
        self.insert(&space);
        self.insert(&space);
    }

    /// The display column of the cursor: the widths of the cells before it.
    pub fn cursor_display_x(&self) -> (r: usize)
        requires
            doc_wf(self@),
            4 * self@.cursor.x <= usize::MAX as int,
        ensures
            r == cursor_display_x_at(self@),
    {
        let mut display_len: usize = 0;
        if self.rows.len() == 0 {
            return 0;
        }
        let row = &self.rows[self.cursor.y];
        let x = self.cursor.x;
        let mut i: usize = 0;
        while i < x
            invariant
                doc_wf(self@),
                self@.rows.len() > 0,
                row@ == self@.rows[self@.cursor.y],
                x == self@.cursor.x,
                4 * x <= usize::MAX as int,
                i <= x,
                x <= row@.len(),
                display_len == row_prefix_width(row@, i as int),
                display_len <= 4 * i,
            decreases x - i,
        {
            proof {
                assert(cell_wf(row@[i as int]));
            }
            display_len = display_len + row.cells[i].width;
            i += 1;
        }
        display_len
    }
}

/// A row of the document holds at most `usize::MAX` cells: it is a vector.
proof fn lemma_row_len_bound(rows: &Vec<Row>, y: int)
    requires
        0 <= y < rows@.len(),
    ensures
        rows@.map_values(|r: Row| r@)[y].len() <= usize::MAX,
{
    broadcast use vstd::std_specs::vec::axiom_spec_len;

    let row = rows@[y];
    assert(vstd::std_specs::vec::spec_vec_len(&row.cells) == row.cells@.len());
    assert(rows@.map_values(|r: Row| r@)[y] == row@);
}

/// A document position `(y, x)` at which the pattern matches.
pub open spec fn doc_match(d: DocV, pg: Seq<Seq<char>>, y: int, x: int) -> bool {
    0 <= y < d.rows.len() && pattern_match_at(d.rows[y], pg, x)
}

/// Row-major order on positions.
pub open spec fn pos_before(y1: int, x1: int, y2: int, x2: int) -> bool {
    y1 < y2 || (y1 == y2 && x1 < x2)
}

/// Strictly after the cursor, in row-major order.
pub open spec fn pos_after_cursor(d: DocV, y: int, x: int) -> bool {
    y > d.cursor.y || (y == d.cursor.y && x > d.cursor.x)
}

/// How a search moves the cursor: rows and file name stay; with no match
/// nothing moves; otherwise the cursor lands on the first match strictly
/// after it in row-major order, or wraps to the first match overall.
pub open spec fn find_next_rel(d0: DocV, d1: DocV, pattern: Seq<char>) -> bool {
    let pg = graphemes_of(pattern);
    &&& d1.rows == d0.rows
    &&& d1.filename == d0.filename
    &&& ((forall|y: int, x: int| !doc_match(d0, pg, y, x)) ==> d1 == d0)
    &&& ((exists|y: int, x: int| doc_match(d0, pg, y, x) && pos_after_cursor(d0, y, x)) ==> {
        &&& doc_match(d0, pg, d1.cursor.y, d1.cursor.x)
        &&& pos_after_cursor(d0, d1.cursor.y, d1.cursor.x)
        &&& forall|y: int, x: int|
            doc_match(d0, pg, y, x) && pos_after_cursor(d0, y, x) ==> !pos_before(
                y,
                x,
                d1.cursor.y,
                d1.cursor.x,
            )
    })
    &&& (((exists|y: int, x: int| doc_match(d0, pg, y, x)) && !(exists|y: int, x: int|
        doc_match(d0, pg, y, x) && pos_after_cursor(d0, y, x))) ==> {
        &&& doc_match(d0, pg, d1.cursor.y, d1.cursor.x)
        &&& forall|y: int, x: int|
            doc_match(d0, pg, y, x) ==> !pos_before(y, x, d1.cursor.y, d1.cursor.x)
    })
}

impl Document {
    /// Moves the cursor to the first match strictly after it, in row-major
    /// order, wrapping around to the first match overall; no-op when the
    /// pattern occurs nowhere.
    pub fn find_next(&mut self, text: String)
        requires
            doc_wf(old(self)@),
        ensures
            find_next_rel(old(self)@, final(self)@, text@),
            doc_wf(final(self)@),
    {
        let ghost pg = graphemes_of(text@);
        let mut matches: Vec<(usize, usize)> = Vec::new();
        let n = self.rows.len();
        let mut i: usize = 0;
        while i < n
            invariant
                doc_wf(self@),
                n == self.rows@.len(),
                i <= n,
                pg == graphemes_of(text@),
                forall|k: int|
                    0 <= k < matches@.len() ==> doc_match(
                        self@,
                        pg,
                        (#[trigger] matches@[k]).1 as int,
                        matches@[k].0 as int,
                    ),
                forall|k: int| 0 <= k < matches@.len() ==> (#[trigger] matches@[k]).1 < i,
                forall|k1: int, k2: int|
                    0 <= k1 < k2 < matches@.len() ==> pos_before(
                        matches@[k1].1 as int,
                        matches@[k1].0 as int,
                        matches@[k2].1 as int,
                        matches@[k2].0 as int,
                    ),
                forall|y: int, x: int|
                    0 <= y < i && doc_match(self@, pg, y, x) ==> matches@.contains(
                        (x as usize, y as usize),
                    ),
            decreases n - i,
        {
            let ms = self.rows[i].match_indices(text.as_str());
            let ghost pre_row = matches@;
            let m = ms.len();
            let mut k: usize = 0;
            while k < m
                invariant
                    doc_wf(self@),
                    n == self.rows@.len(),
                    i < n,
                    m == ms@.len(),
                    k <= m,
                    pg == graphemes_of(text@),
                    forall|t: int|
                        0 <= t < ms@.len() ==> pattern_match_at(
                            self@.rows[i as int],
                            pg,
                            #[trigger] ms@[t] as int,
                        ),
                    forall|t1: int, t2: int| 0 <= t1 < t2 < ms@.len() ==> ms@[t1] < ms@[t2],
                    forall|x: int|
                        pattern_match_at(self@.rows[i as int], pg, x) ==> ms@.contains(x as usize),
                    matches@ == pre_row + ms@.take(k as int).map_values(
                        |c: usize| (c, i as usize),
                    ),
                    forall|t: int|
                        0 <= t < matches@.len() ==> doc_match(
                            self@,
                            pg,
                            (#[trigger] matches@[t]).1 as int,
                            matches@[t].0 as int,
                        ),
                    forall|t: int| 0 <= t < pre_row.len() ==> (#[trigger] matches@[t]).1 < i,
                    forall|t: int|
                        pre_row.len() <= t < matches@.len() ==> (#[trigger] matches@[t]).1 == i
                            && matches@[t].0 == ms@[t - pre_row.len()],
                    forall|t1: int, t2: int|
                        0 <= t1 < t2 < matches@.len() ==> pos_before(
                            matches@[t1].1 as int,
                            matches@[t1].0 as int,
                            matches@[t2].1 as int,
                            matches@[t2].0 as int,
                        ),
                decreases m - k,
            {
                matches.push((ms[k], i));
                proof {
                    assert(ms@.take(k + 1).drop_last() =~= ms@.take(k as int));
                    assert(matches@ =~= pre_row + ms@.take(k + 1).map_values(
                        |c: usize| (c, i as usize),
                    ));
                }
                k += 1;
            }
            proof {
                assert(ms@.take(m as int) =~= ms@);
                assert forall|y: int, x: int|
                    0 <= y < i + 1 && doc_match(self@, pg, y, x) implies matches@.contains(
                    (x as usize, y as usize),
                ) by {
                    if y < i {
                        let t = choose|t: int|
                            0 <= t < pre_row.len() && pre_row[t] == (x as usize, y as usize);
                        assert(matches@[t] == (x as usize, y as usize));
                    } else {
                        assert(ms@.contains(x as usize));
                        let t = choose|t: int| 0 <= t < ms@.len() && ms@[t] == x as usize;
                        assert(matches@[pre_row.len() + t] == (x as usize, y as usize));
                    }
                }
            }
            i += 1;
        }
        if matches.len() > 0 {
            let mut next = matches[0];
            let total = matches.len();
            let mut k: usize = 0;
            let mut found = false;
            while k < total && !found
                invariant
                    doc_wf(self@),
                    total == matches@.len(),
                    0 < total,
                    k <= total,
                    pg == graphemes_of(text@),
                    !found ==> next == matches@[0],
                    found ==> k < total && next == matches@[k as int] && pos_after_cursor(
                        self@,
                        next.1 as int,
                        next.0 as int,
                    ),
                    forall|t: int|
                        0 <= t < matches@.len() ==> doc_match(
                            self@,
                            pg,
                            (#[trigger] matches@[t]).1 as int,
                            matches@[t].0 as int,
                        ),
                    forall|t1: int, t2: int|
                        0 <= t1 < t2 < matches@.len() ==> pos_before(
                            matches@[t1].1 as int,
                            matches@[t1].0 as int,
                            matches@[t2].1 as int,
                            matches@[t2].0 as int,
                        ),
                    forall|y: int, x: int|
                        doc_match(self@, pg, y, x) ==> matches@.contains((x as usize, y as usize)),
                    forall|t: int|
                        0 <= t < k ==> !pos_after_cursor(
                            self@,
                            (#[trigger] matches@[t]).1 as int,
                            matches@[t].0 as int,
                        ),
                decreases total - k + (if found { 0int } else { 1 }),
            {
                let m = matches[k];
                if (m.1 == self.cursor.y && m.0 > self.cursor.x) || m.1 > self.cursor.y {
                    next = m;
                    found = true;
                } else {
                    k += 1;
                }
            }
            let ghost pre = self@;
            self.cursor.x = next.0;
            self.cursor.y = next.1;
            proof {
                assert(final(self)@.rows =~= pre.rows);
                assert(doc_match(pre, pg, next.1 as int, next.0 as int));
                if found {
                    assert forall|y: int, x: int|
                        doc_match(pre, pg, y, x) && pos_after_cursor(pre, y, x) implies !pos_before(
                        y,
                        x,
                        next.1 as int,
                        next.0 as int,
                    ) by {
                        assert(pre.rows == self@.rows);
                        lemma_row_len_bound(&self.rows, y);
                        assert((x as usize) as int == x);
                        assert((y as usize) as int == y);
                        let t = choose|t: int|
                            0 <= t < matches@.len() && matches@[t] == (x as usize, y as usize);
                        assert(matches@[t].1 as int == y && matches@[t].0 as int == x);
                        assert(!(t < k));
                        if t > k as int {
                            assert(pos_before(
                                matches@[k as int].1 as int,
                                matches@[k as int].0 as int,
                                matches@[t].1 as int,
                                matches@[t].0 as int,
                            ));
                        }
                    }
                } else {
                    assert forall|y: int, x: int| doc_match(pre, pg, y, x) implies !pos_before(
                        y,
                        x,
                        next.1 as int,
                        next.0 as int,
                    ) by {
                        lemma_row_len_bound(&self.rows, y);
                        assert((x as usize) as int == x);
                        assert((y as usize) as int == y);
                        let t = choose|t: int|
                            0 <= t < matches@.len() && matches@[t] == (x as usize, y as usize);
                        assert(matches@[t].1 as int == y && matches@[t].0 as int == x);
                        if t > 0 {
                            assert(pos_before(
                                matches@[0].1 as int,
                                matches@[0].0 as int,
                                matches@[t].1 as int,
                                matches@[t].0 as int,
                            ));
                        }
                    }
                    assert forall|y: int, x: int|
                        doc_match(pre, pg, y, x) implies !pos_after_cursor(pre, y, x) by {
                        lemma_row_len_bound(&self.rows, y);
                        assert((x as usize) as int == x);
                        assert((y as usize) as int == y);
                        let t = choose|t: int|
                            0 <= t < matches@.len() && matches@[t] == (x as usize, y as usize);
                        assert(matches@[t].1 as int == y && matches@[t].0 as int == x);
                    }
                }
            }
        } else {
            proof {
                assert forall|y: int, x: int| !doc_match(self@, pg, y, x) by {
                    if doc_match(self@, pg, y, x) {
                        assert(matches@.contains((x as usize, y as usize)));
                    }
                }
            }
        }
    }
}

/// Law: in a well-formed document (which every operation returns), the
/// cursor's row index is below the row count (or zero for an empty
/// document) and its cell index is at most the current row's length.
pub proof fn lemma_cursor_within_rows(d: DocV)
    requires
        doc_wf(d),
    ensures
        d.cursor.y < if d.rows.len() == 0 {
            1int
        } else {
            d.rows.len() as int
        },
        d.cursor.x <= current_len(d),
{
}

/// Law: moving to the start of the line twice is the same as doing it once.
pub proof fn lemma_start_of_line_idempotent(d: DocV)
    ensures
        start_of_line_tx(start_of_line_tx(d)) == start_of_line_tx(d),
{
}

/// Law: moving to the end of the line twice is the same as doing it once.
pub proof fn lemma_end_of_line_idempotent(d: DocV)
    ensures
        end_of_line_tx(end_of_line_tx(d)) == end_of_line_tx(d),
{
}

/// Law: on a document with at least one row, inserting a grapheme and then
/// backspacing restores the document exactly.
pub proof fn lemma_insert_then_delete_prev(d: DocV, g: Seq<char>)
    requires
        doc_wf(d),
        d.rows.len() > 0,
    ensures
        delete_prev_tx(insert_tx(d, g)) == d,
{
    let d1 = insert_tx(d, g);
    let y = d.cursor.y;
    let x = d.cursor.x;
    assert(d1.rows[y].remove(x) =~= d.rows[y]);
    assert(delete_prev_tx(d1).rows =~= d.rows);
    assert(delete_prev_tx(d1) == d);
}

/// Law: splitting the row at the cursor and then backspacing restores the
/// rows and the cursor exactly.
pub proof fn lemma_insert_line_then_delete_prev(d: DocV)
    requires
        doc_wf(d),
    ensures
        delete_prev_tx(insert_line_tx(d)) == d,
{
    if d.rows.len() == 0 {
    } else {
        let d1 = insert_line_tx(d);
        let y = d.cursor.y;
        let x = d.cursor.x;
        assert(d1.rows[y] == d.rows[y].take(x));
        assert(d1.rows[y + 1] == d.rows[y].skip(x));
        assert(d1.rows[y] + d1.rows[y + 1] =~= d.rows[y]);
        assert(d1.rows[y].len() == x);
        assert(delete_prev_tx(d1).rows =~= d.rows);
        assert(delete_prev_tx(d1) == d);
    }
}

/// The display width of a row: the sum of its cells' widths.
pub open spec fn row_width(r: Seq<CellV>) -> int
    decreases r.len(),
{
    if r.len() == 0 {
        0
    } else {
        row_width(r.drop_last()) + r.last().width
    }
}

pub proof fn lemma_row_width_singleton(c: CellV)
    ensures
        row_width(seq![c]) == c.width,
{
    assert(seq![c].drop_last() =~= Seq::<CellV>::empty());
    assert(row_width(Seq::<CellV>::empty()) == 0);
}

/// The soft-wrap partition: cells are dealt onto the current visual line
/// until the next cell would reach `cols` columns; then the line is sealed
/// and a new one begun with that cell.
pub open spec fn wrap_from(cells: Seq<CellV>, cols: int, cur: Seq<CellV>) -> Seq<Seq<CellV>>
    decreases cells.len(),
{
    if cells.len() == 0 {
        seq![cur]
    } else {
        let c = cells.first();
        if row_width(cur) + c.width >= cols {
            seq![cur] + wrap_from(cells.drop_first(), cols, seq![c])
        } else {
            wrap_from(cells.drop_first(), cols, cur.push(c))
        }
    }
}

/// The visual lines a row occupies at `cols` columns, as cell sequences.
pub open spec fn wrap_rows(cells: Seq<CellV>, cols: int) -> Seq<Seq<CellV>> {
    wrap_from(cells, cols, Seq::empty())
}

/// The rendered visual lines: each begins with a style reset and the running
/// style; a cell whose style differs from the running one re-selects it; the
/// last line gets `end` appended while its width is below `cols`.
pub open spec fn render_from(
    cells: Seq<CellV>,
    cols: int,
    end: Seq<char>,
    cur: Seq<char>,
    curw: int,
    style: StyleV,
) -> Seq<Seq<char>>
    decreases cells.len(),
{
    if cells.len() == 0 {
        seq![if curw < cols { cur + end } else { cur }]
    } else {
        let c = cells.first();
        let sealed = curw + c.width >= cols;
        let base = if sealed { styled_spec(style, Seq::empty()) } else { cur };
        let basew = if sealed { 0 } else { curw };
        let piece = if c.style == style { c.grapheme } else { styled_spec(c.style, c.grapheme) };
        let rest = render_from(
            cells.drop_first(),
            cols,
            end,
            base + piece,
            basew + c.width,
            c.style,
        );
        if sealed { seq![cur] + rest } else { rest }
    }
}

/// The full rendering of a row, starting from the default content style.
pub open spec fn soft_wrap_spec(cells: Seq<CellV>, cols: int, end: Seq<char>) -> Seq<Seq<char>> {
    render_from(
        cells,
        cols,
        end,
        styled_spec(content_style_v(), Seq::empty()),
        0,
        content_style_v(),
    )
}

/// The rendering and the partition agree on the number of visual lines.
pub proof fn lemma_render_wrap_len(
    cells: Seq<CellV>,
    cols: int,
    end: Seq<char>,
    cur: Seq<char>,
    curcells: Seq<CellV>,
    style: StyleV,
)
    ensures
        render_from(cells, cols, end, cur, row_width(curcells), style).len() == wrap_from(
            cells,
            cols,
            curcells,
        ).len(),
    decreases cells.len(),
{
    if cells.len() == 0 {
    } else {
        let c = cells.first();
        if row_width(curcells) + c.width >= cols {
            lemma_row_width_singleton(c);
            let piece = if c.style == style {
                c.grapheme
            } else {
                styled_spec(c.style, c.grapheme)
            };
            lemma_render_wrap_len(
                cells.drop_first(),
                cols,
                end,
                styled_spec(style, Seq::empty()) + piece,
                seq![c],
                c.style,
            );
        } else {
            assert(row_width(curcells.push(c)) == row_width(curcells) + c.width) by {
                assert(curcells.push(c).drop_last() =~= curcells);
            }
            let piece = if c.style == style {
                c.grapheme
            } else {
                styled_spec(c.style, c.grapheme)
            };
            lemma_render_wrap_len(
                cells.drop_first(),
                cols,
                end,
                cur + piece,
                curcells.push(c),
                c.style,
            );
        }
    }
}

/// The partition loses no cell: its lines concatenate to the cells dealt in.
pub proof fn lemma_wrap_flatten(cells: Seq<CellV>, cols: int, cur: Seq<CellV>)
    ensures
        concat_rows(wrap_from(cells, cols, cur)) == cur + cells,
    decreases cells.len(),
{
    if cells.len() == 0 {
        assert(concat_rows(seq![cur]) =~= cur + cells) by {
            assert(seq![cur].drop_first() =~= Seq::<Seq<CellV>>::empty());
            assert(concat_rows(Seq::<Seq<CellV>>::empty()) =~= Seq::<CellV>::empty());
        }
    } else {
        let c = cells.first();
        if row_width(cur) + c.width >= cols {
            lemma_wrap_flatten(cells.drop_first(), cols, seq![c]);
            assert(concat_rows(seq![cur] + wrap_from(cells.drop_first(), cols, seq![c]))
                =~= cur + concat_rows(wrap_from(cells.drop_first(), cols, seq![c]))) by {
                lemma_concat_rows_cons(cur, wrap_from(cells.drop_first(), cols, seq![c]));
            }
            assert(seq![c] + cells.drop_first() =~= cells);
            assert(cur + (seq![c] + cells.drop_first()) =~= cur + cells);
        } else {
            lemma_wrap_flatten(cells.drop_first(), cols, cur.push(c));
            assert(cur.push(c) + cells.drop_first() =~= cur + cells);
        }
    }
}

/// The concatenation of a sequence of cell rows.
pub open spec fn concat_rows(rs: Seq<Seq<CellV>>) -> Seq<CellV>
    decreases rs.len(),
{
    if rs.len() == 0 {
        Seq::empty()
    } else {
        rs.first() + concat_rows(rs.drop_first())
    }
}

proof fn lemma_concat_rows_cons(r: Seq<CellV>, rs: Seq<Seq<CellV>>)
    ensures
        concat_rows(seq![r] + rs) == r + concat_rows(rs),
{
    assert((seq![r] + rs).first() == r);
    assert((seq![r] + rs).drop_first() =~= rs);
    assert(concat_rows(seq![r] + rs) =~= r + concat_rows(rs));
}

/// Law: when every cell of a row is narrower than the wrap width, every
/// visual line the row wraps to is strictly narrower than the wrap width.
pub proof fn lemma_soft_wrap_widths(cells: Seq<CellV>, cols: int)
    requires
        cols >= 1,
        forall|i: int| 0 <= i < cells.len() ==> 0 <= (#[trigger] cells[i]).width < cols,
    ensures
        forall|k: int|
            0 <= k < wrap_rows(cells, cols).len() ==> row_width(
                #[trigger] wrap_rows(cells, cols)[k],
            ) < cols,
{
    lemma_soft_wrap_widths_from(cells, cols, Seq::empty());
}

proof fn lemma_soft_wrap_widths_from(cells: Seq<CellV>, cols: int, cur: Seq<CellV>)
    requires
        cols >= 1,
        forall|i: int| 0 <= i < cells.len() ==> 0 <= (#[trigger] cells[i]).width < cols,
        row_width(cur) < cols,
    ensures
        forall|k: int|
            0 <= k < wrap_from(cells, cols, cur).len() ==> row_width(
                #[trigger] wrap_from(cells, cols, cur)[k],
            ) < cols,
    decreases cells.len(),
{
    if cells.len() == 0 {
        assert(wrap_from(cells, cols, cur) == seq![cur]);
        assert(wrap_from(cells, cols, cur)[0] == cur);
    } else {
        let c = cells.first();
        assert(cells[0] == c);
        assert(forall|i: int|
            0 <= i < cells.drop_first().len() ==> 0 <= (#[trigger] cells.drop_first()[i]).width
                < cols);
        if row_width(cur) + c.width >= cols {
            lemma_row_width_singleton(c);
            lemma_soft_wrap_widths_from(cells.drop_first(), cols, seq![c]);
            assert(wrap_from(cells, cols, cur) == seq![cur] + wrap_from(
                cells.drop_first(),
                cols,
                seq![c],
            ));
            assert forall|k: int|
                0 <= k < wrap_from(cells, cols, cur).len() implies row_width(
                #[trigger] wrap_from(cells, cols, cur)[k],
            ) < cols by {
                let rest = wrap_from(cells.drop_first(), cols, seq![c]);
                assert(wrap_from(cells, cols, cur) == seq![cur] + rest);
                if k == 0 {
                    assert(wrap_from(cells, cols, cur)[0] == cur);
                } else {
                    assert(wrap_from(cells, cols, cur)[k] == rest[k - 1]);
                }
            }
        } else {
            assert(row_width(cur.push(c)) == row_width(cur) + c.width) by {
                assert(cur.push(c).drop_last() =~= cur);
            }
            lemma_soft_wrap_widths_from(cells.drop_first(), cols, cur.push(c));
            assert(wrap_from(cells, cols, cur) == wrap_from(cells.drop_first(), cols, cur.push(c)));
        }
    }
}

impl Row {
    /// Soft-wraps the row into styled one-line strings at `max_width`
    /// columns, appending `end` to the last line while it has room.
    pub fn split(&self, max_width: usize, end: &str) -> (res: Vec<String>)
        requires
            max_width >= 1,
        ensures
            res@.map_values(|l: String| l@) == soft_wrap_spec(self@, max_width as int, end@),
            res@.len() >= 1,
    {
        let mut display_lines: Vec<String> = Vec::new();
        let mut style = content_style();
        let mut line = styled(&style, &String::new());
        let mut width: usize = 0;
        let n = self.cells.len();
        let mut i: usize = 0;
        proof {
            assert(self@.skip(0) =~= self@);
        }
        while i < n
            invariant
                n == self.cells.len(),
                i <= n,
                max_width >= 1,
                display_lines@.map_values(|l: String| l@) + render_from(
                    self@.skip(i as int),
                    max_width as int,
                    end@,
                    line@,
                    width as int,
                    style@,
                ) =~= soft_wrap_spec(self@, max_width as int, end@),
            decreases n - i,
        {
            let ghost pre_lines = display_lines@;
            let ghost pre_line = line@;
            let ghost pre_width = width as int;
            let ghost pre_style = style@;
            let cell = &self.cells[i];
            proof {
                assert(self@.skip(i as int).first() == self@[i as int]);
                assert(self@[i as int] == self.cells@[i as int]@);
                assert(self@.skip(i as int).drop_first() =~= self@.skip(i + 1));
            }
            let sealed = width >= max_width || cell.width >= max_width - width;
            if sealed {
                display_lines.push(line);
                line = styled(&style, &String::new());
                width = 0;
            }
            if !(cell.style == style) {
                style = cell.style.clone();
                let piece = styled(&style, &cell.grapheme);
                line.append(piece.as_str());
            } else {
                line.append(cell.grapheme.as_str());
            }
            width = width + cell.width;
            proof {
                let c = self@[i as int];
                assert(c.style == pre_style <==> self.cells@[i as int].style@ == pre_style);
                if sealed {
                    assert(display_lines@.map_values(|l: String| l@) =~= pre_lines.map_values(
                        |l: String| l@,
                    ) + seq![pre_line]);
                }
            }
            i += 1;
        }
        proof {
            assert(self@.skip(n as int) =~= Seq::<CellV>::empty());
        }
        if width < max_width {
            let mut last = line;
            last.append(end);
            display_lines.push(last);
        } else {
            display_lines.push(line);
        }
        proof {
            assert(display_lines@.map_values(|l: String| l@) =~= soft_wrap_spec(
                self@,
                max_width as int,
                end@,
            ));
        }
        display_lines
    }
}

/// The logical lines of a text: split at each newline, with a final segment
/// only if nonempty (a trailing newline adds no empty line).
pub open spec fn split_lines(s: Seq<char>) -> Seq<Seq<char>>
    decreases s.len(),
{
    if s.len() == 0 {
        Seq::empty()
    } else if s[0] == '\n' {
        seq![Seq::<char>::empty()] + split_lines(s.drop_first())
    } else {
        let rest = split_lines(s.drop_first());
        if rest.len() == 0 {
            seq![seq![s[0]]]
        } else {
            seq![seq![s[0]] + rest.first()] + rest.drop_first()
        }
    }
}

/// The saved form of a sequence of lines: each line followed by a newline.
pub open spec fn join_lines(ls: Seq<Seq<char>>) -> Seq<char>
    decreases ls.len(),
{
    if ls.len() == 0 {
        Seq::empty()
    } else {
        ls.first() + seq!['\n'] + join_lines(ls.drop_first())
    }
}

/// The text of each row of a document, in order.
pub open spec fn doc_lines(d: DocV) -> Seq<Seq<char>> {
    d.rows.map_values(|r: Seq<CellV>| row_text(r))
}

/// Law: saving what was opened reproduces the text exactly, except that an
/// absent trailing newline is added; an empty text stays empty.
pub proof fn lemma_save_open_round_trip(s: Seq<char>)
    ensures
        join_lines(split_lines(s)) == if s.len() == 0 {
            s
        } else if s.last() == '\n' {
            s
        } else {
            s.push('\n')
        },
    decreases s.len(),
{
    if s.len() == 0 {
    } else {
        let t = s.drop_first();
        lemma_save_open_round_trip(t);
        let rt = if t.len() == 0 {
            t
        } else if t.last() == '\n' {
            t
        } else {
            t.push('\n')
        };
        if s[0] == '\n' {
            let ls = seq![Seq::<char>::empty()] + split_lines(t);
            assert(ls.first() =~= Seq::<char>::empty());
            assert(ls.drop_first() =~= split_lines(t));
            assert(join_lines(ls) =~= seq!['\n'] + rt);
            if t.len() == 0 {
                assert(seq!['\n'] + rt =~= s);
            } else if t.last() == '\n' {
                assert(s.last() == '\n');
                assert(seq!['\n'] + rt =~= s);
            } else {
                assert(s.last() != '\n');
                assert(seq!['\n'] + rt =~= s.push('\n'));
            }
        } else {
            let rest = split_lines(t);
            if rest.len() == 0 {
                assert(t.len() == 0) by {
                    if t.len() > 0 {
                        lemma_split_lines_nonempty(t);
                    }
                }
                let ls = seq![seq![s[0]]];
                assert(ls.drop_first() =~= Seq::<Seq<char>>::empty());
                assert(join_lines(Seq::<Seq<char>>::empty()) =~= Seq::<char>::empty());
                assert(join_lines(ls) =~= seq![s[0]] + seq!['\n']);
                assert(s =~= seq![s[0]]);
                assert(join_lines(ls) =~= s.push('\n'));
            } else {
                let ls = seq![seq![s[0]] + rest.first()] + rest.drop_first();
                assert(ls.first() == seq![s[0]] + rest.first());
                assert(ls.drop_first() =~= rest.drop_first());
                assert(join_lines(ls) =~= seq![s[0]] + (rest.first() + seq!['\n'] + join_lines(
                    rest.drop_first(),
                )));
                assert(rest.first() + seq!['\n'] + join_lines(rest.drop_first()) =~= join_lines(
                    rest,
                ));
                assert(t.len() > 0);
                assert(s.last() == t.last());
                if t.last() == '\n' {
                    assert(join_lines(ls) =~= seq![s[0]] + t);
                    assert(seq![s[0]] + t =~= s);
                } else {
                    assert(join_lines(ls) =~= seq![s[0]] + t.push('\n'));
                    assert(seq![s[0]] + t.push('\n') =~= s.push('\n'));
                }
            }
        }
    }
}

/// A nonempty text has at least one line.
pub proof fn lemma_split_lines_nonempty(s: Seq<char>)
    requires
        s.len() > 0,
    ensures
        split_lines(s).len() >= 1,
    decreases s.len(),
{
}

/// No line of a split text contains a newline.
pub proof fn lemma_split_lines_no_newline(s: Seq<char>)
    ensures
        forall|k: int, j: int|
            0 <= k < split_lines(s).len() && 0 <= j < split_lines(s)[k].len() ==> split_lines(
                s,
            )[k][j] != '\n',
    decreases s.len(),
{
    if s.len() == 0 {
    } else {
        let t = s.drop_first();
        lemma_split_lines_no_newline(t);
        let ls = split_lines(s);
        let rest = split_lines(t);
        if s[0] == '\n' {
            assert forall|k: int, j: int|
                0 <= k < ls.len() && 0 <= j < ls[k].len() implies ls[k][j] != '\n' by {
                assert(ls[0] =~= Seq::<char>::empty());
                if k > 0 {
                    assert(ls[k] == rest[k - 1]);
                }
            }
        } else {
            if rest.len() == 0 {
                assert forall|k: int, j: int|
                    0 <= k < ls.len() && 0 <= j < ls[k].len() implies ls[k][j] != '\n' by {
                    assert(ls[k] == seq![s[0]]);
                    assert(ls[k][j] == s[0]);
                }
            } else {
                assert forall|k: int, j: int|
                    0 <= k < ls.len() && 0 <= j < ls[k].len() implies ls[k][j] != '\n' by {
                    if k == 0 {
                        assert(ls[0] == seq![s[0]] + rest.first());
                        if j == 0 {
                            assert(ls[0][0] == s[0]);
                        } else {
                            assert(ls[0][j] == rest[0][j - 1]);
                        }
                    } else {
                        assert(ls[k] == rest[k]);
                    }
                }
            }
        }
    }
}

/// How a line under construction and the unread tail assemble into lines.
pub open spec fn assemble(cur: Seq<char>, rest: Seq<char>) -> Seq<Seq<char>> {
    if rest.len() == 0 {
        if cur.len() == 0 {
            Seq::<Seq<char>>::empty()
        } else {
            seq![cur]
        }
    } else {
        let ls = split_lines(rest);
        seq![cur + ls.first()] + ls.drop_first()
    }
}

proof fn lemma_assemble_step(cur: Seq<char>, rest: Seq<char>)
    requires
        rest.len() > 0,
    ensures
        rest[0] != '\n' ==> assemble(cur, rest) == assemble(cur.push(rest[0]), rest.drop_first()),
        rest[0] == '\n' ==> assemble(cur, rest) == seq![cur] + assemble(
            Seq::<char>::empty(),
            rest.drop_first(),
        ),
{
    let t = rest.drop_first();
    let ls = split_lines(rest);
    if rest[0] == '\n' {
        assert(ls == seq![Seq::<char>::empty()] + split_lines(t));
        assert(ls.first() =~= Seq::<char>::empty());
        assert(cur + ls.first() =~= cur);
        assert(ls.drop_first() =~= split_lines(t));
        if t.len() == 0 {
            assert(assemble(cur, rest) =~= seq![cur]);
            assert(seq![cur] + assemble(Seq::<char>::empty(), t) =~= seq![cur]);
        } else {
            lemma_split_lines_nonempty(t);
            let lt = split_lines(t);
            assert(assemble(Seq::<char>::empty(), t) =~= seq![Seq::<char>::empty() + lt.first()]
                + lt.drop_first());
            assert(Seq::<char>::empty() + lt.first() =~= lt.first());
            assert(seq![lt.first()] + lt.drop_first() =~= lt);
            assert(assemble(cur, rest) =~= seq![cur] + lt);
            assert(seq![cur] + assemble(Seq::<char>::empty(), t) =~= seq![cur] + lt);
        }
    } else {
        let c = rest[0];
        if t.len() == 0 {
            assert(split_lines(t).len() == 0);
            assert(ls == seq![seq![c]]);
            assert(assemble(cur, rest) =~= seq![cur + seq![c]]);
            assert(assemble(cur.push(c), t) =~= seq![cur.push(c)]);
            assert(cur + seq![c] =~= cur.push(c));
            assert(assemble(cur, rest) =~= assemble(cur.push(c), t));
        } else {
            lemma_split_lines_nonempty(t);
            let lt = split_lines(t);
            assert(ls == seq![seq![c] + lt.first()] + lt.drop_first());
            assert(ls.first() == seq![c] + lt.first());
            assert(ls.drop_first() =~= lt.drop_first());
            assert(cur + (seq![c] + lt.first()) =~= cur.push(c) + lt.first());
            assert(assemble(cur, rest) =~= seq![cur.push(c) + lt.first()] + lt.drop_first());
            assert(assemble(cur.push(c), t) =~= seq![cur.push(c) + lt.first()] + lt.drop_first());
        }
    }
}

proof fn lemma_join_push(ls: Seq<Seq<char>>, x: Seq<char>)
    ensures
        join_lines(ls.push(x)) == join_lines(ls) + x + seq!['\n'],
    decreases ls.len(),
{
    if ls.len() == 0 {
        assert(ls.push(x).first() == x);
        assert(ls.push(x).drop_first() =~= Seq::<Seq<char>>::empty());
        assert(join_lines(Seq::<Seq<char>>::empty()) =~= Seq::<char>::empty());
        assert(join_lines(ls.push(x)) == x + seq!['\n'] + join_lines(ls.push(x).drop_first()));
        assert(join_lines(ls.push(x)) =~= join_lines(ls) + x + seq!['\n']);
    } else {
        lemma_join_push(ls.drop_first(), x);
        assert(ls.push(x).first() == ls.first());
        assert(ls.push(x).drop_first() =~= ls.drop_first().push(x));
        assert(join_lines(ls.push(x)) =~= join_lines(ls) + x + seq!['\n']);
    }
}

/// What opening a text under a name leaves behind: one row of cells per
/// line, the cursor at the origin, the name recorded.
pub open spec fn opened_doc(d: DocV, filename: Seq<char>, contents: Seq<char>) -> bool {
    &&& d.rows.len() == split_lines(contents).len()
    &&& forall|k: int|
        0 <= k < d.rows.len() ==> #[trigger] d.rows[k] == cells_of(split_lines(contents)[k])
    &&& doc_lines(d) == split_lines(contents)
    &&& d.cursor == (CursorV { x: 0, y: 0 })
    &&& d.filename == Option::Some(filename)
}

impl Document {
    /// Replaces the document with the lines of `contents`, read under the
    /// given name; the cursor returns to the origin.
    pub fn open_str(&mut self, filename: String, contents: &str)
        ensures
            opened_doc(final(self)@, filename@, contents@),
            doc_wf(final(self)@),
    {
        let n = contents.unicode_len();
        let mut rows: Vec<Row> = Vec::new();
        let mut cur = String::new();
        let ghost whole = contents@;
        let ghost mut gdone = Seq::<Seq<char>>::empty();
        let mut i: usize = 0;
        proof {
            assert(whole.skip(0) =~= whole);
            assert(split_lines(whole) =~= gdone + assemble(cur@, whole.skip(0)));
        }
        while i < n
            invariant
                n == whole.len(),
                i <= n,
                whole == contents@,
                split_lines(whole) =~= gdone + assemble(cur@, whole.skip(i as int)),
                rows@.len() == gdone.len(),
                forall|k: int|
                    0 <= k < rows@.len() ==> #[trigger] rows@[k]@ == cells_of(gdone[k])
                        && row_text(rows@[k]@) == gdone[k] && row_wf(rows@[k]@),
                forall|j: int| 0 <= j < cur@.len() ==> cur@[j] != '\n',
            decreases n - i,
        {
            let c = contents.get_char(i);
            proof {
                assert(whole.skip(i as int)[0] == whole[i as int]);
                assert(whole.skip(i as int).drop_first() =~= whole.skip(i + 1));
                lemma_assemble_step(cur@, whole.skip(i as int));
            }
            if c == '\n' {
                let row = cells(cur.as_str());
                rows.push(row);
                proof {
                    gdone = gdone.push(cur@);
                }
                cur = String::new();
            } else {
                let ghost pre_cur = cur@;
                let piece = contents.substring_char(i, i + 1);
                cur.append(piece);
                proof {
                    assert(piece@ =~= seq![whole[i as int]]);
                    assert(cur@ =~= pre_cur.push(whole[i as int]));
                }
            }
            i += 1;
        }
        proof {
            assert(whole.skip(n as int) =~= Seq::<char>::empty());
        }
        if cur.as_str().unicode_len() > 0 {
            let row = cells(cur.as_str());
            rows.push(row);
            proof {
                gdone = gdone.push(cur@);
            }
        }
        self.rows = rows;
        self.cursor = Cursor { x: 0, y: 0 };
        self.filename = Option::Some(filename);
        proof {
            assert(split_lines(whole) =~= gdone);
            assert(final(self)@.rows =~= rows@.map_values(|r: Row| r@));
            let fv = final(self)@;
            assert forall|k: int| 0 <= k < fv.rows.len() implies #[trigger] fv.rows[k] == cells_of(
                split_lines(contents@)[k],
            ) by {
                assert(fv.rows[k] == rows@[k]@);
            }
            assert(doc_lines(final(self)@) =~= split_lines(contents@));
        }
    }

    /// The exact text a save writes: every row's text followed by a newline.
    pub fn save_string(&self) -> (s: String)
        ensures
            s@ == join_lines(doc_lines(self@)),
    {
        let mut out = String::new();
        let n = self.rows.len();
        let mut i: usize = 0;
        proof {
            assert(doc_lines(self@).take(0) =~= Seq::<Seq<char>>::empty());
        }
        while i < n
            invariant
                n == self.rows@.len(),
                i <= n,
                out@ == join_lines(doc_lines(self@).take(i as int)),
            decreases n - i,
        {
            let line = self.rows[i].as_string();
            out.append(line.as_str());
            out.append("\n");
            proof {
                reveal_strlit("\n");
                assert("\n"@ =~= seq!['\n']);
                assert(doc_lines(self@).take(i + 1) =~= doc_lines(self@).take(i as int).push(
                    row_text(self@.rows[i as int]),
                ));
                lemma_join_push(doc_lines(self@).take(i as int), row_text(self@.rows[i as int]));
            }
            i += 1;
        }
        proof {
            assert(doc_lines(self@).take(n as int) =~= doc_lines(self@));
        }
        out
    }
}

} // verus!
