//! The character cells that the front end draws into, and the patches that
//! bring a terminal from one drawing to the next.

use crate::text::chars_of;
use vstd::prelude::*;

verus! {

/// A colour of the terminal, of those that the front end uses.
#[derive(Clone, Copy, Debug, PartialEq, Eq, Structural)]
pub enum Color {
    Reset,
    Black,
    White,
    Yellow,
}

/// One character cell.
#[derive(Clone, Copy, Debug, PartialEq, Eq, Structural)]
pub struct Cell {
    pub c: char,
    pub bg_color: Color,
    pub fg_color: Color,
}

impl Default for Cell {
    fn default() -> (cell: Cell)
        ensures
            cell == Cell::blank(),
    {
        Cell { c: ' ', bg_color: Color::Black, fg_color: Color::White }
    }
}

impl Cell {
    /// A space, white on black.
    pub open spec fn blank() -> Cell {
        Cell { c: ' ', bg_color: Color::Black, fg_color: Color::White }
    }
}

/// A cell to draw at a place of the terminal.
#[derive(Clone, Copy, Debug, PartialEq, Eq, Structural)]
pub struct Patch {
    pub x: usize,
    pub y: usize,
    pub cell: Cell,
}

/// A rectangle of cells.
#[derive(Clone, Copy, Debug, PartialEq, Eq, Structural)]
pub struct Bound {
    pub x: usize,
    pub y: usize,
    pub w: usize,
    pub h: usize,
}

impl Bound {
    /// The rectangle with its corner at column `x` of line `y`, `w` wide and
    /// `h` high.
    pub fn new(x: usize, y: usize, w: usize, h: usize) -> (bound: Bound)
        ensures
            bound == (Bound { x, y, w, h }),
    {
        Bound { x, y, w, h }
    }
}

/// The cells of a buffer as plain values: line after line, each `width`
/// cells long.
pub ghost struct Grid {
    pub width: nat,
    pub height: nat,
    pub cells: Seq<Cell>,
    pub cursor: (int, int),
}

impl Grid {
    /// Whether there are as many cells as the width and the height ask for.
    pub open spec fn wf(self) -> bool {
        self.cells.len() == self.width * self.height
    }

    /// A grid of the given size in which every cell is the same, with the
    /// cursor at the given place.
    pub open spec fn filled(width: nat, height: nat, cell: Cell, cursor: (int, int)) -> Grid {
        Grid { width, height, cells: Seq::new(width * height, |i: int| cell), cursor }
    }

    /// The position of a cell among the cells.
    pub open spec fn index(self, x: int, y: int) -> int {
        y * self.width + x
    }

    /// The grid with one cell replaced.
    pub open spec fn with_cell(self, x: int, y: int, cell: Cell) -> Grid {
        Grid { cells: self.cells.update(self.index(x, y), cell), ..self }
    }

    /// The grid with the characters of a text written on line `y` from
    /// column `x`, as far as the line reaches.
    pub open spec fn with_text(self, text: Seq<char>, x: int, y: int, bg: Color, fg: Color) -> Grid
        decreases text.len(),
    {
        if text.len() == 0 {
            self
        } else {
            let before = self.with_text(text.drop_last(), x, y, bg, fg);
            let column = x + text.len() - 1;
            if column < self.width {
                before.with_cell(column, y, Cell { c: text.last(), bg_color: bg, fg_color: fg })
            } else {
                before
            }
        }
    }

    /// Whether a text of so many bytes fits on a line from column `x`.
    pub open spec fn fits(self, bytes: nat, x: int) -> bool {
        x + bytes <= self.width
    }

    /// The grid with a string put on line `y` from column `x`: the string
    /// where it fits, as its bytes count; else the beginning of the string
    /// that leaves one column free, and an ellipsis in that column.
    pub open spec fn with_str(self, s: Seq<char>, x: int, y: int, bg: Color, fg: Color) -> Grid {
        let bytes = vstd::utf8::encode_utf8(s);
        if self.fits(bytes.len(), x) {
            self.with_text(s, x, y, bg, fg)
        } else {
            let offset = self.width - x - 1;
            self.with_text(
                vstd::utf8::decode_utf8(bytes.subrange(0, offset)),
                x,
                y,
                bg,
                fg,
            ).with_cell(x + offset, y, Cell { c: '…', bg_color: bg, fg_color: fg })
        }
    }

    /// The column behind a string put from column `x`.
    pub open spec fn str_end(self, s: Seq<char>, x: int) -> int {
        let bytes = vstd::utf8::encode_utf8(s);
        if self.fits(bytes.len(), x) {
            x + bytes.len()
        } else {
            self.width as int
        }
    }

    /// Whether a string can be put on line `y` from column `x`: the place is
    /// on the grid, and where the string does not fit, the part that is
    /// written ends between two characters.
    pub open spec fn can_put_str(self, s: Seq<char>, x: int, y: int) -> bool {
        let bytes = vstd::utf8::encode_utf8(s);
        &&& 0 <= x < self.width
        &&& 0 <= y < self.height
        &&& !self.fits(bytes.len(), x) ==> vstd::utf8::is_char_boundary(
            bytes,
            self.width - x - 1,
        )
    }

    /// The grid with the cursor moved.
    pub open spec fn with_cursor(self, x: int, y: int) -> Grid {
        Grid { cursor: (x, y), ..self }
    }

    /// The patches for the first `upto` cells that differ from those of
    /// another grid, in the order of the cells.
    pub open spec fn patches_upto(self, other: Grid, upto: nat) -> Seq<Patch>
        decreases upto,
    {
        if upto == 0 {
            Seq::empty()
        } else {
            let i = (upto - 1) as nat;
            let before = self.patches_upto(other, i);
            if self.cells[i as int] != other.cells[i as int] {
                before.push(
                    Patch {
                        x: (i % self.width) as usize,
                        y: (i / self.width) as usize,
                        cell: self.cells[i as int],
                    },
                )
            } else {
                before
            }
        }
    }

    /// The patches that bring a terminal that shows `other` to this grid:
    /// one for each cell that differs, with the cell of this grid.
    pub open spec fn patches(self, other: Grid) -> Seq<Patch> {
        self.patches_upto(other, self.cells.len())
    }
}

/// The place of a cell stays among the cells.
pub proof fn lemma_index_in_grid(width: nat, height: nat, x: int, y: int)
    requires
        0 <= x < width,
        0 <= y < height,
    ensures
        0 <= y * width + x < width * height,
{
    assert(y * width + x < width * height) by (nonlinear_arith)
        requires
            0 <= x < width,
            0 <= y < height,
    {
        assert((y + 1) * width <= height * width);
        assert(0 <= y * width);
    }
}

/// Replacing a cell leaves the size of the grid and its cursor as they are.
pub proof fn lemma_with_cell_keeps_size(g: Grid, x: int, y: int, cell: Cell)
    requires
        g.wf(),
        0 <= x < g.width,
        0 <= y < g.height,
    ensures
        g.with_cell(x, y, cell).wf(),
        g.with_cell(x, y, cell).width == g.width,
        g.with_cell(x, y, cell).height == g.height,
        g.with_cell(x, y, cell).cursor == g.cursor,
{
    lemma_index_in_grid(g.width, g.height, x, y);
}

/// Writing a text leaves the size of the grid and its cursor as they are.
pub proof fn lemma_with_text_keeps_size(g: Grid, text: Seq<char>, x: int, y: int, bg: Color, fg: Color)
    requires
        g.wf(),
        0 <= x < g.width,
        0 <= y < g.height,
    ensures
        g.with_text(text, x, y, bg, fg).wf(),
        g.with_text(text, x, y, bg, fg).width == g.width,
        g.with_text(text, x, y, bg, fg).height == g.height,
        g.with_text(text, x, y, bg, fg).cursor == g.cursor,
    decreases text.len(),
{
    if text.len() > 0 {
        lemma_with_text_keeps_size(g, text.drop_last(), x, y, bg, fg);
        let before = g.with_text(text.drop_last(), x, y, bg, fg);
        let column = x + text.len() - 1;
        if column < g.width {
            lemma_with_cell_keeps_size(
                before,
                column,
                y,
                Cell { c: text.last(), bg_color: bg, fg_color: fg },
            );
        }
    }
}

/// A buffer of character cells, with a cursor.
pub struct Buffer {
    width: usize,
    height: usize,
    buf: Vec<Cell>,
    cursor_x: usize,
    cursor_y: usize,
}

impl Clone for Buffer {
    fn clone(&self) -> (copy: Buffer)
        ensures
            copy@ == self@,
    {
        Buffer {
            width: self.width,
            height: self.height,
            buf: self.buf.clone(),
            cursor_x: self.cursor_x,
            cursor_y: self.cursor_y,
        }
    }
}

impl View for Buffer {
    type V = Grid;

    closed spec fn view(&self) -> Grid {
        Grid {
            width: self.width as nat,
            height: self.height as nat,
            cells: self.buf@,
            cursor: (self.cursor_x as int, self.cursor_y as int),
        }
    }
}

/// As many copies of a cell as asked for.
fn cells_of(count: usize, cell: Cell) -> (cells: Vec<Cell>)
    ensures
        cells@ == Seq::new(count as nat, |i: int| cell),
{
    let mut cells: Vec<Cell> = Vec::new();
    let mut i: usize = 0;
    while i < count
        invariant
            i <= count,
            cells@.len() == i,
            forall|k: int| 0 <= k < i ==> cells@[k] == cell,
        decreases count - i,
    {
        cells.push(cell);
        i += 1;
    }
    assert(cells@ =~= Seq::new(count as nat, |i: int| cell));
    cells
}

impl Buffer {
    /// Whether the buffer holds as many cells as its size asks for.
    pub open spec fn wf(&self) -> bool {
        self@.wf()
    }

    /// A buffer of blank cells, with the cursor in the first place.
    pub fn new(width: usize, height: usize) -> (buffer: Buffer)
        requires
            width * height <= usize::MAX,
        ensures
            buffer.wf(),
            buffer@ == Grid::filled(width as nat, height as nat, Cell::blank(), (0, 0)),
    {
        Buffer {
            width,
            height,
            buf: cells_of(width * height, Cell::default()),
            cursor_x: 0,
            cursor_y: 0,
        }
    }

    /// Gives the buffer another size and fills it with a cell.
    pub fn resize_with(&mut self, w: usize, h: usize, cell: Cell)
        requires
            w * h <= usize::MAX,
        ensures
            final(self).wf(),
            final(self)@ == Grid::filled(w as nat, h as nat, cell, old(self)@.cursor),
    {
        self.width = w;
        self.height = h;
        self.buf = cells_of(w * h, cell);
    }

    /// Fills the buffer with blank cells.
    pub fn reset(&mut self)
        requires
            old(self).wf(),
        ensures
            final(self).wf(),
            final(self)@ == Grid::filled(
                old(self)@.width,
                old(self)@.height,
                Cell::blank(),
                old(self)@.cursor,
            ),
    {
        self.reset_with(Cell::default());
    }

    /// Fills the buffer with a cell.
    pub fn reset_with(&mut self, cell: Cell)
        requires
            old(self).wf(),
        ensures
            final(self).wf(),
            final(self)@ == Grid::filled(old(self)@.width, old(self)@.height, cell, old(self)@.cursor),
    {
        self.buf = cells_of(self.buf.len(), cell);
    }

    /// The place of the cursor: its column and its line.
    pub fn cursor(&self) -> (cursor: (usize, usize))
        ensures
            cursor.0 == self@.cursor.0,
            cursor.1 == self@.cursor.1,
    {
        (self.cursor_x, self.cursor_y)
    }

    /// Puts the cursor at a place.
    pub fn set_cursor(&mut self, x: usize, y: usize)
        ensures
            final(self)@ == old(self)@.with_cursor(x as int, y as int),
    {
        self.cursor_x = x;
        self.cursor_y = y;
    }

    /// The number of columns.
    pub fn width(&self) -> (width: usize)
        ensures
            width == self@.width,
    {
        self.width
    }

    /// The number of lines.
    pub fn height(&self) -> (height: usize)
        ensures
            height == self@.height,
    {
        self.height
    }

    /// The cell at a place of the buffer.
    pub fn cell(&self, x: usize, y: usize) -> (cell: Cell)
        requires
            self.wf(),
            x < self@.width,
            y < self@.height,
        ensures
            cell == self@.cells[self@.index(x as int, y as int)],
    {
        self.buf[self.idx(x, y)]
    }

    fn idx(&self, x: usize, y: usize) -> (index: usize)
        requires
            self.wf(),
            x < self@.width,
            y < self@.height,
        ensures
            index == self@.index(x as int, y as int),
            index < self@.cells.len(),
    {
        proof {
            lemma_index_in_grid(self.width as nat, self.height as nat, x as int, y as int);
            assert(y * self.width <= y * self.width + x);
            assert(self.buf@.len() == self.buf.len());
        }
        y * self.width + x
    }

    fn coord(&self, index: usize) -> (place: (usize, usize))
        requires
            self@.width > 0,
        ensures
            place.0 == index % self.width,
            place.1 == index / self.width,
    {
        (index % self.width, index / self.width)
    }

    /// The patches that bring a terminal that shows `other` to this buffer.
    pub fn diff(&self, other: &Buffer) -> (patches: Vec<Patch>)
        requires
            self.wf(),
            other.wf(),
            self@.width == other@.width,
            self@.height == other@.height,
        ensures
            patches@ == self@.patches(other@),
    {
        let mut patches: Vec<Patch> = Vec::new();
        let mut i: usize = 0;
        while i < self.buf.len()
            invariant
                self.wf(),
                other.wf(),
                self@.width == other@.width,
                self@.height == other@.height,
                i <= self.buf@.len(),
                patches@ == self@.patches_upto(other@, i as nat),
            decreases self.buf@.len() - i,
        {
            assert(other.buf@.len() == self.buf@.len());
            assert(self.width > 0) by (nonlinear_arith)
                requires
                    self.buf@.len() == self.width * self.height,
                    self.buf@.len() > 0,
            {
            }
            if self.buf[i] != other.buf[i] {
                let (x, y) = self.coord(i);
                patches.push(Patch { cell: self.buf[i], x, y });
            }
            i += 1;
        }
        patches
    }

    /// Puts a character on the buffer; the columns and the lines count from
    /// zero.
    pub fn put_char(&mut self, c: char, x: usize, y: usize, bg_color: Color, fg_color: Color)
        requires
            old(self).wf(),
            x < old(self)@.width,
            y < old(self)@.height,
        ensures
            final(self).wf(),
            final(self)@ == old(self)@.with_cell(
                x as int,
                y as int,
                Cell { c, bg_color, fg_color },
            ),
    {
        let index = self.idx(x, y);
        self.buf.set(index, Cell { c, bg_color, fg_color });
    }

    /// Writes characters on a line, as far as the line reaches.
    fn put_text(&mut self, text: &Vec<char>, x: usize, y: usize, bg_color: Color, fg_color: Color)
        requires
            old(self).wf(),
            x < old(self)@.width,
            y < old(self)@.height,
        ensures
            final(self).wf(),
            final(self)@ == old(self)@.with_text(text@, x as int, y as int, bg_color, fg_color),
    {
        let mut i: usize = 0;
        while i < text.len()
            invariant
                i <= text@.len(),
                self.wf(),
                x < self@.width,
                y < self@.height,
                self@.width == old(self)@.width,
                self@.height == old(self)@.height,
                self@ == old(self)@.with_text(
                    text@.take(i as int),
                    x as int,
                    y as int,
                    bg_color,
                    fg_color,
                ),
            decreases text@.len() - i,
        {
            proof {
                assert(text@.take(i + 1).drop_last() =~= text@.take(i as int));
                assert(text@.take(i + 1).last() == text@[i as int]);
            }
            if i < self.width - x {
                self.put_char(text[i], x + i, y, bg_color, fg_color);
            }
            i += 1;
        }
        assert(text@.take(i as int) =~= text@);
    }

    /// Whether a string can be put on a line of the buffer from a column.
    pub fn takes_str(&self, s: &str, x: usize, y: usize) -> (yes: bool)
        ensures
            yes == self@.can_put_str(s@, x as int, y as int),
    {
        if x >= self.width || y >= self.height {
            return false;
        }
        let bytes = s.as_bytes();
        let room = self.width - x;
        if bytes.len() <= room {
            true
        } else {
            s.is_char_boundary(room - 1)
        }
    }

    /// Whether a string can be put at a place of a rectangle of the buffer.
    pub fn takes_str_in(&self, bound: Bound, s: &str, x: usize, y: usize) -> (yes: bool)
        ensures
            yes == self@.can_put_str_in(bound, s@, x as int, y as int),
    {
        if x > usize::MAX - bound.x || y > usize::MAX - bound.y {
            return false;
        }
        self.takes_str(s, bound.x + x, bound.y + y)
    }

    /// Puts a string on a line of the buffer. Where the string goes beyond
    /// the line, its end is left out and an ellipsis shows that. The column
    /// behind the string is handed back.
    pub fn put_str(&mut self, s: &str, x: usize, y: usize, bg_color: Color, fg_color: Color) -> (end:
        usize)
        requires
            old(self).wf(),
            old(self)@.can_put_str(s@, x as int, y as int),
        ensures
            final(self).wf(),
            final(self)@ == old(self)@.with_str(s@, x as int, y as int, bg_color, fg_color),
            end == old(self)@.str_end(s@, x as int),
    {
        let bytes = s.as_bytes();
        let room = self.width - x;
        if bytes.len() <= room {
            let text = chars_of(s);
            self.put_text(&text, x, y, bg_color, fg_color);
            x + bytes.len()
        } else {
            let offset = room - 1;
            let (head, _) = s.split_at(offset);
            proof {
                vstd::utf8::encode_utf8_decode_utf8(head@);
                lemma_with_text_keeps_size(
                    old(self)@,
                    head@,
                    x as int,
                    y as int,
                    bg_color,
                    fg_color,
                );
            }
            let text = chars_of(head);
            self.put_text(&text, x, y, bg_color, fg_color);
            self.put_char('…', x + offset, y, bg_color, fg_color);
            self.width
        }
    }
}

/// A window on a buffer: the rectangle that a widget draws into. Columns
/// and lines count from the corner of the rectangle.
pub struct BufferView<'a> {
    pub buf: &'a mut Buffer,
    pub bound: Bound,
}

impl Grid {
    /// Whether a character can be put at a place of a rectangle: the place
    /// can be counted, and where its column lies left of the width of the
    /// rectangle, it lies on the grid.
    pub open spec fn can_put_char_in(self, bound: Bound, x: int, y: int) -> bool {
        &&& bound.x + x <= usize::MAX
        &&& bound.y + y <= usize::MAX
        &&& bound.x + x < bound.w ==> bound.x + x < self.width && bound.y + y < self.height
    }

    /// The grid with a character put at a place of a rectangle: nothing is
    /// drawn where the column does not lie left of the width of the
    /// rectangle.
    pub open spec fn with_char_in(self, bound: Bound, x: int, y: int, cell: Cell) -> Grid {
        if bound.x + x < bound.w {
            self.with_cell(bound.x + x, bound.y + y, cell)
        } else {
            self
        }
    }

    /// Whether a string can be put at a place of a rectangle.
    pub open spec fn can_put_str_in(self, bound: Bound, s: Seq<char>, x: int, y: int) -> bool {
        &&& bound.x + x <= usize::MAX
        &&& bound.y + y <= usize::MAX
        &&& self.can_put_str(s, bound.x + x, bound.y + y)
    }

    /// The grid with a string put at a place of a rectangle.
    pub open spec fn with_str_in(
        self,
        bound: Bound,
        s: Seq<char>,
        x: int,
        y: int,
        bg: Color,
        fg: Color,
    ) -> Grid {
        self.with_str(s, bound.x + x, bound.y + y, bg, fg)
    }
}

/// Putting a string leaves the size of the grid and its cursor as they are.
pub proof fn lemma_with_str_keeps_size(g: Grid, s: Seq<char>, x: int, y: int, bg: Color, fg: Color)
    requires
        g.wf(),
        0 <= x < g.width,
        0 <= y < g.height,
    ensures
        g.with_str(s, x, y, bg, fg).wf(),
        g.with_str(s, x, y, bg, fg).width == g.width,
        g.with_str(s, x, y, bg, fg).height == g.height,
        g.with_str(s, x, y, bg, fg).cursor == g.cursor,
{
    let bytes = vstd::utf8::encode_utf8(s);
    if g.fits(bytes.len(), x) {
        lemma_with_text_keeps_size(g, s, x, y, bg, fg);
    } else {
        let offset = g.width - x - 1;
        let head = vstd::utf8::decode_utf8(bytes.subrange(0, offset));
        lemma_with_text_keeps_size(g, head, x, y, bg, fg);
        lemma_with_cell_keeps_size(
            g.with_text(head, x, y, bg, fg),
            x + offset,
            y,
            Cell { c: '…', bg_color: bg, fg_color: fg },
        );
    }
}

impl<'a> BufferView<'a> {
    /// A window on a buffer.
    pub fn from_buffer(buf: &'a mut Buffer, bound: Bound) -> (view: BufferView<'a>)
        ensures
            view.bound == bound,
            *view.buf == *old(buf),
            *final(buf) == *final(view.buf),
    {
        BufferView { buf, bound }
    }

    /// A window on the buffer of another window. The rectangle counts from
    /// the corner of the buffer, not from that of the other window.
    pub fn from_view<'b>(view: &'a mut BufferView<'b>, bound: Bound) -> (inner: BufferView<'a>)
        ensures
            inner.bound == bound,
            *inner.buf == *old(view).buf,
            final(view).bound == old(view).bound,
            *final(view).buf == *final(inner.buf),
            *final(final(view).buf) == *final(old(view).buf),
    {
        BufferView { buf: &mut *view.buf, bound }
    }

    /// The width of the rectangle.
    pub fn width(&self) -> (width: usize)
        ensures
            width == self.bound.w,
    {
        self.bound.w
    }

    /// The height of the rectangle.
    pub fn height(&self) -> (height: usize)
        ensures
            height == self.bound.h,
    {
        self.bound.h
    }

    /// Puts a character at a place of the rectangle.
    pub fn put_char(&mut self, c: char, x: usize, y: usize, bg_color: Color, fg_color: Color)
        requires
            old(self).buf.wf(),
            old(self).buf@.can_put_char_in(old(self).bound, x as int, y as int),
        ensures
            final(self).bound == old(self).bound,
            *final(final(self).buf) == *final(old(self).buf),
            final(self).buf.wf(),
            final(self).buf@ == old(self).buf@.with_char_in(
                old(self).bound,
                x as int,
                y as int,
                Cell { c, bg_color, fg_color },
            ),
    {
        let x = self.bound.x + x;
        let y = self.bound.y + y;
        if x < self.bound.w {
            self.buf.put_char(c, x, y, bg_color, fg_color)
        }
    }

    /// Whether a string can be put at a place of the rectangle.
    pub fn takes_str(&self, s: &str, x: usize, y: usize) -> (yes: bool)
        ensures
            yes == old(self.buf)@.can_put_str_in(self.bound, s@, x as int, y as int),
    {
        self.buf.takes_str_in(self.bound, s, x, y)
    }

    /// Whether a character can be put at a place of the rectangle.
    pub fn takes_char(&self, x: usize, y: usize) -> (yes: bool)
        ensures
            yes == old(self.buf)@.can_put_char_in(self.bound, x as int, y as int),
    {
        if x > usize::MAX - self.bound.x || y > usize::MAX - self.bound.y {
            return false;
        }
        let column = self.bound.x + x;
        let line = self.bound.y + y;
        column >= self.bound.w || (column < self.buf.width() && line < self.buf.height())
    }

    /// Puts a string at a place of the rectangle, and hands back the column of
    /// the buffer behind it.
    pub fn put_str(&mut self, s: &str, x: usize, y: usize, bg_color: Color, fg_color: Color) -> (end:
        usize)
        requires
            old(self).buf.wf(),
            old(self).buf@.can_put_str_in(old(self).bound, s@, x as int, y as int),
        ensures
            final(self).bound == old(self).bound,
            *final(final(self).buf) == *final(old(self).buf),
            final(self).buf.wf(),
            final(self).buf@ == old(self).buf@.with_str_in(
                old(self).bound,
                s@,
                x as int,
                y as int,
                bg_color,
                fg_color,
            ),
            end == old(self).buf@.str_end(s@, old(self).bound.x + x as int),
    {
        let x = self.bound.x + x;
        let y = self.bound.y + y;
        self.buf.put_str(s, x, y, bg_color, fg_color)
    }

    /// Puts the cursor at a place of the rectangle.
    pub fn set_cursor(&mut self, x: usize, y: usize)
        requires
            old(self).bound.x + x <= usize::MAX,
            old(self).bound.y + y <= usize::MAX,
        ensures
            final(self).bound == old(self).bound,
            *final(final(self).buf) == *final(old(self).buf),
            final(self).buf@ == old(self).buf@.with_cursor(
                old(self).bound.x + x as int,
                old(self).bound.y + y as int,
            ),
    {
        self.buf.set_cursor(self.bound.x + x, self.bound.y + y)
    }
}

} // verus!
