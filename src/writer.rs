//! The console writer: a cursor over a grid of volatile cells that places
//! characters, wraps at the end of a line and scrolls at the bottom.

use vstd::prelude::*;
use vstd::string::StringSliceAdditionalSpecFns;
use volatile::Volatile;
use crate::codec::{ColorCode, ScreenChar, cell_of, spec_sanitize, sanitize_byte};
use crate::volatile_cell::{volatile_value, new_cell, read_cell, write_cell};

verus! {

/// Rows of the standard text-mode display.
pub const BUFFER_HEIGHT: usize = 25;

/// Columns of the standard text-mode display.
pub const BUFFER_WIDTH: usize = 80;

/// The character a cleared cell shows.
pub const BLANK: u8 = 0x20;

/// The newline byte, which moves the cursor instead of being drawn.
pub const NEWLINE: u8 = 0x0a;

/// What a console is, seen from outside: the cells row by row, the cursor,
/// the attribute in use and the dimensions.
pub struct ConsoleState {
    pub grid: Seq<Seq<u16>>,
    pub row: int,
    pub column: int,
    pub attr: u8,
    pub height: int,
    pub width: int,
}

/// A grid of `height` rows of `width` cells each, with the cursor inside it;
/// a column equal to the width means the line is full.
pub open spec fn well_formed(s: ConsoleState) -> bool {
    &&& 1 <= s.height
    &&& 1 <= s.width
    &&& s.grid.len() == s.height
    &&& forall|r: int| 0 <= r < s.height ==> (#[trigger] s.grid[r]).len() == s.width
    &&& 0 <= s.row < s.height
    &&& 0 <= s.column <= s.width
}

/// A row of blank cells drawn with `attr`.
pub open spec fn blank_row(width: int, attr: u8) -> Seq<u16> {
    Seq::new(width as nat, |i: int| cell_of(BLANK, attr))
}

/// The state with one row replaced by blank cells in the current attribute.
pub open spec fn cleared(s: ConsoleState, row: int) -> ConsoleState {
    ConsoleState { grid: s.grid.update(row, blank_row(s.width, s.attr)), ..s }
}

/// The state with every row moved up by one, the top row gone and a blank
/// row at the bottom.
pub open spec fn shifted_up(s: ConsoleState) -> ConsoleState {
    ConsoleState { grid: s.grid.skip(1).push(blank_row(s.width, s.attr)), ..s }
}

/// The line advance: the next row, or a scroll when the cursor is on the last
/// row; the column goes back to 0.
pub open spec fn line_advanced(s: ConsoleState) -> ConsoleState {
    if s.row + 1 >= s.height {
        ConsoleState { row: s.height - 1, column: 0, ..shifted_up(s) }
    } else {
        ConsoleState { row: s.row + 1, column: 0, ..s }
    }
}

/// The state with the sanitized byte drawn at the cursor and the cursor one
/// column further on.
pub open spec fn placed(s: ConsoleState, byte: u8) -> ConsoleState {
    ConsoleState {
        grid: s.grid.update(s.row, s.grid[s.row].update(s.column, cell_of(spec_sanitize(byte), s.attr))),
        column: s.column + 1,
        ..s
    }
}

/// The state after one byte: a newline advances the line; any other byte is
/// drawn, after a line advance if the current line is full.
pub open spec fn after_byte(s: ConsoleState, byte: u8) -> ConsoleState {
    if byte == NEWLINE {
        line_advanced(s)
    } else if s.column >= s.width {
        placed(line_advanced(s), byte)
    } else {
        placed(s, byte)
    }
}

/// The state after a sequence of bytes, written in order.
pub open spec fn after_bytes(s: ConsoleState, bytes: Seq<u8>) -> ConsoleState
    decreases bytes.len(),
{
    if bytes.len() == 0 {
        s
    } else {
        after_byte(after_bytes(s, bytes.drop_last()), bytes.last())
    }
}

/// Each step keeps the state well formed.
pub proof fn lemma_after_byte_well_formed(s: ConsoleState, byte: u8)
    requires
        well_formed(s),
    ensures
        well_formed(after_byte(s, byte)),
        after_byte(s, byte).height == s.height,
        after_byte(s, byte).width == s.width,
        after_byte(s, byte).attr == s.attr,
{
    let l = line_advanced(s);
    assert(well_formed(l)) by {
        if s.row + 1 >= s.height {
            assert forall|r: int| 0 <= r < l.height implies (#[trigger] l.grid[r]).len() == l.width by {
                if r < s.height - 1 {
                    assert(l.grid[r] == s.grid[r + 1]);
                }
            }
        }
    }
    if byte != NEWLINE {
        let b = if s.column >= s.width { l } else { s };
        let p = placed(b, byte);
        assert forall|r: int| 0 <= r < p.height implies (#[trigger] p.grid[r]).len() == p.width by {
            if r != b.row {
                assert(p.grid[r] == b.grid[r]);
            }
        }
    }
}

/// A sequence of steps keeps the state well formed.
pub proof fn lemma_after_bytes_well_formed(s: ConsoleState, bytes: Seq<u8>)
    requires
        well_formed(s),
    ensures
        well_formed(after_bytes(s, bytes)),
        after_bytes(s, bytes).height == s.height,
        after_bytes(s, bytes).width == s.width,
        after_bytes(s, bytes).attr == s.attr,
    decreases bytes.len(),
{
    if bytes.len() > 0 {
        lemma_after_bytes_well_formed(s, bytes.drop_last());
        lemma_after_byte_well_formed(after_bytes(s, bytes.drop_last()), bytes.last());
    }
}

/// The cells of one row of volatile cells.
pub open spec fn row_values(row: Vec<Volatile<u16>>) -> Seq<u16> {
    row@.map_values(|v: Volatile<u16>| volatile_value(v))
}

/// A console writer over a grid of volatile cells.
pub struct Writer {
    column_position: usize,
    row_position: usize,
    color_code: ColorCode,
    height: usize,
    width: usize,
    chars: Vec<Vec<Volatile<u16>>>,
}

impl View for Writer {
    type V = ConsoleState;

    closed spec fn view(&self) -> ConsoleState {
        ConsoleState {
            grid: self.chars@.map_values(|row: Vec<Volatile<u16>>| row_values(row)),
            row: self.row_position as int,
            column: self.column_position as int,
            attr: self.color_code.0,
            height: self.height as int,
            width: self.width as int,
        }
    }
}

impl Writer {
    /// The writer's state is a well-formed console.
    pub open spec fn wf(&self) -> bool {
        well_formed(self@)
    }

    /// A writer over a fresh grid of `height` rows and `width` columns, all
    /// blank in `color_code`, with the cursor at the top left.
    pub fn new(height: usize, width: usize, color_code: ColorCode) -> (r: Writer)
        requires
            1 <= height,
            1 <= width,
        ensures
            r.wf(),
            r@.grid == Seq::new(height as nat, |i: int| blank_row(width as int, color_code.0)),
            r@.row == 0,
            r@.column == 0,
            r@.attr == color_code.0,
            r@.height == height,
            r@.width == width,
    {
        let blank = ScreenChar { ascii_character: BLANK, color_code }.to_cell();
        let mut chars: Vec<Vec<Volatile<u16>>> = Vec::new();
        let mut r: usize = 0;
        while r < height
            invariant
                r <= height,
                chars@.len() == r,
                blank == cell_of(BLANK, color_code.0),
                forall|k: int| 0 <= k < r ==> row_values(#[trigger] chars@[k]) == blank_row(width as int, color_code.0),
            decreases height - r,
        {
            let mut line: Vec<Volatile<u16>> = Vec::new();
            let mut c: usize = 0;
            while c < width
                invariant
                    c <= width,
                    line@.len() == c,
                    forall|j: int| 0 <= j < c ==> volatile_value(#[trigger] line@[j]) == blank,
                decreases width - c,
            {
                line.push(new_cell(blank));
                c = c + 1;
            }
            assert(row_values(line) =~= blank_row(width as int, color_code.0));
            chars.push(line);
            r = r + 1;
        }
        let w = Writer {
            column_position: 0,
            row_position: 0,
            color_code,
            height,
            width,
            chars,
        };
        assert(w@.grid =~= Seq::new(height as nat, |i: int| blank_row(width as int, color_code.0)));
        w
    }

    /// Stores `value` into the cell at `row`, `col` with a volatile write.
    fn set_cell(&mut self, row: usize, col: usize, value: u16)
        requires
            old(self).wf(),
            row < old(self)@.height,
            col < old(self)@.width,
        ensures
            final(self)@ == (ConsoleState {
                grid: old(self)@.grid.update(row as int, old(self)@.grid[row as int].update(col as int, value)),
                ..old(self)@
            }),
            final(self).wf(),
    {
        write_cell(&mut self.chars[row][col], value);
        let ghost g = self@.grid;
        let ghost o = old(self)@.grid;
        assert(row_values(self.chars@[row as int]) =~= o[row as int].update(col as int, value));
        assert(g =~= o.update(row as int, o[row as int].update(col as int, value)));
        assert forall|r: int| 0 <= r < self@.height implies (#[trigger] self@.grid[r]).len() == self@.width by {
            if r != row {
                assert(g[r] == o[r]);
            }
        }
    }

    /// Reads the cell at `row`, `col` with a volatile read.
    fn get_cell(&self, row: usize, col: usize) -> (r: u16)
        requires
            self.wf(),
            row < self@.height,
            col < self@.width,
        ensures
            r == self@.grid[row as int][col as int],
    {
        assert(self@.grid[row as int].len() == self@.width);
        assert(self@.grid[row as int] == row_values(self.chars@[row as int]));
        read_cell(&self.chars[row][col])
    }

    /// Fills one row with blank cells in the current attribute.
    pub fn clear_row(&mut self, row: usize)
        requires
            old(self).wf(),
            row < old(self)@.height,
        ensures
            final(self).wf(),
            final(self)@ == cleared(old(self)@, row as int),
    {
        let blank = ScreenChar { ascii_character: BLANK, color_code: self.color_code }.to_cell();
        let mut col: usize = 0;
        while col < self.width
            invariant
                self.wf(),
                row < self@.height,
                col <= self@.width,
                blank == cell_of(BLANK, old(self)@.attr),
                self@.height == old(self)@.height,
                self@.width == old(self)@.width,
                self@.row == old(self)@.row,
                self@.column == old(self)@.column,
                self@.attr == old(self)@.attr,
                forall|r: int| 0 <= r < self@.height && r != row ==> #[trigger] self@.grid[r] == old(self)@.grid[r],
                forall|j: int| 0 <= j < col ==> #[trigger] self@.grid[row as int][j] == blank,
            decreases self@.width - col,
        {
            self.set_cell(row, col, blank);
            col = col + 1;
        }
        assert(self@.grid[row as int] =~= blank_row(self@.width, self@.attr));
        assert(self@.grid =~= cleared(old(self)@, row as int).grid);
    }

    /// Moves every row up by one, top to bottom, reading each source row
    /// before the row above it is overwritten; then blanks the last row.
    fn shift_up(&mut self)
        requires
            old(self).wf(),
        ensures
            final(self).wf(),
            final(self)@ == shifted_up(old(self)@),
    {
        let ghost o = old(self)@;
        let mut row: usize = 1;
        while row < self.height
            invariant
                self.wf(),
                1 <= row <= self@.height,
                self@.height == o.height,
                self@.width == o.width,
                self@.row == o.row,
                self@.column == o.column,
                self@.attr == o.attr,
                well_formed(o),
                forall|k: int| 0 <= k < row - 1 ==> #[trigger] self@.grid[k] == o.grid[k + 1],
                forall|k: int| row - 1 <= k < o.height ==> #[trigger] self@.grid[k] == o.grid[k],
            decreases self@.height - row,
        {
            let mut col: usize = 0;
            while col < self.width
                invariant
                    self.wf(),
                    1 <= row < self@.height,
                    col <= self@.width,
                    self@.height == o.height,
                    self@.width == o.width,
                    self@.row == o.row,
                    self@.column == o.column,
                    self@.attr == o.attr,
                    well_formed(o),
                    forall|k: int| 0 <= k < row - 1 ==> #[trigger] self@.grid[k] == o.grid[k + 1],
                    forall|k: int| row <= k < o.height ==> #[trigger] self@.grid[k] == o.grid[k],
                    forall|j: int| 0 <= j < col ==> #[trigger] self@.grid[row - 1][j] == o.grid[row as int][j],
                decreases self@.width - col,
            {
                let v = self.get_cell(row, col);
                self.set_cell(row - 1, col, v);
                col = col + 1;
            }
            assert(self@.grid[row - 1] =~= o.grid[row as int]);
            row = row + 1;
        }
        let last = self.height - 1;
        self.clear_row(last);
        assert(self@.grid =~= shifted_up(o).grid);
    }

    /// Advances to the next line, scrolling when the cursor is on the last row.
    fn new_line(&mut self)
        requires
            old(self).wf(),
        ensures
            final(self).wf(),
            final(self)@ == line_advanced(old(self)@),
    {
        if self.row_position + 1 >= self.height {
            self.shift_up();
            self.row_position = self.height - 1;
        } else {
            self.row_position = self.row_position + 1;
        }
        self.column_position = 0;
        proof {
            lemma_after_byte_well_formed(old(self)@, NEWLINE);
        }
    }

    /// Writes one byte: a newline advances the line; any other byte is
    /// sanitized and drawn at the cursor in the current attribute, after a
    /// line advance if the current line is full.
    pub fn write_byte(&mut self, byte: u8)
        requires
            old(self).wf(),
        ensures
            final(self).wf(),
            final(self)@ == after_byte(old(self)@, byte),
    {
        if byte == NEWLINE {
            self.new_line();
        } else {
            if self.column_position >= self.width {
                self.new_line();
            }
            let sc = ScreenChar { ascii_character: sanitize_byte(byte), color_code: self.color_code };
            let row = self.row_position;
            let col = self.column_position;
            self.set_cell(row, col, sc.to_cell());
            self.column_position = col + 1;
        }
        proof {
            lemma_after_byte_well_formed(old(self)@, byte);
        }
    }

    /// Writes the bytes of `s` in order; a byte that is part of a multi-byte
    /// character is drawn as the substitute glyph.
    pub fn write_string(&mut self, s: &str)
        requires
            old(self).wf(),
        ensures
            final(self).wf(),
            final(self)@ == after_bytes(old(self)@, s.spec_bytes()),
    {
        let bytes = s.as_bytes();
        let mut i: usize = 0;
        while i < bytes.len()
            invariant
                self.wf(),
                i <= bytes@.len(),
                bytes@ == s.spec_bytes(),
                self@ == after_bytes(old(self)@, bytes@.take(i as int)),
            decreases bytes@.len() - i,
        {
            self.write_byte(bytes[i]);
            assert(bytes@.take(i + 1).drop_last() =~= bytes@.take(i as int));
            i = i + 1;
        }
        assert(bytes@.take(bytes@.len() as int) =~= bytes@);
    }

    /// The character and attribute shown at `row`, `col`, read with a volatile load.
    pub fn read_char(&self, row: usize, col: usize) -> (r: ScreenChar)
        requires
            self.wf(),
            row < self@.height,
            col < self@.width,
        ensures
            r.spec_to_cell() == self@.grid[row as int][col as int],
            r == ScreenChar::spec_from_cell(self@.grid[row as int][col as int]),
    {
        let cell = self.get_cell(row, col);
        let r = ScreenChar::from_cell(cell);
        assert(r.ascii_character as int + r.color_code.0 as int * 256 == cell as int);
        r
    }

    /// The cursor's row.
    pub fn row(&self) -> (r: usize)
        ensures
            r == self@.row,
    {
        self.row_position
    }

    /// The cursor's column.
    pub fn column(&self) -> (r: usize)
        ensures
            r == self@.column,
    {
        self.column_position
    }

    /// The attribute that characters are drawn with.
    pub fn color_code(&self) -> (r: ColorCode)
        ensures
            r.0 == self@.attr,
    {
        self.color_code
    }

    /// The number of rows.
    pub fn height(&self) -> (r: usize)
        ensures
            r == self@.height,
    {
        self.height
    }

    /// The number of columns.
    pub fn width(&self) -> (r: usize)
        ensures
            r == self@.width,
    {
        self.width
    }
}

/// The formatted-output entry point: renders text that the caller has already
/// formatted. The console has no failure mode, so neither has this.
pub fn _print(writer: &mut Writer, text: &str)
    requires
        old(writer).wf(),
    ensures
        final(writer).wf(),
        final(writer)@ == after_bytes(old(writer)@, text.spec_bytes()),
{
    writer.write_string(text);
}

} // verus!
