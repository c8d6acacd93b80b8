//! What holds of every run of the writer: lines that fit, wrapping, scrolling
//! and clearing.

use vstd::prelude::*;
use crate::codec::{cell_of, spec_sanitize};
use crate::writer::{
    ConsoleState, well_formed, blank_row, cleared, shifted_up, after_byte, after_bytes,
    lemma_after_byte_well_formed, lemma_after_bytes_well_formed, BLANK, NEWLINE,
};

verus! {

/// Bytes without a newline that fit on the rest of the line stay on the
/// cursor's row: the column moves on by their number, each is drawn sanitized
/// in its own column, and nothing else changes.
pub proof fn lemma_fitting_bytes_stay_on_row(s: ConsoleState, bytes: Seq<u8>)
    requires
        well_formed(s),
        s.column + bytes.len() <= s.width,
        forall|i: int| 0 <= i < bytes.len() ==> bytes[i] != NEWLINE,
    ensures
        after_bytes(s, bytes).row == s.row,
        after_bytes(s, bytes).column == s.column + bytes.len(),
        forall|j: int| 0 <= j < bytes.len() ==>
            #[trigger] after_bytes(s, bytes).grid[s.row][s.column + j] == cell_of(spec_sanitize(bytes[j]), s.attr),
        forall|j: int| 0 <= j < s.column ==> #[trigger] after_bytes(s, bytes).grid[s.row][j] == s.grid[s.row][j],
        forall|j: int| s.column + bytes.len() <= j < s.width ==> #[trigger] after_bytes(s, bytes).grid[s.row][j] == s.grid[s.row][j],
        forall|r: int| 0 <= r < s.height && r != s.row ==> #[trigger] after_bytes(s, bytes).grid[r] == s.grid[r],
    decreases bytes.len(),
{
    if bytes.len() > 0 {
        let prefix = bytes.drop_last();
        lemma_fitting_bytes_stay_on_row(s, prefix);
        lemma_after_bytes_well_formed(s, prefix);
        let t = after_bytes(s, prefix);
        let u = after_bytes(s, bytes);
        assert(u == after_byte(t, bytes.last()));
        assert forall|j: int| 0 <= j < bytes.len() implies
            #[trigger] u.grid[s.row][s.column + j] == cell_of(spec_sanitize(bytes[j]), s.attr) by {
            if j < prefix.len() {
                assert(t.grid[s.row][s.column + j] == cell_of(spec_sanitize(prefix[j]), s.attr));
            }
        }
        assert forall|j: int| 0 <= j < s.column implies #[trigger] u.grid[s.row][j] == s.grid[s.row][j] by {
            assert(t.grid[s.row][j] == s.grid[s.row][j]);
        }
        assert forall|j: int| s.column + bytes.len() <= j < s.width implies #[trigger] u.grid[s.row][j] == s.grid[s.row][j] by {
            assert(t.grid[s.row][j] == s.grid[s.row][j]);
        }
        assert forall|r: int| 0 <= r < s.height && r != s.row implies #[trigger] u.grid[r] == s.grid[r] by {
            assert(t.grid[r] == s.grid[r]);
        }
    }
}

/// A line of exactly `width` bytes without a newline, written from column 0,
/// fills the row; one more byte other than a newline wraps exactly once: it
/// is drawn at column 0 of the next row, and the filled row keeps its bytes.
pub proof fn lemma_full_line_wraps_once(s: ConsoleState, line: Seq<u8>, next: u8)
    requires
        well_formed(s),
        s.column == 0,
        s.row + 1 < s.height,
        line.len() == s.width,
        forall|i: int| 0 <= i < line.len() ==> line[i] != NEWLINE,
        next != NEWLINE,
    ensures
        after_bytes(s, line).row == s.row,
        after_bytes(s, line).column == s.width,
        after_bytes(s, line.push(next)).row == s.row + 1,
        after_bytes(s, line.push(next)).column == 1,
        after_bytes(s, line.push(next)).grid[s.row + 1][0] == cell_of(spec_sanitize(next), s.attr),
        forall|j: int| 0 <= j < s.width ==>
            #[trigger] after_bytes(s, line.push(next)).grid[s.row][j] == cell_of(spec_sanitize(line[j]), s.attr),
{
    lemma_fitting_bytes_stay_on_row(s, line);
    lemma_after_bytes_well_formed(s, line);
    let t = after_bytes(s, line);
    assert(line.push(next).drop_last() =~= line);
    let u = after_bytes(s, line.push(next));
    assert(u == after_byte(t, next));
    assert forall|j: int| 0 <= j < s.width implies
        #[trigger] u.grid[s.row][j] == cell_of(spec_sanitize(line[j]), s.attr) by {
        assert(t.grid[s.row][0 + j] == cell_of(spec_sanitize(line[j]), s.attr));
    }
}

/// A newline below the last row moves to the start of the next row and
/// scrolls nothing.
pub proof fn lemma_newline_above_bottom_keeps_grid(s: ConsoleState)
    requires
        well_formed(s),
        s.row + 1 < s.height,
    ensures
        after_byte(s, NEWLINE).grid == s.grid,
        after_byte(s, NEWLINE).row == s.row + 1,
        after_byte(s, NEWLINE).column == 0,
{
}

/// A newline on the last row scrolls exactly once: the top row is gone, each
/// other row moves up by one, the last row is blank in the current attribute,
/// and the cursor stays on the last row at column 0, ready for the next line.
pub proof fn lemma_newline_on_bottom_scrolls(s: ConsoleState)
    requires
        well_formed(s),
        s.row == s.height - 1,
    ensures
        after_byte(s, NEWLINE).row == s.height - 1,
        after_byte(s, NEWLINE).column == 0,
        after_byte(s, NEWLINE).grid.len() == s.height,
        forall|r: int| 0 <= r < s.height - 1 ==> #[trigger] after_byte(s, NEWLINE).grid[r] == s.grid[r + 1],
        after_byte(s, NEWLINE).grid[s.height - 1] == blank_row(s.width, s.attr),
        after_byte(s, NEWLINE).grid == shifted_up(s).grid,
{
}

/// Clearing a row leaves every cell of it blank in the attribute current at
/// the time, whatever it held before; clearing it again changes nothing.
pub proof fn lemma_clear_row_idempotent(s: ConsoleState, row: int)
    requires
        well_formed(s),
        0 <= row < s.height,
    ensures
        well_formed(cleared(s, row)),
        forall|j: int| 0 <= j < s.width ==> #[trigger] cleared(s, row).grid[row][j] == cell_of(BLANK, s.attr),
        cleared(cleared(s, row), row) == cleared(s, row),
{
    let c = cleared(s, row);
    assert forall|r: int| 0 <= r < c.height implies (#[trigger] c.grid[r]).len() == c.width by {
        if r != row {
            assert(c.grid[r] == s.grid[r]);
        }
    }
    assert(cleared(c, row).grid =~= c.grid);
}

/// A row with a line drawn over its first cells in `attr`; the rest of the
/// row is kept.
pub open spec fn drawn(row: Seq<u16>, line: Seq<u8>, attr: u8) -> Seq<u16> {
    Seq::new(row.len(), |j: int| if j < line.len() { cell_of(spec_sanitize(line[j]), attr) } else { row[j] })
}

/// Lines joined into one byte sequence, each followed by a newline.
pub open spec fn joined_lines(lines: Seq<Seq<u8>>) -> Seq<u8>
    decreases lines.len(),
{
    if lines.len() == 0 {
        Seq::empty()
    } else {
        joined_lines(lines.drop_last()) + lines.last().push(NEWLINE)
    }
}

/// A line that fits on a row and holds no newline.
pub open spec fn fits_on_row(line: Seq<u8>, width: int) -> bool {
    &&& line.len() <= width
    &&& forall|i: int| 0 <= i < line.len() ==> line[i] != NEWLINE
}

/// Writing two sequences one after the other is writing their concatenation.
pub proof fn lemma_after_bytes_concat(s: ConsoleState, a: Seq<u8>, b: Seq<u8>)
    ensures
        after_bytes(s, a + b) == after_bytes(after_bytes(s, a), b),
    decreases b.len(),
{
    if b.len() == 0 {
        assert(a + b =~= a);
    } else {
        assert((a + b).drop_last() =~= a + b.drop_last());
        assert((a + b).last() == b.last());
        lemma_after_bytes_concat(s, a, b.drop_last());
    }
}

/// A line that fits, written from column 0, is drawn over the cursor's row.
proof fn lemma_line_drawn(s: ConsoleState, line: Seq<u8>)
    requires
        well_formed(s),
        s.column == 0,
        fits_on_row(line, s.width),
    ensures
        well_formed(after_bytes(s, line)),
        after_bytes(s, line).row == s.row,
        after_bytes(s, line).column == line.len(),
        after_bytes(s, line).height == s.height,
        after_bytes(s, line).width == s.width,
        after_bytes(s, line).attr == s.attr,
        after_bytes(s, line).grid[s.row] == drawn(s.grid[s.row], line, s.attr),
        forall|r: int| 0 <= r < s.height && r != s.row ==> #[trigger] after_bytes(s, line).grid[r] == s.grid[r],
{
    lemma_fitting_bytes_stay_on_row(s, line);
    lemma_after_bytes_well_formed(s, line);
    let t = after_bytes(s, line);
    assert forall|j: int| 0 <= j < s.width implies #[trigger] t.grid[s.row][j] == drawn(s.grid[s.row], line, s.attr)[j] by {
        if j < line.len() {
            assert(t.grid[s.row][0 + j] == cell_of(spec_sanitize(line[j]), s.attr));
        }
    }
    assert(t.grid[s.row] =~= drawn(s.grid[s.row], line, s.attr));
}

/// Fewer lines than rows, written from the top left, are drawn row by row
/// without any scroll.
proof fn lemma_lines_without_scroll(s: ConsoleState, lines: Seq<Seq<u8>>, k: int)
    requires
        well_formed(s),
        s.row == 0,
        s.column == 0,
        0 <= k <= lines.len(),
        k < s.height,
        forall|i: int| 0 <= i < lines.len() ==> fits_on_row(#[trigger] lines[i], s.width),
    ensures
        well_formed(after_bytes(s, joined_lines(lines.take(k)))),
        after_bytes(s, joined_lines(lines.take(k))).row == k,
        after_bytes(s, joined_lines(lines.take(k))).column == 0,
        after_bytes(s, joined_lines(lines.take(k))).height == s.height,
        after_bytes(s, joined_lines(lines.take(k))).width == s.width,
        after_bytes(s, joined_lines(lines.take(k))).attr == s.attr,
        forall|r: int| 0 <= r < k ==>
            #[trigger] after_bytes(s, joined_lines(lines.take(k))).grid[r] == drawn(s.grid[r], lines[r], s.attr),
        forall|r: int| k <= r < s.height ==> #[trigger] after_bytes(s, joined_lines(lines.take(k))).grid[r] == s.grid[r],
    decreases k,
{
    if k == 0 {
        assert(lines.take(0) =~= Seq::<Seq<u8>>::empty());
    } else {
        lemma_lines_without_scroll(s, lines, k - 1);
        let prev = joined_lines(lines.take(k - 1));
        let t = after_bytes(s, prev);
        assert(lines.take(k).drop_last() =~= lines.take(k - 1));
        let line = lines[k - 1];
        assert(joined_lines(lines.take(k)) == prev + line.push(NEWLINE));
        lemma_after_bytes_concat(s, prev, line.push(NEWLINE));
        assert(fits_on_row(line, s.width));
        lemma_line_drawn(t, line);
        let u = after_bytes(t, line);
        assert(line.push(NEWLINE).drop_last() =~= line);
        assert(after_bytes(t, line.push(NEWLINE)) == after_byte(u, NEWLINE));
    }
}

/// Writing as many lines as there are rows, from the top left, and then one
/// more line scrolls exactly once: the first line is gone, every other line
/// sits one row above the row it was written on, and the last line is drawn
/// over a row that the scroll left blank.
pub proof fn lemma_height_lines_scroll_once(s: ConsoleState, lines: Seq<Seq<u8>>, last: Seq<u8>)
    requires
        well_formed(s),
        s.row == 0,
        s.column == 0,
        lines.len() == s.height,
        forall|i: int| 0 <= i < lines.len() ==> fits_on_row(#[trigger] lines[i], s.width),
        fits_on_row(last, s.width),
    ensures
        after_bytes(s, joined_lines(lines) + last).row == s.height - 1,
        after_bytes(s, joined_lines(lines) + last).column == last.len(),
        after_bytes(s, joined_lines(lines) + last).grid.len() == s.height,
        forall|r: int| 0 <= r < s.height - 1 ==>
            #[trigger] after_bytes(s, joined_lines(lines) + last).grid[r] == drawn(s.grid[r + 1], lines[r + 1], s.attr),
        after_bytes(s, joined_lines(lines) + last).grid[s.height - 1] == drawn(blank_row(s.width, s.attr), last, s.attr),
{
    let h = s.height;
    lemma_lines_without_scroll(s, lines, h - 1);
    let prev = joined_lines(lines.take(h - 1));
    let t = after_bytes(s, prev);
    assert(lines.take(h) =~= lines);
    assert(lines.take(h).drop_last() =~= lines.take(h - 1));
    let line = lines[h - 1];
    assert(joined_lines(lines) == prev + line.push(NEWLINE));
    assert(fits_on_row(line, s.width));
    lemma_line_drawn(t, line);
    let u = after_bytes(t, line);
    assert(line.push(NEWLINE).drop_last() =~= line);
    lemma_after_bytes_concat(s, prev, line.push(NEWLINE));
    let v = after_byte(u, NEWLINE);
    assert(after_bytes(s, joined_lines(lines)) == v);
    lemma_newline_on_bottom_scrolls(u);
    lemma_after_byte_well_formed(u, NEWLINE);
    lemma_line_drawn(v, last);
    lemma_after_bytes_concat(s, joined_lines(lines), last);
    let w = after_bytes(v, last);
    assert forall|r: int| 0 <= r < h - 1 implies #[trigger] w.grid[r] == drawn(s.grid[r + 1], lines[r + 1], s.attr) by {
        assert(w.grid[r] == v.grid[r]);
        assert(v.grid[r] == u.grid[r + 1]);
        if r + 1 < h - 1 {
            assert(u.grid[r + 1] == t.grid[r + 1]);
        }
    }
}

} // verus!
