//! Terminal grid: a rectangle of text cells.

use vstd::prelude::*;
use vstd::string::StringExecFns;

verus! {

/// Terminal grid storing plain text, one string per cell.
pub struct Grid {
    /// Number of rows in the grid.
    pub rows: usize,
    /// Number of columns in the grid.
    pub cols: usize,
    /// The cells, row by row.
    pub cells: Vec<Vec<String>>,
}

/// The text of a row: its cells one after the other.
pub open spec fn row_text(row: Seq<String>) -> Seq<char>
    decreases row.len(),
{
    if row.len() == 0 {
        Seq::empty()
    } else {
        row_text(row.drop_last()) + row.last()@
    }
}

/// The text of a run of rows: each row's text with a line feed behind it.
pub open spec fn rows_text(rows: Seq<Vec<String>>) -> Seq<char>
    decreases rows.len(),
{
    if rows.len() == 0 {
        Seq::empty()
    } else {
        rows_text(rows.drop_last()) + row_text(rows.last()@).push('\n')
    }
}

impl Grid {
    /// The grid has `rows` rows of `cols` cells each.
    pub open spec fn wf(&self) -> bool {
        &&& self.cells@.len() == self.rows
        &&& forall|r: int| 0 <= r < self.cells@.len() ==> (#[trigger] self.cells@[r])@.len() == self.cols
    }

    /// The text in the cell at `row`, `col`.
    pub open spec fn cell(&self, row: int, col: int) -> Seq<char> {
        self.cells@[row]@[col]@
    }

    /// Is `row`, `col` a cell of the grid?
    pub open spec fn has_cell(&self, row: int, col: int) -> bool {
        0 <= row < self.rows && 0 <= col < self.cols
    }

    /// A grid of `rows` by `cols` empty cells.
    pub fn new(rows: usize, cols: usize) -> (grid: Self)
        ensures
            grid.wf(),
            grid.rows == rows,
            grid.cols == cols,
            forall|r: int, c: int| grid.has_cell(r, c) ==> #[trigger] grid.cell(r, c).len() == 0,
    {
        let mut cells: Vec<Vec<String>> = Vec::new();
        let mut r: usize = 0;
        while r < rows
            invariant
                r <= rows,
                cells@.len() == r,
                forall|i: int| 0 <= i < r ==> (#[trigger] cells@[i])@.len() == cols,
                forall|i: int, j: int|
                    0 <= i < r && 0 <= j < cols ==> (#[trigger] cells@[i]@[j])@.len() == 0,
            decreases rows - r,
        {
            let mut row: Vec<String> = Vec::new();
            let mut c: usize = 0;
            while c < cols
                invariant
                    c <= cols,
                    row@.len() == c,
                    forall|j: int| 0 <= j < c ==> (#[trigger] row@[j])@.len() == 0,
                decreases cols - c,
            {
                row.push(String::new());
                c += 1;
            }
            cells.push(row);
            r += 1;
        }
        Self { rows, cols, cells }
    }

    /// Appends a character to the cell at `row`, `col`. Outside the grid it
    /// does nothing.
    pub fn write_char(&mut self, row: usize, col: usize, c: char)
        requires
            old(self).wf(),
        ensures
            final(self).wf(),
            final(self).rows == old(self).rows,
            final(self).cols == old(self).cols,
            forall|r: int, k: int|
                old(self).has_cell(r, k) ==> #[trigger] final(self).cell(r, k) == if r == row && k
                    == col {
                    old(self).cell(r, k).push(c)
                } else {
                    old(self).cell(r, k)
                },
    {
        if row < self.rows && col < self.cols {
            self.cells[row][col].push(c);
        }
    }

    /// Appends a string to the cell at `row`, `col`. Outside the grid it does
    /// nothing.
    pub fn write_str(&mut self, row: usize, col: usize, s: &str)
        requires
            old(self).wf(),
        ensures
            final(self).wf(),
            final(self).rows == old(self).rows,
            final(self).cols == old(self).cols,
            forall|r: int, k: int|
                old(self).has_cell(r, k) ==> #[trigger] final(self).cell(r, k) == if r == row && k
                    == col {
                    old(self).cell(r, k) + s@
                } else {
                    old(self).cell(r, k)
                },
    {
        if row < self.rows && col < self.cols {
            self.cells[row][col].append(s);
        }
    }

    /// The grid as text: the cells of each row one after the other, and a
    /// line feed after each row.
    pub fn to_text(&self) -> (text: String)
        ensures
            text@ == rows_text(self.cells@),
    {
        let mut text = String::new();
        let mut r: usize = 0;
        while r < self.cells.len()
            invariant
                r <= self.cells@.len(),
                text@ == rows_text(self.cells@.take(r as int)),
            decreases self.cells@.len() - r,
        {
            let row = &self.cells[r];
            let ghost before = text@;
            let mut c: usize = 0;
            while c < row.len()
                invariant
                    c <= row@.len(),
                    text@ == before + row_text(row@.take(c as int)),
                decreases row@.len() - c,
            {
                proof {
                    assert(row@.take(c + 1).drop_last() == row@.take(c as int));
                }
                text.append(row[c].as_str());
                c += 1;
            }
            text.push('\n');
            proof {
                assert(row@.take(c as int) == row@);
                assert(self.cells@.take(r + 1).drop_last() == self.cells@.take(r as int));
            }
            r += 1;
        }
        proof {
            assert(self.cells@.take(r as int) == self.cells@);
        }
        text
    }
}

} // verus!
