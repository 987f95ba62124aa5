//! The board as the player who is about to move sees it.

use vstd::prelude::*;

verus! {

/// Whose figure stands in a cell, told from the side of the player to move.
#[derive(Debug, PartialEq, Eq, Clone, Copy, Structural)]
pub enum Figure {
    Own,
    Enemy,
}

impl Figure {
    /// The same figure seen from the other side of the table.
    pub open spec fn reversed(self) -> Figure {
        match self {
            Figure::Own => Figure::Enemy,
            Figure::Enemy => Figure::Own,
        }
    }

    /// Change Own into Enemy and vice-versa
    pub fn reverse(&mut self)
        ensures
            *final(self) == old(self).reversed(),
    {
        *self = match *self {
            Figure::Own => Figure::Enemy,
            Figure::Enemy => Figure::Own,
        };
    }
}

/// Three cell numbers together with what stands in those cells.
pub type IndexedLine = ([usize; 3], [Option<Figure>; 3]);

/// The cells of line `n`. Lines 0 to 2 are the rows from the top, lines 3 to 5
/// the columns from the left, line 6 the diagonal from cell 0 and line 7 the
/// diagonal from cell 2.
pub open spec fn line_cells(n: int) -> (int, int, int) {
    if 0 <= n < 3 {
        (3 * n, 3 * n + 1, 3 * n + 2)
    } else if 3 <= n < 6 {
        (n - 3, n, n + 3)
    } else if n == 6 {
        (0, 4, 8)
    } else {
        (2, 4, 6)
    }
}

/// The cells `i`, `j` and `k` of a board as an indexed line.
pub open spec fn line_at(cells: Seq<Option<Figure>>, i: int, j: int, k: int) -> IndexedLine {
    ([i as usize, j as usize, k as usize], [cells[i], cells[j], cells[k]])
}

/// Line `n` of a board, numbered as in [`line_cells`].
pub open spec fn line(cells: Seq<Option<Figure>>, n: int) -> IndexedLine {
    let (i, j, k) = line_cells(n);
    line_at(cells, i, j, k)
}

/// Whether `i` is a cell of the board in which nothing stands.
pub open spec fn is_free(cells: Seq<Option<Figure>>, i: int) -> bool {
    0 <= i < 9 && cells[i] is None
}

/// Whether a move is still possible.
pub open spec fn has_free_cell(cells: Seq<Option<Figure>>) -> bool {
    exists|i: int| is_free(cells, i)
}

/// Whether no move has been made yet.
pub open spec fn is_untouched(cells: Seq<Option<Figure>>) -> bool {
    forall|i: int| 0 <= i < 9 ==> cells[i] is None
}

/// A cell seen from the other side: free cells stay free, figures change sides.
pub open spec fn reversed_cell(cell: Option<Figure>) -> Option<Figure> {
    match cell {
        Some(figure) => Some(figure.reversed()),
        None => None,
    }
}

/// A whole board seen from the other side.
pub open spec fn flipped(cells: Seq<Option<Figure>>) -> Seq<Option<Figure>> {
    Seq::new(cells.len(), |i: int| reversed_cell(cells[i]))
}

/// Represents the board of tic-tac-toe
/// from players's point of view
#[derive(Debug, PartialEq, Eq)]
pub struct Battlefield(pub [Option<Figure>; 9]);

impl Clone for Battlefield {
    fn clone(&self) -> (field: Battlefield)
        ensures
            field == *self,
    {
        Battlefield(self.0)
    }
}

impl View for Battlefield {
    type V = Seq<Option<Figure>>;

    open spec fn view(&self) -> Seq<Option<Figure>> {
        self.0@
    }
}

impl Default for Battlefield {
    fn default() -> (field: Battlefield)
        ensures
            is_untouched(field@),
    {
        Battlefield([None; 9])
    }
}

impl Battlefield {
    /// The cells `i`, `j` and `k` with what stands in them.
    pub fn index(&self, i: usize, j: usize, k: usize) -> (line: IndexedLine)
        requires
            i < 9,
            j < 9,
            k < 9,
        ensures
            line == line_at(self@, i as int, j as int, k as int),
    {
        let table = self.0;
        ([i, j, k], [table[i], table[j], table[k]])
    }

    /// Get all rows with corresponding indices
    pub fn rows(&self) -> (rows: [IndexedLine; 3])
        ensures
            forall|n: int| 0 <= n < 3 ==> rows@[n] == line(self@, n),
    {
        [self.index(0, 1, 2), self.index(3, 4, 5), self.index(6, 7, 8)]
    }

    /// Get all columns with corresponding indices
    pub fn cols(&self) -> (cols: [IndexedLine; 3])
        ensures
            forall|n: int| 0 <= n < 3 ==> cols@[n] == line(self@, 3 + n),
    {
        [self.index(0, 3, 6), self.index(1, 4, 7), self.index(2, 5, 8)]
    }

    /// Get all diagonals with corresponding indices
    pub fn diags(&self) -> (diags: [IndexedLine; 2])
        ensures
            forall|n: int| 0 <= n < 2 ==> diags@[n] == line(self@, 6 + n),
    {
        [self.index(0, 4, 8), self.index(2, 4, 6)]
    }

    /// Get all lines (rows, columns and diagonals) with corresponding indices
    pub fn all_lines(&self) -> (lines: [IndexedLine; 8])
        ensures
            forall|n: int| 0 <= n < 8 ==> lines@[n] == line(self@, n),
    {
        let rows = self.rows();
        let cols = self.cols();
        let diags = self.diags();
        [rows[0], rows[1], rows[2], cols[0], cols[1], cols[2], diags[0], diags[1]]
    }

    /// Put a figure of the player to move into the free cell `index`.
    pub fn apply_move(&mut self, index: usize)
        requires
            is_free(old(self)@, index as int),
        ensures
            final(self)@ == old(self)@.update(index as int, Some(Figure::Own)),
    {
        self.0[index] = Some(Figure::Own);
    }

    /// Hand the board to the other player: every figure changes sides.
    pub fn flip_all(&mut self)
        ensures
            final(self)@ == flipped(old(self)@),
    {
        let mut i: usize = 0;
        while i < 9
            invariant
                i <= 9,
                forall|j: int| 0 <= j < i ==> self@[j] == reversed_cell(old(self)@[j]),
                forall|j: int| i <= j < 9 ==> self@[j] == old(self)@[j],
            decreases 9 - i,
        {
            let cell = self.0[i];
            assert(cell == old(self)@[i as int]);
            if let Some(figure) = cell {
                let mut figure = figure;
                figure.reverse();
                self.0[i] = Some(figure);
            }
            i += 1;
        }
    }
}

} // verus!
