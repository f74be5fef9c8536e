//! A position on a rectangular board: its coordinates.

use vstd::prelude::*;

verus! {

/// A position on the board. `x` counts along a row, `y` across rows; both
/// may be negative or past the board, which simply denotes a position off
/// the board.
#[derive(Clone, Copy)]
pub struct BoardPosition {
    x: isize,
    y: isize,
}

impl BoardPosition {
    /// The first coordinate of this position.
    pub closed spec fn spec_x(&self) -> int {
        self.x as int
    }

    /// The second coordinate of this position.
    pub closed spec fn spec_y(&self) -> int {
        self.y as int
    }

    /// The index of this position in a row-major array of `rows` rows of
    /// `cols` fields each, or `None` when the position lies off such a
    /// board.
    pub open spec fn spec_linear_index(&self, rows: int, cols: int) -> Option<int> {
        if self.spec_x() < 0 || self.spec_y() < 0 || self.spec_x() >= cols || self.spec_y()
            >= rows {
            None
        } else {
            Some(self.spec_x() + self.spec_y() * cols)
        }
    }

    /// The position with the given coordinates.
    pub fn new(x: isize, y: isize) -> (p: BoardPosition)
        ensures
            p.spec_x() == x as int,
            p.spec_y() == y as int,
    {
        BoardPosition { x, y }
    }

    /// Moves this position by the given offsets.
    pub fn step(&mut self, dx: isize, dy: isize)
        requires
            isize::MIN <= old(self).spec_x() + dx as int <= isize::MAX,
            isize::MIN <= old(self).spec_y() + dy as int <= isize::MAX,
        ensures
            final(self).spec_x() == old(self).spec_x() + dx as int,
            final(self).spec_y() == old(self).spec_y() + dy as int,
    {
        self.x = self.x + dx;
        self.y = self.y + dy;
    }

    /// The index of this position in a row-major array of `rows` rows of
    /// `cols` fields each, or `None` when the position lies off such a
    /// board.
    pub fn linear_index(&self, rows: usize, cols: usize) -> (r: Option<usize>)
        requires
            rows as int <= isize::MAX as int,
            cols as int <= isize::MAX as int,
            rows as int * cols as int <= usize::MAX as int,
        ensures
            r is None <==> self.spec_linear_index(rows as int, cols as int) is None,
            r matches Some(i) ==> self.spec_linear_index(rows as int, cols as int) == Some(
                i as int,
            ),
    {
        if self.x < 0 || self.y < 0 || self.x >= cols as isize || self.y >= rows as isize {
            None
        } else {
            proof {
                assert((self.y as int) * (cols as int) <= (rows as int - 1) * (cols as int))
                    by (nonlinear_arith)
                    requires
                        self.y as int <= rows as int - 1,
                        0 <= cols as int,
                ;
                assert((rows as int - 1) * (cols as int) == rows as int * cols as int
                    - cols as int) by (nonlinear_arith);
            }
            Some(self.x as usize + self.y as usize * cols)
        }
    }
}

} // verus!
