//! A cursor walking a board along a fixed direction.

use vstd::prelude::*;

use crate::grid_board::position::BoardPosition;
use crate::grid_board::Board;

verus! {

/// Walks a board from a start position in steps of a fixed direction,
/// yielding each field it passes, until it steps off the board. `row_dir`
/// moves the first coordinate, `col_dir` the second, as in
/// `BoardPosition::step`.
pub struct FieldIterator<'a, FieldContent> {
    pos: BoardPosition,
    col_dir: isize,
    row_dir: isize,
    field: &'a Board<FieldContent>,
}

impl<'a, FieldContent> FieldIterator<'a, FieldContent> {
    /// The board this cursor walks.
    pub closed spec fn spec_board(&self) -> Board<FieldContent> {
        *self.field
    }

    /// The position the next call of `next` reads.
    pub closed spec fn spec_pos(&self) -> BoardPosition {
        self.pos
    }

    /// The step applied to the first coordinate after each read.
    pub closed spec fn spec_row_dir(&self) -> int {
        self.row_dir as int
    }

    /// The step applied to the second coordinate after each read.
    pub closed spec fn spec_col_dir(&self) -> int {
        self.col_dir as int
    }

    /// Well-formed: the board walked is well-formed.
    pub open spec fn wf(&self) -> bool {
        self.spec_board().wf()
    }

    /// A cursor over `board` starting at `start_pos`, stepping by
    /// `(row_dir, col_dir)`.
    pub fn new(
        board: &'a Board<FieldContent>,
        start_pos: BoardPosition,
        row_dir: isize,
        col_dir: isize,
    ) -> (it: Self)
        requires
            board.wf(),
        ensures
            it.wf(),
            it.spec_board() == *board,
            it.spec_pos() == start_pos,
            it.spec_row_dir() == row_dir as int,
            it.spec_col_dir() == col_dir as int,
    {
        FieldIterator { pos: start_pos, col_dir, row_dir, field: board }
    }

    /// The field at the cursor's position, or `None` when the cursor has
    /// left the board; the cursor then steps once either way.
    pub fn next(&mut self) -> (r: Option<&'a FieldContent>)
        requires
            old(self).wf(),
            isize::MIN <= old(self).spec_pos().spec_x() + old(self).spec_row_dir()
                <= isize::MAX,
            isize::MIN <= old(self).spec_pos().spec_y() + old(self).spec_col_dir()
                <= isize::MAX,
        ensures
            final(self).wf(),
            final(self).spec_board() == old(self).spec_board(),
            final(self).spec_row_dir() == old(self).spec_row_dir(),
            final(self).spec_col_dir() == old(self).spec_col_dir(),
            final(self).spec_pos().spec_x() == old(self).spec_pos().spec_x() + old(
                self,
            ).spec_row_dir(),
            final(self).spec_pos().spec_y() == old(self).spec_pos().spec_y() + old(
                self,
            ).spec_col_dir(),
            r is None <==> old(self).spec_pos().spec_linear_index(
                old(self).spec_board().spec_rows(),
                old(self).spec_board().spec_cols(),
            ) is None,
            r matches Some(content) ==> *content == old(self).spec_board().spec_fields()[old(
                self,
            ).spec_pos().spec_linear_index(
                old(self).spec_board().spec_rows(),
                old(self).spec_board().spec_cols(),
            ).unwrap()],
    {
        let result = self.field.get(&self.pos);
        self.pos.step(self.row_dir, self.col_dir);
        result
    }
}

} // verus!
