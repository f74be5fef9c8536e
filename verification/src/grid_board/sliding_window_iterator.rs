//! A cursor sliding a fixed-size window over a board along a direction.

use vstd::prelude::*;

use crate::grid_board::position::BoardPosition;
use crate::grid_board::Board;

verus! {

/// Slides a window of up to `full_length` fields over a board, moving the
/// window's front by `(row_step, col_step)` on every step and dragging the
/// window's end behind once the window is full. Each step reports the field
/// entering the window and, once the window is full, the field leaving it.
pub struct SlidingWindowIterator<'a, FieldContent> {
    front_pos: BoardPosition,
    end_pos: BoardPosition,
    current_length: usize,
    full_length: usize,
    col_step: isize,
    row_step: isize,
    board: &'a Board<FieldContent>,
}

impl<'a, FieldContent> SlidingWindowIterator<'a, FieldContent> {
    /// The board the window slides over.
    pub closed spec fn spec_board(&self) -> Board<FieldContent> {
        *self.board
    }

    /// The position the window's front reads next.
    pub closed spec fn spec_front_pos(&self) -> BoardPosition {
        self.front_pos
    }

    /// The position of the oldest field still in the window.
    pub closed spec fn spec_end_pos(&self) -> BoardPosition {
        self.end_pos
    }

    /// How many fields the window holds at the moment.
    pub closed spec fn spec_current_length(&self) -> int {
        self.current_length as int
    }

    /// The size of the full window.
    pub closed spec fn spec_full_length(&self) -> int {
        self.full_length as int
    }

    /// The step applied to first coordinates.
    pub closed spec fn spec_row_step(&self) -> int {
        self.row_step as int
    }

    /// The step applied to second coordinates.
    pub closed spec fn spec_col_step(&self) -> int {
        self.col_step as int
    }

    /// Well-formed: the board is well-formed and the window never holds
    /// more fields than its full size.
    pub open spec fn wf(&self) -> bool {
        &&& self.spec_board().wf()
        &&& self.spec_current_length() <= self.spec_full_length()
    }

    /// A window of `length` fields over `board`, starting empty with both
    /// its front and its end at `start_pos`, sliding by
    /// `(row_step, col_step)`.
    pub fn new(
        board: &'a Board<FieldContent>,
        start_pos: BoardPosition,
        row_step: isize,
        col_step: isize,
        length: usize,
    ) -> (it: SlidingWindowIterator<'a, FieldContent>)
        requires
            board.wf(),
        ensures
            it.wf(),
            it.spec_board() == *board,
            it.spec_front_pos() == start_pos,
            it.spec_end_pos() == start_pos,
            it.spec_current_length() == 0,
            it.spec_full_length() == length as int,
            it.spec_row_step() == row_step as int,
            it.spec_col_step() == col_step as int,
    {
        SlidingWindowIterator {
            front_pos: start_pos.clone(),
            end_pos: start_pos,
            current_length: 0,
            full_length: length,
            col_step,
            row_step,
            board,
        }
    }

    /// Slides the window one step: reads the field at the front, grows the
    /// window when it is not yet full, otherwise drags the end along and
    /// reports the field that left. Returns `None`, changing nothing, once
    /// the front has left the board.
    pub fn next(&mut self) -> (r: Option<SlidingWindowStep<'a, FieldContent>>)
        requires
            old(self).wf(),
            old(self).spec_front_pos().spec_linear_index(
                old(self).spec_board().spec_rows(),
                old(self).spec_board().spec_cols(),
            ) is Some ==> {
                &&& isize::MIN <= old(self).spec_front_pos().spec_x() + old(
                    self,
                ).spec_row_step() <= isize::MAX
                &&& isize::MIN <= old(self).spec_front_pos().spec_y() + old(
                    self,
                ).spec_col_step() <= isize::MAX
                &&& old(self).spec_current_length() == old(self).spec_full_length() ==> {
                    &&& isize::MIN <= old(self).spec_end_pos().spec_x() + old(
                        self,
                    ).spec_row_step() <= isize::MAX
                    &&& isize::MIN <= old(self).spec_end_pos().spec_y() + old(
                        self,
                    ).spec_col_step() <= isize::MAX
                }
            },
        ensures
            final(self).wf(),
            final(self).spec_board() == old(self).spec_board(),
            final(self).spec_full_length() == old(self).spec_full_length(),
            final(self).spec_row_step() == old(self).spec_row_step(),
            final(self).spec_col_step() == old(self).spec_col_step(),
            r is None <==> old(self).spec_front_pos().spec_linear_index(
                old(self).spec_board().spec_rows(),
                old(self).spec_board().spec_cols(),
            ) is None,
            r is None ==> *final(self) == *old(self),
            r matches Some(step) ==> {
                let was_full = old(self).spec_current_length() == old(self).spec_full_length();
                let new_length = if was_full {
                    old(self).spec_current_length()
                } else {
                    old(self).spec_current_length() + 1
                };
                &&& final(self).spec_current_length() == new_length
                &&& step.length as int == new_length
                &&& step.is_full == (new_length == old(self).spec_full_length())
                &&& *step.new_field == old(self).spec_board().spec_fields()[old(
                    self,
                ).spec_front_pos().spec_linear_index(
                    old(self).spec_board().spec_rows(),
                    old(self).spec_board().spec_cols(),
                ).unwrap()]
                &&& !was_full ==> step.removed_field is None
                &&& was_full ==> (step.removed_field is None <==> old(
                    self,
                ).spec_end_pos().spec_linear_index(
                    old(self).spec_board().spec_rows(),
                    old(self).spec_board().spec_cols(),
                ) is None)
                &&& step.removed_field matches Some(content) ==> *content == old(
                    self,
                ).spec_board().spec_fields()[old(self).spec_end_pos().spec_linear_index(
                    old(self).spec_board().spec_rows(),
                    old(self).spec_board().spec_cols(),
                ).unwrap()]
                &&& step.font_pos == old(self).spec_front_pos()
                &&& step.end_pos == old(self).spec_end_pos()
                &&& final(self).spec_front_pos().spec_x() == old(self).spec_front_pos().spec_x()
                    + old(self).spec_row_step()
                &&& final(self).spec_front_pos().spec_y() == old(self).spec_front_pos().spec_y()
                    + old(self).spec_col_step()
                &&& was_full ==> final(self).spec_end_pos().spec_x() == old(
                    self,
                ).spec_end_pos().spec_x() + old(self).spec_row_step()
                &&& was_full ==> final(self).spec_end_pos().spec_y() == old(
                    self,
                ).spec_end_pos().spec_y() + old(self).spec_col_step()
                &&& !was_full ==> final(self).spec_end_pos() == old(self).spec_end_pos()
            },
    {
        let board = self.board;
        match board.get(&self.front_pos) {
            None => None,
            Some(new_field) => {
                let was_already_full = self.current_length == self.full_length;
                if !was_already_full {
                    self.current_length = self.current_length + 1;
                }
                let is_full = self.current_length == self.full_length;

                let result = SlidingWindowStep {
                    new_field,
                    removed_field: if was_already_full {
                        board.get(&self.end_pos)
                    } else {
                        None
                    },
                    length: self.current_length,
                    is_full,
                    font_pos: self.front_pos.clone(),
                    end_pos: self.end_pos.clone(),
                };

                self.front_pos.step(self.row_step, self.col_step);
                if was_already_full {
                    self.end_pos.step(self.row_step, self.col_step);
                }

                Some(result)
            },
        }
    }
}

/// One step of a sliding window.
pub struct SlidingWindowStep<'a, FieldContent> {
    /// The field sliding into the window.
    pub new_field: &'a FieldContent,
    /// The field being removed from the window, if any.
    pub removed_field: Option<&'a FieldContent>,
    /// The current length of the window.
    pub length: usize,
    /// Whether the window is full; equal to `length == full_length`.
    pub is_full: bool,
    /// The position of the field that slid in.
    pub font_pos: BoardPosition,
    /// The position of the oldest field in the window.
    pub end_pos: BoardPosition,
}

} // verus!
