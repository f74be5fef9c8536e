//! A board for any game that puts its pieces on a rectangular grid, with
//! position arithmetic, directional field scanning and sliding-window
//! scanning.

use vstd::prelude::*;

pub mod iterator;
pub mod position;
pub mod sliding_window_iterator;

pub use iterator::FieldIterator;
pub use position::BoardPosition;
pub use sliding_window_iterator::SlidingWindowIterator;

verus! {

/// A position on a board of the given dimensions indexes into a row-major
/// store of `rows * cols` entries.
pub proof fn lemma_linear_index_in_range(pos: BoardPosition, rows: int, cols: int)
    requires
        pos.spec_linear_index(rows, cols) is Some,
    ensures
        0 <= pos.spec_linear_index(rows, cols).unwrap() < rows * cols,
{
    assert(pos.spec_y() * cols <= (rows - 1) * cols) by (nonlinear_arith)
        requires
            pos.spec_y() <= rows - 1,
            0 <= cols,
    ;
    assert((rows - 1) * cols == rows * cols - cols) by (nonlinear_arith);
    assert(0 <= pos.spec_y() * cols) by (nonlinear_arith)
        requires
            0 <= pos.spec_y(),
            0 <= cols,
    ;
}

/// A rectangular board of `rows * cols` fields, stored row-major.
pub struct Board<FieldContent> {
    fields: Vec<FieldContent>,
    cols: usize,
    rows: usize,
}

impl<FieldContent> Board<FieldContent> {
    /// The number of rows of this board.
    pub closed spec fn spec_rows(&self) -> int {
        self.rows as int
    }

    /// The number of columns of this board.
    pub closed spec fn spec_cols(&self) -> int {
        self.cols as int
    }

    /// The contents of all fields, row-major.
    pub closed spec fn spec_fields(&self) -> Seq<FieldContent> {
        self.fields@
    }

    /// Well-formed: the store holds exactly one entry per field, and the
    /// dimensions are small enough for position arithmetic.
    pub open spec fn wf(&self) -> bool {
        &&& self.spec_fields().len() == self.spec_rows() * self.spec_cols()
        &&& self.spec_rows() <= isize::MAX as int
        &&& self.spec_cols() <= isize::MAX as int
        &&& self.spec_rows() * self.spec_cols() <= usize::MAX as int
    }

    /// A fresh board whose every field holds a value produced by
    /// `default_content`.
    pub fn new<F: Fn() -> FieldContent>(rows: usize, cols: usize, default_content: F) -> (b:
        Board<FieldContent>)
        requires
            rows as int <= isize::MAX as int,
            cols as int <= isize::MAX as int,
            rows as int * cols as int <= usize::MAX as int,
            call_requires(default_content, ()),
        ensures
            b.wf(),
            b.spec_rows() == rows as int,
            b.spec_cols() == cols as int,
            forall|i: int|
                0 <= i < b.spec_fields().len() ==> call_ensures(
                    default_content,
                    (),
                    #[trigger] b.spec_fields()[i],
                ),
    {
        let count = rows * cols;
        let mut fields: Vec<FieldContent> = Vec::new();
        while fields.len() < count
            invariant
                fields@.len() <= count,
                call_requires(default_content, ()),
                forall|i: int|
                    0 <= i < fields@.len() ==> call_ensures(
                        default_content,
                        (),
                        #[trigger] fields@[i],
                    ),
            decreases count - fields.len(),
        {
            fields.push(default_content());
        }
        Board { cols, rows, fields }
    }

    /// The number of columns of this board.
    pub fn columns(&self) -> (c: usize)
        ensures
            c as int == self.spec_cols(),
    {
        self.cols
    }

    /// The number of rows of this board.
    pub fn rows(&self) -> (r: usize)
        ensures
            r as int == self.spec_rows(),
    {
        self.rows
    }

    /// Sets the content of the field at `pos`, which must lie on the board.
    pub fn set(&mut self, pos: &BoardPosition, value: FieldContent)
        requires
            old(self).wf(),
            pos.spec_linear_index(old(self).spec_rows(), old(self).spec_cols()) is Some,
        ensures
            final(self).wf(),
            final(self).spec_rows() == old(self).spec_rows(),
            final(self).spec_cols() == old(self).spec_cols(),
            final(self).spec_fields() == old(self).spec_fields().update(
                pos.spec_linear_index(old(self).spec_rows(), old(self).spec_cols()).unwrap(),
                value,
            ),
    {
        match pos.linear_index(self.rows, self.cols) {
            Some(index) => {
                proof {
                    lemma_linear_index_in_range(*pos, self.spec_rows(), self.spec_cols());
                }
                self.fields[index] = value;
            },
            None => {
                proof {
                    assert(false);
                }
            },
        }
    }

    /// The content of the field at `pos`, or `None` when `pos` lies off the
    /// board.
    pub fn get(&self, pos: &BoardPosition) -> (r: Option<&FieldContent>)
        requires
            self.wf(),
        ensures
            r is None <==> pos.spec_linear_index(self.spec_rows(), self.spec_cols()) is None,
            r matches Some(content) ==> *content == self.spec_fields()[pos.spec_linear_index(
                self.spec_rows(),
                self.spec_cols(),
            ).unwrap()],
    {
        match pos.linear_index(self.rows, self.cols) {
            Some(index) => {
                proof {
                    lemma_linear_index_in_range(*pos, self.spec_rows(), self.spec_cols());
                }
                Some(&self.fields[index])
            },
            None => None,
        }
    }

    /// A cursor walking the board from `pos` in steps of `(row_dir,
    /// col_dir)`, yielding the fields it passes until it leaves the board.
    pub fn field_iterator(&self, pos: BoardPosition, row_dir: isize, col_dir: isize) -> (it:
        FieldIterator<'_, FieldContent>)
        requires
            self.wf(),
        ensures
            it.wf(),
            it.spec_board() == *self,
            it.spec_pos() == pos,
            it.spec_row_dir() == row_dir as int,
            it.spec_col_dir() == col_dir as int,
    {
        FieldIterator::new(self, pos, row_dir, col_dir)
    }

    /// A cursor sliding a window of `window_size` fields over the board from
    /// `pos` in steps of `(row_dir, col_dir)`, reporting on each step the
    /// field entering the window and the field leaving it.
    pub fn sliding_window_iterator(
        &self,
        pos: BoardPosition,
        row_dir: isize,
        col_dir: isize,
        window_size: usize,
    ) -> (it: SlidingWindowIterator<'_, FieldContent>)
        requires
            self.wf(),
        ensures
            it.wf(),
            it.spec_board() == *self,
            it.spec_front_pos() == pos,
            it.spec_end_pos() == pos,
            it.spec_current_length() == 0,
            it.spec_full_length() == window_size as int,
            it.spec_row_step() == row_dir as int,
            it.spec_col_step() == col_dir as int,
    {
        SlidingWindowIterator::new(self, pos, row_dir, col_dir, window_size)
    }
}

} // verus!
