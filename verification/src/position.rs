//! Cursor addressing over the fixed screen grid.
//!
//! The screen is a grid of `SHELL_HEIGHT` rows by `SHELL_WIDTH` columns. A
//! cursor walks it in reading order and wraps from the last cell back to the
//! first, so the grid behaves as a ring rather than a scrolling log.

use vstd::prelude::*;

verus! {

/// Number of columns of the screen.
pub const SHELL_WIDTH: usize = 80;

/// Number of rows of the screen.
pub const SHELL_HEIGHT: usize = 24;

/// Number of cells of the screen.
pub open spec fn grid_size() -> int {
    SHELL_HEIGHT * SHELL_WIDTH
}

/// A grid coordinate, as a mathematical value.
pub struct Address {
    pub row: int,
    pub col: int,
}

impl Address {
    /// The first cell of the grid.
    pub open spec fn origin() -> Address {
        Address { row: 0, col: 0 }
    }

    /// The last cell of the grid, from which stepping forward wraps around.
    pub open spec fn last() -> Address {
        Address { row: SHELL_HEIGHT - 1, col: SHELL_WIDTH - 1 }
    }

    pub open spec fn in_grid(self) -> bool {
        0 <= self.row < SHELL_HEIGHT && 0 <= self.col < SHELL_WIDTH
    }

    pub open spec fn is_origin(self) -> bool {
        self.row == 0 && self.col == 0
    }

    /// The next cell in reading order; the last cell is followed by the first.
    pub open spec fn forward(self) -> Address {
        if self.col + 1 < SHELL_WIDTH {
            Address { row: self.row, col: self.col + 1 }
        } else {
            Address { row: (self.row + 1) % (SHELL_HEIGHT as int), col: 0 }
        }
    }

    /// The cell before this one. From column 0 the step lands on the last
    /// column of the row above, except on row 0, which it never leaves.
    pub open spec fn backward(self) -> Address {
        if self.col == 0 {
            Address { row: if self.row != 0 { self.row - 1 } else { 0 }, col: SHELL_WIDTH - 1 }
        } else {
            Address { row: self.row, col: self.col - 1 }
        }
    }

    /// The start of the next row, wrapping from the last row to row 0.
    pub open spec fn new_line(self) -> Address {
        Address { row: (self.row + 1) % (SHELL_HEIGHT as int), col: 0 }
    }

    /// The address reached by `n` forward steps.
    pub open spec fn forward_by(self, n: nat) -> Address
        decreases n,
    {
        if n == 0 {
            self
        } else {
            self.forward_by((n - 1) as nat).forward()
        }
    }

    /// Position of the cell in reading order, counted from the origin.
    pub open spec fn offset(self) -> int {
        self.row * SHELL_WIDTH + self.col
    }

    /// The cell at position `k` in reading order.
    pub open spec fn at_offset(k: int) -> Address {
        Address { row: k / (SHELL_WIDTH as int), col: k % (SHELL_WIDTH as int) }
    }
}

/// Offsets and addresses of the grid correspond one to one.
pub proof fn lemma_offset_bijection(a: Address, k: int)
    ensures
        a.in_grid() ==> 0 <= a.offset() < grid_size() && Address::at_offset(a.offset()) == a,
        0 <= k < grid_size() ==> Address::at_offset(k).in_grid() && Address::at_offset(k).offset()
            == k,
{
}

/// A forward step stays in the grid and advances the offset by one, modulo
/// the number of cells.
pub proof fn lemma_forward_offset(a: Address)
    requires
        a.in_grid(),
    ensures
        a.forward().in_grid(),
        a.forward().offset() == (a.offset() + 1) % grid_size(),
{
    assert(grid_size() == 1920) by (nonlinear_arith);
}

/// `n` forward steps advance the offset by `n`, modulo the number of cells.
pub proof fn lemma_forward_by_offset(a: Address, n: nat)
    requires
        a.in_grid(),
    ensures
        a.forward_by(n).in_grid(),
        a.forward_by(n).offset() == (a.offset() + n) % grid_size(),
    decreases n,
{
    assert(grid_size() == 1920) by (nonlinear_arith);
    if n > 0 {
        lemma_forward_by_offset(a, (n - 1) as nat);
        lemma_forward_offset(a.forward_by((n - 1) as nat));
    }
}

/// Stepping forward has period exactly `SHELL_HEIGHT * SHELL_WIDTH`: that
/// many steps lead back to the starting cell, and no smaller positive number
/// of steps does. In particular a cursor started at the origin is back at the
/// origin after one full lap, and not before.
pub proof fn lemma_forward_period(a: Address, k: nat)
    requires
        a.in_grid(),
    ensures
        a.forward_by(grid_size() as nat) == a,
        0 < k < grid_size() ==> a.forward_by(k) != a,
{
    lemma_forward_by_offset(a, grid_size() as nat);
    lemma_forward_by_offset(a, k);
    lemma_offset_bijection(a, 0);
    lemma_offset_bijection(a.forward_by(grid_size() as nat), 0);
}

/// Stepping backward undoes a forward step, except across the wrap from the
/// last cell to the origin.
pub proof fn lemma_backward_undoes_forward(a: Address)
    requires
        a.in_grid(),
        a != Address::last(),
    ensures
        a.forward().backward() == a,
{
}

/// The cursor of a screen: the address of the next cell to be written.
///
/// A value always addresses a cell of the grid.
#[derive(Clone, Copy, Debug, PartialEq, Eq)]
pub struct CurrentPosition {
    row: usize,
    col: usize,
}

impl View for CurrentPosition {
    type V = Address;

    closed spec fn view(&self) -> Address {
        Address { row: self.row as int, col: self.col as int }
    }
}

impl Default for CurrentPosition {
    fn default() -> (position: CurrentPosition)
        ensures
            position@ == Address::origin(),
    {
        CurrentPosition { row: 0, col: 0 }
    }
}

impl CurrentPosition {
    /// A cursor always addresses a cell of the grid.
    #[verifier::type_invariant]
    pub open spec fn inv(self) -> bool {
        self@.in_grid()
    }

    /// A cursor at the origin.
    pub fn new() -> (position: CurrentPosition)
        ensures
            position@ == Address::origin(),
    {
        CurrentPosition { row: 0, col: 0 }
    }

    /// A cursor at the given cell, if the grid has such a cell.
    pub fn at(row: usize, col: usize) -> (position: Option<CurrentPosition>)
        ensures
            match position {
                Some(p) => p@ == (Address { row: row as int, col: col as int }) && p@.in_grid(),
                None => !(Address { row: row as int, col: col as int }).in_grid(),
            },
    {
        if row < SHELL_HEIGHT && col < SHELL_WIDTH {
            Some(CurrentPosition { row, col })
        } else {
            None
        }
    }

    pub fn row(&self) -> (row: usize)
        ensures
            row == self@.row,
            row < SHELL_HEIGHT,
    {
        proof {
            use_type_invariant(self);
        }
        self.row
    }

    pub fn col(&self) -> (col: usize)
        ensures
            col == self@.col,
            col < SHELL_WIDTH,
    {
        proof {
            use_type_invariant(self);
        }
        self.col
    }

    /// Advances the cursor by one cell and returns the new address. The
    /// column wraps to the next row, and the last row wraps to row 0.
    pub fn step_forward(&mut self) -> (next: CurrentPosition)
        ensures
            final(self)@ == old(self)@.forward(),
            final(self)@.in_grid(),
            next == *final(self),
    {
        proof {
            use_type_invariant(&*self);
        }
        if self.col + 1 < SHELL_WIDTH {
            self.col = self.col + 1;
        } else {
            self.col = 0;
            self.row = (self.row + 1) % SHELL_HEIGHT;
        }
        *self
    }

    /// Moves the cursor back by one cell. When the step lands on the origin
    /// there is no previous position to report and the result is `None`;
    /// otherwise the result is the new address.
    pub fn step_backward(&mut self) -> (previous: Option<CurrentPosition>)
        ensures
            final(self)@ == old(self)@.backward(),
            final(self)@.in_grid(),
            previous == if final(self)@.is_origin() {
                None
            } else {
                Some(*final(self))
            },
    {
        proof {
            use_type_invariant(&*self);
        }
        if self.col == 0 {
            if self.row != 0 {
                self.row = self.row - 1;
            }
            self.col = SHELL_WIDTH - 1;
        } else {
            self.col = self.col - 1;
        }
        if self.col == 0 && self.row == 0 {
            None
        } else {
            Some(*self)
        }
    }

    /// Moves the cursor to the start of the next row, whatever its column;
    /// the last row is followed by row 0.
    pub fn advance_to_new_line(&mut self)
        ensures
            final(self)@ == old(self)@.new_line(),
            final(self)@.in_grid(),
    {
        proof {
            use_type_invariant(&*self);
        }
        self.row = (self.row + 1) % SHELL_HEIGHT;
        self.col = 0;
    }
}

} // verus!
