//! The screen buffer: a fixed grid of characters with a cursor.
//!
//! Writing stores a character at the cursor and advances it. The grid is a
//! ring: writing past the last cell continues at the first and overwrites
//! what was there.

use crate::position::{grid_size, Address, CurrentPosition, SHELL_HEIGHT, SHELL_WIDTH};
use crate::position::{
    lemma_backward_undoes_forward, lemma_forward_by_offset, lemma_forward_offset,
    lemma_offset_bijection,
};
use crate::text::to_string;
use vstd::prelude::*;

verus! {

/// The content of a cell that holds no character.
pub const EMPTY_CELL: char = '\0';

/// A screen as a mathematical value: its rows of cells and its cursor.
#[verifier::ext_equal]
pub struct Screen {
    pub cells: Seq<Seq<char>>,
    pub cursor: Address,
}

impl Screen {
    /// The grid has `SHELL_HEIGHT` rows of `SHELL_WIDTH` cells and the
    /// cursor addresses one of them.
    pub open spec fn wf(self) -> bool {
        &&& self.cells.len() == SHELL_HEIGHT
        &&& forall|r: int| 0 <= r < SHELL_HEIGHT ==> (#[trigger] self.cells[r]).len() == SHELL_WIDTH
        &&& self.cursor.in_grid()
    }

    /// The screen with every cell empty and the cursor at the origin.
    pub open spec fn blank() -> Screen {
        Screen {
            cells: Seq::new(
                SHELL_HEIGHT as nat,
                |r: int| Seq::new(SHELL_WIDTH as nat, |c: int| EMPTY_CELL),
            ),
            cursor: Address::origin(),
        }
    }

    pub open spec fn cell(self, a: Address) -> char {
        self.cells[a.row][a.col]
    }

    /// The content of the cell at position `k` in reading order.
    pub open spec fn cell_at(self, k: int) -> char {
        self.cell(Address::at_offset(k))
    }

    /// The screen with `c` stored in cell `a`; the cursor stays.
    pub open spec fn put(self, a: Address, c: char) -> Screen {
        Screen { cells: self.cells.update(a.row, self.cells[a.row].update(a.col, c)), ..self }
    }

    /// Stores `c` at the cursor, then steps the cursor forward.
    pub open spec fn write(self, c: char) -> Screen {
        Screen { cursor: self.cursor.forward(), ..self.put(self.cursor, c) }
    }

    /// Writes the characters of `s` one after the other.
    pub open spec fn write_str(self, s: Seq<char>) -> Screen
        decreases s.len(),
    {
        if s.len() == 0 {
            self
        } else {
            self.write_str(s.drop_last()).write(s.last())
        }
    }

    /// Steps the cursor backward and empties the cell it lands on, unless
    /// it lands on the origin: then nothing is erased.
    pub open spec fn erase_last(self) -> Screen {
        let back = self.cursor.backward();
        if back.is_origin() {
            Screen { cursor: back, ..self }
        } else {
            Screen { cursor: back, ..self.put(back, EMPTY_CELL) }
        }
    }

    /// The character that `erase_last` removes, if it removes one.
    pub open spec fn erased(self) -> Option<char> {
        let back = self.cursor.backward();
        if back.is_origin() {
            None
        } else {
            Some(self.cell(back))
        }
    }

    /// Moves the cursor to the start of the next row; no cell changes.
    pub open spec fn new_line(self) -> Screen {
        Screen { cursor: self.cursor.new_line(), ..self }
    }

    /// The line being typed: the cells of the cursor's row from column
    /// `prompt_length` up to the cursor. It is empty while the cursor has
    /// not passed that column.
    pub open spec fn current_line(self, prompt_length: int) -> Seq<char> {
        if 0 <= prompt_length < self.cursor.col {
            self.cells[self.cursor.row].subrange(prompt_length, self.cursor.col)
        } else {
            Seq::empty()
        }
    }

    /// Row `r` as displayed: its cells in order, an empty cell shown as a
    /// space.
    pub open spec fn row_text(self, r: int) -> Seq<char> {
        Seq::new(
            SHELL_WIDTH as nat,
            |c: int|
                if self.cells[r][c] == EMPTY_CELL {
                    ' '
                } else {
                    self.cells[r][c]
                },
        )
    }
}

/// Index into a text of `n` characters, written from position `start`, of
/// the character that is left in the cell at position `k`: the last one
/// written there. `None` if the text does not reach that cell.
pub open spec fn last_written(start: int, n: int, k: int) -> Option<int> {
    let first = (k - start) % grid_size();
    if first < n {
        Some(first + ((n - 1 - first) / grid_size()) * grid_size())
    } else {
        None
    }
}

/// Writing keeps a screen well formed and leaves all cells but the
/// cursor's as they were.
pub proof fn lemma_write(screen: Screen, c: char)
    requires
        screen.wf(),
    ensures
        screen.write(c).wf(),
        screen.write(c).cell(screen.cursor) == c,
        forall|a: Address|
            a.in_grid() && a != screen.cursor ==> #[trigger] screen.write(c).cell(a) == screen.cell(
                a,
            ),
{
    lemma_forward_offset(screen.cursor);
}

/// How `last_written` grows with the text: the newest character lands
/// `n - 1` steps from `start`, and every other cell keeps what the first
/// `n - 1` characters left there.
pub proof fn lemma_last_written_step(start: int, n: int, k: int)
    requires
        0 <= start < grid_size(),
        0 <= k < grid_size(),
        n >= 1,
    ensures
        k == (start + n - 1) % grid_size() ==> last_written(start, n, k) == Some(n - 1),
        k != (start + n - 1) % grid_size() ==> last_written(start, n, k) == last_written(
            start,
            n - 1,
            k,
        ),
        last_written(start, n - 1, k) matches Some(j) ==> 0 <= j < n - 1,
{
    assert(grid_size() == 1920) by (nonlinear_arith);
}

/// What a text leaves on the screen. The cursor ends as many forward steps
/// further as the text has characters. Each cell holds the last character
/// written to it, or what it held before if the text did not reach it.
pub proof fn lemma_write_str(screen: Screen, s: Seq<char>, k: int)
    requires
        screen.wf(),
        0 <= k < grid_size(),
    ensures
        screen.write_str(s).wf(),
        screen.write_str(s).cursor == screen.cursor.forward_by(s.len()),
        screen.write_str(s).cell_at(k) == match last_written(
            screen.cursor.offset(),
            s.len() as int,
            k,
        ) {
            Some(j) => s[j],
            None => screen.cell_at(k),
        },
    decreases s.len(),
{
    let start = screen.cursor.offset();
    lemma_offset_bijection(screen.cursor, k);
    if s.len() == 0 {
        assert(last_written(start, 0, k) is None) by {
            assert(grid_size() == 1920) by (nonlinear_arith);
        }
    } else {
        let n = s.len() as int;
        let init = s.drop_last();
        let before = screen.write_str(init);
        lemma_write_str(screen, init, k);
        lemma_forward_by_offset(screen.cursor, (n - 1) as nat);
        lemma_write(before, s.last());
        lemma_offset_bijection(before.cursor, k);
        lemma_last_written_step(start, n, k);
        let target = Address::at_offset(k);
        if k == before.cursor.offset() {
            assert(target == before.cursor);
            assert(screen.write_str(s).cell_at(k) == s.last());
        } else {
            assert(target != before.cursor);
            assert(screen.write_str(s).cell(target) == before.cell(target));
            match last_written(start, n - 1, k) {
                Some(j) => {
                    assert(init[j] == s[j]);
                },
                None => {},
            }
        }
    }
}

/// A text longer than the screen wraps around: written from the origin, a
/// text of one screenful and `extra` more characters leaves its newest
/// `extra` characters in the first cells and the cursor right behind them;
/// the cells after that keep the characters of the first lap.
pub proof fn lemma_overflow_overwrites_oldest(screen: Screen, s: Seq<char>, extra: int, k: int)
    requires
        screen.wf(),
        screen.cursor == Address::origin(),
        0 <= extra < grid_size(),
        s.len() == grid_size() + extra,
        0 <= k < grid_size(),
    ensures
        screen.write_str(s).cursor == Address::at_offset(extra),
        screen.write_str(s).cell_at(k) == if k < extra {
            s[grid_size() + k]
        } else {
            s[k]
        },
{
    assert(grid_size() == 1920) by (nonlinear_arith);
    lemma_write_str(screen, s, k);
    lemma_forward_by_offset(screen.cursor, s.len());
    lemma_offset_bijection(screen.write_str(s).cursor, extra);
}

/// Erasing right after a write takes the write back: the written
/// character is returned and the cursor is where it was, over an empty
/// cell. If that cell was empty before the write, the screen is as it was.
/// This does not hold of a write at the origin, which is never erased, nor
/// of one at the last cell, from which the cursor wraps.
pub proof fn lemma_erase_undoes_write(screen: Screen, c: char)
    requires
        screen.wf(),
        !screen.cursor.is_origin(),
        screen.cursor != Address::last(),
    ensures
        screen.write(c).erased() == Some(c),
        screen.write(c).erase_last() == screen.put(screen.cursor, EMPTY_CELL),
        screen.cell(screen.cursor) == EMPTY_CELL ==> screen.write(c).erase_last() == screen,
{
    let here = screen.cursor;
    let written = screen.write(c);
    lemma_backward_undoes_forward(here);
    assert(written.cursor.backward() == here);
    assert(written.cells[here.row] =~= screen.cells[here.row].update(here.col, c));
    assert(written.cell(here) == c);
    let erased = written.erase_last();
    assert(erased.cells[here.row] =~= screen.cells[here.row].update(here.col, EMPTY_CELL));
    assert(erased.cells =~= screen.put(here, EMPTY_CELL).cells);
    if screen.cell(here) == EMPTY_CELL {
        assert(screen.cells[here.row] =~= screen.cells[here.row].update(here.col, EMPTY_CELL));
        assert(erased.cells =~= screen.cells);
    }
}

/// The screen buffer of a session.
pub struct ShellData {
    cells: [[char; SHELL_WIDTH]; SHELL_HEIGHT],
    cursor: CurrentPosition,
}

impl View for ShellData {
    type V = Screen;

    closed spec fn view(&self) -> Screen {
        Screen { cells: Seq::new(SHELL_HEIGHT as nat, |r: int| self.cells[r]@), cursor: self.cursor@ }
    }
}

impl Default for ShellData {
    fn default() -> (data: ShellData)
        ensures
            data@ == Screen::blank(),
            data@.wf(),
    {
        ShellData::new()
    }
}

impl ShellData {
    /// The screen is always well formed.
    #[verifier::type_invariant]
    pub open spec fn inv(self) -> bool {
        self@.wf()
    }

    /// An empty screen with the cursor at the origin.
    pub fn new() -> (data: ShellData)
        ensures
            data@ == Screen::blank(),
            data@.wf(),
    {
        let data = ShellData {
            cells: [[EMPTY_CELL; SHELL_WIDTH]; SHELL_HEIGHT],
            cursor: CurrentPosition::new(),
        };
        assert(data@.cells =~~= Screen::blank().cells);
        data
    }

    /// The address of the next cell to be written.
    pub fn cursor(&self) -> (position: CurrentPosition)
        ensures
            position@ == self@.cursor,
            self@.wf(),
    {
        proof {
            use_type_invariant(self);
        }
        self.cursor
    }

    /// The content of the cell at `position`.
    pub fn get(&self, position: CurrentPosition) -> (c: char)
        ensures
            c == self@.cell(position@),
    {
        self.cells[position.row()][position.col()]
    }

    /// Stores `ch` at the cursor and advances the cursor by one cell. At
    /// the last cell the cursor wraps to the origin, so a full screen is
    /// overwritten from the top.
    pub fn write(&mut self, ch: char)
        ensures
            final(self)@ == old(self)@.write(ch),
            final(self)@.wf(),
    {
        let row = self.cursor.row();
        let col = self.cursor.col();
        let mut cursor = self.cursor;
        cursor.step_forward();
        self.cells[row][col] = ch;
        self.cursor = cursor;
        assert(self@.cells =~~= old(self)@.write(ch).cells);
    }

    /// Writes the characters of `s` in order.
    pub fn write_str(&mut self, s: &str)
        ensures
            final(self)@ == old(self)@.write_str(s@),
            final(self)@.wf(),
    {
        proof {
            use_type_invariant(&*self);
        }
        for c in it: s.chars()
            invariant
                it.seq() == s@,
                self@ == old(self)@.write_str(s@.take(it.index())),
                self@.wf(),
        {
            assert(s@.take(it.index() + 1).drop_last() =~= s@.take(it.index()));
            self.write(c);
        }
        assert(s@.take(s@.len() as int) =~= s@);
    }

    /// Erases the last written character: steps the cursor backward,
    /// empties the cell it lands on and returns what the cell held. When
    /// the step lands on the origin nothing is erased, and the result is
    /// `None`.
    pub fn pop(&mut self) -> (erased: Option<char>)
        ensures
            final(self)@ == old(self)@.erase_last(),
            erased == old(self)@.erased(),
            final(self)@.wf(),
    {
        let mut cursor = self.cursor;
        let previous = cursor.step_backward();
        self.cursor = cursor;
        match previous {
            None => None,
            Some(position) => {
                let row = position.row();
                let col = position.col();
                let removed = self.cells[row][col];
                self.cells[row][col] = EMPTY_CELL;
                assert(self@.cells =~~= old(self)@.erase_last().cells);
                Some(removed)
            },
        }
    }

    /// Empties every cell and puts the cursor at the origin.
    pub fn clear(&mut self)
        ensures
            final(self)@ == Screen::blank(),
            final(self)@.wf(),
    {
        *self = ShellData::new();
    }

    /// Moves the cursor to the start of the next row.
    pub fn advance_to_new_line(&mut self)
        ensures
            final(self)@ == old(self)@.new_line(),
            final(self)@.wf(),
    {
        let mut cursor = self.cursor;
        cursor.advance_to_new_line();
        self.cursor = cursor;
    }

    /// The line being typed, given the length of the prompt in front of it.
    pub fn current_line(&self, prompt_length: usize) -> (line: Vec<char>)
        ensures
            line@ == self@.current_line(prompt_length as int),
    {
        let row = self.cursor.row();
        let end = self.cursor.col();
        let mut line: Vec<char> = Vec::new();
        let mut col: usize = prompt_length;
        while col < end
            invariant
                row == self@.cursor.row,
                end == self@.cursor.col,
                row < SHELL_HEIGHT,
                end < SHELL_WIDTH,
                prompt_length <= col,
                prompt_length <= end ==> col <= end,
                prompt_length > end ==> line@.len() == 0,
                col <= end ==> line@ == self@.cells[row as int].subrange(
                    prompt_length as int,
                    col as int,
                ),
            decreases end - col,
        {
            line.push(self.cells[row][col]);
            col = col + 1;
            assert(line@ =~= self@.cells[row as int].subrange(prompt_length as int, col as int));
        }
        assert(line@ =~= self@.current_line(prompt_length as int));
        line
    }

    /// The screen as displayed: one string per row, top to bottom, each of
    /// `SHELL_WIDTH` characters, with a space for every empty cell.
    pub fn snapshot(&self) -> (rows: Vec<String>)
        ensures
            rows@.len() == SHELL_HEIGHT,
            forall|r: int| 0 <= r < SHELL_HEIGHT ==> (#[trigger] rows@[r])@ == self@.row_text(r),
    {
        let mut rows: Vec<String> = Vec::new();
        let mut row: usize = 0;
        while row < SHELL_HEIGHT
            invariant
                row <= SHELL_HEIGHT,
                rows@.len() == row,
                forall|r: int| 0 <= r < row ==> (#[trigger] rows@[r])@ == self@.row_text(r),
            decreases SHELL_HEIGHT - row,
        {
            let mut shown: Vec<char> = Vec::new();
            let mut col: usize = 0;
            while col < SHELL_WIDTH
                invariant
                    row < SHELL_HEIGHT,
                    col <= SHELL_WIDTH,
                    shown@.len() == col,
                    forall|c: int| 0 <= c < col ==> shown@[c] == self@.row_text(row as int)[c],
                decreases SHELL_WIDTH - col,
            {
                let cell = self.cells[row][col];
                shown.push(if cell == EMPTY_CELL { ' ' } else { cell });
                col = col + 1;
            }
            assert(shown@ =~= self@.row_text(row as int));
            rows.push(to_string(&shown));
            row = row + 1;
        }
        rows
    }
}

} // verus!
