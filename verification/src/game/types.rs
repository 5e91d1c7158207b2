//! Plain value types shared by the board, the rules and the computer opponent.

use vstd::prelude::*;

verus! {

/// Largest strength a stone or a bomb can carry.
pub const MAX_CELL_VALUE: i32 = 3;

/// Height at which a tower wins the round.
pub const MAX_TOWER_HEIGHT: i32 = 20;

/// The kind of object occupying a cell on the 8×8 board.
#[derive(Debug, Clone, Copy, PartialEq, Eq, Structural)]
pub enum CellKind {
    Empty,
    Bomb,
    Stone,
    Banana,
}

/// A single cell on the game board.
#[derive(Debug, Clone, Copy, PartialEq, Eq, Structural)]
pub struct Cell {
    pub kind: CellKind,
    /// Strength of the cell (0–3 for bombs and stones, ignored for banana and empty).
    pub value: i32,
}

impl Cell {
    /// The cell that a cleared square holds.
    pub open spec fn empty() -> Cell {
        Cell { kind: CellKind::Empty, value: 0 }
    }

    /// A cell is well formed when its strength lies between 0 and 3.
    pub open spec fn wf(&self) -> bool {
        0 <= self.value <= MAX_CELL_VALUE
    }

    /// Whether the cell still holds something to pick.
    pub open spec fn occupied(&self) -> bool {
        self.kind != CellKind::Empty
    }

    /// The height of a tower of height `tower` once its owner has picked this
    /// cell: a stone adds its strength plus one, a bomb takes as much away,
    /// and the result stays between 0 and 20.
    pub open spec fn lift(&self, tower: int) -> int {
        match self.kind {
            CellKind::Stone => if tower + self.value + 1 <= 20 {
                tower + self.value + 1
            } else {
                20
            },
            CellKind::Bomb => if tower - self.value - 1 >= 0 {
                tower - self.value - 1
            } else {
                0
            },
            _ => tower,
        }
    }
}

impl Default for Cell {
    fn default() -> (cell: Self)
        ensures
            cell == Cell::empty(),
    {
        Self { kind: CellKind::Empty, value: 0 }
    }
}

/// A tower between 0 and 20 stays between 0 and 20 whatever its owner picks.
pub proof fn lift_stays_in_range(cell: Cell, tower: int)
    requires
        cell.wf(),
        0 <= tower <= 20,
    ensures
        0 <= cell.lift(tower) <= 20,
{
}

/// Outcome of the game from the human player's perspective.
#[derive(Debug, Clone, Copy, PartialEq, Eq, Structural)]
pub enum GameOutcome {
    Running,
    Won,
    Lost,
    Drawn,
}

/// Which axis is currently selected for the next move.
#[derive(Debug, Clone, Copy, PartialEq, Eq, Structural)]
pub enum Selection {
    /// A full column (vertical) is active – the player must pick a row in that column.
    Column(usize),
    /// A full row (horizontal) is active – the player must pick a column in that row.
    Row(usize),
}

impl Selection {
    /// The index of the selected row or column.
    pub open spec fn index(&self) -> int {
        match *self {
            Selection::Column(c) => c as int,
            Selection::Row(r) => r as int,
        }
    }

    /// A selection is well formed when it names a row or column of the board.
    pub open spec fn wf(&self) -> bool {
        0 <= self.index() < 8
    }

    /// Whether the square (col, row) lies on the selected axis.
    pub open spec fn covers(&self, col: int, row: int) -> bool {
        match *self {
            Selection::Column(c) => col == c,
            Selection::Row(r) => row == r,
        }
    }

    /// The selection after a cell of kind `kind` was picked on square
    /// (col, row): a banana keeps the axis, anything else turns a row into
    /// the picked column and a column into the picked row.
    pub open spec fn turned(&self, kind: CellKind, col: usize, row: usize) -> Selection {
        if kind == CellKind::Banana {
            *self
        } else {
            match *self {
                Selection::Row(_) => Selection::Column(col),
                Selection::Column(_) => Selection::Row(row),
            }
        }
    }

    /// The square at position `idx` along the selected axis, as (col, row).
    pub open spec fn square(&self, idx: int) -> (int, int) {
        match *self {
            Selection::Row(r) => (idx, r as int),
            Selection::Column(c) => (c as int, idx),
        }
    }
}

/// Picking anything but a banana flips the axis: from a row to the picked
/// square's column, from a column to the picked square's row. A banana
/// leaves the selection as it was.
pub proof fn turn_flips_axis(selection: Selection, kind: CellKind, col: usize, row: usize)
    ensures
        kind == CellKind::Banana ==> selection.turned(kind, col, row) == selection,
        kind != CellKind::Banana && selection is Row ==> selection.turned(kind, col, row)
            == Selection::Column(col),
        kind != CellKind::Banana && selection is Column ==> selection.turned(kind, col, row)
            == Selection::Row(row),
{
}

/// Cumulative win/loss/draw statistics across multiple rounds.
#[derive(Debug, Clone, Copy, PartialEq, Eq, Structural)]
pub struct Statistics {
    pub player_wins: u32,
    pub computer_wins: u32,
    pub draws: u32,
}

impl Default for Statistics {
    fn default() -> (stats: Self)
        ensures
            stats == Statistics::zero(),
    {
        Self { player_wins: 0, computer_wins: 0, draws: 0 }
    }
}

impl Statistics {
    /// Statistics before any round has ended.
    pub open spec fn zero() -> Statistics {
        Statistics { player_wins: 0, computer_wins: 0, draws: 0 }
    }

    /// The statistics after one more round that ended with `outcome`.
    pub open spec fn recorded(&self, outcome: GameOutcome) -> (int, int, int) {
        match outcome {
            GameOutcome::Won => (self.player_wins + 1, self.computer_wins as int, self.draws as int),
            GameOutcome::Lost => (self.player_wins as int, self.computer_wins + 1, self.draws as int),
            GameOutcome::Drawn => (self.player_wins as int, self.computer_wins as int, self.draws + 1),
            GameOutcome::Running => (
                self.player_wins as int,
                self.computer_wins as int,
                self.draws as int,
            ),
        }
    }

    /// The three counters as mathematical integers.
    pub open spec fn counts(&self) -> (int, int, int) {
        (self.player_wins as int, self.computer_wins as int, self.draws as int)
    }

    /// Whether the counter that `outcome` increments can still grow.
    pub open spec fn can_record(&self, outcome: GameOutcome) -> bool {
        match outcome {
            GameOutcome::Won => self.player_wins < u32::MAX,
            GameOutcome::Lost => self.computer_wins < u32::MAX,
            GameOutcome::Drawn => self.draws < u32::MAX,
            GameOutcome::Running => true,
        }
    }

    /// Whether every counter can still grow.
    pub open spec fn has_room(&self) -> bool {
        self.player_wins < u32::MAX && self.computer_wins < u32::MAX && self.draws < u32::MAX
    }

    /// Count one finished round. A running game changes nothing.
    pub fn record(&mut self, outcome: GameOutcome)
        requires
            old(self).can_record(outcome),
        ensures
            final(self).counts() == old(self).recorded(outcome),
    {
        match outcome {
            GameOutcome::Won => self.player_wins += 1,
            GameOutcome::Lost => self.computer_wins += 1,
            GameOutcome::Drawn => self.draws += 1,
            GameOutcome::Running => {},
        }
    }

    /// Forget every recorded round.
    pub fn reset(&mut self)
        ensures
            *final(self) == Statistics::zero(),
    {
        *self = Self::default();
    }
}

} // verus!
