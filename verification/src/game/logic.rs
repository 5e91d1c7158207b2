//! One round of the game: whose axis is active, how a move changes the
//! towers and the board, and when the round is over.

use vstd::prelude::*;
use super::field::{axis_cell, axis_empty, freshly_drawn, slot, Board, BOARD_SIZE};
use super::types::{Cell, CellKind, GameOutcome, Selection, Statistics, MAX_TOWER_HEIGHT};
use crate::ai::model::{level_move, position_of, Position};
use crate::ai::{calculate_move, level_move_is_legal, MAX_AI_LEVEL};

verus! {

/// Central game state holding everything needed for one round.
#[derive(Debug, Clone)]
pub struct GameState {
    pub board: Board,
    pub selection: Selection,
    pub tower_player: i32,
    pub tower_computer: i32,
    pub outcome: GameOutcome,
    pub moves_made: u32,
    pub ai_level: i32,
    pub tip: Option<(usize, usize)>,
    pub hovered: Option<(usize, usize)>,
    pub statistics: Statistics,
}

/// Result of a move.
#[derive(Debug, Clone, Copy, PartialEq, Eq, Structural)]
pub enum MoveResult {
    /// Move was invalid / rejected.
    Invalid,
    /// Move applied, game is still running (opponent's turn next).
    Continue,
    /// Move applied, game is now over.
    GameOver,
}

/// How a round stands with the given towers, cells and active axis: a tower
/// at twenty decides first, the player's before the computer's; then an
/// exhausted axis, by the higher tower; otherwise the round goes on.
///
/// A move raises only the picker's tower, so after a move from a running
/// round at most one tower stands at twenty: the picker's.
pub open spec fn verdict(
    tower_player: int,
    tower_computer: int,
    cells: Seq<Cell>,
    selection: Selection,
) -> GameOutcome {
    if tower_player >= 20 {
        GameOutcome::Won
    } else if tower_computer >= 20 {
        GameOutcome::Lost
    } else if axis_empty(cells, selection) {
        if tower_player > tower_computer {
            GameOutcome::Won
        } else if tower_player < tower_computer {
            GameOutcome::Lost
        } else {
            GameOutcome::Drawn
        }
    } else {
        GameOutcome::Running
    }
}

/// A tower at twenty ends the round whatever is left on the board: the
/// player's for the player, else the computer's against them.
pub proof fn tower_at_twenty_decides(
    tower_player: int,
    tower_computer: int,
    cells: Seq<Cell>,
    selection: Selection,
)
    ensures
        tower_player >= 20 ==> verdict(tower_player, tower_computer, cells, selection)
            == GameOutcome::Won,
        tower_player < 20 && tower_computer >= 20 ==> verdict(
            tower_player,
            tower_computer,
            cells,
            selection,
        ) == GameOutcome::Lost,
        tower_player < 20 && tower_computer < 20 ==> (verdict(
            tower_player,
            tower_computer,
            cells,
            selection,
        ) == GameOutcome::Running <==> !axis_empty(cells, selection)),
{
}

/// After a valid move on anything but a banana the selection has flipped:
/// from a row to the picked square's column, from a column to the picked
/// square's row. After a valid move on a banana it is what it was.
pub proof fn move_turns_selection(
    before: GameState,
    after: GameState,
    col: usize,
    row: usize,
    is_player: bool,
)
    requires
        before.valid_move(col, row),
        before.moved(&after, col, row, is_player),
    ensures
        before.board.at(col as int, row as int).kind == CellKind::Banana ==> after.selection
            == before.selection,
        before.board.at(col as int, row as int).kind != CellKind::Banana && before.selection is Row
            ==> after.selection == Selection::Column(col),
        before.board.at(col as int, row as int).kind != CellKind::Banana
            && before.selection is Column ==> after.selection == Selection::Row(row),
{
}

/// A valid move leaves both towers between 0 and 20 and changes only the
/// picker's. A tower that has reached twenty ends the round at once: the
/// player's with a win, the computer's with a loss.
pub proof fn move_keeps_towers_in_range(
    before: GameState,
    after: GameState,
    col: usize,
    row: usize,
    is_player: bool,
)
    requires
        before.wf(),
        before.board.wf(),
        before.valid_move(col, row),
        before.moved(&after, col, row, is_player),
    ensures
        0 <= after.tower_player <= 20,
        0 <= after.tower_computer <= 20,
        is_player ==> after.tower_computer == before.tower_computer,
        !is_player ==> after.tower_player == before.tower_player,
        after.tower_player == 20 ==> after.outcome == GameOutcome::Won,
        after.tower_computer == 20 ==> after.outcome == GameOutcome::Lost,
        after.outcome == GameOutcome::Running ==> after.tower_player < 20 && after.tower_computer
            < 20 && !axis_empty(after.board@, after.selection),
{
    assert(before.board@[slot(col as int, row as int)].wf());
}

impl GameState {
    /// A state is well formed when its selection names a row or column of
    /// the board, both towers stand between 0 and 20, and, while the round
    /// runs, neither tower has reached twenty and something is left to pick
    /// on the active axis.
    pub open spec fn wf(&self) -> bool {
        &&& self.selection.wf()
        &&& 0 <= self.tower_player <= 20
        &&& 0 <= self.tower_computer <= 20
        &&& self.outcome == GameOutcome::Running ==> {
            &&& self.tower_player < 20
            &&& self.tower_computer < 20
            &&& !axis_empty(self.board@, self.selection)
        }
    }

    /// Whether (col, row) can be picked now: the round runs, the square lies
    /// on the board and on the active axis, and it is not empty.
    pub open spec fn valid_move(&self, col: usize, row: usize) -> bool {
        &&& self.outcome == GameOutcome::Running
        &&& col < 8
        &&& row < 8
        &&& self.selection.covers(col as int, row as int)
        &&& self.board.at(col as int, row as int).occupied()
    }

    /// Whether `next` is this state after the cell on (col, row) was picked,
    /// by the player if `is_player` holds and by the computer otherwise.
    ///
    /// The picker's tower takes the cell, the selection turns unless the
    /// cell was a banana, the square is cleared, the move is counted and a
    /// pending tip is dropped. The outcome is the verdict on what results,
    /// and a round that ends is counted in the statistics.
    pub open spec fn moved(&self, next: &GameState, col: usize, row: usize, is_player: bool) -> bool {
        let cell = self.board.at(col as int, row as int);
        &&& next.board@ == self.board@.update(slot(col as int, row as int), Cell::empty())
        &&& next.tower_player == if is_player {
            cell.lift(self.tower_player as int)
        } else {
            self.tower_player as int
        }
        &&& next.tower_computer == if is_player {
            self.tower_computer as int
        } else {
            cell.lift(self.tower_computer as int)
        }
        &&& next.selection == self.selection.turned(cell.kind, col, row)
        &&& next.moves_made == self.moves_made + 1
        &&& next.tip.is_none()
        &&& next.hovered == self.hovered
        &&& next.ai_level == self.ai_level
        &&& next.outcome == verdict(
            next.tower_player as int,
            next.tower_computer as int,
            next.board@,
            next.selection,
        )
        &&& next.statistics.counts() == self.statistics.recorded(next.outcome)
    }

    /// Whether the counters that a move may increment can still grow.
    pub open spec fn can_count(&self) -> bool {
        self.moves_made < u32::MAX && self.statistics.has_room()
    }

    /// Whether a round has just begun on this state: the towers are down,
    /// nothing was moved, no tip is pending and no square is hovered over.
    pub open spec fn fresh(&self) -> bool {
        &&& forall|i: int| 0 <= i < 64 ==> freshly_drawn(#[trigger] self.board@[i])
        &&& self.tower_player == 0
        &&& self.tower_computer == 0
        &&& self.outcome == GameOutcome::Running
        &&& self.moves_made == 0
        &&& self.tip.is_none()
        &&& self.hovered.is_none()
    }

    /// The position that the computer searches from when it is its turn.
    pub open spec fn computer_view(&self) -> Position {
        position_of(
            self.board@,
            self.selection,
            self.tower_computer as int,
            self.tower_player as int,
        )
    }

    /// The position that the player would search from on their own turn.
    pub open spec fn player_view(&self) -> Position {
        position_of(
            self.board@,
            self.selection,
            self.tower_player as int,
            self.tower_computer as int,
        )
    }

    /// A first round on a randomly drawn board, with the computer at level 2
    /// and empty statistics.
    pub fn new() -> (state: Self)
        ensures
            state.wf(),
            state.fresh(),
            state.ai_level == 2,
            state.statistics == Statistics::zero(),
    {
        let (board, selection) = Board::new_random();
        proof {
            assert(freshly_drawn(board@[slot(selection.square(0).0, selection.square(0).1)]));
            assert(axis_cell(board@, selection, 0).occupied());
        }
        Self {
            board,
            selection,
            tower_player: 0,
            tower_computer: 0,
            outcome: GameOutcome::Running,
            moves_made: 0,
            ai_level: 2,
            tip: None,
            hovered: None,
            statistics: Statistics::default(),
        }
    }

    /// Start a fresh round, keeping statistics and AI level.
    pub fn new_game(&mut self)
        ensures
            final(self).wf(),
            final(self).fresh(),
            final(self).ai_level == old(self).ai_level,
            final(self).statistics == old(self).statistics,
    {
        let (board, selection) = Board::new_random();
        proof {
            assert(freshly_drawn(board@[slot(selection.square(0).0, selection.square(0).1)]));
            assert(axis_cell(board@, selection, 0).occupied());
        }
        self.board = board;
        self.selection = selection;
        self.tower_player = 0;
        self.tower_computer = 0;
        self.outcome = GameOutcome::Running;
        self.moves_made = 0;
        self.tip = None;
        self.hovered = None;
    }

    /// Checks that the state is well formed, for callers that cannot prove it.
    pub fn is_well_formed(&self) -> (ok: bool)
        ensures
            ok == self.wf(),
    {
        let index = match self.selection {
            Selection::Column(c) => c,
            Selection::Row(r) => r,
        };
        if index >= BOARD_SIZE {
            return false;
        }
        if self.tower_player < 0 || self.tower_player > MAX_TOWER_HEIGHT {
            return false;
        }
        if self.tower_computer < 0 || self.tower_computer > MAX_TOWER_HEIGHT {
            return false;
        }
        if self.outcome != GameOutcome::Running {
            return true;
        }
        self.tower_player < MAX_TOWER_HEIGHT && self.tower_computer < MAX_TOWER_HEIGHT
            && !self.board.selection_exhausted(self.selection)
    }

    /// Checks that the move counter and the statistics can still grow, for
    /// callers that cannot prove it.
    pub fn has_room_to_count(&self) -> (ok: bool)
        ensures
            ok == self.can_count(),
    {
        self.moves_made < u32::MAX && self.statistics.player_wins < u32::MAX
            && self.statistics.computer_wins < u32::MAX && self.statistics.draws < u32::MAX
    }

    /// Returns `true` if the cell at (col, row) is a valid target for the current selection.
    pub fn is_valid_move(&self, col: usize, row: usize) -> (valid: bool)
        ensures
            valid == self.valid_move(col, row),
    {
        if self.outcome != GameOutcome::Running {
            return false;
        }
        if col >= BOARD_SIZE || row >= BOARD_SIZE {
            return false;
        }
        let in_selection = match self.selection {
            Selection::Column(c) => col == c,
            Selection::Row(r) => row == r,
        };
        in_selection && self.board.get(col, row).kind != CellKind::Empty
    }

    /// Execute a move at (col, row). `is_player` indicates whether the human is acting.
    /// Does not trigger the computer's turn: the caller is responsible.
    ///
    /// A move that is not valid changes nothing and counts nothing. A valid
    /// move needs room in the counters it may raise.
    pub fn make_move(&mut self, col: usize, row: usize, is_player: bool) -> (result: MoveResult)
        requires
            old(self).wf(),
            old(self).valid_move(col, row) ==> old(self).can_count(),
        ensures
            final(self).wf(),
            !old(self).valid_move(col, row) ==> result == MoveResult::Invalid && *final(self)
                == *old(self),
            old(self).valid_move(col, row) ==> old(self).moved(final(self), col, row, is_player),
            old(self).valid_move(col, row) ==> result == if final(self).outcome
                == GameOutcome::Running {
                MoveResult::Continue
            } else {
                MoveResult::GameOver
            },
    {
        if !self.is_valid_move(col, row) {
            return MoveResult::Invalid;
        }
        let cell = *self.board.get(col, row);

        // Apply tower height change
        let tower = if is_player {
            self.tower_player
        } else {
            self.tower_computer
        };
        let lifted = match cell.kind {
            CellKind::Stone => {
                if tower + cell.value + 1 <= MAX_TOWER_HEIGHT {
                    tower + cell.value + 1
                } else {
                    MAX_TOWER_HEIGHT
                }
            },
            CellKind::Bomb => {
                if tower - cell.value - 1 >= 0 {
                    tower - cell.value - 1
                } else {
                    0
                }
            },
            _ => tower,
        };
        if is_player {
            self.tower_player = lifted;
        } else {
            self.tower_computer = lifted;
        }

        // Switch selection axis (banana keeps the same axis)
        if cell.kind != CellKind::Banana {
            self.selection = match self.selection {
                Selection::Row(_) => Selection::Column(col),
                Selection::Column(_) => Selection::Row(row),
            };
        }

        self.board.clear(col, row);
        self.moves_made += 1;
        self.tip = None;

        // Check win conditions
        if self.tower_player >= MAX_TOWER_HEIGHT {
            self.finish(GameOutcome::Won);
            return MoveResult::GameOver;
        }
        if self.tower_computer >= MAX_TOWER_HEIGHT {
            self.finish(GameOutcome::Lost);
            return MoveResult::GameOver;
        }
        // Check if all cells in the active selection are empty (no moves left)

        if self.board.selection_exhausted(self.selection) {
            let outcome = if self.tower_player > self.tower_computer {
                GameOutcome::Won
            } else if self.tower_player < self.tower_computer {
                GameOutcome::Lost
            } else {
                GameOutcome::Drawn
            };
            self.finish(outcome);
            return MoveResult::GameOver;
        }
        MoveResult::Continue
    }

    /// Let the AI pick a move. Returns the chosen (col, row): what the
    /// configured level owes on the position as the computer sees it.
    pub fn compute_ai_move(&self) -> (square: (usize, usize))
        requires
            self.wf(),
        ensures
            exists|i: int|
                #![trigger self.selection.square(i)]
                0 <= i < 8 && square.0 == self.selection.square(i).0 && square.1
                    == self.selection.square(i).1 && level_move(
                    self.ai_level as int,
                    self.computer_view(),
                    i,
                ),
    {
        calculate_move(
            self.ai_level,
            &self.board,
            self.selection,
            self.tower_computer,
            self.tower_player,
        )
    }

    /// Let the AI pick and immediately execute a move. Nothing happens once
    /// the round is over.
    pub fn computer_turn(&mut self)
        requires
            old(self).wf(),
            old(self).outcome == GameOutcome::Running ==> old(self).can_count(),
        ensures
            final(self).wf(),
            old(self).outcome != GameOutcome::Running ==> *final(self) == *old(self),
            old(self).outcome == GameOutcome::Running ==> exists|i: int|
                #![trigger old(self).selection.square(i)]
                0 <= i < 8 && level_move(old(self).ai_level as int, old(self).computer_view(), i)
                    && old(self).moved(
                    final(self),
                    old(self).selection.square(i).0 as usize,
                    old(self).selection.square(i).1 as usize,
                    false,
                ),
    {
        if self.outcome != GameOutcome::Running {
            return ;
        }
        let (col, row) = self.compute_ai_move();
        proof {
            let i = choose|i: int|
                #![trigger self.selection.square(i)]
                0 <= i < 8 && col == self.selection.square(i).0 && row == self.selection.square(
                    i,
                ).1 && level_move(self.ai_level as int, self.computer_view(), i);
            level_move_is_legal(self.ai_level as int, self.computer_view(), i);
            assert(self.valid_move(col, row));
        }
        self.make_move(col, row, false);
    }

    /// Calculate and store a suggested move for the player: what the
    /// strongest level owes on the position as the player sees it. Nothing
    /// happens once the round is over.
    pub fn get_tip(&mut self)
        requires
            old(self).wf(),
        ensures
            final(self).wf(),
            old(self).outcome != GameOutcome::Running ==> *final(self) == *old(self),
            old(self).outcome == GameOutcome::Running ==> *final(self) == (GameState {
                tip: final(self).tip,
                ..*old(self)
            }),
            old(self).outcome == GameOutcome::Running ==> exists|i: int|
                #![trigger old(self).selection.square(i)]
                0 <= i < 8 && level_move(MAX_AI_LEVEL as int, old(self).player_view(), i)
                    && final(self).tip == Some(
                    (
                        old(self).selection.square(i).0 as usize,
                        old(self).selection.square(i).1 as usize,
                    ),
                ),
    {
        if self.outcome != GameOutcome::Running {
            return ;
        }
        let (col, row) = calculate_move(
            MAX_AI_LEVEL,
            &self.board,
            self.selection,
            self.tower_player,
            self.tower_computer,
        );
        self.tip = Some((col, row));
    }

    /// Player resigns the current game: a running round is lost and counted
    /// as a win of the computer. A round that is over stays as it ended.
    pub fn surrender(&mut self)
        requires
            old(self).outcome == GameOutcome::Running ==> old(self).statistics.can_record(
                GameOutcome::Lost,
            ),
        ensures
            old(self).outcome != GameOutcome::Running ==> *final(self) == *old(self),
            old(self).outcome == GameOutcome::Running ==> {
                &&& final(self).outcome == GameOutcome::Lost
                &&& final(self).statistics.counts() == old(self).statistics.recorded(
                    GameOutcome::Lost,
                )
                &&& final(self).board == old(self).board
                &&& final(self).selection == old(self).selection
                &&& final(self).tower_player == old(self).tower_player
                &&& final(self).tower_computer == old(self).tower_computer
                &&& final(self).moves_made == old(self).moves_made
                &&& final(self).ai_level == old(self).ai_level
                &&& final(self).tip == old(self).tip
                &&& final(self).hovered == old(self).hovered
            },
            old(self).wf() ==> final(self).wf(),
    {
        if self.outcome != GameOutcome::Running {
            return ;
        }
        self.finish(GameOutcome::Lost);
    }

    /// Update the hover position (for highlighting): a square on the board
    /// and on the active axis is remembered, any other forgets the last one.
    pub fn update_hover(&mut self, col: usize, row: usize)
        ensures
            *final(self) == (GameState {
                hovered: if col < 8 && row < 8 && old(self).selection.covers(
                    col as int,
                    row as int,
                ) {
                    Some((col, row))
                } else {
                    None
                },
                ..*old(self)
            }),
    {
        if col >= BOARD_SIZE || row >= BOARD_SIZE {
            self.hovered = None;
            return ;
        }
        let valid = match self.selection {
            Selection::Column(c) => col == c,
            Selection::Row(r) => row == r,
        };
        self.hovered = if valid {
            Some((col, row))
        } else {
            None
        };
    }

    /// Forget the hover position.
    pub fn clear_hover(&mut self)
        ensures
            *final(self) == (GameState { hovered: None, ..*old(self) }),
    {
        self.hovered = None;
    }

    /// Ends the round with `outcome` and counts it in the statistics.
    fn finish(&mut self, outcome: GameOutcome)
        requires
            old(self).statistics.can_record(outcome),
        ensures
            final(self).outcome == outcome,
            final(self).statistics.counts() == old(self).statistics.recorded(outcome),
            final(self).board == old(self).board,
            final(self).selection == old(self).selection,
            final(self).tower_player == old(self).tower_player,
            final(self).tower_computer == old(self).tower_computer,
            final(self).moves_made == old(self).moves_made,
            final(self).ai_level == old(self).ai_level,
            final(self).tip == old(self).tip,
            final(self).hovered == old(self).hovered,
    {
        self.outcome = outcome;
        self.statistics.record(outcome);
    }
}

} // verus!
