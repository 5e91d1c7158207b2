//! The mathematical model of the search: positions, the value of a cell, the
//! static evaluation and the value that a full search without pruning gives.

use vstd::prelude::*;
use crate::game::field::{axis_cell, axis_empty, slot};
use crate::game::types::{Cell, CellKind, Selection};

verus! {

/// A position as the search sees it: the 64 cells column by column, the
/// active axis, and the two towers from the computer's point of view.
pub struct Position {
    pub cells: Seq<Cell>,
    pub selection: Selection,
    pub tower_me: int,
    pub tower_opp: int,
}

impl Position {
    /// A position is well formed when its board, selection and towers are.
    pub open spec fn wf(&self) -> bool {
        &&& self.cells.len() == 64
        &&& forall|i: int| 0 <= i < 64 ==> (#[trigger] self.cells[i]).wf()
        &&& self.selection.wf()
        &&& 0 <= self.tower_me <= 20
        &&& 0 <= self.tower_opp <= 20
    }

    /// The cell at position `idx` of the active axis.
    pub open spec fn on_axis(&self, idx: int) -> Cell {
        axis_cell(self.cells, self.selection, idx)
    }

    /// Whether nothing is left to pick on the active axis.
    pub open spec fn exhausted(&self) -> bool {
        axis_empty(self.cells, self.selection)
    }

    /// The position after the square (col, row) was picked, by the computer
    /// if `maximizer` holds and by its opponent otherwise.
    pub open spec fn pick(&self, col: usize, row: usize, maximizer: bool) -> Position {
        let cell = self.cells[slot(col as int, row as int)];
        Position {
            cells: self.cells.update(slot(col as int, row as int), Cell::empty()),
            selection: self.selection.turned(cell.kind, col, row),
            tower_me: if maximizer {
                cell.lift(self.tower_me)
            } else {
                self.tower_me
            },
            tower_opp: if maximizer {
                self.tower_opp
            } else {
                cell.lift(self.tower_opp)
            },
        }
    }

    /// The position after the cell at `idx` of the active axis was picked.
    pub open spec fn play(&self, idx: int, maximizer: bool) -> Position {
        self.pick(
            self.selection.square(idx).0 as usize,
            self.selection.square(idx).1 as usize,
            maximizer,
        )
    }
}

/// The position that the computer searches from: the board as it stands,
/// the active axis, its own tower and its opponent's.
pub open spec fn position_of(
    cells: Seq<Cell>,
    selection: Selection,
    tower_self: int,
    tower_opponent: int,
) -> Position {
    Position { cells, selection, tower_me: tower_self, tower_opp: tower_opponent }
}

/// The immediate value of picking a cell: ten per row gained or lost, one for
/// a banana, nothing for an empty square.
pub open spec fn worth(cell: Cell) -> int {
    match cell.kind {
        CellKind::Empty => 0,
        CellKind::Stone => (cell.value + 1) * 10,
        CellKind::Bomb => -(cell.value + 1) * 10,
        CellKind::Banana => 1,
    }
}

/// Sum of the worth of the first `n` cells of the active axis.
pub open spec fn axis_worth(p: Position, n: int) -> int
    decreases n,
{
    if n <= 0 {
        0
    } else {
        axis_worth(p, n - 1) + worth(p.on_axis(n - 1))
    }
}

/// Number of occupied cells among the first `n` of the active axis.
pub open spec fn axis_count(p: Position, n: int) -> int
    decreases n,
{
    if n <= 0 {
        0
    } else {
        axis_count(p, n - 1) + if p.on_axis(n - 1).occupied() {
            1int
        } else {
            0int
        }
    }
}

/// Sum of the worth of the first `n` cells of the board.
pub open spec fn board_worth(cells: Seq<Cell>, n: int) -> int
    decreases n,
{
    if n <= 0 {
        0
    } else {
        board_worth(cells, n - 1) + worth(cells[n - 1])
    }
}

/// Quotient of `a` by eight, rounded toward zero as machine division rounds.
pub open spec fn eighth(a: int) -> int {
    if a >= 0 {
        a / 8
    } else {
        -((-a) / 8)
    }
}

/// Static evaluation of a position that is not over: a hundred per row of
/// lead, eight times the worth of the active axis, less an eighth of the
/// worth of the whole board, plus five per cell that can be picked.
pub open spec fn heuristic(p: Position) -> int {
    (p.tower_me - p.tower_opp) * 100 + axis_worth(p, 8) * 8 - eighth(board_worth(p.cells, 64))
        + axis_count(p, 8) * 5
}

/// Value of a position whose active axis is exhausted: the higher tower wins.
pub open spec fn final_value(p: Position) -> int {
    if p.tower_me > p.tower_opp {
        5000
    } else if p.tower_me < p.tower_opp {
        -5000
    } else {
        0
    }
}

/// What the side to move starts from before it has looked at any reply.
pub open spec fn worst_for(maximizing: bool) -> int {
    if maximizing {
        i32::MIN as int
    } else {
        i32::MAX as int
    }
}

/// The better of two scores for the side to move.
pub open spec fn better(maximizing: bool, a: int, b: int) -> int {
    if maximizing {
        if a >= b {
            a
        } else {
            b
        }
    } else {
        if a <= b {
            a
        } else {
            b
        }
    }
}

/// The value of a position searched `depth` plies deep with every reply
/// looked at: the plain minimax value.
///
/// A tower at twenty decides at once, sooner wins counting more; an
/// exhausted axis compares the towers; at depth zero the static evaluation
/// stands; otherwise the side to move takes its best reply.
pub open spec fn search_value(p: Position, depth: int, maximizing: bool) -> int
    decreases depth, 9int,
{
    if p.tower_me >= 20 {
        10000 + depth
    } else if p.tower_opp >= 20 {
        -10000 - depth
    } else if p.exhausted() {
        final_value(p)
    } else if depth <= 0 {
        heuristic(p)
    } else {
        best_reply(p, depth, maximizing, 8)
    }
}

/// The best score for the side to move among the replies on the first `n`
/// cells of the active axis, each searched one ply less deep.
pub open spec fn best_reply(p: Position, depth: int, maximizing: bool, n: int) -> int
    decreases depth, n,
{
    if n <= 0 || n > 8 || depth <= 0 {
        worst_for(maximizing)
    } else if !p.on_axis(n - 1).occupied() {
        best_reply(p, depth, maximizing, n - 1)
    } else {
        better(
            maximizing,
            best_reply(p, depth, maximizing, n - 1),
            search_value(p.play(n - 1, maximizing), depth - 1, !maximizing),
        )
    }
}

/// The score that a search `depth` plies deep gives when it stops looking at
/// replies as soon as the window between `alpha` and `beta` has closed.
///
/// The maximizer raises `alpha` to each score it finds, the minimizer lowers
/// `beta`; once `alpha` has reached `beta` the replies that are left are
/// skipped. A side without any reply falls back on comparing the towers.
pub open spec fn pruned_value(
    p: Position,
    depth: int,
    alpha: int,
    beta: int,
    maximizing: bool,
) -> int
    decreases depth, 9int,
{
    if p.tower_me >= 20 {
        10000 + depth
    } else if p.tower_opp >= 20 {
        -10000 - depth
    } else if p.exhausted() {
        final_value(p)
    } else if depth <= 0 {
        heuristic(p)
    } else {
        let best = pruned_reply(p, depth, alpha, beta, maximizing, 0, worst_for(maximizing));
        if best == worst_for(maximizing) {
            final_value(p)
        } else {
            best
        }
    }
}

/// The best score that the pruned search ends with once it has reached the
/// cell at `from` of the active axis with `best` in hand and the window
/// between `alpha` and `beta` still open.
pub open spec fn pruned_reply(
    p: Position,
    depth: int,
    alpha: int,
    beta: int,
    maximizing: bool,
    from: int,
    best: int,
) -> int
    decreases depth, 8 - from,
{
    if from < 0 || from >= 8 || depth <= 0 {
        best
    } else if !p.on_axis(from).occupied() {
        pruned_reply(p, depth, alpha, beta, maximizing, from + 1, best)
    } else {
        let score = pruned_value(p.play(from, maximizing), depth - 1, alpha, beta, !maximizing);
        let best = better(maximizing, best, score);
        let alpha = if maximizing {
            better(true, alpha, score)
        } else {
            alpha
        };
        let beta = if maximizing {
            beta
        } else {
            better(false, beta, score)
        };
        if alpha >= beta {
            best
        } else {
            pruned_reply(p, depth, alpha, beta, maximizing, from + 1, best)
        }
    }
}

/// The first index in `order` whose cell on the active axis can be picked.
pub open spec fn first_open(cells: Seq<Cell>, selection: Selection, order: Seq<usize>) -> Option<
    usize,
>
    decreases order.len(),
{
    if order.len() == 0 {
        None
    } else if axis_cell(cells, selection, order[0] as int).occupied() {
        Some(order[0])
    } else {
        first_open(cells, selection, order.skip(1))
    }
}

/// Whether the cell at `idx` of the active axis can be picked and no cell of
/// the axis is worth more.
pub open spec fn greedy_choice(cells: Seq<Cell>, selection: Selection, idx: int) -> bool {
    &&& 0 <= idx < 8
    &&& axis_cell(cells, selection, idx).occupied()
    &&& forall|j: int|
        0 <= j < 8 && (#[trigger] axis_cell(cells, selection, j)).occupied() ==> worth(
            axis_cell(cells, selection, j),
        ) <= worth(axis_cell(cells, selection, idx))
}

/// Whether `list` holds, in ascending order and once each, exactly the
/// indices below eight that `chosen` accepts.
pub open spec fn lists_exactly(list: Seq<usize>, chosen: spec_fn(int) -> bool) -> bool {
    &&& forall|a: int, b: int| 0 <= a < b < list.len() ==> list[a] < list[b]
    &&& forall|k: int| 0 <= k < list.len() ==> 0 <= #[trigger] list[k] < 8 && chosen(list[k] as int)
    &&& forall|i: int| 0 <= i < 8 && #[trigger] chosen(i) ==> list.contains(i as usize)
}

/// Whether picking the cell at `idx` of the active axis takes the computer's
/// tower to twenty at once.
pub open spec fn wins_now(p: Position, idx: int) -> bool {
    &&& 0 <= idx < 8
    &&& p.on_axis(idx).occupied()
    &&& p.play(idx, true).tower_me >= 20
}

/// The score of the computer's pick at `idx` in a search `depth` plies deep:
/// the plain minimax value of the position it leaves to the opponent.
pub open spec fn root_score(p: Position, depth: int, idx: int) -> int {
    search_value(p.play(idx, true), depth - 1, false)
}

/// Whether the cell at `idx` of the active axis can be picked and no pick on
/// the axis scores more in a search `depth` plies deep.
pub open spec fn search_choice(p: Position, depth: int, idx: int) -> bool {
    &&& 0 <= idx < 8
    &&& p.on_axis(idx).occupied()
    &&& forall|j: int|
        0 <= j < 8 && (#[trigger] axis_cell(p.cells, p.selection, j)).occupied() ==> root_score(
            p,
            depth,
            j,
        )
            <= root_score(p, depth, idx)
}

/// Whether `idx` is the first cell of the active axis that wins at once.
pub open spec fn first_win(p: Position, idx: int) -> bool {
    &&& wins_now(p, idx)
    &&& forall|j: int| 0 <= j < idx ==> !wins_now(p, j)
}

/// What the search owes as its move at index `idx` of the active axis: the
/// first pick that wins at once where there is one; else a pick that scores
/// best `depth` plies deep; index 0 where nothing can be picked.
pub open spec fn search_move(p: Position, depth: int, idx: int) -> bool {
    if exists|j: int| wins_now(p, j) {
        first_win(p, idx)
    } else if p.exhausted() {
        idx == 0
    } else {
        search_choice(p, depth, idx)
    }
}

/// How many plies the search looks ahead at a level above the greedy one.
pub open spec fn depth_of_level(level: int) -> int {
    if level == 2 {
        2
    } else if level == 3 {
        4
    } else {
        8
    }
}

/// What a level owes as its move at index `idx` of the active axis.
///
/// Level 0 owes any cell that can be picked, level 1 a cell worth most,
/// every other level the move of a search two, four or eight plies deep.
/// Where nothing can be picked, levels 0 and 1 owe index 0 as well.
pub open spec fn level_move(level: int, p: Position, idx: int) -> bool {
    if level == 0 {
        0 <= idx < 8 && (p.on_axis(idx).occupied() || (idx == 0 && p.exhausted()))
    } else if level == 1 {
        greedy_choice(p.cells, p.selection, idx) || (idx == 0 && p.exhausted())
    } else {
        search_move(p, depth_of_level(level), idx)
    }
}

/// Largest magnitude of a score that a search `depth` plies deep can give.
pub open spec fn score_limit(depth: int) -> int {
    if depth >= 0 {
        10000 + depth
    } else {
        10000 - depth
    }
}

/// What a search with the window (`alpha`, `beta`) owes for a position of
/// plain minimax value `value`: the value itself where its answer falls
/// inside the window, an upper bound of the value where it falls at or below
/// `alpha`, a lower bound where it falls at or above `beta`.
pub open spec fn answers(score: int, value: int, alpha: int, beta: int) -> bool {
    &&& score <= alpha ==> value <= score
    &&& score >= beta ==> value >= score
    &&& alpha < score < beta ==> score == value
}

} // verus!
