//! The search itself: applying a move to a snapshot, the static evaluation
//! and minimax with alpha-beta pruning.

use vstd::prelude::*;
use crate::ai::model::{
    answers,
    axis_count,
    axis_worth,
    best_reply,
    better,
    board_worth,
    final_value,
    heuristic,
    pruned_reply,
    pruned_value,
    score_limit,
    search_value,
    worst_for,
    worth,
    Position,
};
use crate::game::field::{axis_cell, slot, Board, BOARD_SIZE};
use crate::game::types::{Cell, CellKind, Selection, MAX_TOWER_HEIGHT};

verus! {

/// A snapshot of the game that the search may change freely.
#[derive(Clone, Copy)]
pub struct SearchState {
    pub board: Board,
    pub selection: Selection,
    /// The computer's tower: the maximizer's.
    pub tower_me: i32,
    /// The opponent's tower: the minimizer's.
    pub tower_opp: i32,
}

impl View for SearchState {
    type V = Position;

    open spec fn view(&self) -> Position {
        Position {
            cells: self.board@,
            selection: self.selection,
            tower_me: self.tower_me as int,
            tower_opp: self.tower_opp as int,
        }
    }
}

impl SearchState {
    /// A snapshot is well formed when its selection names a row or column of
    /// the board and both towers stand between 0 and 20.
    pub open spec fn wf(&self) -> bool {
        &&& self.selection.wf()
        &&& 0 <= self.tower_me <= 20
        &&& 0 <= self.tower_opp <= 20
    }
}

/// Convert a selection and an index along it to (col, row) coordinates.
pub fn sel_coords(selection: Selection, idx: usize) -> (square: (usize, usize))
    ensures
        square.0 == selection.square(idx as int).0,
        square.1 == selection.square(idx as int).1,
{
    match selection {
        Selection::Row(r) => (idx, r),
        Selection::Column(c) => (c, idx),
    }
}

/// The immediate value of picking a cell. Positive is good for the picker.
pub fn cell_value(kind: CellKind, value: i32) -> (score: i32)
    requires
        0 <= value <= 3,
    ensures
        score == worth(Cell { kind, value }),
{
    match kind {
        CellKind::Empty => 0,
        CellKind::Stone => (value + 1) * 10,
        CellKind::Bomb => -(value + 1) * 10,
        CellKind::Banana => 1,
    }
}

/// The worth of a well-formed cell lies between -40 and 40, and an empty
/// cell is worth nothing.
pub proof fn worth_bounds(cell: Cell)
    requires
        cell.wf(),
    ensures
        -40 <= worth(cell) <= 40,
        !cell.occupied() ==> worth(cell) == 0,
{
}

/// Apply a move to a snapshot: the acting side's tower takes the cell, the
/// selection turns unless the cell was a banana, and the square is cleared.
pub fn apply_move_to(state: &mut SearchState, col: usize, row: usize, is_maximizer: bool)
    requires
        old(state).wf(),
        col < 8,
        row < 8,
    ensures
        final(state)@ == old(state)@.pick(col, row, is_maximizer),
        final(state).wf(),
{
    let cell = *state.board.get(col, row);

    let tower = if is_maximizer {
        state.tower_me
    } else {
        state.tower_opp
    };
    let lifted = match cell.kind {
        CellKind::Stone => {
            if tower + cell.value + 1 <= MAX_TOWER_HEIGHT {
                tower + cell.value + 1
            } else {
                MAX_TOWER_HEIGHT
            }
        },
        CellKind::Bomb => {
            if tower - cell.value - 1 >= 0 {
                tower - cell.value - 1
            } else {
                0
            }
        },
        _ => tower,
    };
    if is_maximizer {
        state.tower_me = lifted;
    } else {
        state.tower_opp = lifted;
    }

    // Switch selection (banana keeps same axis)
    if cell.kind != CellKind::Banana {
        state.selection = match state.selection {
            Selection::Row(_) => Selection::Column(col),
            Selection::Column(_) => Selection::Row(row),
        };
    }

    state.board.clear(col, row);
    proof {
        assert(final(state)@.cells =~= old(state)@.cells.update(
            slot(col as int, row as int),
            Cell::empty(),
        ));
    }
}

/// The worth of the first `n` cells of the active axis stays within forty
/// per cell, and their count within `n`.
pub proof fn axis_bounds(p: Position, n: int)
    requires
        p.wf(),
        0 <= n <= 8,
    ensures
        -40 * n <= axis_worth(p, n) <= 40 * n,
        0 <= axis_count(p, n) <= n,
    decreases n,
{
    if n > 0 {
        axis_bounds(p, n - 1);
        worth_bounds(p.on_axis(n - 1));
    }
}

/// The worth of the first `n` cells of the board stays within forty per cell.
pub proof fn board_bounds(cells: Seq<Cell>, n: int)
    requires
        cells.len() == 64,
        forall|i: int| 0 <= i < 64 ==> (#[trigger] cells[i]).wf(),
        0 <= n <= 64,
    ensures
        -40 * n <= board_worth(cells, n) <= 40 * n,
    decreases n,
{
    if n > 0 {
        board_bounds(cells, n - 1);
        worth_bounds(cells[n - 1]);
    }
}

/// The static evaluation of a well-formed position stays below the value of
/// any decided game.
pub proof fn heuristic_bounds(p: Position)
    requires
        p.wf(),
    ensures
        -4920 <= heuristic(p) <= 4920,
{
    axis_bounds(p, 8);
    board_bounds(p.cells, 64);
}

/// Heuristic evaluation of a position that is not over.
/// Positive is good for the computer, negative for its opponent.
pub fn evaluate(state: &SearchState) -> (score: i32)
    requires
        state.wf(),
    ensures
        score == heuristic(state@),
{
    proof {
        use_type_invariant(&state.board);
    }
    let tower_diff = (state.tower_me - state.tower_opp) * 100;

    // The moves open to the side that picks next.
    let mut axis_value = 0i32;
    let mut available_count = 0i32;
    for i in 0..BOARD_SIZE
        invariant
            state@.wf(),
            axis_value == axis_worth(state@, i as int),
            available_count == axis_count(state@, i as int),
    {
        proof {
            axis_bounds(state@, i as int);
            axis_bounds(state@, i + 1);
        }
        let (col, row) = sel_coords(state.selection, i);
        let cell = state.board.get(col, row);
        if cell.kind != CellKind::Empty {
            axis_value += cell_value(cell.kind, cell.value);
            available_count += 1;
        }
    }

    // What is left on the whole board.
    let mut board_value = 0i32;
    for col in 0..BOARD_SIZE
        invariant
            state@.wf(),
            board_value == board_worth(state@.cells, col * 8),
    {
        for row in 0..BOARD_SIZE
            invariant
                state@.wf(),
                col < 8,
                board_value == board_worth(state@.cells, col * 8 + row),
        {
            proof {
                board_bounds(state@.cells, col * 8 + row);
                board_bounds(state@.cells, col * 8 + row + 1);
            }
            let cell = state.board.get(col, row);
            if cell.kind != CellKind::Empty {
                let val = cell_value(cell.kind, cell.value);
                board_value += val;
            }
        }
    }

    proof {
        axis_bounds(state@, 8);
        board_bounds(state@.cells, 64);
    }
    let share = if board_value >= 0 {
        board_value / 8
    } else {
        -((-board_value) / 8)
    };
    tower_diff + axis_value * 8 - share + available_count * 5
}

/// Evaluate a position whose active axis is exhausted.
pub fn evaluate_final(state: &SearchState) -> (score: i32)
    ensures
        score == final_value(state@),
{
    if state.tower_me > state.tower_opp {
        5000
    } else if state.tower_me < state.tower_opp {
        -5000
    } else {
        0
    }
}

/// Deepest search, and most negative depth, whose scores fit the machine's
/// integers.
pub const MAX_SEARCH_DEPTH: i32 = 2147473647;

/// Picking a cell of the active axis of a well-formed position gives a
/// well-formed position.
pub proof fn play_keeps_wf(p: Position, idx: int, maximizer: bool)
    requires
        p.wf(),
        0 <= idx < 8,
    ensures
        p.play(idx, maximizer).wf(),
{
    let col = p.selection.square(idx).0;
    let row = p.selection.square(idx).1;
    let q = p.play(idx, maximizer);
    assert(p.cells[slot(col, row)].wf());
    assert forall|i: int| 0 <= i < 64 implies (#[trigger] q.cells[i]).wf() by {
        assert(p.cells[i].wf());
    }
}

/// The plain minimax value of a well-formed position stays within the limit
/// of its depth.
pub proof fn search_value_bounds(p: Position, depth: int, maximizing: bool)
    requires
        p.wf(),
    ensures
        -score_limit(depth) <= search_value(p, depth, maximizing) <= score_limit(depth),
    decreases depth, 9int,
{
    if p.tower_me >= 20 || p.tower_opp >= 20 || p.exhausted() {
    } else if depth <= 0 {
        heuristic_bounds(p);
    } else {
        best_reply_bounds(p, depth, maximizing, 8);
        let j = choose|j: int| 0 <= j < 8 && (#[trigger] axis_cell(p.cells, p.selection, j)).occupied();
        assert(p.on_axis(j).occupied());
    }
}

/// The best reply among the first `n` cells of the active axis is the
/// starting score where none of them can be picked, and stays within the
/// limit of the replies' depth otherwise.
pub proof fn best_reply_bounds(p: Position, depth: int, maximizing: bool, n: int)
    requires
        p.wf(),
        depth > 0,
        0 <= n <= 8,
    ensures
        (forall|j: int| 0 <= j < n ==> !(#[trigger] axis_cell(p.cells, p.selection, j)).occupied()) ==> best_reply(
            p,
            depth,
            maximizing,
            n,
        ) == worst_for(maximizing),
        (exists|j: int| 0 <= j < n && (#[trigger] axis_cell(p.cells, p.selection, j)).occupied()) ==> -score_limit(
            depth - 1,
        ) <= best_reply(p, depth, maximizing, n) <= score_limit(depth - 1),
    decreases depth, n,
{
    if n > 0 {
        best_reply_bounds(p, depth, maximizing, n - 1);
        if p.on_axis(n - 1).occupied() {
            play_keeps_wf(p, n - 1, maximizing);
            search_value_bounds(p.play(n - 1, maximizing), depth - 1, !maximizing);
        } else {
            if exists|j: int| 0 <= j < n && (#[trigger] axis_cell(p.cells, p.selection, j)).occupied() {
                let j = choose|j: int| 0 <= j < n && (#[trigger] axis_cell(p.cells, p.selection, j)).occupied();
                assert(0 <= j < n - 1 && p.on_axis(j).occupied());
            }
        }
    }
}

/// No reply on the first `n` cells of the active axis beats the best reply
/// among them: for the maximizer none scores more, for the minimizer none
/// scores less.
pub proof fn best_reply_dominates(p: Position, depth: int, maximizing: bool, n: int, j: int)
    requires
        depth > 0,
        0 <= j < n <= 8,
        p.on_axis(j).occupied(),
    ensures
        maximizing ==> best_reply(p, depth, maximizing, n) >= search_value(
            p.play(j, maximizing),
            depth - 1,
            !maximizing,
        ),
        !maximizing ==> best_reply(p, depth, maximizing, n) <= search_value(
            p.play(j, maximizing),
            depth - 1,
            !maximizing,
        ),
    decreases n,
{
    if j < n - 1 {
        best_reply_dominates(p, depth, maximizing, n - 1, j);
    }
}

/// Pruning changes nothing that matters: the pruned search answers for the
/// plain minimax value of the position. Its score is that value where it
/// falls inside the window, an upper bound of it where it falls at or below
/// `alpha`, a lower bound where it falls at or above `beta`; and it stays
/// within the limit of the depth.
pub proof fn pruning_keeps_value(p: Position, depth: int, alpha: int, beta: int, maximizing: bool)
    requires
        p.wf(),
        i32::MIN <= alpha < beta <= i32::MAX,
        score_limit(depth) <= i32::MAX,
    ensures
        answers(
            pruned_value(p, depth, alpha, beta, maximizing),
            search_value(p, depth, maximizing),
            alpha,
            beta,
        ),
        -score_limit(depth) <= pruned_value(p, depth, alpha, beta, maximizing) <= score_limit(
            depth,
        ),
    decreases depth, 9int,
{
    if p.tower_me >= 20 || p.tower_opp >= 20 || p.exhausted() {
    } else if depth <= 0 {
        heuristic_bounds(p);
    } else {
        pruned_reply_answers(
            p,
            depth,
            alpha,
            beta,
            alpha,
            beta,
            maximizing,
            0,
            worst_for(maximizing),
        );
        let j = choose|j: int| 0 <= j < 8 && (#[trigger] axis_cell(p.cells, p.selection, j)).occupied();
        assert(axis_cell(p.cells, p.selection, j).occupied());
    }
}

/// With the widest window the pruned search gives the plain minimax value.
pub proof fn widest_window_is_exact(p: Position, depth: int, maximizing: bool)
    requires
        p.wf(),
        score_limit(depth) <= i32::MAX,
    ensures
        pruned_value(p, depth, i32::MIN as int, i32::MAX as int, maximizing) == search_value(
            p,
            depth,
            maximizing,
        ),
{
    pruning_keeps_value(p, depth, i32::MIN as int, i32::MAX as int, maximizing);
    search_value_bounds(p, depth, maximizing);
}

/// What the pruned search has in hand when it reaches the cell at `from`:
/// for the side to move, `best` is the best score seen so far, the window
/// has been narrowed by it, and `best` stands for the plain best reply among
/// the cells before `from` as far as the window started with can tell.
pub open spec fn in_hand(
    p: Position,
    depth: int,
    alpha0: int,
    beta0: int,
    alpha: int,
    beta: int,
    maximizing: bool,
    from: int,
    best: int,
) -> bool {
    &&& alpha < beta
    &&& best == worst_for(maximizing) || -score_limit(depth - 1) <= best <= score_limit(depth - 1)
    &&& (forall|j: int|
        0 <= j < from ==> !(#[trigger] axis_cell(p.cells, p.selection, j)).occupied()) || best
        != worst_for(maximizing)
    &&& if maximizing {
        &&& beta == beta0
        &&& alpha == better(true, alpha0, best)
        &&& best <= alpha0 ==> best_reply(p, depth, true, from) <= best
        &&& best > alpha0 ==> best_reply(p, depth, true, from) == best
    } else {
        &&& alpha == alpha0
        &&& beta == better(false, beta0, best)
        &&& best >= beta0 ==> best_reply(p, depth, false, from) >= best
        &&& best < beta0 ==> best_reply(p, depth, false, from) == best
    }
}

/// From whatever the pruned search has in hand at the cell at `from`, it
/// ends with a score that answers for the plain best reply on the whole
/// axis, within the window it started with.
pub proof fn pruned_reply_answers(
    p: Position,
    depth: int,
    alpha0: int,
    beta0: int,
    alpha: int,
    beta: int,
    maximizing: bool,
    from: int,
    best: int,
)
    requires
        p.wf(),
        depth > 0,
        0 <= from <= 8,
        i32::MIN <= alpha0 < beta0 <= i32::MAX,
        score_limit(depth) <= i32::MAX,
        in_hand(p, depth, alpha0, beta0, alpha, beta, maximizing, from, best),
    ensures
        answers(
            pruned_reply(p, depth, alpha, beta, maximizing, from, best),
            best_reply(p, depth, maximizing, 8),
            alpha0,
            beta0,
        ),
        pruned_reply(p, depth, alpha, beta, maximizing, from, best) == worst_for(maximizing)
            || -score_limit(depth - 1) <= pruned_reply(
            p,
            depth,
            alpha,
            beta,
            maximizing,
            from,
            best,
        ) <= score_limit(depth - 1),
        (forall|j: int| 0 <= j < 8 ==> !(#[trigger] axis_cell(p.cells, p.selection, j)).occupied())
            || pruned_reply(p, depth, alpha, beta, maximizing, from, best) != worst_for(
            maximizing,
        ),
    decreases depth, 8 - from,
{
    if from >= 8 {
    } else if !p.on_axis(from).occupied() {
        assert(in_hand(p, depth, alpha0, beta0, alpha, beta, maximizing, from + 1, best));
        pruned_reply_answers(p, depth, alpha0, beta0, alpha, beta, maximizing, from + 1, best);
    } else {
        let child = p.play(from, maximizing);
        play_keeps_wf(p, from, maximizing);
        pruning_keeps_value(child, depth - 1, alpha, beta, !maximizing);
        let score = pruned_value(child, depth - 1, alpha, beta, !maximizing);
        let best2 = better(maximizing, best, score);
        let alpha2 = if maximizing {
            better(true, alpha, score)
        } else {
            alpha
        };
        let beta2 = if maximizing {
            beta
        } else {
            better(false, beta, score)
        };
        if alpha2 >= beta2 {
            best_reply_dominates(p, depth, maximizing, 8, from);
        } else {
            assert(in_hand(p, depth, alpha0, beta0, alpha2, beta2, maximizing, from + 1, best2));
            pruned_reply_answers(
                p,
                depth,
                alpha0,
                beta0,
                alpha2,
                beta2,
                maximizing,
                from + 1,
                best2,
            );
        }
    }
}

/// Minimax with alpha-beta pruning.
/// `maximizing` means that the computer picks next, otherwise its opponent.
///
/// The score is that of the pruned search and stays within the limit of the
/// depth. Where the window is not empty, the score answers for the plain
/// minimax value of the position: it is that value where it falls inside the
/// window, and a bound of it on the side on which it falls outside. With the
/// widest window the score is the plain minimax value: pruning changes
/// nothing.
pub fn minimax(state: &SearchState, depth: i32, alpha: i32, beta: i32, maximizing: bool) -> (score:
    i32)
    requires
        state.wf(),
        -MAX_SEARCH_DEPTH <= depth <= MAX_SEARCH_DEPTH,
    ensures
        score == pruned_value(state@, depth as int, alpha as int, beta as int, maximizing),
        -score_limit(depth as int) <= score <= score_limit(depth as int),
        alpha < beta ==> answers(
            score as int,
            search_value(state@, depth as int, maximizing),
            alpha as int,
            beta as int,
        ),
        alpha == i32::MIN && beta == i32::MAX ==> score == search_value(
            state@,
            depth as int,
            maximizing,
        ),
    decreases depth,
{
    proof {
        use_type_invariant(&state.board);
        if alpha < beta {
            pruning_keeps_value(state@, depth as int, alpha as int, beta as int, maximizing);
        }
        if alpha == i32::MIN && beta == i32::MAX {
            widest_window_is_exact(state@, depth as int, maximizing);
        }
    }
    // Terminal conditions
    if state.tower_me >= MAX_TOWER_HEIGHT {
        return 10000 + depth;  // the computer wins, the sooner the better
    }
    if state.tower_opp >= MAX_TOWER_HEIGHT {
        return -10000 - depth;  // the opponent wins
    }
    // Nothing left to pick on the active axis
    if state.board.selection_exhausted(state.selection) {
        return evaluate_final(state);
    }
    if depth <= 0 {
        proof {
            heuristic_bounds(state@);
        }
        return evaluate(state);
    }
    let ghost p = state@;
    let ghost d = depth as int;
    let ghost whole = pruned_reply(
        p,
        d,
        alpha as int,
        beta as int,
        maximizing,
        0,
        worst_for(maximizing),
    );
    let mut alpha = alpha;
    let mut beta = beta;

    if maximizing {
        let mut best = i32::MIN;
        let mut i: usize = 0;
        while i < BOARD_SIZE
            invariant_except_break
                whole == pruned_reply(p, d, alpha as int, beta as int, true, i as int, best as int),
            invariant
                p == state@,
                p.wf(),
                !p.exhausted(),
                d == depth,
                0 < depth <= MAX_SEARCH_DEPTH,
                i <= 8,
                best == i32::MIN || -score_limit(d - 1) <= best <= score_limit(d - 1),
                (forall|j: int|
                    0 <= j < i ==> !(#[trigger] axis_cell(p.cells, p.selection, j)).occupied())
                    || best != i32::MIN,
            ensures
                best == whole,
                best != i32::MIN,
                -score_limit(d - 1) <= best <= score_limit(d - 1),
            decreases 8 - i,
        {
            let (col, row) = sel_coords(state.selection, i);
            let cell = *state.board.get(col, row);
            if cell.kind != CellKind::Empty {
                let mut child = *state;
                apply_move_to(&mut child, col, row, true);
                let score = minimax(&child, depth - 1, alpha, beta, false);
                proof {
                    assert(p.on_axis(i as int).occupied());
                    assert(child@ == p.play(i as int, true));
                }
                if score > best {
                    best = score;
                }
                if score > alpha {
                    alpha = score;
                }
                if alpha >= beta {
                    break ;  // beta cutoff
                }
            }
            i += 1;
        }
        if best == i32::MIN {
            evaluate_final(state)  // no moves available
        } else {
            best
        }
    } else {
        let mut best = i32::MAX;
        let mut i: usize = 0;
        while i < BOARD_SIZE
            invariant_except_break
                whole == pruned_reply(p, d, alpha as int, beta as int, false, i as int, best as int),
            invariant
                p == state@,
                p.wf(),
                !p.exhausted(),
                d == depth,
                0 < depth <= MAX_SEARCH_DEPTH,
                i <= 8,
                best == i32::MAX || -score_limit(d - 1) <= best <= score_limit(d - 1),
                (forall|j: int|
                    0 <= j < i ==> !(#[trigger] axis_cell(p.cells, p.selection, j)).occupied())
                    || best != i32::MAX,
            ensures
                best == whole,
                best != i32::MAX,
                -score_limit(d - 1) <= best <= score_limit(d - 1),
            decreases 8 - i,
        {
            let (col, row) = sel_coords(state.selection, i);
            let cell = *state.board.get(col, row);
            if cell.kind != CellKind::Empty {
                let mut child = *state;
                apply_move_to(&mut child, col, row, false);
                let score = minimax(&child, depth - 1, alpha, beta, true);
                proof {
                    assert(p.on_axis(i as int).occupied());
                    assert(child@ == p.play(i as int, false));
                }
                if score < best {
                    best = score;
                }
                if score < beta {
                    beta = score;
                }
                if alpha >= beta {
                    break ;  // alpha cutoff
                }
            }
            i += 1;
        }
        if best == i32::MAX {
            evaluate_final(state)
        } else {
            best
        }
    }
}

} // verus!
