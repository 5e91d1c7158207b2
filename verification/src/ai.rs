//! The computer opponent: random, greedy and minimax move selection.

pub mod model;
pub mod search;

use vstd::prelude::*;
use crate::ai::model::{
    first_open,
    first_win,
    greedy_choice,
    level_move,
    lists_exactly,
    position_of,
    root_score,
    search_choice,
    search_move,
    wins_now,
    worth,
    Position,
};
use crate::ai::search::{
    apply_move_to,
    cell_value,
    minimax,
    sel_coords,
    worth_bounds,
    SearchState,
    MAX_SEARCH_DEPTH,
};
use crate::chance::{pick_one, shuffle};
use crate::game::field::{axis_cell, axis_empty, Board, BOARD_SIZE};
use crate::game::types::{Cell, CellKind, Selection, MAX_TOWER_HEIGHT};

verus! {

/// 5 AI levels: 0 (random) .. 4 (deep minimax).
pub const MAX_AI_LEVEL: i32 = 4;

/// The square that a choice among candidates stands for: the chosen index
/// along the selection, or index 0 where nothing was chosen.
pub fn chosen_square(selection: Selection, choice: Option<usize>) -> (square: (usize, usize))
    ensures
        square.0 == selection.square(
            match choice {
                Some(idx) => idx as int,
                None => 0,
            },
        ).0,
        square.1 == selection.square(
            match choice {
                Some(idx) => idx as int,
                None => 0,
            },
        ).1,
{
    match choice {
        Some(idx) => sel_coords(selection, idx),
        None => sel_coords(selection, 0),
    }
}

/// Walks the selection in the given order and returns the first square that
/// can be picked, or the square at index 0 where there is none.
pub fn first_available(board: &Board, selection: Selection, order: &Vec<usize>) -> (square: (
    usize,
    usize,
))
    requires
        selection.wf(),
        forall|k: int| 0 <= k < order@.len() ==> #[trigger] order@[k] < 8,
    ensures
        square.0 == selection.square(
            match first_open(board@, selection, order@) {
                Some(idx) => idx as int,
                None => 0,
            },
        ).0,
        square.1 == selection.square(
            match first_open(board@, selection, order@) {
                Some(idx) => idx as int,
                None => 0,
            },
        ).1,
{
    assert(order@.skip(0) =~= order@);
    for k in 0..order.len()
        invariant
            selection.wf(),
            forall|k: int| 0 <= k < order@.len() ==> #[trigger] order@[k] < 8,
            first_open(board@, selection, order@) == first_open(
                board@,
                selection,
                order@.skip(k as int),
            ),
    {
        let i = order[k];
        let (col, row) = sel_coords(selection, i);
        proof {
            let rest = order@.skip(k as int);
            assert(rest[0] == order@[k as int]);
            assert(rest.skip(1) =~= order@.skip(k + 1));
        }
        if board.get(col, row).kind != CellKind::Empty {
            return (col, row);
        }
    }
    proof {
        assert(order@.skip(order@.len() as int).len() == 0);
    }
    sel_coords(selection, 0)
}

/// Where some cell along the selection can be picked, the first such cell in
/// `order` is found, provided that `order` holds every index below eight.
pub proof fn first_open_finds(cells: Seq<Cell>, selection: Selection, order: Seq<usize>)
    requires
        !axis_empty(cells, selection),
        forall|i: usize| 0 <= i < 8 ==> order.contains(i),
    ensures
        first_open(cells, selection, order).is_some(),
{
    let i = choose|i: int| 0 <= i < 8 && (#[trigger] axis_cell(cells, selection, i)).occupied();
    first_open_hits(cells, selection, order, i as usize);
}

/// Where `order` holds the index of a cell that can be picked, the walk
/// through `order` ends on a cell that can be picked.
pub proof fn first_open_hits(cells: Seq<Cell>, selection: Selection, order: Seq<usize>, i: usize)
    requires
        order.contains(i),
        axis_cell(cells, selection, i as int).occupied(),
    ensures
        first_open(cells, selection, order).is_some(),
    decreases order.len(),
{
    if order.len() > 0 && !axis_cell(cells, selection, order[0] as int).occupied() {
        let k = choose|k: int| 0 <= k < order.len() && order[k] == i;
        assert(order.skip(1)[k - 1] == i);
        first_open_hits(cells, selection, order.skip(1), i);
    }
}

/// Whatever the walk through `order` finds is an index of `order` whose cell
/// can be picked.
pub proof fn first_open_is_open(cells: Seq<Cell>, selection: Selection, order: Seq<usize>)
    ensures
        match first_open(cells, selection, order) {
            Some(idx) => order.contains(idx) && axis_cell(cells, selection, idx as int).occupied(),
            None => true,
        },
    decreases order.len(),
{
    if order.len() > 0 {
        if axis_cell(cells, selection, order[0] as int).occupied() {
            assert(order[0] == order[0]);
        } else {
            first_open_is_open(cells, selection, order.skip(1));
            match first_open(cells, selection, order.skip(1)) {
                Some(idx) => {
                    let k = choose|k: int| 0 <= k < order.skip(1).len() && order.skip(1)[k] == idx;
                    assert(order[k + 1] == idx);
                },
                None => {},
            }
        }
    }
}

/// Level 0: a cell of the selection chosen at random among those that can be
/// picked. Where none can, the square at index 0 comes back.
fn random_move(board: &Board, selection: Selection) -> (square: (usize, usize))
    requires
        selection.wf(),
    ensures
        exists|i: int|
            #![trigger selection.square(i)]
            0 <= i < 8 && square.0 == selection.square(i).0 && square.1 == selection.square(i).1
                && (axis_cell(board@, selection, i).occupied() || (i == 0 && axis_empty(
                board@,
                selection,
            ))),
{
    let mut candidates: Vec<usize> = Vec::new();
    for i in 0..BOARD_SIZE
        invariant
            candidates@.len() == i,
            forall|k: int| 0 <= k < i ==> candidates@[k] == k,
    {
        candidates.push(i);
    }
    let ghost ordered = candidates@;
    shuffle(&mut candidates);
    proof {
        ordered.to_multiset_ensures();
        candidates@.to_multiset_ensures();
        assert forall|k: int| 0 <= k < candidates@.len() implies #[trigger] candidates@[k] < 8 by {
            let x = candidates@[k];
            assert(candidates@.contains(x));
            assert(candidates@.to_multiset().count(x) > 0);
            assert(ordered.to_multiset().count(x) > 0);
            assert(ordered.contains(x));
        }
        assert forall|i: usize| 0 <= i < 8 implies candidates@.contains(i) by {
            assert(ordered[i as int] == i);
            assert(ordered.contains(i));
            assert(ordered.to_multiset().count(i) > 0);
            assert(candidates@.to_multiset().count(i) > 0);
        }
        first_open_is_open(board@, selection, candidates@);
        if !axis_empty(board@, selection) {
            first_open_finds(board@, selection, candidates@);
        }
    }
    let square = first_available(board, selection, &candidates);
    proof {
        match first_open(board@, selection, candidates@) {
            Some(idx) => {
                assert(candidates@.contains(idx));
                assert(idx < 8);
                assert(square.0 == selection.square(idx as int).0);
            },
            None => {
                assert(square.0 == selection.square(0).0);
            },
        }
    }
    square
}

/// The cells of the selection that are worth most among those that can be
/// picked, by their index along the selection, in ascending order.
pub fn greedy_candidates(board: &Board, selection: Selection) -> (best_candidates: Vec<usize>)
    requires
        selection.wf(),
    ensures
        lists_exactly(best_candidates@, |i: int| greedy_choice(board@, selection, i)),
        best_candidates@.len() == 0 <==> axis_empty(board@, selection),
{
    let mut best_score = i32::MIN;
    let mut best_candidates: Vec<usize> = Vec::new();

    for i in 0..BOARD_SIZE
        invariant
            selection.wf(),
            forall|a: int, b: int|
                0 <= a < b < best_candidates@.len() ==> best_candidates@[a] < best_candidates@[b],
            forall|k: int|
                0 <= k < best_candidates@.len() ==> {
                    &&& 0 <= #[trigger] best_candidates@[k] < i
                    &&& axis_cell(board@, selection, best_candidates@[k] as int).occupied()
                    &&& worth(axis_cell(board@, selection, best_candidates@[k] as int))
                        == best_score
                },
            forall|j: int|
                0 <= j < i && (#[trigger] axis_cell(board@, selection, j)).occupied() ==> {
                    &&& worth(axis_cell(board@, selection, j)) <= best_score
                    &&& worth(axis_cell(board@, selection, j)) == best_score
                        ==> best_candidates@.contains(j as usize)
                    &&& best_candidates@.len() > 0
                },
            best_candidates@.len() == 0 ==> best_score == i32::MIN,
    {
        let (col, row) = sel_coords(selection, i);
        let cell = board.get(col, row);
        if cell.kind != CellKind::Empty {
            proof {
                worth_bounds(*cell);
            }
            let score = cell_value(cell.kind, cell.value);
            let ghost before = best_candidates@;
            if score > best_score {
                best_score = score;
                best_candidates.clear();
                best_candidates.push(i);
                assert(best_candidates@[0] == i);
                assert(best_candidates@.contains(i));
            } else if score == best_score {
                best_candidates.push(i);
                assert(best_candidates@[before.len() as int] == i);
                assert(best_candidates@.contains(i));
                assert forall|j: int|
                    0 <= j < i && (#[trigger] axis_cell(board@, selection, j)).occupied() && worth(
                        axis_cell(board@, selection, j),
                    ) == best_score implies best_candidates@.contains(j as usize) by {
                    let k = choose|k: int| 0 <= k < before.len() && before[k] == j as usize;
                    assert(best_candidates@[k] == j as usize);
                }
            }
        }
    }
    proof {
        if best_candidates@.len() > 0 {
            assert(axis_cell(board@, selection, best_candidates@[0] as int).occupied());
        }
    }
    best_candidates
}

/// Level 1: a cell of the selection chosen at random among those worth most.
/// Where none can be picked, the square at index 0 comes back.
fn greedy_move(board: &Board, selection: Selection) -> (square: (usize, usize))
    requires
        selection.wf(),
    ensures
        exists|i: int|
            #![trigger selection.square(i)]
            0 <= i < 8 && square.0 == selection.square(i).0 && square.1 == selection.square(i).1
                && (greedy_choice(board@, selection, i) || (i == 0 && axis_empty(
                board@,
                selection,
            ))),
{
    let best_candidates = greedy_candidates(board, selection);
    let choice = pick_one(&best_candidates);
    let square = chosen_square(selection, choice);
    proof {
        match choice {
            Some(idx) => {
                let k = choose|k: int|
                    0 <= k < best_candidates@.len() && best_candidates@[k] == idx;
                assert(0 <= best_candidates@[k] < 8);
                assert(greedy_choice(board@, selection, idx as int));
                assert(square.0 == selection.square(idx as int).0);
            },
            None => {
                assert(axis_empty(board@, selection));
                assert(square.0 == selection.square(0).0);
            },
        }
    }
    square
}

/// A search never passes over a pick that wins at once: where some pick on
/// the active axis takes the computer's tower to twenty, the move that a
/// search of any depth owes does so too.
pub proof fn forced_win_is_taken(p: Position, depth: int, idx: int, winning: int)
    requires
        wins_now(p, winning),
        search_move(p, depth, idx),
    ensures
        p.on_axis(idx).occupied(),
        p.play(idx, true).tower_me >= 20,
{
}

/// Whatever a level owes is a move that the rules allow, as long as some
/// cell of the active axis can be picked.
pub proof fn level_move_is_legal(level: int, p: Position, idx: int)
    requires
        level_move(level, p, idx),
        !p.exhausted(),
    ensures
        0 <= idx < 8,
        p.on_axis(idx).occupied(),
{
}

/// What the search finds at the root.
pub enum RootSearch {
    /// Picking the cell at this index of the selection wins at once.
    ForcedWin(usize),
    /// No pick wins at once; these indices along the selection score best.
    Best(Vec<usize>),
}

/// Searches every pick on the selection `depth` plies deep.
///
/// The first pick that takes the computer's tower to twenty ends the search.
/// Where there is none, the picks whose plain minimax score is highest come
/// back, by their index along the selection, in ascending order.
pub fn root_search(
    board: &Board,
    selection: Selection,
    tower_self: i32,
    tower_opponent: i32,
    depth: i32,
) -> (found: RootSearch)
    requires
        selection.wf(),
        0 <= tower_self <= 20,
        0 <= tower_opponent <= 20,
        -MAX_SEARCH_DEPTH < depth <= MAX_SEARCH_DEPTH,
    ensures
        match found {
            RootSearch::ForcedWin(idx) => first_win(
                position_of(board@, selection, tower_self as int, tower_opponent as int),
                idx as int,
            ),
            RootSearch::Best(list) => {
                &&& forall|j: int|
                    0 <= j < 8 ==> !#[trigger] wins_now(
                        position_of(board@, selection, tower_self as int, tower_opponent as int),
                        j,
                    )
                &&& lists_exactly(
                    list@,
                    |i: int|
                        search_choice(
                            position_of(
                                board@,
                                selection,
                                tower_self as int,
                                tower_opponent as int,
                            ),
                            depth as int,
                            i,
                        ),
                )
                &&& list@.len() == 0 <==> axis_empty(board@, selection)
            },
        },
{
    let state = SearchState {
        board: *board,
        selection,
        tower_me: tower_self,
        tower_opp: tower_opponent,
    };
    let ghost p = position_of(board@, selection, tower_self as int, tower_opponent as int);
    let ghost d = depth as int;
    proof {
        use_type_invariant(board);
    }
    assert(state@ == p);

    let mut best_score = i32::MIN;
    let mut best_candidates: Vec<usize> = Vec::new();

    // Evaluate all possible moves
    for i in 0..BOARD_SIZE
        invariant
            state@ == p,
            p == position_of(board@, selection, tower_self as int, tower_opponent as int),
            p.wf(),
            d == depth,
            -MAX_SEARCH_DEPTH < depth <= MAX_SEARCH_DEPTH,
            forall|j: int| 0 <= j < i ==> !#[trigger] wins_now(p, j),
            forall|a: int, b: int|
                0 <= a < b < best_candidates@.len() ==> best_candidates@[a] < best_candidates@[b],
            forall|k: int|
                0 <= k < best_candidates@.len() ==> {
                    &&& 0 <= #[trigger] best_candidates@[k] < i
                    &&& p.on_axis(best_candidates@[k] as int).occupied()
                    &&& root_score(p, d, best_candidates@[k] as int) == best_score
                },
            forall|j: int|
                0 <= j < i && (#[trigger] axis_cell(p.cells, p.selection, j)).occupied() ==> {
                    &&& root_score(p, d, j) <= best_score
                    &&& root_score(p, d, j) == best_score ==> best_candidates@.contains(j as usize)
                    &&& best_candidates@.len() > 0
                },
            best_candidates@.len() == 0 ==> best_score == i32::MIN,
    {
        let (col, row) = sel_coords(selection, i);
        let cell = *board.get(col, row);
        if cell.kind != CellKind::Empty {
            let mut child = state;
            apply_move_to(&mut child, col, row, true);  // the computer's own pick
            assert(child@ == p.play(i as int, true));

            // Check for immediate terminal state
            if child.tower_me >= MAX_TOWER_HEIGHT {
                return RootSearch::ForcedWin(i);  // instant win – take it
            }
            let score = minimax(&child, depth - 1, i32::MIN, i32::MAX, false);
            assert(score == root_score(p, d, i as int));

            let ghost before = best_candidates@;
            if score > best_score {
                best_score = score;
                best_candidates.clear();
                best_candidates.push(i);
                assert(best_candidates@[0] == i);
                assert(best_candidates@.contains(i));
            } else if score == best_score {
                best_candidates.push(i);
                assert(best_candidates@[before.len() as int] == i);
                assert(best_candidates@.contains(i));
                assert forall|j: int|
                    0 <= j < i && (#[trigger] axis_cell(p.cells, p.selection, j)).occupied() && root_score(p, d, j)
                        == best_score implies best_candidates@.contains(j as usize) by {
                    let k = choose|k: int| 0 <= k < before.len() && before[k] == j as usize;
                    assert(best_candidates@[k] == j as usize);
                }
            }
        }
    }
    proof {
        if best_candidates@.len() > 0 {
            assert(p.on_axis(best_candidates@[0] as int).occupied());
        }
    }
    RootSearch::Best(best_candidates)
}

/// Levels 2 to 4: a pick that wins at once where there is one, else a pick
/// chosen at random among those that score best in a search `depth` plies
/// deep. Where nothing can be picked, the square at index 0 comes back.
fn minimax_move(
    board: &Board,
    selection: Selection,
    tower_self: i32,
    tower_opponent: i32,
    depth: i32,
) -> (square: (usize, usize))
    requires
        selection.wf(),
        0 <= tower_self <= 20,
        0 <= tower_opponent <= 20,
        -MAX_SEARCH_DEPTH < depth <= MAX_SEARCH_DEPTH,
    ensures
        exists|i: int|
            #![trigger selection.square(i)]
            0 <= i < 8 && square.0 == selection.square(i).0 && square.1 == selection.square(i).1
                && search_move(
                position_of(board@, selection, tower_self as int, tower_opponent as int),
                depth as int,
                i,
            ),
{
    let ghost p = position_of(board@, selection, tower_self as int, tower_opponent as int);
    match root_search(board, selection, tower_self, tower_opponent, depth) {
        RootSearch::ForcedWin(idx) => {
            let square = sel_coords(selection, idx);
            assert(square.0 == selection.square(idx as int).0);
            square
        },
        RootSearch::Best(best_candidates) => {
            let choice = pick_one(&best_candidates);
            let square = chosen_square(selection, choice);
            proof {
                assert(!exists|j: int| wins_now(p, j));
                match choice {
                    Some(idx) => {
                        let k = choose|k: int|
                            0 <= k < best_candidates@.len() && best_candidates@[k] == idx;
                        assert(0 <= best_candidates@[k] < 8);
                        assert(search_choice(p, depth as int, idx as int));
                        assert(square.0 == selection.square(idx as int).0);
                    },
                    None => {
                        assert(axis_empty(board@, selection));
                        assert(square.0 == selection.square(0).0);
                    },
                }
            }
            square
        },
    }
}

/// Calculate the best move for the given AI level.
/// Returns (col, row).
pub fn calculate_move(
    level: i32,
    board: &Board,
    selection: Selection,
    tower_self: i32,
    tower_opponent: i32,
) -> (square: (usize, usize))
    requires
        selection.wf(),
        0 <= tower_self <= 20,
        0 <= tower_opponent <= 20,
    ensures
        exists|i: int|
            #![trigger selection.square(i)]
            0 <= i < 8 && square.0 == selection.square(i).0 && square.1 == selection.square(i).1
                && level_move(
                level as int,
                position_of(board@, selection, tower_self as int, tower_opponent as int),
                i,
            ),
{
    match level {
        0 => random_move(board, selection),
        1 => greedy_move(board, selection),
        2 => minimax_move(board, selection, tower_self, tower_opponent, 2),
        3 => minimax_move(board, selection, tower_self, tower_opponent, 4),
        4 => minimax_move(board, selection, tower_self, tower_opponent, 8),
        _ => minimax_move(board, selection, tower_self, tower_opponent, 8),
    }
}

} // verus!
