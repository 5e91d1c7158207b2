//! The 8×8 board.

use vstd::prelude::*;
use super::types::{Cell, CellKind, Selection, MAX_CELL_VALUE};
use crate::chance::{draw_below, draw_index, draw_ratio};

verus! {

/// Number of rows, and of columns, of the board.
pub const BOARD_SIZE: usize = 8;

/// Position of the square (col, row) in a column-major list of the board's cells.
pub open spec fn slot(col: int, row: int) -> int {
    col * 8 + row
}

/// The cell at position `idx` along `selection` in `cells`.
pub open spec fn axis_cell(cells: Seq<Cell>, selection: Selection, idx: int) -> Cell {
    cells[slot(selection.square(idx).0, selection.square(idx).1)]
}

/// Whether all eight cells along `selection` are empty in `cells`.
pub open spec fn axis_empty(cells: Seq<Cell>, selection: Selection) -> bool {
    forall|i: int| 0 <= i < 8 ==> !(#[trigger] axis_cell(cells, selection, i)).occupied()
}

/// What was drawn for one square: a draw below eleven for its kind and a
/// draw below eleven for its strength. The second counts only where the
/// first gives a stone or a bomb.
#[derive(Debug, Clone, Copy, PartialEq, Eq, Structural)]
pub struct CellDraw {
    pub kind: i32,
    pub value: i32,
}

/// The kind of cell that a draw from eleven equally likely outcomes stands for:
/// one banana, six stones, four bombs.
pub open spec fn kind_of_draw(draw: int) -> CellKind {
    if draw == 0 {
        CellKind::Banana
    } else if 1 <= draw <= 6 {
        CellKind::Stone
    } else {
        CellKind::Bomb
    }
}

/// The strength that a draw from eleven equally likely outcomes stands for:
/// one 3, two 2s, four 1s, four 0s.
pub open spec fn value_of_draw(draw: int) -> int {
    if draw == 0 {
        3
    } else if 1 <= draw <= 2 {
        2
    } else if 3 <= draw <= 6 {
        1
    } else {
        0
    }
}

/// The cell that the two draws for a square stand for.
pub open spec fn cell_of_draw(draw: CellDraw) -> Cell {
    Cell {
        kind: kind_of_draw(draw.kind as int),
        value: if kind_of_draw(draw.kind as int) == CellKind::Banana {
            0
        } else {
            value_of_draw(draw.value as int) as i32
        },
    }
}

/// The cells that 64 draws stand for, square by square.
pub open spec fn cells_of_draws(draws: Seq<CellDraw>) -> Seq<Cell> {
    Seq::new(64, |i: int| cell_of_draw(draws[i]))
}

/// The axis that a coin and a draw below eight stand for.
pub open spec fn selection_of_draw(row: bool, index: usize) -> Selection {
    if row {
        Selection::Row(index)
    } else {
        Selection::Column(index)
    }
}

/// The cells of a grid indexed by column, then row, as one list, column by
/// column.
pub open spec fn grid_cells(grid: [[Cell; 8]; 8]) -> Seq<Cell> {
    Seq::new(64, |i: int| grid@[i / 8]@[i % 8])
}

/// What a freshly drawn cell looks like: something to pick, with a strength
/// only where it is a stone or a bomb.
pub open spec fn freshly_drawn(cell: Cell) -> bool {
    &&& cell.occupied()
    &&& cell.wf()
    &&& cell.kind == CellKind::Banana ==> cell.value == 0
}

/// Turns a draw below eleven into a cell kind.
pub fn kind_for_draw(draw: i32) -> (kind: CellKind)
    ensures
        kind == kind_of_draw(draw as int),
{
    if draw == 0 {
        CellKind::Banana
    } else if 1 <= draw && draw <= 6 {
        CellKind::Stone
    } else {
        CellKind::Bomb
    }
}

/// Turns a draw below eleven into the strength of a stone or bomb.
pub fn value_for_draw(draw: i32) -> (value: i32)
    ensures
        value == value_of_draw(draw as int),
        0 <= value <= 3,
{
    if draw == 0 {
        3
    } else if 1 <= draw && draw <= 2 {
        2
    } else if 3 <= draw && draw <= 6 {
        1
    } else {
        0
    }
}

/// Turns the two draws for a square into its cell.
pub fn cell_for_draw(draw: CellDraw) -> (cell: Cell)
    ensures
        cell == cell_of_draw(draw),
        freshly_drawn(cell),
{
    let kind = kind_for_draw(draw.kind);
    let value = match kind {
        CellKind::Stone | CellKind::Bomb => value_for_draw(draw.value),
        _ => 0,
    };
    Cell { kind, value }
}

/// Turns a coin and a draw below eight into the axis a round starts on.
pub fn selection_for_draw(row: bool, index: usize) -> (selection: Selection)
    ensures
        selection == selection_of_draw(row, index),
{
    if row {
        Selection::Row(index)
    } else {
        Selection::Column(index)
    }
}

/// A square's place in the list of cells gives back its column and row.
pub proof fn slot_parts(col: int, row: int)
    requires
        0 <= col < 8,
        0 <= row < 8,
    ensures
        0 <= slot(col, row) < 64,
        slot(col, row) / 8 == col,
        slot(col, row) % 8 == row,
{
}

/// The 8×8 game board.
#[derive(Debug, Clone, Copy)]
pub struct Board {
    cells: [[Cell; 8]; 8],
}

impl View for Board {
    type V = Seq<Cell>;

    /// The 64 cells, column by column.
    closed spec fn view(&self) -> Seq<Cell> {
        grid_cells(self.cells)
    }
}

impl Board {
    /// Every board holds 64 cells, each of them well formed.
    #[verifier::type_invariant]
    pub open spec fn wf(&self) -> bool {
        &&& self@.len() == 64
        &&& forall|i: int| 0 <= i < 64 ==> (#[trigger] self@[i]).wf()
    }

    /// The cell on square (col, row).
    pub open spec fn at(&self, col: int, row: int) -> Cell {
        self@[slot(col, row)]
    }

    /// Create a new randomly-populated board and an initial selection axis.
    ///
    /// For every square a kind is drawn, and a strength where the kind is a
    /// stone or a bomb; then a coin and an index for the selection. Whatever
    /// the generator hands back, board and selection are what `from_draws`
    /// makes of it: every square holds something to pick and the selection
    /// names a row or column of the board.
    pub fn new_random() -> (drawn: (Self, Selection))
        ensures
            exists|draws: Seq<CellDraw>, row: bool, index: usize|
                {
                    &&& draws.len() == 64
                    &&& forall|i: int|
                        0 <= i < 64 ==> 0 <= (#[trigger] draws[i]).kind < 11 && 0 <= draws[i].value
                            < 11
                    &&& index < 8
                    &&& drawn.0@ == cells_of_draws(draws)
                    &&& drawn.1 == selection_of_draw(row, index)
                },
            drawn.0.wf(),
            forall|i: int| 0 <= i < 64 ==> freshly_drawn(#[trigger] drawn.0@[i]),
            drawn.1.wf(),
    {
        let mut draws = [CellDraw { kind: 0, value: 0 }; 64];
        for col in 0..BOARD_SIZE
            invariant
                forall|i: int|
                    0 <= i < 64 ==> 0 <= (#[trigger] draws@[i]).kind < 11 && 0 <= draws@[i].value
                        < 11,
        {
            for row in 0..BOARD_SIZE
                invariant
                    col < 8,
                    forall|i: int|
                        0 <= i < 64 ==> 0 <= (#[trigger] draws@[i]).kind < 11 && 0
                            <= draws@[i].value < 11,
            {
                let kind = draw_below(11);
                let value = match kind_for_draw(kind) {
                    CellKind::Stone | CellKind::Bomb => draw_below(11),
                    _ => 0,
                };
                draws[col * BOARD_SIZE + row] = CellDraw { kind, value };
            }
        }
        let row = draw_ratio(1, 2);
        let index = draw_index(BOARD_SIZE);
        let drawn = Self::from_draws(&draws, row, index);
        proof {
            assert(draws@.len() == 64);
            assert forall|i: int| 0 <= i < 64 implies freshly_drawn(#[trigger] drawn.0@[i]) by {
                assert(drawn.0@[i] == cell_of_draw(draws@[i]));
            }
        }
        drawn
    }

    /// Builds the board and the selection that the given draws stand for:
    /// `draws` holds the draws for the squares column by column, `row` the
    /// coin for the axis and `index` the draw for its index.
    pub fn from_draws(draws: &[CellDraw; 64], row: bool, index: usize) -> (drawn: (Self, Selection))
        ensures
            drawn.0@ == cells_of_draws(draws@),
            drawn.1 == selection_of_draw(row, index),
            drawn.0.wf(),
    {
        let mut cells = [[Cell { kind: CellKind::Empty, value: 0 }; 8]; 8];
        for col in 0..BOARD_SIZE
            invariant
                forall|c: int, r: int|
                    0 <= c < col && 0 <= r < 8 ==> #[trigger] cells@[c]@[r] == cell_of_draw(
                        draws@[slot(c, r)],
                    ),
        {
            let mut column = [Cell { kind: CellKind::Empty, value: 0 }; 8];
            for r in 0..BOARD_SIZE
                invariant
                    col < 8,
                    forall|k: int|
                        0 <= k < r ==> #[trigger] column@[k] == cell_of_draw(
                            draws@[slot(col as int, k)],
                        ),
            {
                column[r] = cell_for_draw(draws[col * BOARD_SIZE + r]);
            }
            cells[col] = column;
        }
        let ghost listed = grid_cells(cells);
        assert forall|i: int| 0 <= i < 64 implies #[trigger] listed[i] == cell_of_draw(
            draws@[i],
        ) by {
            assert(slot(i / 8, i % 8) == i);
            assert(cells@[i / 8]@[i % 8] == cell_of_draw(draws@[slot(i / 8, i % 8)]));
        }
        assert(listed =~= cells_of_draws(draws@));
        assert forall|i: int| 0 <= i < 64 implies (#[trigger] listed[i]).wf() by {
            assert(freshly_drawn(cell_of_draw(draws@[i])));
        }
        (Self { cells }, selection_for_draw(row, index))
    }

    /// Builds a board from a grid indexed by column, then row. Gives `None`
    /// exactly when some cell's strength lies outside 0..=3.
    pub fn from_grid(grid: &[[Cell; 8]; 8]) -> (board: Option<Self>)
        ensures
            board.is_some() <==> forall|col: int, row: int|
                0 <= col < 8 && 0 <= row < 8 ==> (#[trigger] grid@[col]@[row]).wf(),
            board.is_some() ==> board.unwrap().wf() && board.unwrap()@ == grid_cells(*grid),
            board.is_some() ==> forall|col: int, row: int|
                0 <= col < 8 && 0 <= row < 8 ==> #[trigger] board.unwrap().at(col, row)
                    == grid@[col]@[row],
    {
        for col in 0..BOARD_SIZE
            invariant
                forall|c: int, r: int|
                    0 <= c < col && 0 <= r < 8 ==> (#[trigger] grid@[c]@[r]).wf(),
        {
            for row in 0..BOARD_SIZE
                invariant
                    col < 8,
                    forall|c: int, r: int|
                        0 <= c < col && 0 <= r < 8 ==> (#[trigger] grid@[c]@[r]).wf(),
                    forall|r: int| 0 <= r < row ==> (#[trigger] grid@[col as int]@[r]).wf(),
            {
                let cell = grid[col][row];
                if cell.value < 0 || cell.value > MAX_CELL_VALUE {
                    return None;
                }
            }
        }
        let ghost listed = grid_cells(*grid);
        assert forall|i: int| 0 <= i < 64 implies (#[trigger] listed[i]).wf() by {
            assert(grid@[i / 8]@[i % 8].wf());
        }
        assert forall|col: int, row: int| 0 <= col < 8 && 0 <= row < 8 implies listed[slot(
            col,
            row,
        )] == #[trigger] grid@[col]@[row] by {
            slot_parts(col, row);
        }
        Some(Self { cells: *grid })
    }

    /// The cell on square (col, row). Both coordinates must lie on the
    /// board; outside verified code a coordinate off the board stops the
    /// program.
    pub fn get(&self, col: usize, row: usize) -> (cell: &Cell)
        requires
            col < 8,
            row < 8,
        ensures
            *cell == self.at(col as int, row as int),
            cell.wf(),
    {
        proof {
            use_type_invariant(self);
            slot_parts(col as int, row as int);
        }
        &self.cells[col][row]
    }

    /// Empties the square (col, row) and leaves every other square alone.
    /// Both coordinates must lie on the board; outside verified code a
    /// coordinate off the board stops the program.
    pub fn clear(&mut self, col: usize, row: usize)
        requires
            col < 8,
            row < 8,
        ensures
            final(self)@ == old(self)@.update(slot(col as int, row as int), Cell::empty()),
            final(self).wf(),
    {
        proof {
            use_type_invariant(&*self);
            slot_parts(col as int, row as int);
        }
        let ghost before = self@;
        let mut column = self.cells[col];
        column[row] = Cell::default();
        proof {
            assert forall|c: int, r: int| 0 <= c < 8 && 0 <= r < 8 implies (
            #[trigger] self.cells@[c]@[r]).wf() by {
                slot_parts(c, r);
                assert(before[slot(c, r)].wf());
            }
            assert forall|r: int| 0 <= r < 8 implies (#[trigger] column@[r]).wf() by {
                assert(self.cells@[col as int]@[r].wf());
            }
        }
        self.cells[col] = column;
        proof {
            assert forall|i: int| 0 <= i < 64 implies #[trigger] self@[i] == before.update(
                slot(col as int, row as int),
                Cell::empty(),
            )[i] by {
                assert(slot(i / 8, i % 8) == i);
            }
            assert(self@ =~= before.update(slot(col as int, row as int), Cell::empty()));
        }
    }
}

/// A board is its 64 cells and nothing more: boards that hold the same cells
/// are the same board. So equal draws give equal boards.
pub proof fn same_cells_same_board(a: Board, b: Board)
    requires
        a@ == b@,
    ensures
        a == b,
{
    assert forall|c: int, r: int| 0 <= c < 8 && 0 <= r < 8 implies #[trigger] a.cells@[c]@[r]
        == b.cells@[c]@[r] by {
        slot_parts(c, r);
        let i = slot(c, r);
        assert(a@[i] == a.cells@[i / 8]@[i % 8]);
        assert(b@[i] == b.cells@[i / 8]@[i % 8]);
    }
    assert forall|c: int| 0 <= c < 8 implies a.cells@[c] == b.cells@[c] by {
        assert(a.cells@[c]@ =~= b.cells@[c]@);
        assert(a.cells@[c] =~= b.cells@[c]);
    }
    assert(a.cells@ =~= b.cells@);
    assert(a.cells =~= b.cells);
}

/// Equal draws give equal boards and equal selections: whatever two boards
/// and selections stand for the same draws are the same.
pub proof fn equal_draws_equal_boards(
    first: (Board, Selection),
    second: (Board, Selection),
    draws: Seq<CellDraw>,
    row: bool,
    index: usize,
)
    requires
        first.0@ == cells_of_draws(draws),
        second.0@ == cells_of_draws(draws),
        first.1 == selection_of_draw(row, index),
        second.1 == selection_of_draw(row, index),
    ensures
        first == second,
{
    same_cells_same_board(first.0, second.0);
}

/// Clearing a square leaves an axis empty exactly when every other square of
/// the axis was empty before. An axis that was empty stays empty: a board
/// only loses cells.
pub proof fn exhaustion_after_clear(cells: Seq<Cell>, selection: Selection, col: int, row: int)
    requires
        cells.len() == 64,
        selection.wf(),
        0 <= col < 8,
        0 <= row < 8,
    ensures
        axis_empty(cells.update(slot(col, row), Cell::empty()), selection) <==> forall|i: int|
            0 <= i < 8 ==> !(#[trigger] axis_cell(cells, selection, i)).occupied()
                || selection.square(i) == (col, row),
        axis_empty(cells, selection) ==> axis_empty(
            cells.update(slot(col, row), Cell::empty()),
            selection,
        ),
{
    let cleared = cells.update(slot(col, row), Cell::empty());
    assert forall|i: int| 0 <= i < 8 implies (#[trigger] axis_cell(cleared, selection, i)) == if selection.square(
        i,
    ) == (col, row) {
        Cell::empty()
    } else {
        axis_cell(cells, selection, i)
    } by {}
    if axis_empty(cleared, selection) {
        assert forall|i: int| 0 <= i < 8 implies !(#[trigger] axis_cell(
            cells,
            selection,
            i,
        )).occupied() || selection.square(i) == (col, row) by {
            assert(!axis_cell(cleared, selection, i).occupied());
        }
    }
    if forall|i: int|
        0 <= i < 8 ==> !(#[trigger] axis_cell(cells, selection, i)).occupied() || selection.square(
            i,
        ) == (col, row) {
        assert forall|i: int| 0 <= i < 8 implies !(#[trigger] axis_cell(
            cleared,
            selection,
            i,
        )).occupied() by {
            assert(!axis_cell(cells, selection, i).occupied() || selection.square(i) == (col, row));
        }
    }
}

impl Board {
    /// Check whether every cell in the given selection axis is empty.
    pub fn selection_exhausted(&self, selection: Selection) -> (exhausted: bool)
        requires
            selection.wf(),
        ensures
            exhausted == axis_empty(self@, selection),
    {
        for i in 0..BOARD_SIZE
            invariant
                selection.wf(),
                forall|j: int| 0 <= j < i ==> !(#[trigger] axis_cell(self@, selection, j)).occupied(),
        {
            let cell = match selection {
                Selection::Row(r) => self.get(i, r),
                Selection::Column(c) => self.get(c, i),
            };
            if cell.kind != CellKind::Empty {
                assert(axis_cell(self@, selection, i as int).occupied());
                return false;
            }
        }
        true
    }
}

} // verus!
