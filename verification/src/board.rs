//! The well: a grid of placed cells between two walls, with the rules for
//! collision, locking a block in, and clearing full rows.

use crate::block::{occupied, Block};
use vstd::prelude::*;

verus! {

/// Number of rows of the well; row `0` is the top.
pub const ROWS: usize = 16;

/// Number of columns of the board, the two wall columns included.
pub const COLS: usize = 12;

/// Cell value of the walls in the first and the last column.
pub const WALL: u8 = 8;

/// The placed cells, row by row: `0` is empty, `1` to `7` is the colour id of
/// a locked block, `8` is wall.
#[derive(Copy, Clone, Debug, PartialEq, Eq)]
pub struct Board {
    pub cells: [[u8; 12]; 16],
}

impl View for Board {
    type V = Seq<Seq<u8>>;

    open spec fn view(&self) -> Seq<Seq<u8>> {
        self.cells.deep_view()
    }
}

/// A grid has the dimensions of the board.
pub open spec fn board_sized(grid: Seq<Seq<u8>>) -> bool {
    &&& grid.len() == 16
    &&& forall|row: int| 0 <= row < 16 ==> (#[trigger] grid[row]).len() == 12
}

/// One row of a well-formed board: walls at both ends, colour ids or nothing
/// in between.
pub open spec fn row_walled(row: Seq<u8>) -> bool {
    &&& row.len() == 12
    &&& row[0] == WALL
    &&& row[11] == WALL
    &&& forall|col: int| 1 <= col <= 10 ==> #[trigger] row[col] <= 7
}

/// Both wall columns are intact and every cell between them is empty or holds
/// a colour id.
pub open spec fn walled(grid: Seq<Seq<u8>>) -> bool {
    &&& grid.len() == 16
    &&& forall|row: int| 0 <= row < 16 ==> row_walled(#[trigger] grid[row])
}

/// The board at the start of a game: walls and nothing else.
pub open spec fn empty_grid() -> Seq<Seq<u8>> {
    Seq::new(
        16,
        |row: int| Seq::new(12, |col: int| if col == 0 || col == 11 { WALL } else { 0u8 }),
    )
}

/// A block cell may not be at (`row`, `col`): the place is outside the grid,
/// in or left of the left wall column, or taken.
pub open spec fn blocked(grid: Seq<Seq<u8>>, row: int, col: int) -> bool {
    row < 0 || row >= 16 || col >= 12 || col <= 0 || grid[row][col] != 0
}

/// Cell (`r`, `c`) of the block's shape grid is filled and lands on a place
/// where it may not be.
pub open spec fn hits(grid: Seq<Seq<u8>>, block: Block, r: int, c: int) -> bool {
    occupied(block.shape(), r, c) && blocked(grid, block.position.y + r, block.position.x + c)
}

/// The block collides: at least one of its filled cells hits.
pub open spec fn collision(grid: Seq<Seq<u8>>, block: Block) -> bool {
    exists|r: int, c: int| hits(grid, block, r, c)
}

/// Cell (`r`, `c`) of the block's shape grid is empty or lies inside the
/// well, between the walls.
pub open spec fn cell_inside(block: Block, r: int, c: int) -> bool {
    occupied(block.shape(), r, c) ==> 0 <= block.position.y + r < 16 && 1 <= block.position.x + c
        <= 10
}

/// Every filled cell of the block lies inside the well, between the walls.
pub open spec fn inside_well(block: Block) -> bool {
    forall|r: int, c: int| cell_inside(block, r, c)
}

/// The block has a filled cell at board place (`row`, `col`).
pub open spec fn covers(block: Block, row: int, col: int) -> bool {
    occupied(block.shape(), row - block.position.y, col - block.position.x)
}

/// The grid after the block's first `done` shape cells, counted row by row,
/// have been written into it.
spec fn partly_locked(grid: Seq<Seq<u8>>, block: Block, done: int) -> Seq<Seq<u8>> {
    Seq::new(
        16,
        |row: int|
            Seq::new(
                12,
                |col: int|
                    if covers(block, row, col) && (row - block.position.y) * 4 + (col
                        - block.position.x) < done {
                        block.shape()[row - block.position.y][col - block.position.x]
                    } else {
                        grid[row][col]
                    },
            ),
    )
}

/// The grid with the block locked in: every place the block covers holds the
/// block's cell, every other place is as before.
pub open spec fn locked(grid: Seq<Seq<u8>>, block: Block) -> Seq<Seq<u8>> {
    Seq::new(
        16,
        |row: int|
            Seq::new(
                12,
                |col: int|
                    if covers(block, row, col) {
                        block.shape()[row - block.position.y][col - block.position.x]
                    } else {
                        grid[row][col]
                    },
            ),
    )
}

/// All ten cells between the walls of a row are taken.
pub open spec fn row_full(grid: Seq<Seq<u8>>, row: int) -> bool {
    forall|col: int| 1 <= col <= 10 ==> #[trigger] grid[row][col] != 0
}

/// The indices of the full rows.
pub open spec fn full_row_set(grid: Seq<Seq<u8>>) -> Set<int> {
    Set::new(|row: int| 0 <= row < 16 && row_full(grid, row))
}

/// The full rows that can be taken out: all but the top row.
pub open spec fn clearable(grid: Seq<Seq<u8>>) -> Set<int> {
    Set::new(|row: int| 1 <= row < 16 && row_full(grid, row))
}

/// Some row can be taken out.
pub open spec fn any_clearable(grid: Seq<Seq<u8>>) -> bool {
    exists|row: int| 1 <= row < 16 && row_full(grid, row)
}

/// The set of rows that a row mask marks.
pub open spec fn marked(mask: [bool; 16]) -> Set<int> {
    Set::new(|row: int| 0 <= row < 16 && mask[row])
}

/// The grid after row `at` has been taken out: each row from `1` to `at`
/// holds what the row above it held, and all other rows, row `0` among them,
/// are as before.
pub open spec fn shifted(grid: Seq<Seq<u8>>, at: int) -> Seq<Seq<u8>> {
    Seq::new(16, |row: int| if 1 <= row <= at { grid[row - 1] } else { grid[row] })
}

/// The grid after those of its first `upto` rows that are in `rows` have been
/// taken out, from the top down.
pub open spec fn cleared_upto(grid: Seq<Seq<u8>>, rows: Set<int>, upto: int) -> Seq<Seq<u8>>
    decreases upto,
{
    if upto <= 0 {
        grid
    } else if rows.contains(upto - 1) {
        shifted(cleared_upto(grid, rows, upto - 1), upto - 1)
    } else {
        cleared_upto(grid, rows, upto - 1)
    }
}

/// The grid after the rows in `rows` have been taken out, from the top down.
pub open spec fn cleared(grid: Seq<Seq<u8>>, rows: Set<int>) -> Seq<Seq<u8>> {
    cleared_upto(grid, rows, 16)
}

/// The top row holds a cell between the walls: the stack has reached the
/// ceiling.
pub open spec fn top_row_taken(grid: Seq<Seq<u8>>) -> bool {
    exists|col: int| 1 <= col <= 10 && #[trigger] grid[0][col] != 0
}

/// Whether a row mask marks any row.
pub fn any_marked(mask: &[bool; 16]) -> (any: bool)
    ensures
        any == exists|row: int| marked(*mask).contains(row),
{
    let mut row: usize = 0;
    while row < 16
        invariant
            row <= 16,
            forall|r: int| 0 <= r < row ==> !mask[r],
        decreases 16 - row,
    {
        if mask[row] {
            assert(marked(*mask).contains(row as int));
            return true;
        }
        row += 1;
    }
    false
}

impl Board {
    /// Walls intact, cells in range.
    pub open spec fn wf(&self) -> bool {
        walled(self@)
    }

    /// The view has the dimensions of the board and holds the cells of the
    /// array, row for row and cell for cell.
    pub proof fn lemma_view(self)
        ensures
            board_sized(self@),
            forall|row: int| 0 <= row < 16 ==> #[trigger] self@[row] == self.cells[row].deep_view(),
            forall|row: int, col: int|
                0 <= row < 16 && 0 <= col < 12 ==> #[trigger] self@[row][col]
                    == self.cells[row][col],
    {
    }

    /// The empty board: walls in the first and last column, nothing between.
    pub fn new() -> (board: Board)
        ensures
            board@ == empty_grid(),
            board.wf(),
    {
        let board = Board { cells: [[8, 0, 0, 0, 0, 0, 0, 0, 0, 0, 0, 8]; 16] };
        assert(board@ =~~= empty_grid());
        board
    }

    /// Whether the walls are intact and every cell between them is at most
    /// `7`.
    pub fn is_valid(&self) -> (ok: bool)
        ensures
            ok == self.wf(),
    {
        let mut row: usize = 0;
        proof {
            self.lemma_view();
        }
        while row < 16
            invariant
                row <= 16,
                board_sized(self@),
                forall|r: int, c: int|
                    0 <= r < 16 && 0 <= c < 12 ==> #[trigger] self@[r][c] == self.cells[r][c],
                forall|r: int| 0 <= r < row ==> row_walled(#[trigger] self@[r]),
            decreases 16 - row,
        {
            if self.cells[row][0] != WALL || self.cells[row][11] != WALL {
                assert(!row_walled(self@[row as int]));
                return false;
            }
            let mut col: usize = 1;
            while col <= 10
                invariant
                    1 <= col <= 11,
                    row < 16,
                    forall|r: int, c: int|
                        0 <= r < 16 && 0 <= c < 12 ==> #[trigger] self@[r][c] == self.cells[r][c],
                    forall|c: int| 1 <= c < col ==> #[trigger] self@[row as int][c] <= 7,
                decreases 11 - col,
            {
                if self.cells[row][col] > 7 {
                    assert(self@[row as int][col as int] > 7);
                    assert(!row_walled(self@[row as int]));
                    return false;
                }
                col += 1;
            }
            row += 1;
        }
        true
    }

    /// Whether the block, where it stands, overlaps a taken cell, a wall or
    /// the outside of the board.
    pub fn collides(&self, block: &Block) -> (hit: bool)
        requires
            block.wf(),
        ensures
            hit == collision(self@, *block),
    {
        let shape = block.get_shape();
        let mut r: usize = 0;
        proof {
            self.lemma_view();
        }
        while r < 4
            invariant
                r <= 4,
                shape.deep_view() == block.shape(),
                forall|i: int, j: int|
                    0 <= i < 16 && 0 <= j < 12 ==> #[trigger] self@[i][j] == self.cells[i][j],
                forall|i: int, j: int| 0 <= i < r ==> !hits(self@, *block, i, j),
            decreases 4 - r,
        {
            let mut c: usize = 0;
            while c < 4
                invariant
                    r < 4,
                    c <= 4,
                    shape.deep_view() == block.shape(),
                    forall|i: int, j: int|
                        0 <= i < 16 && 0 <= j < 12 ==> #[trigger] self@[i][j] == self.cells[i][j],
                    forall|i: int, j: int| 0 <= i < r ==> !hits(self@, *block, i, j),
                    forall|j: int| 0 <= j < c ==> !hits(self@, *block, r as int, j),
                decreases 4 - c,
            {
                assert(shape[r as int][c as int] == shape.deep_view()[r as int][c as int]);
                if shape[r][c] != 0 {
                    let row: i64 = block.position.y as i64 + r as i64;
                    let col: i64 = block.position.x as i64 + c as i64;
                    if row < 0 || row >= 16 || col >= 12 || col <= 0 {
                        assert(hits(self@, *block, r as int, c as int));
                        return true;
                    }
                    if self.cells[row as usize][col as usize] != 0 {
                        assert(hits(self@, *block, r as int, c as int));
                        return true;
                    }
                }
                c += 1;
            }
            r += 1;
        }
        false
    }

    /// Writes the block's filled cells into the board.
    ///
    /// The block must lie inside the well. A block that does not collide on a
    /// board with intact walls does; so does a block at the spawn cell.
    pub fn lock(&mut self, block: &Block)
        requires
            block.wf(),
            inside_well(*block),
        ensures
            final(self)@ == locked(old(self)@, *block),
            old(self).wf() ==> final(self).wf(),
    {
        let shape = block.get_shape();
        let mut r: usize = 0;
        proof {
            self.lemma_view();
        }
        assert(self@ =~~= partly_locked(old(self)@, *block, 0));
        while r < 4
            invariant
                r <= 4,
                block.wf(),
                inside_well(*block),
                shape.deep_view() == block.shape(),
                self@ == partly_locked(old(self)@, *block, 4 * r),
            decreases 4 - r,
        {
            let mut c: usize = 0;
            while c < 4
                invariant
                    r < 4,
                    c <= 4,
                    block.wf(),
                    inside_well(*block),
                    shape.deep_view() == block.shape(),
                    self@ == partly_locked(old(self)@, *block, 4 * r + c),
                decreases 4 - c,
            {
                assert(shape[r as int][c as int] == shape.deep_view()[r as int][c as int]);
                let ghost before = *self;
                if shape[r][c] != 0 {
                    assert(cell_inside(*block, r as int, c as int));
                    let row: usize = (block.position.y as i64 + r as i64) as usize;
                    let col: usize = (block.position.x as i64 + c as i64) as usize;
                    self.cells[row][col] = shape[r][c];
                }
                proof {
                    before.lemma_view();
                    self.lemma_view();
                    let prev = partly_locked(old(self)@, *block, 4 * r + c);
                    let next = partly_locked(old(self)@, *block, 4 * r + c + 1);
                    assert forall|i: int, j: int| 0 <= i < 16 && 0 <= j < 12 implies self@[i][j]
                        == next[i][j] by {
                        assert(before@[i][j] == prev[i][j]);
                        if i == block.position.y + r && j == block.position.x + c {
                        } else {
                            assert(self@[i][j] == before@[i][j]);
                        }
                    }
                    assert(self@ =~~= next);
                }
                c += 1;
            }
            r += 1;
        }
        assert(self@ =~~= locked(old(self)@, *block));
        proof {
            if old(self).wf() {
                lemma_lock_keeps_walls(old(self)@, *block);
            }
        }
    }

    /// Whether all ten cells between the walls of a row are taken.
    pub fn is_row_full(&self, row: usize) -> (full: bool)
        requires
            row < 16,
        ensures
            full == row_full(self@, row as int),
    {
        let mut col: usize = 1;
        proof {
            self.lemma_view();
        }
        while col <= 10
            invariant
                1 <= col <= 11,
                row < 16,
                forall|c: int| 0 <= c < 12 ==> #[trigger] self@[row as int][c] == self.cells[row as int][c],
                forall|c: int| 1 <= c < col ==> #[trigger] self@[row as int][c] != 0,
            decreases 11 - col,
        {
            if self.cells[row][col] == 0 {
                assert(self@[row as int][col as int] == 0);
                return false;
            }
            col += 1;
        }
        true
    }

    /// Marks the full rows: entry `r` of the result is set exactly when row
    /// `r` is full.
    pub fn full_rows(&self) -> (mask: [bool; 16])
        ensures
            marked(mask) == full_row_set(self@),
            forall|row: int| 0 <= row < 16 ==> mask[row] == row_full(self@, row),
    {
        let mut mask: [bool; 16] = [false; 16];
        let mut row: usize = 0;
        while row < 16
            invariant
                row <= 16,
                forall|r: int| 0 <= r < row ==> mask[r] == row_full(self@, r),
            decreases 16 - row,
        {
            let full = self.is_row_full(row);
            mask[row] = full;
            row += 1;
        }
        assert(marked(mask) =~= full_row_set(self@));
        mask
    }

    /// Takes row `at` out: the rows above it move down by one, and row `0`
    /// stays as it is.
    pub fn shift_down(&mut self, at: usize)
        requires
            at < 16,
        ensures
            final(self)@ == shifted(old(self)@, at as int),
    {
        let mut row: usize = at;
        while row >= 1
            invariant
                row <= at < 16,
                forall|r: int| 0 <= r <= row ==> self.cells[r] == old(self).cells[r],
                forall|r: int| row < r <= at ==> self.cells[r] == old(self).cells[r - 1],
                forall|r: int| at < r < 16 ==> self.cells[r] == old(self).cells[r],
            decreases row,
        {
            self.cells[row] = self.cells[row - 1];
            row -= 1;
        }
        proof {
            self.lemma_view();
            old(self).lemma_view();
        }
        assert(self@ =~= shifted(old(self)@, at as int));
    }

    /// Takes the marked rows out, from the top down. For each of them the
    /// rows above move down by one; row `0` is never overwritten, so marking
    /// it changes nothing.
    pub fn clear_rows(&mut self, rows: &[bool; 16])
        ensures
            final(self)@ == cleared(old(self)@, marked(*rows)),
            old(self).wf() ==> final(self).wf(),
    {
        let mut row: usize = 0;
        while row < 16
            invariant
                row <= 16,
                self@ == cleared_upto(old(self)@, marked(*rows), row as int),
            decreases 16 - row,
        {
            if rows[row] {
                self.shift_down(row);
            }
            row += 1;
        }
        proof {
            if old(self).wf() {
                lemma_clear_keeps_walls(old(self)@, marked(*rows), 16);
            }
        }
    }

    /// Whether every filled cell of the block lies inside the well, between
    /// the walls. The cells of the board play no part.
    pub fn contains_block(&self, block: &Block) -> (inside: bool)
        requires
            block.wf(),
        ensures
            inside == inside_well(*block),
    {
        let shape = block.get_shape();
        let mut r: usize = 0;
        while r < 4
            invariant
                r <= 4,
                shape.deep_view() == block.shape(),
                forall|i: int, j: int| 0 <= i < r ==> cell_inside(*block, i, j),
            decreases 4 - r,
        {
            let mut c: usize = 0;
            while c < 4
                invariant
                    r < 4,
                    c <= 4,
                    shape.deep_view() == block.shape(),
                    forall|i: int, j: int| 0 <= i < r ==> cell_inside(*block, i, j),
                    forall|j: int| 0 <= j < c ==> cell_inside(*block, r as int, j),
                decreases 4 - c,
            {
                assert(shape[r as int][c as int] == shape.deep_view()[r as int][c as int]);
                if shape[r][c] != 0 {
                    let row: i64 = block.position.y as i64 + r as i64;
                    let col: i64 = block.position.x as i64 + c as i64;
                    if row < 0 || row >= 16 || col < 1 || col > 10 {
                        assert(!cell_inside(*block, r as int, c as int));
                        return false;
                    }
                }
                c += 1;
            }
            r += 1;
        }
        true
    }

    /// Whether the top row holds a cell between the walls.
    pub fn is_game_over(&self) -> (over: bool)
        ensures
            over == top_row_taken(self@),
    {
        let mut col: usize = 1;
        proof {
            self.lemma_view();
        }
        while col <= 10
            invariant
                1 <= col <= 11,
                forall|c: int| 0 <= c < 12 ==> #[trigger] self@[0][c] == self.cells[0][c],
                forall|c: int| 1 <= c < col ==> #[trigger] self@[0][c] == 0,
            decreases 11 - col,
        {
            if self.cells[0][col] != 0 {
                assert(self@[0][col as int] != 0);
                return true;
            }
            col += 1;
        }
        false
    }
}

/// Locking a block that lies inside the well leaves the walls intact and the
/// cells in range.
pub proof fn lemma_lock_keeps_walls(grid: Seq<Seq<u8>>, block: Block)
    requires
        block.wf(),
        inside_well(block),
        walled(grid),
    ensures
        walled(locked(grid, block)),
{
    crate::block::lemma_shape_cells(block.block_shape, block.rotation);
    let after = locked(grid, block);
    assert forall|row: int| 0 <= row < 16 implies row_walled(#[trigger] after[row]) by {
        assert(row_walled(grid[row]));
        assert forall|col: int| 0 <= col < 12 implies (if col == 0 || col == 11 {
            after[row][col] == WALL
        } else {
            #[trigger] after[row][col] <= 7
        }) by {
            let r = row - block.position.y;
            let c = col - block.position.x;
            if covers(block, row, col) {
                assert(cell_inside(block, r, c));
                assert(block.shape()[r][c] == 0 || block.shape()[r][c]
                    == block.block_shape.color_id());
            }
        }
    }
}

/// Taking rows out leaves the walls intact and the cells in range.
pub proof fn lemma_clear_keeps_walls(grid: Seq<Seq<u8>>, rows: Set<int>, upto: int)
    requires
        walled(grid),
    ensures
        walled(cleared_upto(grid, rows, upto)),
    decreases upto,
{
    if upto > 0 {
        lemma_clear_keeps_walls(grid, rows, upto - 1);
    }
}

} // verus!
