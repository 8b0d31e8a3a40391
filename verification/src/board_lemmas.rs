//! What holds of the board rules in general: collisions only grow as a block
//! is pushed outward or the board fills, a locked block is in its own way,
//! and clearing moves every remaining row down by the number of rows taken
//! out below it.

use crate::block::{lemma_shape_has_cell, occupied, Block};
use crate::board::{
    board_sized, cell_inside, cleared, cleared_upto, collision, covers, full_row_set, hits,
    inside_well, locked, row_full, shifted, top_row_taken, walled,
};
use vstd::prelude::*;

verus! {

/// Collision and lying inside the well depend on the shape, the rotation and
/// the position of a block, and on nothing else about it.
pub proof fn lemma_same_cells(grid: Seq<Seq<u8>>, a: Block, b: Block)
    requires
        a.block_shape == b.block_shape,
        a.rotation == b.rotation,
        a.position == b.position,
    ensures
        collision(grid, a) == collision(grid, b),
        inside_well(a) == inside_well(b),
        locked(grid, a) == locked(grid, b),
{
    assert forall|r: int, c: int| hits(grid, a, r, c) == hits(grid, b, r, c) by {}
    assert forall|r: int, c: int| cell_inside(a, r, c) == cell_inside(b, r, c) by {}
    if collision(grid, a) {
        let (r, c) = choose|r: int, c: int| hits(grid, a, r, c);
        assert(hits(grid, b, r, c));
    }
    if collision(grid, b) {
        let (r, c) = choose|r: int, c: int| hits(grid, b, r, c);
        assert(hits(grid, a, r, c));
    }
    if inside_well(a) {
        assert forall|r: int, c: int| cell_inside(b, r, c) by {
            assert(cell_inside(a, r, c));
        }
    }
    if inside_well(b) {
        assert forall|r: int, c: int| cell_inside(a, r, c) by {
            assert(cell_inside(b, r, c));
        }
    }
    assert(locked(grid, a) =~~= locked(grid, b));
}

/// One filled cell in a forbidden place is a collision, whatever the other
/// cells of the block do.
pub proof fn lemma_one_hit_collides(grid: Seq<Seq<u8>>, block: Block, r: int, c: int)
    requires
        hits(grid, block, r, c),
    ensures
        collision(grid, block),
{
}

/// A block with a filled cell beyond an edge of the board collides, and goes
/// on colliding wherever it is moved that is no nearer to the inside across
/// that edge: further left once a cell is in or past the left wall column,
/// further right once one is past the last column, further up once one is
/// above the top row, further down once one is below the bottom row.
pub proof fn lemma_collision_outward(
    grid: Seq<Seq<u8>>,
    block: Block,
    r: int,
    c: int,
    x: i32,
    y: i32,
)
    requires
        occupied(block.shape(), r, c),
        (block.position.x + c <= 0 && x <= block.position.x) || (block.position.x + c >= 12 && x
            >= block.position.x) || (block.position.y + r < 0 && y <= block.position.y) || (
        block.position.y + r >= 16 && y >= block.position.y),
    ensures
        collision(grid, block),
        collision(grid, block.at(x, y)),
{
    assert(hits(grid, block, r, c));
    assert(hits(grid, block.at(x, y), r, c));
}

/// A block that collides on a board collides on every board that has a cell
/// wherever the first has one.
pub proof fn lemma_collision_fuller_board(grid: Seq<Seq<u8>>, fuller: Seq<Seq<u8>>, block: Block)
    requires
        collision(grid, block),
        forall|row: int, col: int|
            0 <= row < 16 && 0 <= col < 12 && grid[row][col] != 0 ==> #[trigger] fuller[row][col]
                != 0,
    ensures
        collision(fuller, block),
{
    let (r, c) = choose|r: int, c: int| hits(grid, block, r, c);
    assert(hits(fuller, block, r, c));
}

/// On a board with intact walls, a block that does not collide lies inside
/// the well.
pub proof fn lemma_free_block_is_inside(grid: Seq<Seq<u8>>, block: Block)
    requires
        walled(grid),
        !collision(grid, block),
    ensures
        inside_well(block),
{
    assert forall|r: int, c: int| cell_inside(block, r, c) by {
        if occupied(block.shape(), r, c) {
            assert(!hits(grid, block, r, c));
            let row = block.position.y + r;
            assert(crate::board::row_walled(grid[row]));
        }
    }
}

/// A well-formed block inside the well stands within three cells of the
/// board, so that a step in any direction is far from overflow.
pub proof fn lemma_inside_bounds(block: Block)
    requires
        block.wf(),
        inside_well(block),
    ensures
        -3 <= block.position.y <= 15,
        -2 <= block.position.x <= 10,
{
    lemma_shape_has_cell(block.block_shape, block.rotation);
    let (r, c) = choose|r: int, c: int| occupied(block.shape(), r, c);
    assert(cell_inside(block, r, c));
}

/// Once a block is locked in, the same block at the same place collides: its
/// cells are now taken.
pub proof fn lemma_locked_block_collides(grid: Seq<Seq<u8>>, block: Block)
    requires
        block.wf(),
        inside_well(block),
    ensures
        collision(locked(grid, block), block),
{
    lemma_shape_has_cell(block.block_shape, block.rotation);
    let (r, c) = choose|r: int, c: int| occupied(block.shape(), r, c);
    assert(cell_inside(block, r, c));
    let row = block.position.y + r;
    let col = block.position.x + c;
    assert(covers(block, row, col));
    assert(locked(grid, block)[row][col] == block.shape()[r][c]);
    assert(hits(locked(grid, block), block, r, c));
}

/// Locking changes no place that the block does not cover, and never empties
/// a place.
pub proof fn lemma_lock_only_adds(grid: Seq<Seq<u8>>, block: Block, row: int, col: int)
    requires
        0 <= row < 16,
        0 <= col < 12,
    ensures
        !covers(block, row, col) ==> locked(grid, block)[row][col] == grid[row][col],
        covers(block, row, col) ==> locked(grid, block)[row][col] != 0,
        grid[row][col] != 0 ==> locked(grid, block)[row][col] != 0,
{
}

/// Locking a block leaves every full row full.
pub proof fn lemma_lock_keeps_rows_full(grid: Seq<Seq<u8>>, block: Block, row: int)
    requires
        0 <= row < 16,
        row_full(grid, row),
    ensures
        row_full(locked(grid, block), row),
{
    assert forall|col: int| 1 <= col <= 10 implies #[trigger] locked(grid, block)[row][col]
        != 0 by {
        lemma_lock_only_adds(grid, block, row, col);
        assert(grid[row][col] != 0);
    }
}

/// A row is among the full rows exactly when none of its ten cells between
/// the walls is empty: emptying any one of them takes the row out of the set,
/// and the wall cells play no part.
pub proof fn lemma_full_row_needs_every_cell(grid: Seq<Seq<u8>>, row: int, col: int)
    requires
        board_sized(grid),
        0 <= row < 16,
        1 <= col <= 10,
    ensures
        full_row_set(grid).contains(row) <==> row_full(grid, row),
        !row_full(grid.update(row, grid[row].update(col, 0)), row),
        !full_row_set(grid.update(row, grid[row].update(col, 0))).contains(row),
{
    let emptied = grid.update(row, grid[row].update(col, 0));
    assert(emptied[row][col] == 0);
}

/// Number of rows of `rows` that lie strictly between row `lo` and row `hi`.
pub open spec fn taken_between(rows: Set<int>, lo: int, hi: int) -> nat
    decreases hi - lo,
{
    if hi <= lo + 1 {
        0
    } else if rows.contains(hi - 1) {
        taken_between(rows, lo, hi - 1) + 1
    } else {
        taken_between(rows, lo, hi - 1)
    }
}

/// No more rows lie strictly between two rows than there is room for.
pub proof fn lemma_taken_between_bound(rows: Set<int>, lo: int, hi: int)
    ensures
        lo < hi ==> taken_between(rows, lo, hi) <= hi - lo - 1,
        lo >= hi ==> taken_between(rows, lo, hi) == 0,
    decreases hi - lo,
{
    if hi > lo + 1 {
        lemma_taken_between_bound(rows, lo, hi - 1);
    }
}

/// A row of the grid that stays: row `0`, which is never taken out, or a row
/// that is not in `rows`.
pub open spec fn stays(rows: Set<int>, row: int) -> bool {
    0 <= row < 16 && (row == 0 || !rows.contains(row))
}

/// `line` is a copy of a row of `grid` that stays.
pub open spec fn from_staying_row(grid: Seq<Seq<u8>>, rows: Set<int>, line: Seq<u8>) -> bool {
    exists|row: int| stays(rows, row) && line == #[trigger] grid[row]
}

/// Where rows land while the first `upto` rows are being cleared: the rows
/// not yet reached are untouched, each staying row has moved down by the
/// number of rows taken out below it so far, and the rows from the top down
/// to where row `0` has landed are copies of row `0`.
proof fn lemma_cleared_upto_rows(grid: Seq<Seq<u8>>, rows: Set<int>, upto: int)
    requires
        grid.len() == 16,
        0 <= upto <= 16,
    ensures
        cleared_upto(grid, rows, upto).len() == 16,
        forall|i: int| upto <= i < 16 ==> #[trigger] cleared_upto(grid, rows, upto)[i] == grid[i],
        forall|j: int|
            0 <= j < upto && stays(rows, j) ==> cleared_upto(grid, rows, upto)[j + #[trigger] taken_between(
                rows,
                j,
                upto,
            )] == grid[j],
        forall|i: int|
            0 <= i <= taken_between(rows, 0, upto) ==> #[trigger] cleared_upto(grid, rows, upto)[i]
                == grid[0],
        forall|i: int|
            0 <= i < upto ==> from_staying_row(grid, rows, #[trigger] cleared_upto(grid, rows, upto)[i]),
    decreases upto,
{
    if upto > 0 {
        let at = upto - 1;
        lemma_cleared_upto_rows(grid, rows, at);
        let prev = cleared_upto(grid, rows, at);
        let next = cleared_upto(grid, rows, upto);
        lemma_taken_between_bound(rows, 0, at);
        lemma_taken_between_bound(rows, 0, upto);
        if rows.contains(at) {
            assert(next == shifted(prev, at));
            assert forall|j: int| 0 <= j < upto && stays(rows, j) implies next[j + #[trigger] taken_between(
                rows,
                j,
                upto,
            )] == grid[j] by {
                lemma_taken_between_bound(rows, j, at);
                if j < at {
                    assert(taken_between(rows, j, upto) == taken_between(rows, j, at) + 1);
                    assert(prev[j + taken_between(rows, j, at)] == grid[j]);
                } else {
                    assert(at == 0);
                }
            }
            assert forall|i: int| 0 <= i <= taken_between(rows, 0, upto) implies #[trigger] next[i]
                == grid[0] by {
                if at >= 1 {
                    assert(taken_between(rows, 0, upto) == taken_between(rows, 0, at) + 1);
                }
                if i >= 1 {
                    assert(prev[i - 1] == grid[0]);
                } else {
                    assert(prev[0] == grid[0]);
                }
            }
            assert forall|i: int| 0 <= i < upto implies from_staying_row(
                grid,
                rows,
                #[trigger] next[i],
            ) by {
                if i >= 1 {
                    assert(from_staying_row(grid, rows, prev[i - 1]));
                } else {
                    assert(prev[0] == grid[0]);
                    assert(stays(rows, 0));
                }
            }
        } else {
            assert(next == prev);
            assert forall|j: int| 0 <= j < upto && stays(rows, j) implies next[j + #[trigger] taken_between(
                rows,
                j,
                upto,
            )] == grid[j] by {
                if j < at {
                    assert(taken_between(rows, j, upto) == taken_between(rows, j, at));
                    assert(prev[j + taken_between(rows, j, at)] == grid[j]);
                }
            }
            assert forall|i: int| 0 <= i < upto implies from_staying_row(
                grid,
                rows,
                #[trigger] next[i],
            ) by {
                if i < at {
                    assert(from_staying_row(grid, rows, prev[i]));
                } else {
                    assert(prev[at] == grid[at]);
                    assert(stays(rows, at));
                }
            }
        }
    } else {
        assert(stays(rows, 0));
    }
}

/// Clearing keeps the rows that stay in their order and moves each of them
/// down by exactly the number of rows taken out below it; the rows that this
/// frees at the top, down to where row `0` lands, are copies of row `0`.
pub proof fn lemma_cleared_rows(grid: Seq<Seq<u8>>, rows: Set<int>)
    requires
        grid.len() == 16,
    ensures
        cleared(grid, rows).len() == 16,
        forall|j: int|
            stays(rows, j) ==> cleared(grid, rows)[j + #[trigger] taken_between(rows, j, 16)]
                == grid[j],
        forall|j: int| stays(rows, j) ==> j + #[trigger] taken_between(rows, j, 16) < 16,
        forall|i: int|
            0 <= i <= taken_between(rows, 0, 16) ==> #[trigger] cleared(grid, rows)[i] == grid[0],
        forall|i: int|
            0 <= i < 16 ==> from_staying_row(grid, rows, #[trigger] cleared(grid, rows)[i]),
{
    lemma_cleared_upto_rows(grid, rows, 16);
    assert forall|j: int| stays(rows, j) implies j + #[trigger] taken_between(rows, j, 16)
        < 16 by {
        lemma_taken_between_bound(rows, j, 16);
    }
}

/// Taking out a single row `at`: each row from `1` to `at` then holds what
/// the row above it held, so what stood on top of the cleared row now stands
/// in its place; row `0` and the rows below `at` are as before.
pub proof fn lemma_clear_one_row(grid: Seq<Seq<u8>>, at: int)
    requires
        grid.len() == 16,
        0 <= at < 16,
    ensures
        cleared(grid, set![at]) == shifted(grid, at),
        forall|row: int| 1 <= row <= at ==> #[trigger] cleared(grid, set![at])[row] == grid[row - 1],
        forall|row: int| at < row < 16 ==> #[trigger] cleared(grid, set![at])[row] == grid[row],
        cleared(grid, set![at])[0] == grid[0],
{
    lemma_clear_one_row_upto(grid, at, 16);
}

/// Step of [`lemma_clear_one_row`]: nothing happens before row `at` is
/// reached, and nothing after it has been taken out.
proof fn lemma_clear_one_row_upto(grid: Seq<Seq<u8>>, at: int, upto: int)
    requires
        grid.len() == 16,
        0 <= at < 16,
        0 <= upto <= 16,
    ensures
        upto > at ==> cleared_upto(grid, set![at], upto) == shifted(grid, at),
        upto <= at ==> cleared_upto(grid, set![at], upto) == grid,
    decreases upto,
{
    if upto > 0 {
        lemma_clear_one_row_upto(grid, at, upto - 1);
    }
}

/// Filling a row by locking a block and then clearing it: when the lock
/// leaves exactly row `at` full, what stood on top of that row afterwards
/// stands in its place, the rows above have moved down by one, the top row
/// and the rows below are as the lock left them, the walls are intact, and
/// no full row is left.
pub proof fn lemma_lock_fill_clear(grid: Seq<Seq<u8>>, block: Block, at: int)
    requires
        walled(grid),
        block.wf(),
        inside_well(block),
        1 <= at < 16,
        full_row_set(locked(grid, block)) == set![at],
    ensures
        walled(cleared(locked(grid, block), full_row_set(locked(grid, block)))),
        forall|row: int|
            1 <= row <= at ==> #[trigger] cleared(
                locked(grid, block),
                full_row_set(locked(grid, block)),
            )[row] == locked(grid, block)[row - 1],
        forall|row: int|
            at < row < 16 ==> #[trigger] cleared(
                locked(grid, block),
                full_row_set(locked(grid, block)),
            )[row] == locked(grid, block)[row],
        cleared(locked(grid, block), full_row_set(locked(grid, block)))[0] == locked(
            grid,
            block,
        )[0],
        full_row_set(cleared(locked(grid, block), full_row_set(locked(grid, block))))
            == Set::<int>::empty(),
{
    let filled = locked(grid, block);
    crate::board::lemma_lock_keeps_walls(grid, block);
    crate::board::lemma_clear_keeps_walls(filled, full_row_set(filled), 16);
    lemma_clear_one_row(filled, at);
    assert(!row_full(filled, 0)) by {
        if row_full(filled, 0) {
            assert(full_row_set(filled).contains(0));
        }
    }
    assert(board_sized(filled)) by {
        assert forall|row: int| 0 <= row < 16 implies (#[trigger] filled[row]).len() == 12 by {
            assert(crate::board::row_walled(filled[row]));
        }
    }
    lemma_clear_leaves_no_full_row(filled);
}

/// Clearing with no row marked, or with only row `0` marked, changes
/// nothing.
pub proof fn lemma_clear_nothing(grid: Seq<Seq<u8>>, rows: Set<int>, upto: int)
    requires
        grid.len() == 16,
        0 <= upto <= 16,
        forall|row: int| 1 <= row < 16 ==> !rows.contains(row),
    ensures
        cleared_upto(grid, rows, upto) == grid,
    decreases upto,
{
    if upto > 0 {
        lemma_clear_nothing(grid, rows, upto - 1);
        if upto == 1 && rows.contains(0) {
            assert(shifted(grid, 0) =~= grid);
        }
    }
}

/// After the full rows have been taken out of a board whose top row is not
/// full, no row is full.
pub proof fn lemma_clear_leaves_no_full_row(grid: Seq<Seq<u8>>)
    requires
        board_sized(grid),
        !row_full(grid, 0),
    ensures
        full_row_set(cleared(grid, full_row_set(grid))) == Set::<int>::empty(),
{
    let rows = full_row_set(grid);
    let after = cleared(grid, rows);
    lemma_cleared_rows(grid, rows);
    assert forall|i: int| 0 <= i < 16 implies !row_full(after, i) by {
        assert(from_staying_row(grid, rows, after[i]));
        let j = choose|j: int| stays(rows, j) && after[i] == #[trigger] grid[j];
        assert(!row_full(grid, j));
        if row_full(after, i) {
            assert forall|col: int| 1 <= col <= 10 implies #[trigger] grid[j][col] != 0 by {
                assert(after[i][col] != 0);
            }
        }
    }
    assert(full_row_set(after) =~= Set::<int>::empty());
}

/// Clearing never touches the top row, so it neither ends the game nor saves
/// it.
pub proof fn lemma_clear_keeps_top_row(grid: Seq<Seq<u8>>, rows: Set<int>)
    requires
        grid.len() == 16,
    ensures
        cleared(grid, rows)[0] == grid[0],
        top_row_taken(cleared(grid, rows)) == top_row_taken(grid),
{
    lemma_cleared_rows(grid, rows);
    lemma_taken_between_bound(rows, 0, 16);
    let after = cleared(grid, rows);
    assert(after[0] == grid[0]);
    if top_row_taken(grid) {
        let col = choose|col: int| 1 <= col <= 10 && #[trigger] grid[0][col] != 0;
        assert(after[0][col] != 0);
    }
    if top_row_taken(after) {
        let col = choose|col: int| 1 <= col <= 10 && #[trigger] after[0][col] != 0;
        assert(grid[0][col] != 0);
    }
}

} // verus!
