//! The seven tetrominoes: their shape table and the falling block.

use vstd::prelude::*;

verus! {

/// One unit of game time: a thousandth of a nominal frame, of which there are
/// sixty to the second.
pub const FRAME: u32 = 1000;

/// Time a block rests on a row before gravity pulls it down one more.
pub const GRAVITY_DELAY: u32 = 45000;

/// Column at which a block enters the well.
pub const SPAWN_X: i32 = 5;

/// Row at which a block enters the well.
pub const SPAWN_Y: i32 = 0;

/// Column of the side slot that shows the upcoming block.
pub const PREVIEW_X: i32 = 13;

/// Row of the side slot that shows the upcoming block.
pub const PREVIEW_Y: i32 = 1;

/// Number of shapes.
pub const SHAPES: u8 = 7;

/// The kind of a tetromino.
#[derive(Copy, Clone, Debug, PartialEq, Eq, Structural)]
pub enum BlockShape {
    I,
    O,
    T,
    J,
    L,
    S,
    Z,
}

/// A cell coordinate in units of board cells; `x` counts columns from the
/// left wall, `y` counts rows from the top.
#[derive(Copy, Clone, Debug, PartialEq, Eq, Structural)]
pub struct Position {
    pub x: i32,
    pub y: i32,
}

/// A tetromino in play or waiting in a side slot.
#[derive(Copy, Clone, Debug, PartialEq, Eq, Structural)]
pub struct Block {
    /// Board coordinate of the top-left corner of the 4x4 shape grid.
    pub position: Position,
    /// Quarter turns clockwise, always below four.
    pub rotation: u8,
    pub block_shape: BlockShape,
    /// Time left until gravity moves the block down a row.
    pub gravity_timer: u32,
    /// Time left until a held direction key moves the block again.
    pub movement_timer: u32,
}

/// The 4x4 grid of a shape at a rotation, row by row: `0` is empty, any other
/// value is the colour id of the shape. Rotations of four and more read as
/// rotation three.
pub open spec fn shape_of(shape: BlockShape, rotation: u8) -> Seq<Seq<u8>> {
    match shape {
        BlockShape::I => match rotation {
            0 => seq![seq![0u8, 1, 0, 0], seq![0u8, 1, 0, 0], seq![0u8, 1, 0, 0], seq![0u8, 1, 0, 0]],
            1 => seq![seq![0u8, 0, 0, 0], seq![1u8, 1, 1, 1], seq![0u8, 0, 0, 0], seq![0u8, 0, 0, 0]],
            2 => seq![seq![0u8, 0, 1, 0], seq![0u8, 0, 1, 0], seq![0u8, 0, 1, 0], seq![0u8, 0, 1, 0]],
            _ => seq![seq![0u8, 0, 0, 0], seq![0u8, 0, 0, 0], seq![1u8, 1, 1, 1], seq![0u8, 0, 0, 0]],
        },
        BlockShape::O => seq![
            seq![0u8, 0, 0, 0],
            seq![0u8, 2, 2, 0],
            seq![0u8, 2, 2, 0],
            seq![0u8, 0, 0, 0],
        ],
        BlockShape::T => match rotation {
            0 => seq![seq![0u8, 3, 0, 0], seq![3u8, 3, 3, 0], seq![0u8, 0, 0, 0], seq![0u8, 0, 0, 0]],
            1 => seq![seq![0u8, 3, 0, 0], seq![0u8, 3, 3, 0], seq![0u8, 3, 0, 0], seq![0u8, 0, 0, 0]],
            2 => seq![seq![0u8, 0, 0, 0], seq![3u8, 3, 3, 0], seq![0u8, 3, 0, 0], seq![0u8, 0, 0, 0]],
            _ => seq![seq![0u8, 3, 0, 0], seq![3u8, 3, 0, 0], seq![0u8, 3, 0, 0], seq![0u8, 0, 0, 0]],
        },
        BlockShape::J => match rotation {
            0 => seq![seq![0u8, 4, 0, 0], seq![0u8, 4, 0, 0], seq![4u8, 4, 0, 0], seq![0u8, 0, 0, 0]],
            1 => seq![seq![4u8, 0, 0, 0], seq![4u8, 4, 4, 0], seq![0u8, 0, 0, 0], seq![0u8, 0, 0, 0]],
            2 => seq![seq![0u8, 4, 4, 0], seq![0u8, 4, 0, 0], seq![0u8, 4, 0, 0], seq![0u8, 0, 0, 0]],
            _ => seq![seq![0u8, 0, 0, 0], seq![4u8, 4, 4, 0], seq![0u8, 0, 4, 0], seq![0u8, 0, 0, 0]],
        },
        BlockShape::L => match rotation {
            0 => seq![seq![0u8, 5, 0, 0], seq![0u8, 5, 0, 0], seq![0u8, 5, 5, 0], seq![0u8, 0, 0, 0]],
            1 => seq![seq![0u8, 0, 0, 0], seq![5u8, 5, 5, 0], seq![5u8, 0, 0, 0], seq![0u8, 0, 0, 0]],
            2 => seq![seq![5u8, 5, 0, 0], seq![0u8, 5, 0, 0], seq![0u8, 5, 0, 0], seq![0u8, 0, 0, 0]],
            _ => seq![seq![0u8, 0, 5, 0], seq![5u8, 5, 5, 0], seq![0u8, 0, 0, 0], seq![0u8, 0, 0, 0]],
        },
        BlockShape::S => match rotation {
            0 => seq![seq![0u8, 6, 6, 0], seq![6u8, 6, 0, 0], seq![0u8, 0, 0, 0], seq![0u8, 0, 0, 0]],
            1 => seq![seq![0u8, 6, 0, 0], seq![0u8, 6, 6, 0], seq![0u8, 0, 6, 0], seq![0u8, 0, 0, 0]],
            2 => seq![seq![0u8, 0, 0, 0], seq![0u8, 6, 6, 0], seq![6u8, 6, 0, 0], seq![0u8, 0, 0, 0]],
            _ => seq![seq![6u8, 0, 0, 0], seq![6u8, 6, 0, 0], seq![0u8, 6, 0, 0], seq![0u8, 0, 0, 0]],
        },
        BlockShape::Z => match rotation {
            0 => seq![seq![7u8, 7, 0, 0], seq![0u8, 7, 7, 0], seq![0u8, 0, 0, 0], seq![0u8, 0, 0, 0]],
            1 => seq![seq![0u8, 0, 7, 0], seq![0u8, 7, 7, 0], seq![0u8, 7, 0, 0], seq![0u8, 0, 0, 0]],
            2 => seq![seq![0u8, 0, 0, 0], seq![7u8, 7, 0, 0], seq![0u8, 7, 7, 0], seq![0u8, 0, 0, 0]],
            _ => seq![seq![0u8, 7, 0, 0], seq![7u8, 7, 0, 0], seq![7u8, 0, 0, 0], seq![0u8, 0, 0, 0]],
        },
    }
}

/// Whether cell (`row`, `col`) of a 4x4 shape grid is part of the shape.
pub open spec fn occupied(grid: Seq<Seq<u8>>, row: int, col: int) -> bool {
    0 <= row < 4 && 0 <= col < 4 && grid[row][col] != 0
}

/// One for a filled cell, zero for an empty one.
pub open spec fn filled(cell: u8) -> nat {
    if cell != 0 {
        1
    } else {
        0
    }
}

/// Number of filled cells in one row of a shape grid.
pub open spec fn row_cells(row: Seq<u8>) -> nat {
    filled(row[0]) + filled(row[1]) + filled(row[2]) + filled(row[3])
}

/// Number of filled cells in a shape grid.
pub open spec fn cell_count(grid: Seq<Seq<u8>>) -> nat {
    row_cells(grid[0]) + row_cells(grid[1]) + row_cells(grid[2]) + row_cells(grid[3])
}

impl BlockShape {
    /// The value that cells of this shape carry, on the shape grid and on the
    /// board once locked: one more than the shape's place in the enum.
    pub open spec fn color_id(self) -> u8 {
        match self {
            BlockShape::I => 1,
            BlockShape::O => 2,
            BlockShape::T => 3,
            BlockShape::J => 4,
            BlockShape::L => 5,
            BlockShape::S => 6,
            BlockShape::Z => 7,
        }
    }

    /// The shape chosen by a draw: `0` to `6` name the shapes in order, and
    /// any other number falls back to `I`.
    pub open spec fn of_index(index: u8) -> BlockShape {
        match index {
            0 => BlockShape::I,
            1 => BlockShape::O,
            2 => BlockShape::T,
            3 => BlockShape::J,
            4 => BlockShape::L,
            5 => BlockShape::S,
            6 => BlockShape::Z,
            _ => BlockShape::I,
        }
    }

    /// Colour id of the shape, `1` to `7`.
    pub fn color(self) -> (id: u8)
        ensures
            id == self.color_id(),
            1 <= id <= 7,
    {
        match self {
            BlockShape::I => 1,
            BlockShape::O => 2,
            BlockShape::T => 3,
            BlockShape::J => 4,
            BlockShape::L => 5,
            BlockShape::S => 6,
            BlockShape::Z => 7,
        }
    }

    /// Maps a draw from `0..7` to a shape; see [`BlockShape::of_index`].
    pub fn from_index(index: u8) -> (shape: BlockShape)
        ensures
            shape == BlockShape::of_index(index),
    {
        match index {
            0 => BlockShape::I,
            1 => BlockShape::O,
            2 => BlockShape::T,
            3 => BlockShape::J,
            4 => BlockShape::L,
            5 => BlockShape::S,
            6 => BlockShape::Z,
            _ => BlockShape::I,
        }
    }
}

/// Looks up the 4x4 grid of a shape at a rotation in the shape table; see
/// [`shape_of`].
pub fn shape_grid(shape: BlockShape, rotation: u8) -> (grid: [[u8; 4]; 4])
    requires
        rotation < 4,
    ensures
        grid.deep_view() == shape_of(shape, rotation),
{
    let grid: [[u8; 4]; 4] = match shape {
        BlockShape::I => match rotation {
            0 => [[0, 1, 0, 0], [0, 1, 0, 0], [0, 1, 0, 0], [0, 1, 0, 0]],
            1 => [[0, 0, 0, 0], [1, 1, 1, 1], [0, 0, 0, 0], [0, 0, 0, 0]],
            2 => [[0, 0, 1, 0], [0, 0, 1, 0], [0, 0, 1, 0], [0, 0, 1, 0]],
            _ => [[0, 0, 0, 0], [0, 0, 0, 0], [1, 1, 1, 1], [0, 0, 0, 0]],
        },
        BlockShape::O => [[0, 0, 0, 0], [0, 2, 2, 0], [0, 2, 2, 0], [0, 0, 0, 0]],
        BlockShape::T => match rotation {
            0 => [[0, 3, 0, 0], [3, 3, 3, 0], [0, 0, 0, 0], [0, 0, 0, 0]],
            1 => [[0, 3, 0, 0], [0, 3, 3, 0], [0, 3, 0, 0], [0, 0, 0, 0]],
            2 => [[0, 0, 0, 0], [3, 3, 3, 0], [0, 3, 0, 0], [0, 0, 0, 0]],
            _ => [[0, 3, 0, 0], [3, 3, 0, 0], [0, 3, 0, 0], [0, 0, 0, 0]],
        },
        BlockShape::J => match rotation {
            0 => [[0, 4, 0, 0], [0, 4, 0, 0], [4, 4, 0, 0], [0, 0, 0, 0]],
            1 => [[4, 0, 0, 0], [4, 4, 4, 0], [0, 0, 0, 0], [0, 0, 0, 0]],
            2 => [[0, 4, 4, 0], [0, 4, 0, 0], [0, 4, 0, 0], [0, 0, 0, 0]],
            _ => [[0, 0, 0, 0], [4, 4, 4, 0], [0, 0, 4, 0], [0, 0, 0, 0]],
        },
        BlockShape::L => match rotation {
            0 => [[0, 5, 0, 0], [0, 5, 0, 0], [0, 5, 5, 0], [0, 0, 0, 0]],
            1 => [[0, 0, 0, 0], [5, 5, 5, 0], [5, 0, 0, 0], [0, 0, 0, 0]],
            2 => [[5, 5, 0, 0], [0, 5, 0, 0], [0, 5, 0, 0], [0, 0, 0, 0]],
            _ => [[0, 0, 5, 0], [5, 5, 5, 0], [0, 0, 0, 0], [0, 0, 0, 0]],
        },
        BlockShape::S => match rotation {
            0 => [[0, 6, 6, 0], [6, 6, 0, 0], [0, 0, 0, 0], [0, 0, 0, 0]],
            1 => [[0, 6, 0, 0], [0, 6, 6, 0], [0, 0, 6, 0], [0, 0, 0, 0]],
            2 => [[0, 0, 0, 0], [0, 6, 6, 0], [6, 6, 0, 0], [0, 0, 0, 0]],
            _ => [[6, 0, 0, 0], [6, 6, 0, 0], [0, 6, 0, 0], [0, 0, 0, 0]],
        },
        BlockShape::Z => match rotation {
            0 => [[7, 7, 0, 0], [0, 7, 7, 0], [0, 0, 0, 0], [0, 0, 0, 0]],
            1 => [[0, 0, 7, 0], [0, 7, 7, 0], [0, 7, 0, 0], [0, 0, 0, 0]],
            2 => [[0, 0, 0, 0], [7, 7, 0, 0], [0, 7, 7, 0], [0, 0, 0, 0]],
            _ => [[0, 7, 0, 0], [7, 7, 0, 0], [7, 0, 0, 0], [0, 0, 0, 0]],
        },
    };
    assert(grid.deep_view() =~~= shape_of(shape, rotation));
    grid
}

impl Block {
    /// A block is well formed when its rotation is one of the four quarter
    /// turns.
    pub open spec fn wf(&self) -> bool {
        self.rotation < 4
    }

    /// The shape grid of the block at its current rotation.
    pub open spec fn shape(&self) -> Seq<Seq<u8>> {
        shape_of(self.block_shape, self.rotation)
    }

    /// A block of the given shape waiting in the preview slot.
    pub open spec fn fresh(shape: BlockShape) -> Block {
        Block {
            position: Position { x: PREVIEW_X, y: PREVIEW_Y },
            rotation: 0,
            block_shape: shape,
            gravity_timer: GRAVITY_DELAY,
            movement_timer: 0,
        }
    }

    /// A block of the given shape entering the well.
    pub open spec fn spawned(shape: BlockShape) -> Block {
        Block { position: Position { x: SPAWN_X, y: SPAWN_Y }, ..Block::fresh(shape) }
    }

    /// The block at another position, all else kept.
    pub open spec fn at(self, x: i32, y: i32) -> Block {
        Block { position: Position { x, y }, ..self }
    }

    /// The block one row further down.
    pub open spec fn down(self) -> Block {
        self.at(self.position.x, (self.position.y + 1) as i32)
    }

    /// The block `dx` columns further right.
    pub open spec fn beside(self, dx: int) -> Block {
        self.at((self.position.x + dx) as i32, self.position.y)
    }

    /// The block turned a quarter clockwise: rotation three wraps to zero.
    pub open spec fn rotated_cw(self) -> Block {
        Block {
            rotation: if self.rotation >= 3 {
                0
            } else {
                (self.rotation + 1) as u8
            },
            ..self
        }
    }

    /// The block turned a quarter counter-clockwise: rotation zero wraps to
    /// three.
    pub open spec fn rotated_ccw(self) -> Block {
        Block {
            rotation: if self.rotation == 0 {
                3
            } else {
                (self.rotation - 1) as u8
            },
            ..self
        }
    }

    /// Whether the rotation is in range.
    pub fn is_valid(&self) -> (ok: bool)
        ensures
            ok == self.wf(),
    {
        self.rotation < 4
    }

    /// A block of the given shape in the preview slot, unrotated, with a full
    /// gravity delay ahead of it.
    pub fn new(shape: BlockShape) -> (block: Block)
        ensures
            block == Block::fresh(shape),
            block.wf(),
    {
        Block {
            position: Position { x: PREVIEW_X, y: PREVIEW_Y },
            rotation: 0,
            block_shape: shape,
            gravity_timer: GRAVITY_DELAY,
            movement_timer: 0,
        }
    }

    /// A block of the given shape at the spawn cell of the well, unrotated.
    pub fn spawn(shape: BlockShape) -> (block: Block)
        ensures
            block == Block::spawned(shape),
            block.wf(),
    {
        Block {
            position: Position { x: SPAWN_X, y: SPAWN_Y },
            rotation: 0,
            block_shape: shape,
            gravity_timer: GRAVITY_DELAY,
            movement_timer: 0,
        }
    }

    /// The 4x4 grid of the block at its rotation: `0` for empty cells, the
    /// colour id of the shape for filled ones.
    pub fn get_shape(&self) -> (grid: [[u8; 4]; 4])
        requires
            self.wf(),
        ensures
            grid.deep_view() == self.shape(),
            cell_count(grid.deep_view()) == 4,
            forall|row: int, col: int|
                0 <= row < 4 && 0 <= col < 4 ==> #[trigger] grid.deep_view()[row][col] == 0
                    || grid.deep_view()[row][col] == self.block_shape.color_id(),
    {
        proof {
            lemma_shape_cells(self.block_shape, self.rotation);
        }
        shape_grid(self.block_shape, self.rotation)
    }

    /// Turns the block a quarter clockwise. The caller tests for a collision
    /// afterwards and takes the turn back with [`Block::rotate_ccw`] if there
    /// is one: no other position is tried.
    pub fn rotate_cw(&mut self)
        ensures
            *final(self) == old(self).rotated_cw(),
            final(self).wf(),
    {
        if self.rotation >= 3 {
            self.rotation = 0;
        } else {
            self.rotation = self.rotation + 1;
        }
    }

    /// Turns the block a quarter counter-clockwise.
    pub fn rotate_ccw(&mut self)
        ensures
            *final(self) == old(self).rotated_ccw(),
            old(self).wf() ==> final(self).wf(),
    {
        if self.rotation == 0 {
            self.rotation = 3;
        } else {
            self.rotation = self.rotation - 1;
        }
    }
}

/// A 4x4 grid with exactly four filled cells, each carrying the colour `id`.
pub open spec fn four_cells_of(grid: Seq<Seq<u8>>, id: u8) -> bool {
    &&& grid.len() == 4
    &&& forall|row: int| 0 <= row < 4 ==> (#[trigger] grid[row]).len() == 4
    &&& cell_count(grid) == 4
    &&& forall|row: int, col: int|
        0 <= row < 4 && 0 <= col < 4 ==> #[trigger] grid[row][col] == 0 || grid[row][col] == id
}

/// Every shape at every rotation is a 4x4 grid with exactly four filled
/// cells, each carrying the colour id of the shape.
pub proof fn lemma_shape_cells(shape: BlockShape, rotation: u8)
    requires
        rotation < 4,
    ensures
        four_cells_of(shape_of(shape, rotation), shape.color_id()),
        shape_of(shape, rotation).len() == 4,
        forall|row: int| 0 <= row < 4 ==> (#[trigger] shape_of(shape, rotation)[row]).len() == 4,
        cell_count(shape_of(shape, rotation)) == 4,
        forall|row: int, col: int|
            0 <= row < 4 && 0 <= col < 4 ==> #[trigger] shape_of(shape, rotation)[row][col] == 0
                || shape_of(shape, rotation)[row][col] == shape.color_id(),
{
    // One shape at a time, so that each grid is looked at on its own.
    match shape {
        BlockShape::I => assert(four_cells_of(shape_of(BlockShape::I, rotation), 1)),
        BlockShape::O => assert(four_cells_of(shape_of(BlockShape::O, rotation), 2)),
        BlockShape::T => assert(four_cells_of(shape_of(BlockShape::T, rotation), 3)),
        BlockShape::J => assert(four_cells_of(shape_of(BlockShape::J, rotation), 4)),
        BlockShape::L => assert(four_cells_of(shape_of(BlockShape::L, rotation), 5)),
        BlockShape::S => assert(four_cells_of(shape_of(BlockShape::S, rotation), 6)),
        BlockShape::Z => assert(four_cells_of(shape_of(BlockShape::Z, rotation), 7)),
    }
}

/// Every shape at every rotation has a filled cell.
pub proof fn lemma_shape_has_cell(shape: BlockShape, rotation: u8)
    requires
        rotation < 4,
    ensures
        exists|row: int, col: int| occupied(shape_of(shape, rotation), row, col),
{
    let grid = shape_of(shape, rotation);
    lemma_shape_cells(shape, rotation);
    if occupied(grid, 0, 0) || occupied(grid, 0, 1) || occupied(grid, 0, 2) || occupied(grid, 0, 3) {
    } else if occupied(grid, 1, 0) || occupied(grid, 1, 1) || occupied(grid, 1, 2) || occupied(
        grid,
        1,
        3,
    ) {
    } else if occupied(grid, 2, 0) || occupied(grid, 2, 1) || occupied(grid, 2, 2) || occupied(
        grid,
        2,
        3,
    ) {
    } else {
        assert(occupied(grid, 3, 0) || occupied(grid, 3, 1) || occupied(grid, 3, 2) || occupied(
            grid,
            3,
            3,
        ));
    }
}

/// Four quarter turns clockwise bring a block back to where it started, and
/// so does a turn followed by the opposite turn.
pub proof fn lemma_rotation_cycles(block: Block)
    requires
        block.wf(),
    ensures
        block.rotated_cw().rotated_cw().rotated_cw().rotated_cw() == block,
        block.rotated_cw().rotated_cw().rotated_cw().rotated_cw().shape() == block.shape(),
        block.rotated_cw().rotated_ccw() == block,
        block.rotated_cw().wf(),
{
}

/// The shape `O` looks the same at every rotation.
pub proof fn lemma_square_ignores_rotation(a: u8, b: u8)
    ensures
        shape_of(BlockShape::O, a) == shape_of(BlockShape::O, b),
{
}

} // verus!
