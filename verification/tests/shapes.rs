use rstris::block::{
    Block, BlockShape, Position, FRAME, GRAVITY_DELAY, PREVIEW_X, PREVIEW_Y, SHAPES, SPAWN_X,
    SPAWN_Y,
};
use rstris::util::{clamp_range, get_file_path};

const ALL: [BlockShape; 7] = [
    BlockShape::I,
    BlockShape::O,
    BlockShape::T,
    BlockShape::J,
    BlockShape::L,
    BlockShape::S,
    BlockShape::Z,
];

fn grid(shape: BlockShape, rotation: u8) -> [[u8; 4]; 4] {
    let mut block = Block::spawn(shape);
    block.rotation = rotation;
    block.get_shape()
}

#[test]
fn bar_grids() {
    assert_eq!(grid(BlockShape::I, 0), [[0, 1, 0, 0], [0, 1, 0, 0], [0, 1, 0, 0], [0, 1, 0, 0]]);
    assert_eq!(grid(BlockShape::I, 1), [[0, 0, 0, 0], [1, 1, 1, 1], [0, 0, 0, 0], [0, 0, 0, 0]]);
    assert_eq!(grid(BlockShape::I, 2), [[0, 0, 1, 0], [0, 0, 1, 0], [0, 0, 1, 0], [0, 0, 1, 0]]);
    assert_eq!(grid(BlockShape::I, 3), [[0, 0, 0, 0], [0, 0, 0, 0], [1, 1, 1, 1], [0, 0, 0, 0]]);
}

#[test]
fn square_grid_is_the_same_at_every_rotation() {
    for rotation in 0..4 {
        assert_eq!(
            grid(BlockShape::O, rotation),
            [[0, 0, 0, 0], [0, 2, 2, 0], [0, 2, 2, 0], [0, 0, 0, 0]]
        );
    }
}

#[test]
fn tee_grids() {
    assert_eq!(grid(BlockShape::T, 0), [[0, 3, 0, 0], [3, 3, 3, 0], [0, 0, 0, 0], [0, 0, 0, 0]]);
    assert_eq!(grid(BlockShape::T, 1), [[0, 3, 0, 0], [0, 3, 3, 0], [0, 3, 0, 0], [0, 0, 0, 0]]);
    assert_eq!(grid(BlockShape::T, 2), [[0, 0, 0, 0], [3, 3, 3, 0], [0, 3, 0, 0], [0, 0, 0, 0]]);
    assert_eq!(grid(BlockShape::T, 3), [[0, 3, 0, 0], [3, 3, 0, 0], [0, 3, 0, 0], [0, 0, 0, 0]]);
}

#[test]
fn jay_grids() {
    assert_eq!(grid(BlockShape::J, 0), [[0, 4, 0, 0], [0, 4, 0, 0], [4, 4, 0, 0], [0, 0, 0, 0]]);
    assert_eq!(grid(BlockShape::J, 1), [[4, 0, 0, 0], [4, 4, 4, 0], [0, 0, 0, 0], [0, 0, 0, 0]]);
    assert_eq!(grid(BlockShape::J, 2), [[0, 4, 4, 0], [0, 4, 0, 0], [0, 4, 0, 0], [0, 0, 0, 0]]);
    assert_eq!(grid(BlockShape::J, 3), [[0, 0, 0, 0], [4, 4, 4, 0], [0, 0, 4, 0], [0, 0, 0, 0]]);
}

#[test]
fn ell_grids() {
    assert_eq!(grid(BlockShape::L, 0), [[0, 5, 0, 0], [0, 5, 0, 0], [0, 5, 5, 0], [0, 0, 0, 0]]);
    assert_eq!(grid(BlockShape::L, 1), [[0, 0, 0, 0], [5, 5, 5, 0], [5, 0, 0, 0], [0, 0, 0, 0]]);
    assert_eq!(grid(BlockShape::L, 2), [[5, 5, 0, 0], [0, 5, 0, 0], [0, 5, 0, 0], [0, 0, 0, 0]]);
    assert_eq!(grid(BlockShape::L, 3), [[0, 0, 5, 0], [5, 5, 5, 0], [0, 0, 0, 0], [0, 0, 0, 0]]);
}

#[test]
fn ess_grids() {
    assert_eq!(grid(BlockShape::S, 0), [[0, 6, 6, 0], [6, 6, 0, 0], [0, 0, 0, 0], [0, 0, 0, 0]]);
    assert_eq!(grid(BlockShape::S, 1), [[0, 6, 0, 0], [0, 6, 6, 0], [0, 0, 6, 0], [0, 0, 0, 0]]);
    assert_eq!(grid(BlockShape::S, 2), [[0, 0, 0, 0], [0, 6, 6, 0], [6, 6, 0, 0], [0, 0, 0, 0]]);
    assert_eq!(grid(BlockShape::S, 3), [[6, 0, 0, 0], [6, 6, 0, 0], [0, 6, 0, 0], [0, 0, 0, 0]]);
}

#[test]
fn zed_grids() {
    assert_eq!(grid(BlockShape::Z, 0), [[7, 7, 0, 0], [0, 7, 7, 0], [0, 0, 0, 0], [0, 0, 0, 0]]);
    assert_eq!(grid(BlockShape::Z, 1), [[0, 0, 7, 0], [0, 7, 7, 0], [0, 7, 0, 0], [0, 0, 0, 0]]);
    assert_eq!(grid(BlockShape::Z, 2), [[0, 0, 0, 0], [7, 7, 0, 0], [0, 7, 7, 0], [0, 0, 0, 0]]);
    assert_eq!(grid(BlockShape::Z, 3), [[0, 7, 0, 0], [7, 7, 0, 0], [7, 0, 0, 0], [0, 0, 0, 0]]);
}

#[test]
fn every_grid_has_four_cells_of_the_shape_colour() {
    for shape in ALL {
        for rotation in 0..4 {
            let cells = grid(shape, rotation);
            let mut count = 0;
            for row in cells {
                for cell in row {
                    if cell != 0 {
                        assert_eq!(cell, shape.color());
                        count += 1;
                    }
                }
            }
            assert_eq!(count, 4, "{:?} at rotation {}", shape, rotation);
        }
    }
}

#[test]
fn colours_follow_the_order_of_the_shapes() {
    let ids: Vec<u8> = ALL.iter().map(|shape| shape.color()).collect();
    assert_eq!(ids, vec![1, 2, 3, 4, 5, 6, 7]);
}

#[test]
fn there_are_seven_shapes() {
    assert_eq!(SHAPES, 7);
    assert_eq!(ALL.len(), SHAPES as usize);
}

#[test]
fn draws_name_the_shapes_in_order() {
    for (index, shape) in ALL.iter().enumerate() {
        assert_eq!(BlockShape::from_index(index as u8), *shape);
    }
}

#[test]
fn a_draw_out_of_range_falls_back_to_the_bar() {
    assert_eq!(BlockShape::from_index(7), BlockShape::I);
    assert_eq!(BlockShape::from_index(255), BlockShape::I);
}

#[test]
fn a_new_block_waits_in_the_preview_slot() {
    let block = Block::new(BlockShape::S);
    assert_eq!(
        block,
        Block {
            position: Position { x: 13, y: 1 },
            rotation: 0,
            block_shape: BlockShape::S,
            gravity_timer: 45000,
            movement_timer: 0,
        }
    );
    assert_eq!((PREVIEW_X, PREVIEW_Y), (13, 1));
    assert_eq!(GRAVITY_DELAY, 45 * FRAME);
}

#[test]
fn a_spawned_block_stands_at_the_spawn_cell() {
    let block = Block::spawn(BlockShape::L);
    assert_eq!(
        block,
        Block {
            position: Position { x: 5, y: 0 },
            rotation: 0,
            block_shape: BlockShape::L,
            gravity_timer: 45000,
            movement_timer: 0,
        }
    );
    assert_eq!((SPAWN_X, SPAWN_Y), (5, 0));
    assert!(block.is_valid());
}

#[test]
fn rotation_wraps_in_both_directions() {
    let mut block = Block::spawn(BlockShape::T);
    let mut seen = Vec::new();
    for _ in 0..5 {
        block.rotate_cw();
        seen.push(block.rotation);
    }
    assert_eq!(seen, vec![1, 2, 3, 0, 1]);
    block.rotation = 0;
    block.rotate_ccw();
    assert_eq!(block.rotation, 3);
    block.rotate_ccw();
    assert_eq!(block.rotation, 2);
}

#[test]
fn four_turns_bring_every_block_back() {
    for shape in ALL {
        for rotation in 0..4 {
            let mut block = Block::spawn(shape);
            block.rotation = rotation;
            let start = block;
            let cells = block.get_shape();
            for _ in 0..4 {
                block.rotate_cw();
            }
            assert_eq!(block, start);
            assert_eq!(block.get_shape(), cells);
        }
    }
}

#[test]
fn a_turn_keeps_place_and_timers() {
    let mut block = Block::spawn(BlockShape::J);
    block.position = Position { x: 3, y: 9 };
    block.gravity_timer = 17;
    block.movement_timer = 4;
    block.rotate_cw();
    assert_eq!(
        block,
        Block {
            position: Position { x: 3, y: 9 },
            rotation: 1,
            block_shape: BlockShape::J,
            gravity_timer: 17,
            movement_timer: 4,
        }
    );
}

#[test]
fn a_rotation_out_of_range_is_not_valid() {
    let mut block = Block::spawn(BlockShape::I);
    block.rotation = 4;
    assert!(!block.is_valid());
    block.rotate_cw();
    assert_eq!(block.rotation, 0);
}

#[test]
fn random_blocks_are_fresh_blocks_of_some_shape() {
    let mut seen = [false; 8];
    for _ in 0..500 {
        let block = Block::default();
        assert_eq!(block, Block::new(block.block_shape));
        seen[block.block_shape.color() as usize] = true;
    }
    assert_eq!(seen, [false, true, true, true, true, true, true, true]);
}

#[test]
fn random_shapes_vary() {
    let first = BlockShape::random();
    let mut differs = false;
    for _ in 0..500 {
        if BlockShape::random() != first {
            differs = true;
        }
    }
    assert!(differs);
}

#[test]
fn clamp_range_limits_to_both_ends() {
    assert_eq!(clamp_range(0, -3, 16), 0);
    assert_eq!(clamp_range(0, 7, 16), 7);
    assert_eq!(clamp_range(0, 40, 16), 16);
    assert_eq!(clamp_range(0, 0, 16), 0);
    assert_eq!(clamp_range(0, 16, 16), 16);
}

#[test]
fn clamp_range_tests_the_upper_end_first() {
    assert_eq!(clamp_range(10, 7, 5), 5);
    assert_eq!(clamp_range(10, 3, 5), 10);
}

#[test]
fn clamp_range_passes_incomparable_values_through() {
    let value = clamp_range(0.0, f64::NAN, 1.0);
    assert!(value.is_nan());
    assert_eq!(clamp_range(0.0, 20.5, 20.0), 20.0);
}

#[test]
fn an_asset_is_found_under_the_path_given() {
    assert_eq!(get_file_path("res/img/block.png".to_string()), "res/img/block.png");
    assert_eq!(get_file_path(String::new()), "");
}
