//! Drawing the next shape.

use crate::block::{Block, BlockShape, SHAPES};
use rand::Rng;
use vstd::prelude::*;

verus! {

/// Draws a number below `bound` with the thread-local generator of the
/// `rand` crate: `rand::thread_rng().gen_range(0..bound)`.
///
/// Not verified. `gen_range` is documented to yield a value in the given
/// range and to panic only on an empty one, which `requires` leaves out;
/// nothing is claimed about which value comes back. `thread_rng` panics when
/// the operating system gives the generator no seed, which no argument
/// decides.
#[verifier::external_body]
fn draw_below(bound: u8) -> (index: u8)
    requires
        bound > 0,
    ensures
        index < bound,
{
    rand::thread_rng().gen_range(0..bound)
}

impl BlockShape {
    /// A shape drawn uniformly from the seven, independent of earlier draws.
    pub fn random() -> (shape: BlockShape)
        ensures
            exists|index: u8| index < SHAPES && shape == BlockShape::of_index(index),
    {
        let index = draw_below(SHAPES);
        BlockShape::from_index(index)
    }
}

impl Default for Block {
    /// A block of a randomly drawn shape in the preview slot.
    fn default() -> (block: Block)
        ensures
            block == Block::fresh(block.block_shape),
    {
        Block::new(BlockShape::random())
    }
}

} // verus!
