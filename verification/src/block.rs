//! Blocks, the cells of the world grid, and chunks, the 8×8 tiles in which the
//! world is stored and streamed.

use vstd::array::spec_array_fill_for_copy_type;
use vstd::prelude::*;

verus! {

/// Edge length of a chunk, in blocks.
pub const CHUNK_SIZE: u64 = 8;

/// The terrain a block is made of.
#[derive(Clone, Copy, Debug, PartialEq, Eq, Structural)]
pub enum BlockCode {
    SimpleSlab,
    SimpleWall,
}

/// The direction a block or an entity faces.
#[derive(Clone, Copy, Debug, PartialEq, Eq, Structural)]
pub enum Orientation {
    Up,
    Down,
    Left,
    Right,
}

/// One cell of the world grid.
#[derive(Clone, Copy, Debug, PartialEq, Eq, Structural)]
pub struct Block {
    pub block_code: BlockCode,
    pub orientation: Orientation,
}

/// The grid of blocks that a chunk holds, indexed by local x, then local y.
pub type BlockGrid = [[Block; 8]; 8];

/// The grid every block of which is `block`.
pub open spec fn filled_grid(block: Block) -> BlockGrid {
    spec_array_fill_for_copy_type::<[Block; 8], 8>(spec_array_fill_for_copy_type::<Block, 8>(block))
}

/// Every block of `filled_grid(block)` is `block`, and it is the one grid
/// of which that holds.
pub proof fn lemma_filled_grid(block: Block)
    ensures
        grid_filled_with(filled_grid(block), block),
        forall|grid: BlockGrid| grid_filled_with(grid, block) ==> grid == filled_grid(block),
{
    broadcast use vstd::array::group_array_axioms;

    let full = filled_grid(block);
    let column = spec_array_fill_for_copy_type::<Block, 8>(block);
    assert forall|i: int, j: int| 0 <= i < 8 && 0 <= j < 8 implies #[trigger] full[i][j]
        == block by {
        assert(full[i] == column);
        assert(column[j] == block);
    }
    assert forall|grid: BlockGrid| grid_filled_with(grid, block) implies grid == full by {
        assert forall|i: int| 0 <= i < 8 implies grid[i] == full[i] by {
            assert forall|j: int| 0 <= j < 8 implies grid[i][j] == full[i][j] by {
                assert(grid[i][j] == block);
                assert(full[i][j] == block);
            }
            assert(grid[i] =~= full[i]);
        }
        assert(grid =~= full);
    }
}

/// Holds when every block of `grid` is `block`.
pub open spec fn grid_filled_with(grid: BlockGrid, block: Block) -> bool {
    forall|i: int, j: int| 0 <= i < 8 && 0 <= j < 8 ==> #[trigger] grid[i][j] == block
}

impl BlockCode {
    /// The terrain with the given numeric code.
    pub open spec fn spec_from(code: u16) -> BlockCode {
        if code == 1 {
            BlockCode::SimpleSlab
        } else {
            BlockCode::SimpleWall
        }
    }

    /// The terrain with the given numeric code: 1 for a slab, 2 for a wall.
    pub fn from(code: u16) -> (r: BlockCode)
        requires
            code == 1 || code == 2,
        ensures
            r == Self::spec_from(code),
    {
        if code == 1 {
            BlockCode::SimpleSlab
        } else {
            BlockCode::SimpleWall
        }
    }
}

impl Orientation {
    /// The direction with the given numeric code.
    pub open spec fn spec_from(code: u8) -> Orientation {
        if code == 1 {
            Orientation::Up
        } else if code == 2 {
            Orientation::Right
        } else if code == 3 {
            Orientation::Down
        } else {
            Orientation::Left
        }
    }

    /// The direction with the given numeric code: 1 up, 2 right, 3 down,
    /// 4 left.
    pub fn from(code: u8) -> (r: Orientation)
        requires
            1 <= code <= 4,
        ensures
            r == Self::spec_from(code),
    {
        if code == 1 {
            Orientation::Up
        } else if code == 2 {
            Orientation::Right
        } else if code == 3 {
            Orientation::Down
        } else {
            Orientation::Left
        }
    }
}

impl Block {
    /// Walls stop movement, slabs do not.
    pub open spec fn spec_is_solid(self) -> bool {
        self.block_code == BlockCode::SimpleWall
    }

    /// The block that fills the world where nothing was written.
    pub open spec fn spec_default() -> Block {
        Block { block_code: BlockCode::SimpleSlab, orientation: Orientation::Up }
    }

    /// A block of the given terrain, facing the given direction.
    pub fn new(block_code: BlockCode, orientation: Orientation) -> (r: Self)
        ensures
            r == (Block { block_code, orientation }),
    {
        Self { block_code, orientation }
    }

    /// The terrain of the block.
    pub fn get_block_code(self) -> (r: BlockCode)
        ensures
            r == self.block_code,
    {
        self.block_code
    }

    /// Changes the terrain of the block.
    pub fn set_block_code(&mut self, block_code: BlockCode)
        ensures
            *final(self) == (Block { block_code, orientation: old(self).orientation }),
    {
        self.block_code = block_code;
    }

    /// The direction the block faces.
    pub fn get_orientation(self) -> (r: Orientation)
        ensures
            r == self.orientation,
    {
        self.orientation
    }

    /// Turns the block.
    pub fn set_orientation(&mut self, orientation: Orientation)
        ensures
            *final(self) == (Block { block_code: old(self).block_code, orientation }),
    {
        self.orientation = orientation;
    }

    /// Tells whether the block stops movement.
    pub fn is_solid(&self) -> (r: bool)
        ensures
            r == self.spec_is_solid(),
    {
        match self.block_code {
            BlockCode::SimpleWall => true,
            BlockCode::SimpleSlab => false,
        }
    }
}

impl Default for Chunk {
    /// The chunk at the spawn point, made of default blocks.
    fn default() -> (r: Self)
        ensures
            r == (Chunk {
                x: 9_223_372_036_854_775_808,
                y: 9_223_372_036_854_775_808,
                blocks: filled_grid(Block::spec_default()),
            }),
    {
        Chunk::filled(9_223_372_036_854_775_808, 9_223_372_036_854_775_808, Block::default())
    }
}

impl Default for Block {
    /// A slab that faces up.
    fn default() -> (r: Self)
        ensures
            r == Block::spec_default(),
    {
        Self { block_code: BlockCode::SimpleSlab, orientation: Orientation::Up }
    }
}

/// An 8×8 tile of blocks, placed in the world by the coordinates of its
/// first block.
#[derive(Debug, PartialEq, Clone, Copy)]
pub struct Chunk {
    pub x: u64,
    pub y: u64,
    pub blocks: BlockGrid,
}

impl Chunk {
    /// The block at the given local offsets.
    pub open spec fn block_at(self, local_x: int, local_y: int) -> Block {
        self.blocks[local_x][local_y]
    }

    /// Holds when every block of the chunk is `block`.
    pub open spec fn is_filled_with(self, block: Block) -> bool {
        grid_filled_with(self.blocks, block)
    }

    /// The chunk of the given blocks whose first block is at `(x, y)`.
    pub fn new(x: u64, y: u64, blocks: BlockGrid) -> (r: Self)
        ensures
            r == (Chunk { x, y, blocks }),
    {
        Self { x, y, blocks }
    }

    /// A chunk at the given place, every block of which is `block`.
    pub fn filled(x: u64, y: u64, block: Block) -> (r: Self)
        ensures
            r == (Chunk { x, y, blocks: filled_grid(block) }),
            r.is_filled_with(block),
    {
        proof {
            lemma_filled_grid(block);
        }
        Self { x, y, blocks: [[block; 8]; 8] }
    }

    /// Reads the block at the given local offsets.
    pub fn get(&self, local_x: usize, local_y: usize) -> (r: Block)
        requires
            local_x < 8,
            local_y < 8,
        ensures
            r == self.block_at(local_x as int, local_y as int),
    {
        self.blocks[local_x][local_y]
    }

    /// Writes the block at the given local offsets.
    pub fn set(&mut self, local_x: usize, local_y: usize, block: Block)
        requires
            local_x < 8,
            local_y < 8,
        ensures
            final(self).x == old(self).x,
            final(self).y == old(self).y,
            final(self).block_at(local_x as int, local_y as int) == block,
            forall|i: int, j: int|
                0 <= i < 8 && 0 <= j < 8 && !(i == local_x && j == local_y)
                    ==> #[trigger] final(self).blocks[i][j] == old(self).blocks[i][j],
    {
        let mut column = self.blocks[local_x];
        column[local_y] = block;
        self.blocks[local_x] = column;
    }
}

} // verus!
