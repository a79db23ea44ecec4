//! The world store: a sparse collection of chunks, found by the coordinates
//! of their first block, over a default block that fills every place where
//! nothing was written.

use crate::block::filled_grid;
use crate::block::Block;
use crate::block::BlockGrid;
use crate::block::Chunk;
use std::collections::HashMap;
use std::ops::Index;
use std::ops::IndexMut;
use vstd::prelude::*;

verus! {

broadcast use vstd::std_specs::hash::group_hash_axioms;

/// The first coordinate of the chunk that holds the coordinate `v`.
pub open spec fn spec_chunk_origin(v: u64) -> u64 {
    (v - v % 8) as u64
}

/// The first coordinate of the chunk that holds the coordinate `v`.
pub fn chunk_origin(v: u64) -> (r: u64)
    ensures
        r == spec_chunk_origin(v),
        r % 8 == 0,
        r <= v < r + 8,
{
    v - v % 8
}

/// The key under which the chunk that starts at `(origin_x, origin_y)` is
/// stored: the two coordinates side by side in one number.
pub open spec fn spec_key(origin_x: u64, origin_y: u64) -> u128 {
    (origin_x * 0x1_0000_0000_0000_0000 + origin_y) as u128
}

/// The key under which the chunk that starts at `(origin_x, origin_y)` is
/// stored.
fn key_of(origin_x: u64, origin_y: u64) -> (r: u128)
    ensures
        r == spec_key(origin_x, origin_y),
{
    origin_x as u128 * 0x1_0000_0000_0000_0000 + origin_y as u128
}

/// Two places have the same key only where they are the same place.
pub proof fn lemma_key_of_one_place(a: (u64, u64), b: (u64, u64))
    ensures
        spec_key(a.0, a.1) == spec_key(b.0, b.1) <==> a == b,
{
}

/// Holds when `after` is `before` with the one cell at `(local_x, local_y)`
/// replaced by `block`.
pub open spec fn grid_updated(
    before: BlockGrid,
    after: BlockGrid,
    local_x: int,
    local_y: int,
    block: Block,
) -> bool {
    &&& after[local_x][local_y] == block
    &&& forall|i: int, j: int|
        0 <= i < 8 && 0 <= j < 8 && !(i == local_x && j == local_y) ==> #[trigger] after[i][j]
            == before[i][j]
}

/// The sparse grid world: the grids of the chunks that were written, each
/// under the key of the place where it starts.
pub struct WorldMap {
    chunks: HashMap<u128, BlockGrid>,
    default_block: Block,
}

impl WorldMap {
    /// The grids of the chunks that were written, by key.
    pub closed spec fn stored(&self) -> Map<u128, BlockGrid> {
        self.chunks@
    }

    /// The block read wherever no chunk was written.
    pub closed spec fn default_block(&self) -> Block {
        self.default_block
    }

    /// Holds when a chunk that starts at `(origin_x, origin_y)` was written.
    pub open spec fn is_loaded(&self, origin_x: u64, origin_y: u64) -> bool {
        self.stored().contains_key(spec_key(origin_x, origin_y))
    }

    /// The blocks stored for the chunk that starts at
    /// `(origin_x, origin_y)`.
    pub open spec fn grid(&self, origin_x: u64, origin_y: u64) -> BlockGrid {
        self.stored()[spec_key(origin_x, origin_y)]
    }

    /// The number of chunks that were written.
    pub open spec fn chunk_count(&self) -> nat {
        self.stored().len()
    }

    /// The block at world coordinates `(x, y)`: the stored one where the
    /// chunk was written, the default block elsewhere.
    pub open spec fn block_at(&self, x: u64, y: u64) -> Block {
        if self.is_loaded(spec_chunk_origin(x), spec_chunk_origin(y)) {
            self.grid(spec_chunk_origin(x), spec_chunk_origin(y))[(x % 8) as int][(y % 8) as int]
        } else {
            self.default_block()
        }
    }

    /// The chunk that starts at `(origin_x, origin_y)`, as a reader sees it:
    /// the stored blocks, or default blocks where it was never written.
    pub open spec fn spec_chunk(&self, origin_x: u64, origin_y: u64) -> Chunk {
        Chunk {
            x: origin_x,
            y: origin_y,
            blocks: if self.is_loaded(origin_x, origin_y) {
                self.grid(origin_x, origin_y)
            } else {
                filled_grid(self.default_block())
            },
        }
    }

    /// A world in which nothing was written yet.
    pub fn new() -> (r: Self)
        ensures
            r.stored() == Map::<u128, BlockGrid>::empty(),
            r.default_block() == Block::spec_default(),
            r.chunk_count() == 0,
            forall|x: u64, y: u64| !r.is_loaded(x, y),
            forall|x: u64, y: u64| r.block_at(x, y) == Block::spec_default(),
    {
        Self { chunks: HashMap::new(), default_block: Block::default() }
    }

    /// The number of chunks that were written.
    pub fn loaded_chunks(&self) -> (r: usize)
        ensures
            r == self.chunk_count(),
    {
        self.chunks.len()
    }

    /// The chunk that holds `(x, y)`: a copy of the stored one, or a chunk
    /// of default blocks where none was written. The world is left as it is.
    pub fn get_chunk(&self, x: u64, y: u64) -> (r: Chunk)
        ensures
            r == self.spec_chunk(spec_chunk_origin(x), spec_chunk_origin(y)),
            forall|i: u64, j: u64|
                i < 8 && j < 8 ==> r.blocks[i as int][j as int] == #[trigger] self.block_at(
                    (r.x + i) as u64,
                    (r.y + j) as u64,
                ),
    {
        let first_block_x = chunk_origin(x);
        let first_block_y = chunk_origin(y);
        let r = match self.chunks.get(&key_of(first_block_x, first_block_y)) {
            Some(blocks) => Chunk::new(first_block_x, first_block_y, *blocks),
            None => Chunk::filled(first_block_x, first_block_y, self.default_block),
        };
        assert forall|i: u64, j: u64| i < 8 && j < 8 implies r.blocks[i as int][j as int]
            == #[trigger] self.block_at((r.x + i) as u64, (r.y + j) as u64) by {
            let bx = (r.x + i) as u64;
            let by = (r.y + j) as u64;
            assert(spec_chunk_origin(bx) == r.x && bx % 8 == i);
            assert(spec_chunk_origin(by) == r.y && by % 8 == j);
        }
        r
    }

    /// Stores `blocks` as the chunk that holds `(x, y)`, in place of what
    /// was stored there.
    pub fn set_chunk(&mut self, x: u64, y: u64, blocks: BlockGrid)
        ensures
            final(self).stored() == old(self).stored().insert(
                spec_key(spec_chunk_origin(x), spec_chunk_origin(y)),
                blocks,
            ),
            final(self).default_block() == old(self).default_block(),
            final(self).spec_chunk(spec_chunk_origin(x), spec_chunk_origin(y)) == (Chunk {
                x: spec_chunk_origin(x),
                y: spec_chunk_origin(y),
                blocks,
            }),
            forall|ox: u64, oy: u64|
                !(ox == spec_chunk_origin(x) && oy == spec_chunk_origin(y))
                    ==> #[trigger] final(self).spec_chunk(ox, oy) == old(self).spec_chunk(ox, oy),
    {
        let first_block_x = chunk_origin(x);
        let first_block_y = chunk_origin(y);
        let _ = self.chunks.insert(key_of(first_block_x, first_block_y), blocks);
        let ghost after = *self;
        assert forall|ox: u64, oy: u64|
            !(ox == first_block_x && oy == first_block_y) implies #[trigger] after.spec_chunk(
            ox,
            oy,
        ) == old(self).spec_chunk(ox, oy) by {
            lemma_key_of_one_place((ox, oy), (first_block_x, first_block_y));
        }
    }
}

impl vstd::std_specs::core::IndexSpecImpl<(u64, u64)> for WorldMap {
    open spec fn index_req(&self, index: &(u64, u64)) -> bool {
        true
    }
}

impl Index<(u64, u64)> for WorldMap {
    type Output = Block;

    /// The block at the given world coordinates; the default block where no
    /// chunk was written.
    fn index(&self, index: (u64, u64)) -> (r: &Block)
        ensures
            *r == self.block_at(index.0, index.1),
    {
        let (x, y) = index;
        let x_in_chunk = (x % 8) as usize;
        let y_in_chunk = (y % 8) as usize;
        match self.chunks.get(&key_of(chunk_origin(x), chunk_origin(y))) {
            Some(blocks) => &blocks[x_in_chunk][y_in_chunk],
            None => &self.default_block,
        }
    }
}

impl IndexMut<(u64, u64)> for WorldMap {
    /// The block at the given world coordinates, for writing. Where no chunk
    /// was written there yet, one of default blocks is stored first.
    fn index_mut(&mut self, index: (u64, u64)) -> (r: &mut Block)
        ensures
            *r == old(self).block_at(index.0, index.1),
            final(self).block_at(index.0, index.1) == *final(r),
            forall|x: u64, y: u64|
                !(x == index.0 && y == index.1) ==> #[trigger] final(self).block_at(x, y) == old(
                    self,
                ).block_at(x, y),
            final(self).default_block() == old(self).default_block(),
            final(self).is_loaded(spec_chunk_origin(index.0), spec_chunk_origin(index.1)),
            forall|ox: u64, oy: u64|
                !(ox == spec_chunk_origin(index.0) && oy == spec_chunk_origin(index.1))
                    ==> #[trigger] final(self).is_loaded(ox, oy) == old(self).is_loaded(ox, oy),
            grid_updated(
                old(self).spec_chunk(spec_chunk_origin(index.0), spec_chunk_origin(index.1)).blocks,
                final(self).grid(spec_chunk_origin(index.0), spec_chunk_origin(index.1)),
                (index.0 % 8) as int,
                (index.1 % 8) as int,
                *final(r),
            ),
    {
        let (x, y) = index;
        let x_in_chunk = (x % 8) as usize;
        let y_in_chunk = (y % 8) as usize;
        let first_block_x = chunk_origin(x);
        let first_block_y = chunk_origin(y);
        let fresh = Chunk::filled(first_block_x, first_block_y, self.default_block).blocks;
        let ghost after = *final(self);
        let blocks = self.chunks.entry(key_of(first_block_x, first_block_y)).or_insert(fresh);
        let r = &mut blocks[x_in_chunk][y_in_chunk];
        proof {
            WorldMap::lemma_after_write(*old(self), after, (x, y), *final(r));
        }
        r
    }
}

impl WorldMap {
    /// What holds of a world after one block of it was written.
    proof fn lemma_after_write(before: WorldMap, after: WorldMap, at: (u64, u64), block: Block)
        requires
            after.default_block == before.default_block,
            after.chunks@.dom() == before.chunks@.dom().insert(
                spec_key(spec_chunk_origin(at.0), spec_chunk_origin(at.1)),
            ),
            forall|k: u128|
                before.chunks@.contains_key(k) && k != spec_key(
                    spec_chunk_origin(at.0),
                    spec_chunk_origin(at.1),
                ) ==> after.chunks@[k] == before.chunks@[k],
            grid_updated(
                before.spec_chunk(spec_chunk_origin(at.0), spec_chunk_origin(at.1)).blocks,
                after.chunks@[spec_key(spec_chunk_origin(at.0), spec_chunk_origin(at.1))],
                (at.0 % 8) as int,
                (at.1 % 8) as int,
                block,
            ),
        ensures
            after.block_at(at.0, at.1) == block,
            forall|x: u64, y: u64|
                !(x == at.0 && y == at.1) ==> #[trigger] after.block_at(x, y) == before.block_at(
                    x,
                    y,
                ),
            after.is_loaded(spec_chunk_origin(at.0), spec_chunk_origin(at.1)),
            forall|ox: u64, oy: u64|
                !(ox == spec_chunk_origin(at.0) && oy == spec_chunk_origin(at.1))
                    ==> #[trigger] after.is_loaded(ox, oy) == before.is_loaded(ox, oy),
    {
        let origin_x = spec_chunk_origin(at.0);
        let origin_y = spec_chunk_origin(at.1);
        crate::block::lemma_filled_grid(before.default_block);
        assert forall|ox: u64, oy: u64|
            !(ox == origin_x && oy == origin_y) implies #[trigger] after.is_loaded(ox, oy)
            == before.is_loaded(ox, oy) by {
            lemma_key_of_one_place((ox, oy), (origin_x, origin_y));
        }
        assert forall|x: u64, y: u64| !(x == at.0 && y == at.1) implies #[trigger] after.block_at(
            x,
            y,
        ) == before.block_at(x, y) by {
            let ox = spec_chunk_origin(x);
            let oy = spec_chunk_origin(y);
            lemma_key_of_one_place((ox, oy), (origin_x, origin_y));
            if ox == origin_x && oy == origin_y {
                assert(!((x % 8) == (at.0 % 8) && (y % 8) == (at.1 % 8)));
                assert(after.grid(ox, oy)[(x % 8) as int][(y % 8) as int] == before.spec_chunk(
                    ox,
                    oy,
                ).blocks[(x % 8) as int][(y % 8) as int]);
            }
        }
    }
}

} // verus!
