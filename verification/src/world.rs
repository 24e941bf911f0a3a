//! The block volume: a length header of four bytes and one byte per block.

use vstd::prelude::*;
use crate::io::integers::{be_bytes, write_be};

verus! {

/// The number of bytes of the length header that stands before the blocks.
pub const HEADER_LENGTH: usize = 4;

/// The place of a chunk of 16 x 16 x 16 blocks.
#[derive(Clone, Copy, PartialEq, Eq, Hash, Structural)]
pub struct ChunkPosition {
    pub x: usize,
    pub y: usize,
    pub z: usize,
}

impl ChunkPosition {
    pub fn new(x: usize, y: usize, z: usize) -> (p: Self)
        ensures
            p == (ChunkPosition { x, y, z }),
    {
        Self { x, y, z }
    }
}

/// One of the six faces of a block.
#[derive(PartialEq, Eq, Clone, Copy, Debug, Hash, Structural)]
pub enum Facing {
    Front,
    Back,
    Bottom,
    Top,
    Right,
    Left,
}

/// The place of a block.
#[derive(Clone, Copy, Debug)]
pub struct BlockPosition {
    pub x: i32,
    pub y: i32,
    pub z: i32,
}

impl BlockPosition {
    pub fn new(x: i32, y: i32, z: i32) -> (p: Self)
        ensures
            p == (BlockPosition { x, y, z }),
    {
        Self { x, y, z }
    }

    /// The place of the neighbour across the face `face`.
    pub open spec fn neighbour(self, face: Facing) -> (int, int, int) {
        match face {
            Facing::Front => (self.x as int, self.y as int, self.z - 1),
            Facing::Back => (self.x as int, self.y as int, self.z + 1),
            Facing::Bottom => (self.x as int, self.y - 1, self.z as int),
            Facing::Top => (self.x as int, self.y + 1, self.z as int),
            Facing::Right => (self.x - 1, self.y as int, self.z as int),
            Facing::Left => (self.x + 1, self.y as int, self.z as int),
        }
    }

    /// The position one block away across the face `face`.
    pub fn offset(&self, face: Facing) -> (p: Self)
        requires
            i32::MIN <= self.neighbour(face).0 <= i32::MAX,
            i32::MIN <= self.neighbour(face).1 <= i32::MAX,
            i32::MIN <= self.neighbour(face).2 <= i32::MAX,
        ensures
            (p.x as int, p.y as int, p.z as int) == self.neighbour(face),
    {
        let mut clone = *self;
        match face {
            Facing::Front => clone.z -= 1,
            Facing::Back => clone.z += 1,
            Facing::Bottom => clone.y -= 1,
            Facing::Top => clone.y += 1,
            Facing::Right => clone.x -= 1,
            Facing::Left => clone.x += 1,
        }
        clone
    }

    /// The chunk that holds this block: each coordinate shifted right by four
    /// bits, which for a coordinate that is not negative is a sixteenth of it.
    pub fn to_chunk(&self) -> (c: ChunkPosition)
        ensures
            c.x == (self.x >> 4) as usize,
            c.y == (self.y >> 4) as usize,
            c.z == (self.z >> 4) as usize,
            self.x >= 0 ==> c.x == self.x / 16,
            self.y >= 0 ==> c.y == self.y / 16,
            self.z >= 0 ==> c.z == self.z / 16,
    {
        let (x, y, z) = (self.x, self.y, self.z);
        assert(x >= 0 ==> (x >> 4) == x / 16) by (bit_vector);
        assert(y >= 0 ==> (y >> 4) == y / 16) by (bit_vector);
        assert(z >= 0 ==> (z >> 4) == z / 16) by (bit_vector);
        ChunkPosition::new((x >> 4) as usize, (y >> 4) as usize, (z >> 4) as usize)
    }
}

/// A block: its kind and its place.
#[derive(Clone, Copy)]
pub struct Block {
    pub id: u8,
    pub position: BlockPosition,
}

impl Block {
    pub fn new(id: u8, position: BlockPosition) -> (b: Self)
        ensures
            b.id == id,
            b.position == position,
    {
        Self { id, position }
    }
}

/// A block volume. `data` holds a header of four bytes, then the blocks: the
/// rows of one layer one after another, the layers from the bottom up.
#[derive(Clone)]
pub struct World {
    pub data: Vec<u8>,
    width: usize,
    height: usize,
    length: usize,
}

impl World {
    /// The bytes of the volume: header and blocks.
    pub closed spec fn contents(&self) -> Seq<u8> {
        self.data@
    }

    pub closed spec fn spec_width(&self) -> usize {
        self.width
    }

    pub closed spec fn spec_height(&self) -> usize {
        self.height
    }

    pub closed spec fn spec_length(&self) -> usize {
        self.length
    }

    /// Whether a coordinate lies beyond its dimension. A coordinate equal to
    /// the dimension still counts as inside.
    pub open spec fn outside(&self, x: usize, y: usize, z: usize) -> bool {
        x > self.width() || y > self.height() || z > self.length()
    }

    /// The index in `data` of the block at `(x, y, z)`: `0` for a place
    /// outside, else its place in row, layer and column behind the header.
    pub open spec fn index_of(&self, x: usize, y: usize, z: usize) -> int {
        if self.outside(x, y, z) {
            0
        } else {
            (z + y * self.length()) * self.width() + x + HEADER_LENGTH
        }
    }

    /// Whether the index of `(x, y, z)` can be computed in a `usize`.
    pub open spec fn index_fits(&self, x: usize, y: usize, z: usize) -> bool {
        !self.outside(x, y, z) ==> z + y * self.length() <= usize::MAX && (z + y * self.length())
            * self.width() + x + HEADER_LENGTH <= usize::MAX
    }

    /// A world of the given dimensions over `data`, which is taken as it is.
    /// A negative dimension becomes the `usize` with the same bits.
    pub fn from_data(data: Vec<u8>, width: i16, height: i16, length: i16) -> (w: Self)
        ensures
            w.contents() == data@,
            w.width() == width as usize,
            w.height() == height as usize,
            w.length() == length as usize,
    {
        Self { data, width: width as usize, height: height as usize, length: length as usize }
    }

    /// A world of the given dimensions over the blocks `blocks`, each taken
    /// as the byte with the same bits, behind the header that holds the
    /// product of the dimensions.
    pub fn from_blocks(blocks: &[i8], width: usize, height: usize, length: usize) -> (w: Self)
        requires
            width * height <= usize::MAX,
            width * height * length <= usize::MAX,
        ensures
            w.width() == width,
            w.height() == height,
            w.length() == length,
            w.contents().len() == HEADER_LENGTH + blocks@.len(),
            w.contents().take(HEADER_LENGTH as int) == be_bytes(
                (width * height * length) as nat,
                HEADER_LENGTH as nat,
            ),
            forall|i: int|
                0 <= i < blocks@.len() ==> w.contents()[HEADER_LENGTH + i] == blocks@[i] as u8,
    {
        let size = width * height * length;
        let mut data: Vec<u8> = Vec::new();
        write_be(&mut data, size as u64, HEADER_LENGTH);
        proof {
            crate::io::integers::lemma_be_bytes_len(size as nat, HEADER_LENGTH as nat);
        }
        let ghost header = data@;
        let mut i: usize = 0;
        while i < blocks.len()
            invariant
                i <= blocks@.len(),
                header.len() == HEADER_LENGTH,
                data@.len() == HEADER_LENGTH + i,
                data@.take(HEADER_LENGTH as int) == header,
                forall|j: int| 0 <= j < i ==> data@[HEADER_LENGTH + j] == blocks@[j] as u8,
            decreases blocks@.len() - i,
        {
            data.push(blocks[i] as u8);
            i = i + 1;
        }
        Self { data, width, height, length }
    }

    /// A world of the given dimensions that `generator` has filled.
    pub fn new<G: WorldGenerator>(generator: G, width: usize, height: usize, length: usize) -> (w:
        Self)
        requires
            width * height <= usize::MAX,
            width * height * length + HEADER_LENGTH <= usize::MAX,
        ensures
            w.width() == width,
            w.height() == height,
            w.length() == length,
            w.contents().len() == HEADER_LENGTH + width * height * length,
            w.contents().take(HEADER_LENGTH as int) == be_bytes(
                (width * height * length) as nat,
                HEADER_LENGTH as nat,
            ),
            generator.fills(w.contents().skip(HEADER_LENGTH as int), width, height, length),
    {
        let size = width * height * length;
        let mut blocks: Vec<u8> = vec![0u8; size];
        generator.generate(blocks.as_mut_slice(), width, height, length);
        let mut data: Vec<u8> = Vec::new();
        write_be(&mut data, size as u64, HEADER_LENGTH);
        proof {
            crate::io::integers::lemma_be_bytes_len(size as nat, HEADER_LENGTH as nat);
        }
        let ghost header = data@;
        let ghost body = blocks@;
        data.append(&mut blocks);
        assert(data@.skip(HEADER_LENGTH as int) == body);
        Self { data, width, height, length }
    }

    /// The index in `data` of the block at `(x, y, z)`, where it can be
    /// computed in a `usize`.
    pub fn checked_index(&self, x: usize, y: usize, z: usize) -> (i: Option<usize>)
        ensures
            i is Some <==> self.index_fits(x, y, z),
            i is Some ==> i->Some_0 == self.index_of(x, y, z),
    {
        if x > self.width || y > self.height || z > self.length {
            return Some(0);
        }
        let rows = match y.checked_mul(self.length) {
            Some(r) => r,
            None => {
                return None;
            },
        };
        let row = match z.checked_add(rows) {
            Some(r) => r,
            None => {
                return None;
            },
        };
        let cells = match row.checked_mul(self.width) {
            Some(c) => c,
            None => {
                return None;
            },
        };
        let cell = match cells.checked_add(x) {
            Some(c) => c,
            None => {
                return None;
            },
        };
        cell.checked_add(HEADER_LENGTH)
    }

    /// The index in `data` of the block at `(x, y, z)`.
    pub fn pos_to_index(&self, x: usize, y: usize, z: usize) -> (i: usize)
        requires
            self.index_fits(x, y, z),
        ensures
            i == self.index_of(x, y, z),
    {
        if x > self.width || y > self.height || z > self.length {
            return 0;
        }
        (z + y * self.length) * self.width + x + HEADER_LENGTH
    }

    /// The block at `(x, y, z)`: the byte at its index where `data` has one,
    /// else `0`.
    pub fn get_block(&self, x: usize, y: usize, z: usize) -> (id: u8)
        requires
            self.index_fits(x, y, z),
        ensures
            id == if self.outside(x, y, z) {
                0
            } else if self.index_of(x, y, z) < self.contents().len() {
                self.contents()[self.index_of(x, y, z)]
            } else {
                0
            },
    {
        if x > self.width || y > self.height || z > self.length {
            return 0;
        }
        let index = self.pos_to_index(x, y, z);
        if index < self.data.len() {
            self.data[index]
        } else {
            0
        }
    }

    /// The index in `data` that `set_block` writes for `block`: that of its
    /// position, each coordinate taken as the `usize` with the same bits.
    pub open spec fn index_of_block(&self, block: Block) -> int {
        self.index_of(
            block.position.x as usize,
            block.position.y as usize,
            block.position.z as usize,
        )
    }

    /// Puts `block` at its index in `data`.
    pub fn set_block(&mut self, block: Block)
        requires
            old(self).index_fits(
                block.position.x as usize,
                block.position.y as usize,
                block.position.z as usize,
            ),
            old(self).index_of_block(block) < old(self).contents().len(),
        ensures
            final(self).contents() == old(self).contents().update(
                old(self).index_of_block(block),
                block.id,
            ),
            final(self).width() == old(self).width(),
            final(self).height() == old(self).height(),
            final(self).length() == old(self).length(),
    {
        let index = self.pos_to_index(
            block.position.x as usize,
            block.position.y as usize,
            block.position.z as usize,
        );
        self.data[index] = block.id;
    }

    #[verifier::when_used_as_spec(spec_width)]
    pub fn width(&self) -> (r: usize)
        ensures
            r == self.spec_width(),
    {
        self.width
    }

    #[verifier::when_used_as_spec(spec_height)]
    pub fn height(&self) -> (r: usize)
        ensures
            r == self.spec_height(),
    {
        self.height
    }

    #[verifier::when_used_as_spec(spec_length)]
    pub fn length(&self) -> (r: usize)
        ensures
            r == self.spec_length(),
    {
        self.length
    }
}

/// Something that fills a block volume.
pub trait WorldGenerator {
    /// Whether `blocks` is what this generator makes of a volume of the
    /// given dimensions. A generator that does not say holds to nothing.
    open spec fn fills(
        &self,
        blocks: Seq<u8>,
        width: usize,
        height: usize,
        length: usize,
    ) -> bool {
        true
    }

    /// Fills `data`, which holds one byte for each block of the volume.
    fn generate(&self, data: &mut [u8], width: usize, height: usize, length: usize)
        requires
            old(data)@.len() == width * height * length,
        ensures
            final(data)@.len() == old(data)@.len(),
            self.fills(final(data)@, width, height, length),
    ;
}

/// Fills a volume in flat layers: one block kind below the surface, one on
/// it, one above it.
pub struct FlatWorldGenerator {
    height: usize,
    below: u8,
    surface: u8,
    above: u8,
}

impl FlatWorldGenerator {
    #[verifier::type_invariant]
    spec fn inv(self) -> bool {
        self.height >= 1
    }

    /// The number of layers up to and with the surface.
    pub closed spec fn surface_height(&self) -> usize {
        self.height
    }

    /// The kinds of block below the surface, on it and above it.
    pub closed spec fn kinds(&self) -> (u8, u8, u8) {
        (self.below, self.surface, self.above)
    }

    /// The kind of block in layer `y`.
    pub open spec fn layer(&self, y: int) -> u8 {
        if y < self.surface_height() - 1 {
            self.kinds().0
        } else if y < self.surface_height() {
            self.kinds().1
        } else {
            self.kinds().2
        }
    }

    /// A generator whose surface is layer `height - 1`.
    pub fn new(height: usize, below: u8, surface: u8, above: u8) -> (g: Self)
        requires
            height >= 1,
        ensures
            g.surface_height() == height,
            g.kinds() == (below, surface, above),
    {
        Self { height, below, surface, above }
    }
}

impl WorldGenerator for FlatWorldGenerator {
    open spec fn fills(&self, blocks: Seq<u8>, width: usize, height: usize, length: usize) -> bool {
        forall|y: int, i: int|
            0 <= y < height && 0 <= i < width * length ==> #[trigger] blocks[width * length * y
                + i] == self.layer(y)
    }

    fn generate(&self, data: &mut [u8], width: usize, height: usize, length: usize) {
        proof {
            use_type_invariant(self);
        }
        if height == 0 {
            return ;
        }
        let total = data.len();
        assert(width * length <= total) by (nonlinear_arith)
            requires
                height >= 1,
                total == width * height * length,
        ;
        let area = width * length;
        let mut y: usize = 0;
        while y < height
            invariant
                y <= height,
                area == width * length,
                data@.len() == total,
                total == width * height * length,
                self.height >= 1,
                forall|v: int, i: int|
                    0 <= v < y && 0 <= i < area ==> #[trigger] data@[area * v + i] == self.layer(v),
            decreases height - y,
        {
            assert(0 <= area * y && area * y + area <= total) by (nonlinear_arith)
                requires
                    y < height,
                    area == width * length,
                    total == width * height * length,
            ;
            let yi = area * y;
            let kind = if y < self.height - 1 {
                self.below
            } else if y < self.height {
                self.surface
            } else {
                self.above
            };
            let mut i: usize = 0;
            while i < area
                invariant
                    i <= area,
                    y < height,
                    yi == area * y,
                    yi + area <= total,
                    data@.len() == total,
                    kind == self.layer(y as int),
                    forall|v: int, j: int|
                        0 <= v < y && 0 <= j < area ==> #[trigger] data@[area * v + j]
                            == self.layer(v),
                    forall|j: int| 0 <= j < i ==> #[trigger] data@[yi + j] == kind,
                decreases area - i,
            {
                data[yi + i] = kind;
                proof {
                    assert forall|v: int, j: int|
                        0 <= v < y && 0 <= j < area implies #[trigger] data@[area * v + j]
                        == self.layer(v) by {
                        assert(0 <= area * v + j < area * y) by (nonlinear_arith)
                            requires
                                0 <= v < y,
                                0 <= j < area,
                        ;
                    }
                }
                i = i + 1;
            }
            y = y + 1;
        }
    }
}

} // verus!
