use vstd::prelude::*;

verus! {

/// Position of a block in the block grid.
#[derive(Debug, Clone, Copy, PartialEq, Eq, Structural)]
pub struct BlockPos3 {
    pub x: i64,
    pub y: i64,
    pub z: i64,
}

/// Position of a node inside a block; every axis lies in `0..16`.
#[derive(Debug, Clone, Copy, PartialEq, Eq, Structural)]
pub struct NodePos3 {
    pub x: usize,
    pub y: usize,
    pub z: usize,
}

/// Edge length of a block, in nodes.
pub const BLOCK_SIZE: usize = 16;

/// Number of nodes in a block.
pub const NODE_COUNT: usize = 4096;

/// Key of the block at (x, y, z): x in the low 12 bits, y in the next 12,
/// z above them. Axes outside `-2048..2048` alias other blocks.
pub open spec fn index_of(x: int, y: int, z: int) -> int {
    z * 0x1000000 + y * 0x1000 + x
}

/// An axis value that the packed key holds without aliasing.
pub open spec fn axis_in_range(a: int) -> bool {
    -2048 <= a <= 2047
}

/// Offset of a node in a block's arrays.
pub open spec fn offset_of(x: int, y: int, z: int) -> int {
    z * 256 + y * 16 + x
}

/// Key offset that makes every axis field of a decoded `i64` key non-negative.
const KEY_BIAS: i128 = 9223372071222904832;

/// `KEY_BIAS` seen from the z field.
const Z_BIAS: i128 = 549755815936;

impl BlockPos3 {
    pub fn new(x: i64, y: i64, z: i64) -> (r: Self)
        ensures
            r == (BlockPos3 { x, y, z }),
    {
        BlockPos3 { x, y, z }
    }

    pub open spec fn spec_index(self) -> int {
        index_of(self.x as int, self.y as int, self.z as int)
    }

    /// Every axis lies in `-2048..2048`.
    pub open spec fn in_range(self) -> bool {
        axis_in_range(self.x as int) && axis_in_range(self.y as int) && axis_in_range(self.z as int)
    }

    /// The key of this position is representable as an `i64`.
    pub open spec fn index_fits(self) -> bool {
        i64::MIN <= self.spec_index() <= i64::MAX
    }

    /// The storage key of this block.
    pub fn to_index(self) -> (r: i64)
        requires
            self.index_fits(),
        ensures
            r == self.spec_index(),
    {
        let v: i128 = (self.z as i128) * 0x1000000 + (self.y as i128) * 0x1000 + (self.x as i128);
        v as i64
    }

    /// The storage key of this block, or `None` where it does not fit in an `i64`.
    pub fn checked_index(self) -> (r: Option<i64>)
        ensures
            r == (if self.index_fits() { Some(self.spec_index() as i64) } else { None::<i64> }),
    {
        let v: i128 = (self.z as i128) * 0x1000000 + (self.y as i128) * 0x1000 + (self.x as i128);
        if i64::MIN as i128 <= v && v <= i64::MAX as i128 {
            Some(v as i64)
        } else {
            None
        }
    }

    /// The position whose key is `i`, with x and y taken in `-2048..2048`.
    pub fn from_index(i: i64) -> (r: Self)
        ensures
            axis_in_range(r.x as int),
            axis_in_range(r.y as int),
            r.spec_index() == i,
    {
        let u: u128 = ((i as i128) + KEY_BIAS) as u128;
        let xu: u128 = u % 4096;
        let t: u128 = u / 4096;
        let yu: u128 = t % 4096;
        let zu: u128 = t / 4096;
        proof {
            assert(u == t * 4096 + xu);
            assert(t == zu * 4096 + yu);
            assert(u == zu * 16777216 + yu * 4096 + xu) by (nonlinear_arith)
                requires u == t * 4096 + xu, t == zu * 4096 + yu;
            assert(zu <= 2199023255552) by (nonlinear_arith)
                requires u == zu * 16777216 + yu * 4096 + xu, u < 18446744073709551616u128 + 34368129024u128, yu >= 0, xu >= 0;
        }
        let x: i64 = xu as i64 - 2048;
        let y: i64 = yu as i64 - 2048;
        let z: i64 = ((zu as i128) - Z_BIAS) as i64;
        BlockPos3 { x, y, z }
    }
}

/// Two positions whose x and y lie in `-2048..2048` have the same key only
/// when they are the same position.
pub proof fn lemma_index_injective(a: BlockPos3, b: BlockPos3)
    requires
        axis_in_range(a.x as int),
        axis_in_range(a.y as int),
        axis_in_range(b.x as int),
        axis_in_range(b.y as int),
        a.spec_index() == b.spec_index(),
    ensures
        a == b,
{
    let dx = a.x - b.x;
    let dy = a.y - b.y;
    let dz = a.z - b.z;
    assert(dx == -4096 * (dy + 4096 * dz));
    assert(dx == 0) by (nonlinear_arith)
        requires dx == -4096 * (dy + 4096 * dz), -4096 < dx < 4096;
    assert(dy == 0) by (nonlinear_arith)
        requires dy == -4096 * dz, -4096 < dy < 4096;
}

/// Packing is a bijection on in-range positions: the one position with x
/// and y in `-2048..2048` whose key is the key of `p` (which is what
/// `from_index` returns for that key) is `p` itself.
pub proof fn lemma_index_round_trip(p: BlockPos3)
    requires
        p.in_range(),
    ensures
        forall|q: BlockPos3|
            axis_in_range(q.x as int) && axis_in_range(q.y as int) && #[trigger] q.spec_index() == p.spec_index()
                ==> q == p,
{
    assert forall|q: BlockPos3|
        axis_in_range(q.x as int) && axis_in_range(q.y as int) && #[trigger] q.spec_index() == p.spec_index()
            implies q == p by {
        lemma_index_injective(p, q);
    }
}

impl NodePos3 {
    pub fn new(x: usize, y: usize, z: usize) -> (r: Self)
        ensures
            r == (NodePos3 { x, y, z }),
    {
        NodePos3 { x, y, z }
    }

    /// Every axis lies in `0..16`.
    pub open spec fn valid(self) -> bool {
        self.x < 16 && self.y < 16 && self.z < 16
    }

    pub open spec fn spec_offset(self) -> int {
        offset_of(self.x as int, self.y as int, self.z as int)
    }

    /// Offset of this node in its block's arrays.
    pub fn to_index(self) -> (r: usize)
        requires
            self.valid(),
        ensures
            r == self.spec_offset(),
            r < NODE_COUNT,
    {
        self.z * BLOCK_SIZE * BLOCK_SIZE + self.y * BLOCK_SIZE + self.x
    }
}

/// Distinct valid node positions have distinct offsets, all below 4096.
pub proof fn lemma_offset_unique(a: NodePos3, b: NodePos3)
    requires
        a.valid(),
        b.valid(),
        a.spec_offset() == b.spec_offset(),
    ensures
        a == b,
        0 <= a.spec_offset() < NODE_COUNT,
{
    let dx = a.x - b.x;
    let dy = a.y - b.y;
    let dz = a.z - b.z;
    assert(dx == 0) by (nonlinear_arith)
        requires dx == -16 * (dy + 16 * dz), -16 < dx < 16;
    assert(dy == 0) by (nonlinear_arith)
        requires dy == -16 * dz, -16 < dy < 16;
}

/// Every offset below 4096 is the offset of a valid node position.
pub proof fn lemma_offset_covers(k: int)
    requires
        0 <= k < NODE_COUNT,
    ensures
        exists|p: NodePos3| p.valid() && #[trigger] p.spec_offset() == k,
{
    let p = NodePos3 { x: (k % 16) as usize, y: ((k / 16) % 16) as usize, z: (k / 256) as usize };
    assert(k / 256 == (k / 16) / 16);
    assert(p.spec_offset() == k);
}

} // verus!
