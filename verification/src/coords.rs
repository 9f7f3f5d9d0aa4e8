//! Coordinates at the three nested granularities of the world: blocks,
//! chunks of 32 x 32 blocks, and regions of 32 x 32 chunks. One region is
//! what one storage file holds.

use vstd::prelude::*;
use vstd::string::StringExecFns;
use crate::text::{push_signed_decimal, signed_decimal};

verus! {

/// Number of blocks along one axis of a chunk.
pub const BLOCKS_PER_CHUNK: i64 = 32;

/// Number of chunks along one axis of a region.
pub const CHUNKS_PER_REGION: i64 = 32;

/// Number of blocks along one axis of a region.
pub const BLOCKS_PER_REGION: i64 = 1024;

/// A signed position on the horizontal plane. Whether it counts blocks,
/// chunks or regions follows from where the value came from; a value of one
/// granularity becomes one of another only through the functions below.
#[derive(Debug, Clone, Copy, PartialEq, Eq, Structural)]
pub struct Coords {
    pub x: i64,
    pub z: i64,
}

impl Coords {
    /// The name of the file that holds the region at these coordinates:
    /// `r.`, the decimal numeral of `x`, a dot, that of `z`, and `.mca`.
    pub open spec fn filename(self) -> Seq<char> {
        "r."@ + signed_decimal(self.x as int) + "."@ + signed_decimal(self.z as int) + ".mca"@
    }

    /// The name of the file that holds the region at these coordinates.
    #[inline]
    #[must_use]
    pub fn region_filename(&self) -> (name: String)
        ensures
            name@ == self.filename(),
    {
        let mut name = String::from_str("r.");
        push_signed_decimal(&mut name, self.x);
        name.append(".");
        push_signed_decimal(&mut name, self.z);
        name.append(".mca");
        name
    }
}

/// On one axis, the first cell of group number `group`, where every group is
/// `width` cells wide and group 0 starts at cell 0.
pub open spec fn axis_min(group: int, width: int) -> int {
    group * width
}

/// On one axis, the last cell of group number `group`.
pub open spec fn axis_max(group: int, width: int) -> int {
    group * width + (width - 1)
}

/// On one axis, the number of the group that holds `cell`: the quotient
/// rounded towards negative infinity.
pub open spec fn axis_group(cell: int, width: int) -> int {
    cell / width
}

/// Whether `value` can be held by an `i64`.
pub open spec fn fits_i64(value: int) -> bool {
    i64::MIN <= value <= i64::MAX
}

/// Whether the first cell of the group at `coords` can be held on both axes.
pub open spec fn min_fits(coords: Coords, width: int) -> bool {
    fits_i64(axis_min(coords.x as int, width)) && fits_i64(axis_min(coords.z as int, width))
}

/// Whether the last cell of the group at `coords` can be held on both axes.
pub open spec fn max_fits(coords: Coords, width: int) -> bool {
    fits_i64(axis_max(coords.x as int, width)) && fits_i64(axis_max(coords.z as int, width))
}

/// `group * 32` for a group whose last cell can be held: the first cell can
/// then be held as well, because the range of `i64` starts at a multiple of 32.
fn first_of_32(group: i64) -> (cell: i64)
    requires
        fits_i64(axis_max(group as int, 32)),
    ensures
        cell == axis_min(group as int, 32),
{
    assert(group >= -0x400_0000_0000_0000) by {
        if group < -0x400_0000_0000_0000 {
            assert(group * 32 + 31 <= -0x400_0000_0000_0001 * 32 + 31);
        }
    }
    group * 32
}

/// The floor of `cell / 32`.
fn group_of_32(cell: i64) -> (group: i64)
    ensures
        group == axis_group(cell as int, 32),
{
    if cell >= 0 {
        cell / 32
    } else {
        let below: i64 = -1 - cell;
        -1 - below / 32
    }
}

/// The block of a chunk with the smallest coordinates.
pub fn min_block_from_chunk(coords: Coords) -> (block: Coords)
    requires
        min_fits(coords, 32),
    ensures
        block.x == axis_min(coords.x as int, 32),
        block.z == axis_min(coords.z as int, 32),
{
    Coords { x: coords.x * BLOCKS_PER_CHUNK, z: coords.z * BLOCKS_PER_CHUNK }
}

/// The block of a chunk with the largest coordinates.
pub fn max_block_from_chunk(coords: Coords) -> (block: Coords)
    requires
        max_fits(coords, 32),
    ensures
        block.x == axis_max(coords.x as int, 32),
        block.z == axis_max(coords.z as int, 32),
{
    Coords {
        x: first_of_32(coords.x) + (BLOCKS_PER_CHUNK - 1),
        z: first_of_32(coords.z) + (BLOCKS_PER_CHUNK - 1),
    }
}

/// The chunk of a region with the smallest coordinates.
pub fn min_chunk_from_region(coords: Coords) -> (chunk: Coords)
    requires
        min_fits(coords, 32),
    ensures
        chunk.x == axis_min(coords.x as int, 32),
        chunk.z == axis_min(coords.z as int, 32),
{
    Coords { x: coords.x * CHUNKS_PER_REGION, z: coords.z * CHUNKS_PER_REGION }
}

/// The chunk of a region with the largest coordinates.
pub fn max_chunk_from_region(coords: Coords) -> (chunk: Coords)
    requires
        max_fits(coords, 32),
    ensures
        chunk.x == axis_max(coords.x as int, 32),
        chunk.z == axis_max(coords.z as int, 32),
{
    Coords {
        x: first_of_32(coords.x) + (CHUNKS_PER_REGION - 1),
        z: first_of_32(coords.z) + (CHUNKS_PER_REGION - 1),
    }
}

/// The block of a region with the smallest coordinates: that of its first
/// chunk.
pub fn min_block_from_region(coords: Coords) -> (block: Coords)
    requires
        min_fits(coords, 1024),
    ensures
        block.x == axis_min(coords.x as int, 1024),
        block.z == axis_min(coords.z as int, 1024),
{
    min_block_from_chunk(min_chunk_from_region(coords))
}

/// The block of a region with the largest coordinates: that of its last
/// chunk.
pub fn max_block_from_region(coords: Coords) -> (block: Coords)
    requires
        max_fits(coords, 1024),
    ensures
        block.x == axis_max(coords.x as int, 1024),
        block.z == axis_max(coords.z as int, 1024),
{
    max_block_from_chunk(max_chunk_from_region(coords))
}

/// The chunk that holds a block.
pub fn chunk_from_block(coords: Coords) -> (chunk: Coords)
    ensures
        chunk.x == axis_group(coords.x as int, 32),
        chunk.z == axis_group(coords.z as int, 32),
{
    Coords { x: group_of_32(coords.x), z: group_of_32(coords.z) }
}

/// The region that holds a chunk.
pub fn region_from_chunk(coords: Coords) -> (region: Coords)
    ensures
        region.x == axis_group(coords.x as int, 32),
        region.z == axis_group(coords.z as int, 32),
{
    Coords { x: group_of_32(coords.x), z: group_of_32(coords.z) }
}

/// The region that holds a block: that of the block's chunk.
pub fn region_from_block(coords: Coords) -> (region: Coords)
    ensures
        region.x == axis_group(coords.x as int, 1024),
        region.z == axis_group(coords.z as int, 1024),
{
    proof {
        lemma_group_of_group(coords.x as int);
        lemma_group_of_group(coords.z as int);
    }
    region_from_chunk(chunk_from_block(coords))
}

/// Grouping by 32 twice is grouping by 1024.
pub proof fn lemma_group_of_group(cell: int)
    ensures
        axis_group(axis_group(cell, 32), 32) == axis_group(cell, 1024),
{
}

/// Going from a group to any of its cells and back gives the group again,
/// whatever the width: in particular for the first and the last cell.
pub proof fn lemma_axis_round_trip(group: int, width: int, cell: int)
    requires
        width > 0,
        axis_min(group, width) <= cell <= axis_max(group, width),
    ensures
        axis_group(cell, width) == group,
        axis_group(axis_min(group, width), width) == group,
        axis_group(axis_max(group, width), width) == group,
{
    assert(axis_group(cell, width) == group) by (nonlinear_arith)
        requires
            width > 0,
            group * width <= cell <= group * width + (width - 1),
    {
    }
    assert(axis_group(axis_min(group, width), width) == group) by (nonlinear_arith)
        requires
            width > 0,
    {
    }
    assert(axis_group(axis_max(group, width), width) == group) by (nonlinear_arith)
        requires
            width > 0,
    {
    }
}

/// The first block of a region is the first block of its first chunk, and the
/// last block of a region is the last block of its last chunk.
pub proof fn lemma_region_is_chunks_of_blocks(region: int)
    ensures
        axis_min(axis_min(region, 32), 32) == axis_min(region, 1024),
        axis_max(axis_max(region, 32), 32) == axis_max(region, 1024),
{
}

/// A region covers 1024 blocks on each axis, with no block shared between
/// two regions: converting a region to its first or last block, or to the
/// first or last block of any of its chunks, and back gives the same region.
pub proof fn lemma_region_round_trip(region: int)
    ensures
        axis_group(axis_min(region, 1024), 1024) == region,
        axis_group(axis_max(region, 1024), 1024) == region,
        axis_group(axis_min(region, 32), 32) == region,
        axis_group(axis_max(region, 32), 32) == region,
        axis_group(axis_group(axis_min(axis_min(region, 32), 32), 32), 32) == region,
        axis_group(axis_group(axis_max(axis_max(region, 32), 32), 32), 32) == region,
        axis_max(region, 1024) - axis_min(region, 1024) == 1023,
        axis_min(region + 1, 1024) == axis_max(region, 1024) + 1,
{
}

} // verus!
