//! The partition of the world into square slices, and the rule that gives
//! every block to at most one shard.

use vstd::prelude::*;
use vstd::string::StringExecFns;
use vstd::arithmetic::div_mod::{
    lemma_fundamental_div_mod, lemma_fundamental_div_mod_converse, lemma_mod_bound,
};
use crate::config::WorldManagementArgs;
use crate::coords::{axis_min, min_block_from_region, Coords};

verus! {

/// The owner reported for a block that no shard owns.
pub const UNOWNED: i16 = -1;

/// Every slice width is a multiple of this many blocks.
pub const SLICE_WIDTH_UNIT: u32 = 512;

/// The parameters of a partition as mathematical values.
pub struct Partition {
    /// Width of the whole world, in blocks.
    pub world_diameter: nat,
    /// Width of one slice, in blocks.
    pub slice_width: nat,
    /// Whether the square around the origin is kept out of the slicing.
    pub avoid_slicing_origin: bool,
    /// Half the width of the square around the origin, in blocks.
    pub origin_radius: nat,
}

impl Partition {
    /// The slices tile the world exactly, and the square around the origin,
    /// where it is kept apart, is as wide as two slices.
    pub open spec fn valid(self) -> bool {
        &&& self.slice_width > 0
        &&& self.slice_width % 512 == 0
        &&& self.world_diameter % self.slice_width == 0
        &&& self.world_diameter >= self.slice_width
        &&& (self.avoid_slicing_origin ==> self.origin_radius == self.slice_width)
    }

    /// The number of slices along one axis of the world.
    pub open spec fn slices_per_row(self) -> int {
        (self.world_diameter / self.slice_width) as int
    }

    /// What is added to a coordinate to move the world's corner to (0, 0).
    pub open spec fn shift(self) -> int {
        (self.world_diameter / 2) as int
    }

    /// The slice index of a coordinate on one axis.
    pub open spec fn slice_index(self, v: int) -> int {
        (v + self.shift()) / (self.slice_width as int)
    }

    /// Whether one coordinate lies inside the world: its shifted value is not
    /// negative and its slice index is below the number of slices.
    pub open spec fn axis_in_world(self, v: int) -> bool {
        0 <= v + self.shift() && self.slice_index(v) < self.slices_per_row()
    }

    /// Whether the block at (`x`, `z`) lies inside the world.
    pub open spec fn in_world(self, x: int, z: int) -> bool {
        self.axis_in_world(x) && self.axis_in_world(z)
    }

    /// Whether the block at (`x`, `z`) lies in the square around the origin
    /// that is kept out of the slicing.
    pub open spec fn in_origin(self, x: int, z: int) -> bool {
        &&& self.avoid_slicing_origin
        &&& -(self.origin_radius as int) < x < self.origin_radius
        &&& -(self.origin_radius as int) < z < self.origin_radius
    }

    /// The position of the slice of (`x`, `z`) when the slices are counted
    /// row by row.
    pub open spec fn position(self, x: int, z: int) -> int {
        self.slice_index(x) + self.slice_index(z) * self.slices_per_row()
    }

    /// The shard that owns the block at (`x`, `z`) among `shard_count`
    /// shards, counted from 0, or `UNOWNED`.
    ///
    /// The square around the origin belongs to shard 0. Any other block
    /// outside the world belongs to nobody, and so does every such block
    /// when there is no shard at all. Inside the world the slices go to the
    /// shards in turn, row by row.
    pub open spec fn owner(self, shard_count: int, x: int, z: int) -> int {
        if self.in_origin(x, z) {
            0
        } else if !self.in_world(x, z) || shard_count <= 0 {
            UNOWNED as int
        } else {
            self.position(x, z) % shard_count
        }
    }

    /// The shard that owns a region: the owner of the region's block with
    /// the smallest coordinates.
    pub open spec fn region_owner(self, shard_count: int, region: Coords) -> int {
        self.owner(shard_count, axis_min(region.x as int, 1024), axis_min(region.z as int, 1024))
    }
}

/// Inside a valid partition a coordinate lies in the world exactly if it is
/// within half the diameter of the origin, the lower bound included.
pub proof fn lemma_axis_in_world(p: Partition, v: int)
    requires
        p.valid(),
    ensures
        p.axis_in_world(v) <==> -p.shift() <= v < p.shift(),
        p.world_diameter == 2 * p.shift(),
        p.world_diameter == p.slices_per_row() * p.slice_width,
        p.slices_per_row() >= 1,
        p.axis_in_world(v) ==> 0 <= p.slice_index(v) < p.slices_per_row(),
{
    let wd = p.world_diameter as int;
    let sw = p.slice_width as int;
    let n = wd / sw;
    assert(wd == n * sw && n >= 1) by (nonlinear_arith)
        requires
            sw > 0,
            wd % sw == 0,
            wd >= sw,
            n == wd / sw,
    {
    }
    assert(wd % 2 == 0) by (nonlinear_arith)
        requires
            wd == n * sw,
            sw % 512 == 0,
    {
        assert(sw == 512 * (sw / 512));
        assert(wd == 2 * (256 * (sw / 512) * n));
    }
    let s = v + wd / 2;
    assert(0 <= s ==> (s / sw < n <==> s < wd)) by (nonlinear_arith)
        requires
            sw > 0,
            wd == n * sw,
    {
    }
    assert(0 <= s && s / sw < n ==> 0 <= s / sw) by (nonlinear_arith)
        requires
            sw > 0,
    {
    }
}

/// Why a set of partition settings is refused.
#[derive(Debug, Clone, Copy, PartialEq, Eq, Structural)]
pub enum ArgsError {
    /// No world diameter was given.
    MissingWorldDiameter,
    /// No slice width was given.
    MissingSliceWidth,
    /// It was not said whether the origin is kept out of the slicing.
    MissingAvoidSlicingOrigin,
    /// No origin radius was given.
    MissingOriginRadius,
    /// No directory for the combined world was given.
    MissingCombinedDirectory,
    /// The slice width is 0 or no multiple of 512.
    InvalidSliceWidth,
    /// The world diameter is no multiple of the slice width.
    DiameterNotMultiple,
    /// The world diameter is below the slice width.
    DiameterTooSmall,
    /// The origin is kept out of the slicing and its radius differs from
    /// the slice width.
    OriginRadiusMismatch,
}

impl ArgsError {
    /// What the fault is, in words.
    pub open spec fn message(self) -> Seq<char> {
        match self {
            ArgsError::MissingWorldDiameter => "you must specify the arg: world_diameter"@,
            ArgsError::MissingSliceWidth => "you must specify the arg: slice_width"@,
            ArgsError::MissingAvoidSlicingOrigin =>
                "you must specify the arg: avoid_slicing_origin"@,
            ArgsError::MissingOriginRadius => "you must specify the arg: origin_radius"@,
            ArgsError::MissingCombinedDirectory => "you must specify the arg: combined_directory"@,
            ArgsError::InvalidSliceWidth =>
                "`slice_width` must be greater than 0 and a multiple of 512"@,
            ArgsError::DiameterNotMultiple =>
                "`world_diameter` must be a multiple of `slice_width`"@,
            ArgsError::DiameterTooSmall =>
                "`world_diameter` must greater than or equal to `slice_width`"@,
            ArgsError::OriginRadiusMismatch => "`origin_radius` must match `slice_width`"@,
        }
    }

    /// What the fault is, in words.
    pub fn to_string(&self) -> (text: String)
        ensures
            text@ == self.message(),
    {
        String::from_str(
            match self {
                ArgsError::MissingWorldDiameter => "you must specify the arg: world_diameter",
                ArgsError::MissingSliceWidth => "you must specify the arg: slice_width",
                ArgsError::MissingAvoidSlicingOrigin =>
                    "you must specify the arg: avoid_slicing_origin",
                ArgsError::MissingOriginRadius => "you must specify the arg: origin_radius",
                ArgsError::MissingCombinedDirectory =>
                    "you must specify the arg: combined_directory",
                ArgsError::InvalidSliceWidth =>
                    "`slice_width` must be greater than 0 and a multiple of 512",
                ArgsError::DiameterNotMultiple =>
                    "`world_diameter` must be a multiple of `slice_width`",
                ArgsError::DiameterTooSmall =>
                    "`world_diameter` must greater than or equal to `slice_width`",
                ArgsError::OriginRadiusMismatch => "`origin_radius` must match `slice_width`",
            },
        )
    }
}

/// The first fault of `args`, in the order in which the settings are
/// examined, or the partition that they describe.
pub open spec fn check_args_spec(args: WorldManagementArgs) -> Result<Partition, ArgsError> {
    if args.world_diameter is None {
        Err(ArgsError::MissingWorldDiameter)
    } else if args.slice_width is None {
        Err(ArgsError::MissingSliceWidth)
    } else if args.avoid_slicing_origin is None {
        Err(ArgsError::MissingAvoidSlicingOrigin)
    } else if args.origin_radius is None {
        Err(ArgsError::MissingOriginRadius)
    } else if args.combined_directory is None {
        Err(ArgsError::MissingCombinedDirectory)
    } else {
        let p = Partition {
            world_diameter: args.world_diameter->0 as nat,
            slice_width: args.slice_width->0 as nat,
            avoid_slicing_origin: args.avoid_slicing_origin->0,
            origin_radius: args.origin_radius->0 as nat,
        };
        if p.slice_width == 0 || p.slice_width % 512 != 0 {
            Err(ArgsError::InvalidSliceWidth)
        } else if p.world_diameter % p.slice_width != 0 {
            Err(ArgsError::DiameterNotMultiple)
        } else if p.world_diameter < p.slice_width {
            Err(ArgsError::DiameterTooSmall)
        } else if p.avoid_slicing_origin && p.origin_radius != p.slice_width {
            Err(ArgsError::OriginRadiusMismatch)
        } else {
            Ok(p)
        }
    }
}

/// Partition settings that have been checked. A value of this type always
/// describes a valid partition.
#[derive(Debug)]
pub struct CheckedArgs {
    world_diameter: u32,
    slice_width: u32,
    avoid_slicing_origin: bool,
    origin_radius: u32,
    combined_directory: String,
}

impl View for CheckedArgs {
    type V = Partition;

    closed spec fn view(&self) -> Partition {
        Partition {
            world_diameter: self.world_diameter as nat,
            slice_width: self.slice_width as nat,
            avoid_slicing_origin: self.avoid_slicing_origin,
            origin_radius: self.origin_radius as nat,
        }
    }
}

impl CheckedArgs {
    #[verifier::type_invariant]
    closed spec fn well_formed(&self) -> bool {
        self@.valid()
    }

    /// The directory that holds the combined world, as the settings gave it.
    pub closed spec fn directory(&self) -> Seq<char> {
        self.combined_directory@
    }

    /// Width of the whole world, in blocks.
    pub fn world_diameter(&self) -> (width: u32)
        ensures
            width == self@.world_diameter,
            self@.valid(),
    {
        proof {
            use_type_invariant(self);
        }
        self.world_diameter
    }

    /// Width of one slice, in blocks.
    pub fn slice_width(&self) -> (width: u32)
        ensures
            width == self@.slice_width,
            self@.valid(),
    {
        proof {
            use_type_invariant(self);
        }
        self.slice_width
    }

    /// Whether the square around the origin is kept out of the slicing.
    pub fn avoid_slicing_origin(&self) -> (avoid: bool)
        ensures
            avoid == self@.avoid_slicing_origin,
            self@.valid(),
    {
        proof {
            use_type_invariant(self);
        }
        self.avoid_slicing_origin
    }

    /// Half the width of the square around the origin, in blocks.
    pub fn origin_radius(&self) -> (radius: u32)
        ensures
            radius == self@.origin_radius,
            self@.valid(),
    {
        proof {
            use_type_invariant(self);
        }
        self.origin_radius
    }

    /// The directory that holds the combined world.
    pub fn combined_directory(&self) -> (directory: &String)
        ensures
            directory@ == self.directory(),
    {
        &self.combined_directory
    }
}

/// Checks the merged settings. They are examined in a fixed order and the
/// first fault is reported; without a fault the result describes a valid
/// partition with the values that were given.
pub fn check_args(args: WorldManagementArgs) -> (checked: Result<CheckedArgs, ArgsError>)
    ensures
        match check_args_spec(args) {
            Ok(partition) => checked is Ok && checked->Ok_0@ == partition
                && partition.valid()
                && checked->Ok_0.directory() == args.combined_directory->0@,
            Err(error) => checked == Err::<CheckedArgs, ArgsError>(error),
        },
{
    let world_diameter = match args.world_diameter {
        Some(value) => value,
        None => {
            return Err(ArgsError::MissingWorldDiameter);
        },
    };
    let slice_width = match args.slice_width {
        Some(value) => value,
        None => {
            return Err(ArgsError::MissingSliceWidth);
        },
    };
    let avoid_slicing_origin = match args.avoid_slicing_origin {
        Some(value) => value,
        None => {
            return Err(ArgsError::MissingAvoidSlicingOrigin);
        },
    };
    let origin_radius = match args.origin_radius {
        Some(value) => value,
        None => {
            return Err(ArgsError::MissingOriginRadius);
        },
    };
    let combined_directory = match args.combined_directory {
        Some(value) => value,
        None => {
            return Err(ArgsError::MissingCombinedDirectory);
        },
    };
    if slice_width == 0 || slice_width % SLICE_WIDTH_UNIT != 0 {
        return Err(ArgsError::InvalidSliceWidth);
    }
    if world_diameter % slice_width != 0 {
        return Err(ArgsError::DiameterNotMultiple);
    }
    if world_diameter < slice_width {
        return Err(ArgsError::DiameterTooSmall);
    }
    if avoid_slicing_origin && origin_radius != slice_width {
        return Err(ArgsError::OriginRadiusMismatch);
    }
    Ok(
        CheckedArgs {
            world_diameter,
            slice_width,
            avoid_slicing_origin,
            origin_radius,
            combined_directory,
        },
    )
}

/// Whether the block at `coords` lies in the square around the origin that
/// is kept out of the slicing.
pub fn in_unsliced_origin(args: &CheckedArgs, coords: Coords) -> (inside: bool)
    ensures
        inside == args@.in_origin(coords.x as int, coords.z as int),
{
    if !args.avoid_slicing_origin {
        return false;
    }
    let r: i64 = args.origin_radius as i64;
    -r < coords.x && coords.x < r && -r < coords.z && coords.z < r
}

/// The shard that owns the block at `coords` among `server_count` shards,
/// counted from 0, or `UNOWNED` where no shard owns it.
pub fn get_owner_of_location(args: &CheckedArgs, server_count: u8, coords: Coords) -> (owner: i16)
    ensures
        owner == args@.owner(server_count as int, coords.x as int, coords.z as int),
        args@.valid(),
{
    proof {
        use_type_invariant(args);
        lemma_axis_in_world(args@, coords.x as int);
        lemma_axis_in_world(args@, coords.z as int);
    }
    if in_unsliced_origin(args, coords) {
        return 0;
    }
    let half: i64 = (args.world_diameter / 2) as i64;
    if coords.x < -half || coords.x >= half || coords.z < -half || coords.z >= half {
        return UNOWNED;
    }
    if server_count == 0 {
        return UNOWNED;
    }
    let slices_per_row: i64 = (args.world_diameter / args.slice_width) as i64;
    let slice_width: i64 = args.slice_width as i64;
    let slice_x: i64 = (coords.x + half) / slice_width;
    let slice_z: i64 = (coords.z + half) / slice_width;
    assert(slices_per_row <= 0x80_0000) by (nonlinear_arith)
        requires
            slices_per_row * slice_width < 0x1_0000_0000,
            slice_width >= 512,
            slices_per_row >= 0,
    {
    }
    assert(0 <= slice_z * slices_per_row <= 0x80_0000 * 0x80_0000) by (nonlinear_arith)
        requires
            0 <= slice_z < slices_per_row <= 0x80_0000,
    {
    }
    let position: i64 = slice_x + slice_z * slices_per_row;
    let owner: i64 = position % (server_count as i64);
    owner as i16
}

/// No region further than this from the origin, on either axis, has a block
/// inside a world whose diameter a `u32` holds.
pub const REGION_LIMIT: i64 = 0x40_0000;

/// The shard that owns a region among `server_count` shards, counted from 0,
/// or `UNOWNED`: the owner of the region's block with the smallest
/// coordinates. Every region has an answer, however far from the origin.
pub fn owner_of_region(args: &CheckedArgs, server_count: u8, region: Coords) -> (owner: i16)
    ensures
        owner == args@.region_owner(server_count as int, region),
        args@.valid(),
        owner != UNOWNED ==> -REGION_LIMIT <= region.x <= REGION_LIMIT && -REGION_LIMIT
            <= region.z <= REGION_LIMIT,
{
    proof {
        use_type_invariant(args);
        lemma_axis_in_world(args@, axis_min(region.x as int, 1024));
        lemma_axis_in_world(args@, axis_min(region.z as int, 1024));
    }
    if region.x < -REGION_LIMIT || region.x > REGION_LIMIT || region.z < -REGION_LIMIT || region.z
        > REGION_LIMIT {
        return UNOWNED;
    }
    get_owner_of_location(args, server_count, min_block_from_region(region))
}

/// Every block of the square around the origin belongs to shard 0, whatever
/// the number of shards.
pub proof fn lemma_origin_belongs_to_first(p: Partition, shard_count: int, x: int, z: int)
    requires
        p.in_origin(x, z),
    ensures
        p.owner(shard_count, x, z) == 0,
{
}

/// A block outside the world belongs to nobody, unless it lies in the
/// square around the origin: that square reaches past the world where the
/// world is a single slice wide. A block is outside the world when its
/// shifted coordinate is negative on one axis or its slice index is not
/// below the number of slices; in a valid partition these are the blocks
/// that are not within half the diameter of the origin.
pub proof fn lemma_outside_world_is_unowned(p: Partition, shard_count: int, x: int, z: int)
    requires
        !p.in_world(x, z),
        !p.in_origin(x, z),
    ensures
        p.owner(shard_count, x, z) == UNOWNED,
        p.valid() ==> x < -p.shift() || x >= p.shift() || z < -p.shift() || z >= p.shift(),
{
    if p.valid() {
        lemma_axis_in_world(p, x);
        lemma_axis_in_world(p, z);
    }
}

/// Ownership is settled by the partition, the number of shards and the
/// block alone: whoever asks again gets the same answer. Every block has an
/// answer, for every partition and every number of shards.
pub proof fn lemma_owner_is_settled(
    p: Partition,
    shard_count: int,
    x: int,
    z: int,
    first: int,
    second: int,
)
    requires
        first == p.owner(shard_count, x, z),
        second == p.owner(shard_count, x, z),
    ensures
        first == second,
        first == 0 || first == UNOWNED || (p.in_world(x, z) && first == p.position(x, z)
            % shard_count),
{
}

/// The owner is `UNOWNED` or the index of one of the shards. Without the
/// square around the origin it is a shard exactly for the blocks inside the
/// world, given that there is a shard at all.
pub proof fn lemma_owner_range(p: Partition, shard_count: int, x: int, z: int)
    requires
        p.valid(),
        shard_count > 0,
    ensures
        p.owner(shard_count, x, z) == UNOWNED || 0 <= p.owner(shard_count, x, z) < shard_count,
        !p.in_origin(x, z) ==> (p.owner(shard_count, x, z) >= 0 <==> p.in_world(x, z)),
{
}

/// Inside the world and outside the square around the origin, the slices go
/// to the shards in turn, row by row: the owner is the slice's position
/// modulo the number of shards, the position being the column plus the row
/// times the number of slices in a row. Both indices are below that number,
/// so no two slices share a position, and the blocks of one slice share
/// their owner.
pub proof fn lemma_row_major_striping(p: Partition, shard_count: int, x: int, z: int)
    requires
        p.valid(),
        shard_count > 0,
        p.in_world(x, z),
        !p.in_origin(x, z),
    ensures
        0 <= p.slice_index(x) < p.slices_per_row(),
        0 <= p.slice_index(z) < p.slices_per_row(),
        0 <= p.position(x, z) < p.slices_per_row() * p.slices_per_row(),
        p.position(x, z) % p.slices_per_row() == p.slice_index(x),
        p.position(x, z) / p.slices_per_row() == p.slice_index(z),
        p.owner(shard_count, x, z) == p.position(x, z) % shard_count,
{
    lemma_axis_in_world(p, x);
    lemma_axis_in_world(p, z);
    let n = p.slices_per_row();
    let sx = p.slice_index(x);
    let sz = p.slice_index(z);
    assert(0 <= sx + sz * n < n * n && (sx + sz * n) % n == sx && (sx + sz * n) / n == sz)
        by (nonlinear_arith)
        requires
            0 <= sx < n,
            0 <= sz < n,
    {
    }
}

/// How many of the first `n` slice positions go to shard `k` when the
/// positions go to `shard_count` shards in turn.
pub open spec fn share(n: int, shard_count: int, k: int) -> int
    decreases n,
{
    if n <= 0 {
        0
    } else if (n - 1) % shard_count == k {
        share(n - 1, shard_count, k) + 1
    } else {
        share(n - 1, shard_count, k)
    }
}

/// Of `n` slice positions every shard gets `n / shard_count`, and the first
/// `n % shard_count` shards one more. Where the number of shards divides the
/// number of slices, all shards get the same number of slices.
pub proof fn lemma_even_share(n: int, shard_count: int, k: int)
    requires
        n >= 0,
        shard_count > 0,
        0 <= k < shard_count,
    ensures
        share(n, shard_count, k) == n / shard_count + if k < n % shard_count {
            1int
        } else {
            0int
        },
        n % shard_count == 0 ==> share(n, shard_count, k) * shard_count == n,
    decreases n,
{
    let c = shard_count;
    if n > 0 {
        let m = n - 1;
        lemma_even_share(m, shard_count, k);
        let q = m / c;
        let r = m % c;
        lemma_fundamental_div_mod(m, c);
        lemma_mod_bound(m, c);
        assert(c * q == q * c) by (nonlinear_arith);
        if r == c - 1 {
            assert(n == (q + 1) * c + 0) by (nonlinear_arith)
                requires
                    n == q * c + r + 1,
                    r == c - 1,
            {
            }
            lemma_fundamental_div_mod_converse(n, c, q + 1, 0);
        } else {
            lemma_fundamental_div_mod_converse(n, c, q, r + 1);
        }
    }
    assert(n % c == 0 ==> (n / c) * c == n) by (nonlinear_arith)
        requires
            c > 0,
            n >= 0,
    {
    }
    assert(0int / c == 0 && 0int % c == 0) by (nonlinear_arith)
        requires
            c > 0,
    {
    }
}

/// Where the number of shards divides the number of slices of the world,
/// every shard gets the same number of slice positions.
pub proof fn lemma_even_striping(p: Partition, shard_count: int, k: int)
    requires
        p.valid(),
        shard_count > 0,
        0 <= k < shard_count,
        (p.slices_per_row() * p.slices_per_row()) % shard_count == 0,
    ensures
        share(p.slices_per_row() * p.slices_per_row(), shard_count, k) * shard_count
            == p.slices_per_row() * p.slices_per_row(),
{
    let n = p.slices_per_row();
    assert(n * n >= 0) by (nonlinear_arith);
    lemma_even_share(n * n, shard_count, k);
}

} // verus!
