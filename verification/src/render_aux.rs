//! Bookkeeping around a splat render: the tile grid of an image, the bound
//! on splat-tile intersections, the consistency of the buffers a render
//! reads back, and the number of hits per tile.
//!
//! The tile width and the dispatch bound come from the render kernels and
//! are passed in.

use vstd::prelude::*;

verus! {

/// The most visible splats a render supports: 256 per workgroup, 65535
/// workgroups.
pub const GAUSSIANS_UPPER_BOUND: u32 = 16776960;

/// `a / b`, rounded up.
pub open spec fn ceil_div(a: int, b: int) -> int {
    (a + b - 1) / b
}

fn div_ceil_u32(a: u32, b: u32) -> (r: u32)
    requires
        b > 0,
    ensures
        r == ceil_div(a as int, b as int),
{
    let q = a / b;
    let r = a % b;
    proof {
        vstd::arithmetic::div_mod::lemma_fundamental_div_mod(a as int, b as int);
        assert((a as int + b as int - 1) / (b as int) == q as int + if r == 0 { 0int } else { 1 })
            by (nonlinear_arith)
            requires
                a as int == (b as int) * (q as int) + r as int,
                0 <= r < b,
        ;
        assert(r != 0 ==> q < u32::MAX) by (nonlinear_arith)
            requires
                a as int == (b as int) * (q as int) + r as int,
                0 <= r < b,
                a <= u32::MAX,
        ;
    }
    if r == 0 {
        q
    } else {
        q + 1
    }
}

/// How many tiles of `tile_width` pixels cover an image of `width` by
/// `height` pixels, across and down.
pub fn calc_tile_bounds(width: u32, height: u32, tile_width: u32) -> (r: (u32, u32))
    requires
        tile_width > 0,
    ensures
        r.0 == ceil_div(width as int, tile_width as int),
        r.1 == ceil_div(height as int, tile_width as int),
{
    (div_ceil_u32(width, tile_width), div_ceil_u32(height, tile_width))
}

/// The most intersections a render of `num_splats` splats can produce: each
/// splat hitting every tile, saturating at `u32::MAX`, and at most
/// `intersects_upper_bound`.
pub open spec fn spec_max_intersections(
    width: u32,
    height: u32,
    num_splats: u32,
    tile_width: u32,
    intersects_upper_bound: u32,
) -> int {
    let tiles = ceil_div(width as int, tile_width as int) * ceil_div(
        height as int,
        tile_width as int,
    );
    let all = if num_splats * tiles > u32::MAX { u32::MAX as int } else { num_splats * tiles };
    if all < intersects_upper_bound { all } else { intersects_upper_bound as int }
}

/// The estimate of intersections used where the count cannot be read back
/// before rendering.
pub fn max_intersections(
    width: u32,
    height: u32,
    num_splats: u32,
    tile_width: u32,
    intersects_upper_bound: u32,
) -> (r: u32)
    requires
        tile_width > 0,
        ceil_div(width as int, tile_width as int) * ceil_div(height as int, tile_width as int)
            <= u32::MAX,
    ensures
        r == spec_max_intersections(width, height, num_splats, tile_width, intersects_upper_bound),
{
    let (tx, ty) = calc_tile_bounds(width, height, tile_width);
    let num_tiles = tx * ty;
    let all = match num_splats.checked_mul(num_tiles) {
        Some(m) => m,
        None => u32::MAX,
    };
    if all < intersects_upper_bound {
        all
    } else {
        intersects_upper_bound
    }
}

/// Which consistency check a render's buffers fail, in the order checked.
#[derive(Debug, Clone, Copy, PartialEq, Eq, Structural)]
pub enum AuxError {
    /// The intersection count is negative or not below the dispatch bound.
    TooManyIntersections,
    /// The visible count is negative or above the number of splats.
    VisibleExceedsSplats,
    /// The visible count is not below [`GAUSSIANS_UPPER_BOUND`].
    TooManyGaussians,
    /// A final index is negative or above the intersection count.
    FinalIndexOutOfBounds,
    /// A tile offset is negative or above the intersection count.
    TileOffsetOutOfBounds,
    /// A tile ends before it starts.
    TileOffsetsDecrease,
    /// A tile has more hits than there are visible splats.
    TileOverfull,
    /// Fewer intersection ids were read back than there are intersections.
    MissingIntersectionIds,
    /// An intersection refers to no visible splat.
    InvalidIntersectionId,
    /// Fewer splat ids were read back than there are visible splats.
    MissingSplatIds,
    /// A visible splat refers to no splat.
    InvalidSplatId,
}

/// Every value of `s` lies in `lo..=hi`.
pub open spec fn all_within(s: Seq<i32>, lo: int, hi: int) -> bool {
    forall|i: int| 0 <= i < s.len() ==> lo <= #[trigger] s[i] <= hi
}

/// The first `n` values of `s` lie in `lo..hi`.
pub open spec fn first_below(s: Seq<i32>, n: int, lo: int, hi: int) -> bool {
    forall|i: int| 0 <= i < n ==> lo <= #[trigger] s[i] < hi
}

/// Consecutive tile offsets never decrease.
pub open spec fn offsets_rise(s: Seq<i32>) -> bool {
    forall|i: int| 0 <= i < s.len() - 1 ==> s[i] <= #[trigger] s[i + 1]
}

/// No tile has more than `limit` hits.
pub open spec fn tiles_within(s: Seq<i32>, limit: int) -> bool {
    forall|i: int| 0 <= i < s.len() - 1 ==> #[trigger] s[i + 1] - s[i] <= limit
}

/// The first failing check of a render's buffers, if any.
pub open spec fn aux_check(
    num_intersections: i32,
    num_visible: i32,
    num_points: u32,
    final_index: Seq<i32>,
    tile_offsets: Seq<i32>,
    compact_gid_from_isect: Seq<i32>,
    global_from_compact_gid: Seq<i32>,
    intersects_upper_bound: u32,
) -> Result<(), AuxError> {
    let ni = num_intersections as int;
    let nv = num_visible as int;
    if !(0 <= ni < intersects_upper_bound) {
        Err(AuxError::TooManyIntersections)
    } else if !(0 <= nv <= num_points) {
        Err(AuxError::VisibleExceedsSplats)
    } else if !(nv < GAUSSIANS_UPPER_BOUND) {
        Err(AuxError::TooManyGaussians)
    } else if !all_within(final_index, 0, ni) {
        Err(AuxError::FinalIndexOutOfBounds)
    } else if !all_within(tile_offsets, 0, ni) {
        Err(AuxError::TileOffsetOutOfBounds)
    } else if !offsets_rise(tile_offsets) {
        Err(AuxError::TileOffsetsDecrease)
    } else if !tiles_within(tile_offsets, nv) {
        Err(AuxError::TileOverfull)
    } else if compact_gid_from_isect.len() < ni {
        Err(AuxError::MissingIntersectionIds)
    } else if !first_below(compact_gid_from_isect, ni, 0, nv) {
        Err(AuxError::InvalidIntersectionId)
    } else if global_from_compact_gid.len() < nv {
        Err(AuxError::MissingSplatIds)
    } else if !first_below(global_from_compact_gid, nv, 0, num_points as int) {
        Err(AuxError::InvalidSplatId)
    } else {
        Ok(())
    }
}

/// A render whose buffers pass every check has, in every tile, between zero
/// and `num_visible` hits: the tile depths derived from its offsets stay in
/// that range.
pub proof fn lemma_checked_depths_bounded(
    num_intersections: i32,
    num_visible: i32,
    num_points: u32,
    final_index: Seq<i32>,
    tile_offsets: Seq<i32>,
    compact_gid_from_isect: Seq<i32>,
    global_from_compact_gid: Seq<i32>,
    intersects_upper_bound: u32,
    k: int,
)
    requires
        aux_check(
            num_intersections,
            num_visible,
            num_points,
            final_index,
            tile_offsets,
            compact_gid_from_isect,
            global_from_compact_gid,
            intersects_upper_bound,
        ) is Ok,
        0 <= k < tile_offsets.len() - 1,
    ensures
        0 <= tile_offsets[k + 1].wrapping_sub(tile_offsets[k]) <= num_visible,
{
    let a = tile_offsets[k];
    let b = tile_offsets[k + 1];
    assert(0 <= a <= num_intersections && 0 <= b <= num_intersections);
    assert(a <= b);
    assert(b - a <= num_visible);
    assert(b.wrapping_sub(a) == b - a) by (bit_vector)
        requires
            0 <= a <= b,
    ;
}

/// Whether every value of `s` lies in `lo..=hi`.
fn check_all_within(s: &Vec<i32>, lo: i32, hi: i32) -> (r: bool)
    ensures
        r == all_within(s@, lo as int, hi as int),
{
    let mut i: usize = 0;
    while i < s.len()
        invariant
            i <= s.len(),
            forall|j: int| 0 <= j < i ==> lo <= #[trigger] s@[j] <= hi,
        decreases s.len() - i,
    {
        if s[i] < lo || s[i] > hi {
            return false;
        }
        i = i + 1;
    }
    true
}

/// Whether the first `n` values of `s` lie in `lo..hi`.
fn check_first_below(s: &Vec<i32>, n: usize, lo: i32, hi: i64) -> (r: bool)
    requires
        n <= s.len(),
    ensures
        r == first_below(s@, n as int, lo as int, hi as int),
{
    let mut i: usize = 0;
    while i < n
        invariant
            i <= n,
            n <= s.len(),
            forall|j: int| 0 <= j < i ==> lo <= #[trigger] s@[j] < hi,
        decreases n - i,
    {
        if s[i] < lo || (s[i] as i64) >= hi {
            return false;
        }
        i = i + 1;
    }
    true
}

/// Checks the buffers a render read back, in the order the render's own
/// debug check does, and reports the first check that fails.
///
/// `num_points` is the number of splats; like the buffers' entries it is
/// compared as an `i32`, so it must fit one.
pub fn check_render_aux(
    num_intersections: i32,
    num_visible: i32,
    num_points: u32,
    final_index: &Vec<i32>,
    tile_offsets: &Vec<i32>,
    compact_gid_from_isect: &Vec<i32>,
    global_from_compact_gid: &Vec<i32>,
    intersects_upper_bound: u32,
) -> (r: Result<(), AuxError>)
    requires
        num_points <= i32::MAX,
        tile_offsets.len() >= 1,
    ensures
        r == aux_check(
            num_intersections,
            num_visible,
            num_points,
            final_index@,
            tile_offsets@,
            compact_gid_from_isect@,
            global_from_compact_gid@,
            intersects_upper_bound,
        ),
{
    if !(0 <= num_intersections && (num_intersections as i64) < (intersects_upper_bound as i64)) {
        return Err(AuxError::TooManyIntersections);
    }
    if !(0 <= num_visible && (num_visible as i64) <= (num_points as i64)) {
        return Err(AuxError::VisibleExceedsSplats);
    }
    if !((num_visible as i64) < (GAUSSIANS_UPPER_BOUND as i64)) {
        return Err(AuxError::TooManyGaussians);
    }
    if !check_all_within(final_index, 0, num_intersections) {
        return Err(AuxError::FinalIndexOutOfBounds);
    }
    if !check_all_within(tile_offsets, 0, num_intersections) {
        return Err(AuxError::TileOffsetOutOfBounds);
    }
    let n = tile_offsets.len();
    let mut i: usize = 0;
    while i < n - 1
        invariant
            n == tile_offsets.len(),
            n >= 1,
            i <= n - 1,
            0 <= num_intersections < intersects_upper_bound,
            0 <= num_visible <= num_points,
            num_visible < GAUSSIANS_UPPER_BOUND,
            all_within(final_index@, 0, num_intersections as int),
            all_within(tile_offsets@, 0, num_intersections as int),
            forall|j: int| 0 <= j < i ==> tile_offsets@[j] <= #[trigger] tile_offsets@[j + 1],
        decreases n - 1 - i,
    {
        if tile_offsets[i + 1] < tile_offsets[i] {
            return Err(AuxError::TileOffsetsDecrease);
        }
        i = i + 1;
    }
    let mut i: usize = 0;
    while i < n - 1
        invariant
            n == tile_offsets.len(),
            n >= 1,
            i <= n - 1,
            0 <= num_intersections < intersects_upper_bound,
            0 <= num_visible <= num_points,
            num_visible < GAUSSIANS_UPPER_BOUND,
            all_within(final_index@, 0, num_intersections as int),
            all_within(tile_offsets@, 0, num_intersections as int),
            offsets_rise(tile_offsets@),
            forall|j: int|
                0 <= j < i ==> #[trigger] tile_offsets@[j + 1] - tile_offsets@[j] <= num_visible,
        decreases n - 1 - i,
    {
        assert(0 <= tile_offsets@[i as int] && 0 <= tile_offsets@[i as int + 1]);
        if tile_offsets[i + 1] - tile_offsets[i] > num_visible {
            return Err(AuxError::TileOverfull);
        }
        i = i + 1;
    }
    let ni = num_intersections as usize;
    if compact_gid_from_isect.len() < ni {
        return Err(AuxError::MissingIntersectionIds);
    }
    if !check_first_below(compact_gid_from_isect, ni, 0, num_visible as i64) {
        return Err(AuxError::InvalidIntersectionId);
    }
    let nv = num_visible as usize;
    if global_from_compact_gid.len() < nv {
        return Err(AuxError::MissingSplatIds);
    }
    if !check_first_below(global_from_compact_gid, nv, 0, num_points as i64) {
        return Err(AuxError::InvalidSplatId);
    }
    Ok(())
}

/// The hits of each tile, row by row: tile `x` of row `y` has the
/// difference of consecutive offsets at `y * tiles_x + x` (with the wrapping
/// arithmetic of the render's integers).
pub fn tile_depth(tile_offsets: &Vec<i32>, tiles_x: usize, tiles_y: usize) -> (rows: Vec<
    Vec<i32>,
>)
    requires
        tile_offsets.len() == tiles_x * tiles_y + 1,
    ensures
        rows.len() == tiles_y,
        forall|y: int|
            0 <= y < tiles_y ==> #[trigger] rows@[y].len() == tiles_x && forall|x: int|
                0 <= x < tiles_x ==> #[trigger] rows@[y]@[x] == tile_offsets@[y * tiles_x + x
                    + 1].wrapping_sub(tile_offsets@[y * tiles_x + x]),
{
    let mut rows: Vec<Vec<i32>> = Vec::new();
    let mut y: usize = 0;
    while y < tiles_y
        invariant
            y <= tiles_y,
            tile_offsets.len() == tiles_x * tiles_y + 1,
            rows.len() == y,
            forall|yy: int|
                0 <= yy < y ==> #[trigger] rows@[yy].len() == tiles_x && forall|x: int|
                    0 <= x < tiles_x ==> #[trigger] rows@[yy]@[x] == tile_offsets@[yy * tiles_x
                        + x + 1].wrapping_sub(tile_offsets@[yy * tiles_x + x]),
        decreases tiles_y - y,
    {
        let mut row: Vec<i32> = Vec::new();
        let mut x: usize = 0;
        proof {
            assert((y + 1) * tiles_x <= tiles_y * tiles_x) by (nonlinear_arith)
                requires
                    y + 1 <= tiles_y,
            ;
            assert(y * tiles_x + tiles_x == (y + 1) * tiles_x) by (nonlinear_arith);
            assert(tiles_x * tiles_y == tiles_y * tiles_x) by (nonlinear_arith);
        }
        let base = y * tiles_x;
        while x < tiles_x
            invariant
                x <= tiles_x,
                base == y * tiles_x,
                base + tiles_x < tile_offsets.len(),
                row.len() == x,
                forall|xx: int|
                    0 <= xx < x ==> #[trigger] row@[xx] == tile_offsets@[base + xx + 1].wrapping_sub(
                        tile_offsets@[base + xx],
                    ),
            decreases tiles_x - x,
        {
            row.push(tile_offsets[base + x + 1].wrapping_sub(tile_offsets[base + x]));
            x = x + 1;
        }
        rows.push(row);
        y = y + 1;
    }
    rows
}

} // verus!
