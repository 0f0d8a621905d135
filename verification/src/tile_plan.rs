//! How a map of a rectangle of regions is put together from map tiles: the
//! zoom level that fits the regions into the output image, which tiles are
//! fetched, which part of each tile is used and where it goes in the map.
//!
//! At zoom level `z` (1 to 8) a map tile covers `2^(z-1)` regions in each
//! direction, its lower left corner at multiples of that, and each region
//! is `2^(9-z)` pixels wide. Pixel rows count from the top of the image,
//! grid rows from the bottom.
use vstd::arithmetic::div_mod::{
    lemma_fundamental_div_mod, lemma_fundamental_div_mod_converse, lemma_mod_pos_bound,
};
use vstd::arithmetic::power2::{lemma2_to64, pow2};
use vstd::prelude::*;

use sl_types::map::{GridCoordinates, MapTileDescriptor, ZoomFitError, ZoomLevel};

use crate::region::GridBounds;

verus! {

/// why no zoom level fits a number of regions into an image
#[derive(Debug, Clone, Copy, PartialEq, Eq, Structural)]
pub enum ZoomFitProblem {
    /// no regions across
    RegionSizeXZero,
    /// no regions up
    RegionSizeYZero,
    /// no pixels across
    OutputSizeXZero,
    /// no pixels up
    OutputSizeYZero,
    /// the image has at most one pixel per region in some direction
    NoZoomLevel,
}

/// the base 2 logarithm of `n`, rounded down (0 for `n < 2`)
pub open spec fn spec_log2(n: int) -> int
    decreases n,
{
    if n < 2 {
        0
    } else {
        1 + spec_log2(n / 2)
    }
}

/// the zoom level that puts `regions` regions into `output` pixels along
/// one direction: 9 less the base 2 logarithm (at most 8) of the pixels per
/// region, rounded up
pub open spec fn spec_axis_zoom(regions: int, output: int) -> int {
    let per_region = (output + regions - 1) / regions;
    9 - if spec_log2(per_region) < 8 {
        spec_log2(per_region)
    } else {
        8
    }
}

/// the zoom level used to fit `rx` by `ry` regions into an image of `ox`
/// by `oy` pixels: the larger of the two directions' levels, if it is a
/// zoom level
pub open spec fn spec_zoom_fit(rx: int, ry: int, ox: int, oy: int) -> Result<int, ZoomFitProblem> {
    if rx == 0 {
        Err(ZoomFitProblem::RegionSizeXZero)
    } else if ry == 0 {
        Err(ZoomFitProblem::RegionSizeYZero)
    } else if ox == 0 {
        Err(ZoomFitProblem::OutputSizeXZero)
    } else if oy == 0 {
        Err(ZoomFitProblem::OutputSizeYZero)
    } else {
        let z = if spec_axis_zoom(rx, ox) < spec_axis_zoom(ry, oy) {
            spec_axis_zoom(ry, oy)
        } else {
            spec_axis_zoom(rx, ox)
        };
        if 1 <= z <= 8 {
            Ok(z)
        } else {
            Err(ZoomFitProblem::NoZoomLevel)
        }
    }
}

/// Calls `sl_types::map::ZoomLevel::max_zoom_level_to_fit_regions_into_output_image`:
/// for non-zero sizes, the zoom level `9 - min(8, ilog2(ceil(output /
/// regions)))` of each direction, the larger of the two, refused when it
/// is not between 1 and 8.
#[verifier::external_body]
fn zoom_to_fit(rx: u32, ry: u32, ox: u32, oy: u32) -> (r: Result<u8, ZoomFitProblem>)
    ensures
        match spec_zoom_fit(rx as int, ry as int, ox as int, oy as int) {
            Ok(z) => r == Ok::<u8, ZoomFitProblem>(z as u8),
            Err(e) => r == Err::<u8, ZoomFitProblem>(e),
        },
{
    match ZoomLevel::max_zoom_level_to_fit_regions_into_output_image(rx, ry, ox, oy) {
        Ok(z) => Ok(z.into_inner()),
        Err(ZoomFitError::RegionSizeXZero) => Err(ZoomFitProblem::RegionSizeXZero),
        Err(ZoomFitError::RegionSizeYZero) => Err(ZoomFitProblem::RegionSizeYZero),
        Err(ZoomFitError::OutputSizeXZero) => Err(ZoomFitProblem::OutputSizeXZero),
        Err(ZoomFitError::OutputSizeYZero) => Err(ZoomFitProblem::OutputSizeYZero),
        Err(_) => Err(ZoomFitProblem::NoZoomLevel),
    }
}

/// the number of regions a map tile of zoom level `z` covers in each
/// direction
pub open spec fn spec_tile_size(z: int) -> int {
    pow2((z - 1) as nat) as int
}

/// the width in pixels of a region in a map tile of zoom level `z`
pub open spec fn spec_pixels_per_region(z: int) -> int {
    pow2((9 - z) as nat) as int
}

/// the lower left coordinate of the map tile of zoom level `z` holding
/// coordinate `v`
pub open spec fn spec_tile_corner(z: int, v: int) -> int {
    v - v % spec_tile_size(z)
}

/// Calls `sl_types::map::ZoomLevel::tile_size`: `2^(z-1)` regions.
#[verifier::external_body]
fn tile_size(z: u8) -> (r: u32)
    requires
        1 <= z <= 8,
    ensures
        r == spec_tile_size(z as int),
{
    match ZoomLevel::try_new(z) {
        Ok(level) => u32::from(level.tile_size()),
        Err(_) => 0,
    }
}

/// Calls `sl_types::map::ZoomLevel::pixels_per_region`: `2^(9-z)` pixels.
#[verifier::external_body]
pub(crate) fn pixels_per_region(z: u8) -> (r: u32)
    requires
        1 <= z <= 8,
    ensures
        r == spec_pixels_per_region(z as int),
{
    match ZoomLevel::try_new(z) {
        Ok(level) => u32::from(level.pixels_per_region()),
        Err(_) => 0,
    }
}

/// Calls `sl_types::map::MapTileDescriptor::new` and reads the lower left
/// corner it normalises the coordinates to: each coordinate less its
/// remainder by the tile size.
#[verifier::external_body]
fn tile_corner(z: u8, x: u32, y: u32) -> (r: (u32, u32))
    requires
        1 <= z <= 8,
    ensures
        r.0 == spec_tile_corner(z as int, x as int),
        r.1 == spec_tile_corner(z as int, y as int),
{
    match ZoomLevel::try_new(z) {
        Ok(level) => {
            let c = *MapTileDescriptor::new(level, GridCoordinates::new(x, y)).lower_left_corner();
            (c.x(), c.y())
        },
        Err(_) => (x, y),
    }
}

/// the sizes of the zoom levels
proof fn lemma_zoom_sizes(z: int)
    requires
        1 <= z <= 8,
    ensures
        1 <= spec_tile_size(z) <= 128,
        2 <= spec_pixels_per_region(z) <= 256,
        spec_tile_size(z) * spec_pixels_per_region(z) == 256,
{
    lemma2_to64();
    if z == 1 {
        assert(spec_tile_size(z) == 1 && spec_pixels_per_region(z) == 256);
    } else if z == 2 {
        assert(spec_tile_size(z) == 2 && spec_pixels_per_region(z) == 128);
    } else if z == 3 {
        assert(spec_tile_size(z) == 4 && spec_pixels_per_region(z) == 64);
    } else if z == 4 {
        assert(spec_tile_size(z) == 8 && spec_pixels_per_region(z) == 32);
    } else if z == 5 {
        assert(spec_tile_size(z) == 16 && spec_pixels_per_region(z) == 16);
    } else if z == 6 {
        assert(spec_tile_size(z) == 32 && spec_pixels_per_region(z) == 8);
    } else if z == 7 {
        assert(spec_tile_size(z) == 64 && spec_pixels_per_region(z) == 4);
    } else {
        assert(spec_tile_size(z) == 128 && spec_pixels_per_region(z) == 2);
    }
}

/// the coordinates of a map tile's block all have its corner
pub proof fn lemma_same_block(ts: int, v: int, w: int)
    requires
        ts > 0,
        v >= 0,
        v - v % ts <= w < v - v % ts + ts,
    ensures
        w - w % ts == v - v % ts,
        0 <= v % ts < ts,
{
    lemma_fundamental_div_mod(v, ts);
    lemma_mod_pos_bound(v, ts);
    let q = v / ts;
    assert(v - v % ts == q * ts) by (nonlinear_arith)
        requires
            v == ts * q + v % ts,
    ;
    lemma_fundamental_div_mod_converse(w, ts, q, w - q * ts);
}

/// whether the map is `b` (corners inclusive, lower left no greater than
/// upper right)
pub open spec fn grid_ok(b: GridBounds) -> bool {
    b.lower_left_x <= b.upper_right_x && b.lower_left_y <= b.upper_right_y
}

/// the width of the map `b` in pixels at zoom level `z`
pub open spec fn spec_map_width(b: GridBounds, z: int) -> int {
    spec_pixels_per_region(z) * (b.upper_right_x - b.lower_left_x + 1)
}

/// the height of the map `b` in pixels at zoom level `z`
pub open spec fn spec_map_height(b: GridBounds, z: int) -> int {
    spec_pixels_per_region(z) * (b.upper_right_y - b.lower_left_y + 1)
}

/// a region coordinate `r` starts the part of its map tile's block inside
/// the map (it is the block's corner, or the map's edge `lo`)
pub open spec fn starts_block(lo: int, r: int, z: int) -> bool {
    r == if spec_tile_corner(z, r) < lo {
        lo
    } else {
        spec_tile_corner(z, r)
    }
}

/// the last coordinate of `r`'s block inside the map, whose edge is `hi`
pub open spec fn block_end(hi: int, r: int, z: int) -> int {
    let e = spec_tile_corner(z, r) + spec_tile_size(z) - 1;
    if e < hi {
        e
    } else {
        hi
    }
}

/// one map tile used in a map: which tile, which regions of the map it
/// supplies, which part of the tile's image that is, and where it goes in
/// the map's image
#[derive(Debug, Clone, Copy, PartialEq, Eq, Structural)]
pub struct TilePlacement {
    /// the x coordinate of the tile's lower left corner
    pub tile_x: u32,
    /// the y coordinate of the tile's lower left corner
    pub tile_y: u32,
    /// the regions of the map the tile supplies
    pub overlap: GridBounds,
    /// the left edge of the part used, in the tile's pixels
    pub crop_x: u32,
    /// the top edge of the part used, in the tile's pixels
    pub crop_y: u32,
    /// the width of the part used in pixels
    pub width: u32,
    /// the height of the part used in pixels
    pub height: u32,
    /// where its left edge goes in the map's image
    pub dest_x: u32,
    /// where its top edge goes in the map's image
    pub dest_y: u32,
}

/// the placement of the tile whose part inside the map `b` starts at
/// region (`rx`, `ry`), at zoom level `z`
pub open spec fn spec_placement(b: GridBounds, z: int, rx: int, ry: int) -> TilePlacement {
    let ppr = spec_pixels_per_region(z);
    let ts = spec_tile_size(z);
    let cx = spec_tile_corner(z, rx);
    let cy = spec_tile_corner(z, ry);
    let ex = block_end(b.upper_right_x as int, rx, z);
    let ey = block_end(b.upper_right_y as int, ry, z);
    TilePlacement {
        tile_x: cx as u32,
        tile_y: cy as u32,
        overlap: GridBounds {
            lower_left_x: rx as u16,
            lower_left_y: ry as u16,
            upper_right_x: ex as u16,
            upper_right_y: ey as u16,
        },
        crop_x: (ppr * (rx - cx)) as u32,
        crop_y: (ppr * (cy + ts - 1 - ey)) as u32,
        width: (ppr * (ex - rx + 1)) as u32,
        height: (ppr * (ey - ry + 1)) as u32,
        dest_x: (ppr * (rx - b.lower_left_x)) as u32,
        dest_y: (ppr * (b.upper_right_y - ey)) as u32,
    }
}

/// the region (`gx`, `gy`) lies in the regions `o`
pub open spec fn in_bounds(o: GridBounds, gx: int, gy: int) -> bool {
    o.lower_left_x <= gx <= o.upper_right_x && o.lower_left_y <= gy <= o.upper_right_y
}

/// `plan` is the list of tiles making the map `b` at zoom level `z`: each
/// entry is the placement of a tile starting a block in both directions,
/// each such start appears, and no start twice
pub open spec fn plan_is(b: GridBounds, z: int, plan: Seq<TilePlacement>) -> bool {
    &&& forall|k: int|
        #![trigger plan[k]]
        0 <= k < plan.len() ==> {
            let rx = plan[k].overlap.lower_left_x as int;
            let ry = plan[k].overlap.lower_left_y as int;
            &&& in_bounds(b, rx, ry)
            &&& starts_block(b.lower_left_x as int, rx, z)
            &&& starts_block(b.lower_left_y as int, ry, z)
            &&& plan[k] == spec_placement(b, z, rx, ry)
        }
    &&& forall|rx: int, ry: int|
        in_bounds(b, rx, ry) && starts_block(b.lower_left_x as int, rx, z) && starts_block(
            b.lower_left_y as int,
            ry,
            z,
        ) ==> exists|k: int|
            #![trigger plan[k]]
            0 <= k < plan.len() && plan[k].overlap.lower_left_x == rx
                && plan[k].overlap.lower_left_y == ry
    &&& forall|k1: int, k2: int|
        #![trigger plan[k1], plan[k2]]
        0 <= k1 < plan.len() && 0 <= k2 < plan.len() && k1 != k2 ==> (plan[k1].overlap.lower_left_x
            != plan[k2].overlap.lower_left_x || plan[k1].overlap.lower_left_y
            != plan[k2].overlap.lower_left_y)
}

/// the zoom level at which the map `b` fits into an image of at most
/// `max_width` by `max_height` pixels with one tile pixel per image pixel
pub fn map_zoom_level(b: GridBounds, max_width: u32, max_height: u32) -> (r: Result<
    u8,
    ZoomFitProblem,
>)
    requires
        grid_ok(b),
    ensures
        match spec_zoom_fit(
            b.upper_right_x - b.lower_left_x + 1,
            b.upper_right_y - b.lower_left_y + 1,
            max_width as int,
            max_height as int,
        ) {
            Ok(z) => r == Ok::<u8, ZoomFitProblem>(z as u8),
            Err(e) => r == Err::<u8, ZoomFitProblem>(e),
        },
{
    let size_x = (b.upper_right_x - b.lower_left_x) as u32 + 1;
    let size_y = (b.upper_right_y - b.lower_left_y) as u32 + 1;
    zoom_to_fit(size_x, size_y, max_width, max_height)
}

/// the size in pixels of the image of the map `b` at zoom level `z`
pub fn map_pixel_size(b: GridBounds, z: u8) -> (r: (u32, u32))
    requires
        grid_ok(b),
        1 <= z <= 8,
    ensures
        r.0 == spec_map_width(b, z as int),
        r.1 == spec_map_height(b, z as int),
{
    let ppr = pixels_per_region(z);
    let size_x = (b.upper_right_x - b.lower_left_x) as u32 + 1;
    let size_y = (b.upper_right_y - b.lower_left_y) as u32 + 1;
    proof {
        lemma_zoom_sizes(z as int);
        assert(ppr * size_x <= 256 * 65536) by (nonlinear_arith)
            requires
                ppr <= 256,
                size_x <= 65536,
        ;
        assert(ppr * size_y <= 256 * 65536) by (nonlinear_arith)
            requires
                ppr <= 256,
                size_y <= 65536,
        ;
    }
    (ppr * size_x, ppr * size_y)
}

/// the pixels of region (`gx`, `gy`) in the image of the map `b` at zoom
/// level `z`: `(left, top, right, bottom)`, right and bottom exclusive
pub open spec fn spec_region_pixels(b: GridBounds, z: int, gx: int, gy: int) -> (int, int, int, int) {
    let ppr = spec_pixels_per_region(z);
    (
        ppr * (gx - b.lower_left_x),
        ppr * (b.upper_right_y - gy),
        ppr * (gx - b.lower_left_x + 1),
        ppr * (b.upper_right_y - gy + 1),
    )
}

/// the pixels of region (`gx`, `gy`) in the image of the map `b` at zoom
/// level `z` (used to paint regions that do not exist)
pub fn region_pixels(b: GridBounds, z: u8, gx: u16, gy: u16) -> (r: (u32, u32, u32, u32))
    requires
        grid_ok(b),
        1 <= z <= 8,
        in_bounds(b, gx as int, gy as int),
    ensures
        r.0 == spec_region_pixels(b, z as int, gx as int, gy as int).0,
        r.1 == spec_region_pixels(b, z as int, gx as int, gy as int).1,
        r.2 == spec_region_pixels(b, z as int, gx as int, gy as int).2,
        r.3 == spec_region_pixels(b, z as int, gx as int, gy as int).3,
        r.2 <= spec_map_width(b, z as int),
        r.3 <= spec_map_height(b, z as int),
{
    let ppr = pixels_per_region(z);
    let dx = (gx - b.lower_left_x) as u32;
    let dy = (b.upper_right_y - gy) as u32;
    proof {
        lemma_zoom_sizes(z as int);
        assert(ppr * (dx + 1) <= 256 * 65536) by (nonlinear_arith)
            requires
                ppr <= 256,
                dx < 65536,
        ;
        assert(ppr * (dy + 1) <= 256 * 65536) by (nonlinear_arith)
            requires
                ppr <= 256,
                dy < 65536,
        ;
        assert(ppr * (dx + 1) <= ppr * (b.upper_right_x - b.lower_left_x + 1)) by (nonlinear_arith)
            requires
                dx + 1 <= b.upper_right_x - b.lower_left_x + 1,
                ppr >= 0,
        ;
        assert(ppr * (dy + 1) <= ppr * (b.upper_right_y - b.lower_left_y + 1)) by (nonlinear_arith)
            requires
                dy + 1 <= b.upper_right_y - b.lower_left_y + 1,
                ppr >= 0,
        ;
        assert(ppr * dx <= ppr * (dx + 1)) by (nonlinear_arith)
            requires
                ppr >= 0,
        ;
        assert(ppr * dy <= ppr * (dy + 1)) by (nonlinear_arith)
            requires
                ppr >= 0,
        ;
    }
    (ppr * dx, ppr * dy, ppr * (dx + 1), ppr * (dy + 1))
}

/// the placement of the tile whose part inside the map starts at (`rx`,
/// `ry`)
fn placement(b: GridBounds, z: u8, rx: u32, ry: u32) -> (p: TilePlacement)
    requires
        grid_ok(b),
        1 <= z <= 8,
        in_bounds(b, rx as int, ry as int),
    ensures
        p == spec_placement(b, z as int, rx as int, ry as int),
        p.dest_x + p.width <= spec_map_width(b, z as int),
        p.dest_y + p.height <= spec_map_height(b, z as int),
{
    let ppr = pixels_per_region(z);
    let ts = tile_size(z);
    let (cx, cy) = tile_corner(z, rx, ry);
    proof {
        lemma_zoom_sizes(z as int);
        lemma_mod_pos_bound(rx as int, ts as int);
        lemma_mod_pos_bound(ry as int, ts as int);
    }
    let ex: u32 = if cx + ts - 1 < b.upper_right_x as u32 {
        cx + ts - 1
    } else {
        b.upper_right_x as u32
    };
    let ey: u32 = if cy + ts - 1 < b.upper_right_y as u32 {
        cy + ts - 1
    } else {
        b.upper_right_y as u32
    };
    let llx = b.lower_left_x as u32;
    let ury = b.upper_right_y as u32;
    proof {
        assert(ppr * (rx - cx) <= 256 * 128) by (nonlinear_arith)
            requires
                ppr <= 256,
                0 <= rx - cx < 128,
        ;
        assert(ppr * (cy + ts - 1 - ey) <= 256 * 128) by (nonlinear_arith)
            requires
                ppr <= 256,
                0 <= cy + ts - 1 - ey < 128,
        ;
        assert(ppr * (ex - rx + 1) <= 256 * 128) by (nonlinear_arith)
            requires
                ppr <= 256,
                0 <= ex - rx + 1 <= 128,
        ;
        assert(ppr * (ey - ry + 1) <= 256 * 128) by (nonlinear_arith)
            requires
                ppr <= 256,
                0 <= ey - ry + 1 <= 128,
        ;
        assert(ppr * (rx - llx) + ppr * (ex - rx + 1) == ppr * (ex - llx + 1)) by (nonlinear_arith);
        assert(ppr * (ex - llx + 1) <= ppr * (b.upper_right_x - b.lower_left_x + 1)) by (
        nonlinear_arith)
            requires
                ex <= b.upper_right_x,
                llx == b.lower_left_x,
                ppr >= 0,
        ;
        assert(ppr * (ury - ey) + ppr * (ey - ry + 1) == ppr * (ury - ry + 1)) by (nonlinear_arith);
        assert(ppr * (ury - ry + 1) <= ppr * (b.upper_right_y - b.lower_left_y + 1)) by (
        nonlinear_arith)
            requires
                ry >= b.lower_left_y,
                ury == b.upper_right_y,
                ppr >= 0,
        ;
        assert(ppr * (b.upper_right_x - b.lower_left_x + 1) <= 256 * 65536) by (nonlinear_arith)
            requires
                ppr <= 256,
                b.upper_right_x - b.lower_left_x + 1 <= 65536,
        ;
        assert(ppr * (b.upper_right_y - b.lower_left_y + 1) <= 256 * 65536) by (nonlinear_arith)
            requires
                ppr <= 256,
                b.upper_right_y - b.lower_left_y + 1 <= 65536,
        ;
        assert(ppr * (rx - llx) >= 0 && ppr * (ury - ey) >= 0) by (nonlinear_arith)
            requires
                ppr >= 0,
                rx >= llx,
                ury >= ey,
        ;
    }
    TilePlacement {
        tile_x: cx,
        tile_y: cy,
        overlap: GridBounds {
            lower_left_x: rx as u16,
            lower_left_y: ry as u16,
            upper_right_x: ex as u16,
            upper_right_y: ey as u16,
        },
        crop_x: ppr * (rx - cx),
        crop_y: ppr * (cy + ts - 1 - ey),
        width: ppr * (ex - rx + 1),
        height: ppr * (ey - ry + 1),
        dest_x: ppr * (rx - llx),
        dest_y: ppr * (ury - ey),
    }
}

/// the coordinates from `lo` to `hi` that start a tile's block inside the
/// map, in increasing order
fn block_starts(lo: u16, hi: u16, z: u8) -> (v: Vec<u32>)
    requires
        lo <= hi,
        1 <= z <= 8,
    ensures
        forall|k: int| 0 <= k < v@.len() ==> lo <= #[trigger] v@[k] <= hi && starts_block(
            lo as int,
            v@[k] as int,
            z as int,
        ),
        forall|k1: int, k2: int| 0 <= k1 < k2 < v@.len() ==> v@[k1] < v@[k2],
        forall|r: int|
            lo <= r <= hi && starts_block(lo as int, r, z as int) ==> exists|k: int|
                0 <= k < v@.len() && v@[k] == r,
{
    let mut v: Vec<u32> = Vec::new();
    let mut r: u32 = lo as u32;
    while r <= hi as u32
        invariant
            1 <= z <= 8,
            lo <= r <= hi as u32 + 1,
            forall|k: int| 0 <= k < v@.len() ==> lo <= #[trigger] v@[k] < r && starts_block(
                lo as int,
                v@[k] as int,
                z as int,
            ),
            forall|k1: int, k2: int| 0 <= k1 < k2 < v@.len() ==> v@[k1] < v@[k2],
            forall|x: int|
                lo <= x < r && starts_block(lo as int, x, z as int) ==> exists|k: int|
                    0 <= k < v@.len() && v@[k] == x,
        decreases hi as u32 + 1 - r,
    {
        let (c, _) = tile_corner(z, r, 0);
        let start = if c < lo as u32 {
            lo as u32
        } else {
            c
        };
        let ghost old_v = v@;
        if r == start {
            v.push(r);
            proof {
                assert(v@[v@.len() - 1] == r);
            }
        }
        proof {
            assert forall|x: int|
                lo <= x < r + 1 && starts_block(lo as int, x, z as int) implies exists|k: int|
                0 <= k < v@.len() && v@[k] == x by {
                if x == r {
                    assert(v@[v@.len() - 1] == r);
                } else {
                    let k = choose|k: int| 0 <= k < old_v.len() && old_v[k] == x;
                    assert(v@[k] == x);
                }
            }
        }
        r = r + 1;
    }
    v
}

/// the pair (`a`, `c`) is among `idx`
spec fn has_pair(idx: Seq<(int, int)>, a: int, c: int) -> bool {
    exists|k: int| 0 <= k < idx.len() && idx[k] == (a, c)
}

/// Which map tiles make the image of the map `b` at zoom level `z`: one
/// entry per tile that covers regions of the map, with the regions it
/// supplies, the part of its image that shows them and where that part goes
#[verifier::rlimit(40)]
pub fn plan_map_tiles(b: GridBounds, z: u8) -> (plan: Vec<TilePlacement>)
    requires
        grid_ok(b),
        1 <= z <= 8,
    ensures
        plan_is(b, z as int, plan@),
{
    let xs = block_starts(b.lower_left_x, b.upper_right_x, z);
    let ys = block_starts(b.lower_left_y, b.upper_right_y, z);
    let mut plan: Vec<TilePlacement> = Vec::new();
    let ghost mut idx: Seq<(int, int)> = Seq::empty();
    let mut i: usize = 0;
    while i < xs.len()
        invariant
            grid_ok(b),
            1 <= z <= 8,
            i <= xs@.len(),
            idx.len() == plan@.len(),
            forall|k: int| 0 <= k < xs@.len() ==> b.lower_left_x <= #[trigger] xs@[k] <= b.upper_right_x
                && starts_block(b.lower_left_x as int, xs@[k] as int, z as int),
            forall|k1: int, k2: int| 0 <= k1 < k2 < xs@.len() ==> xs@[k1] < xs@[k2],
            forall|k: int| 0 <= k < ys@.len() ==> b.lower_left_y <= #[trigger] ys@[k] <= b.upper_right_y
                && starts_block(b.lower_left_y as int, ys@[k] as int, z as int),
            forall|k1: int, k2: int| 0 <= k1 < k2 < ys@.len() ==> ys@[k1] < ys@[k2],
            forall|k: int|
                #![trigger idx[k]]
                0 <= k < idx.len() ==> 0 <= idx[k].0 < i && 0 <= idx[k].1 < ys@.len() && plan@[k]
                    == spec_placement(b, z as int, xs@[idx[k].0] as int, ys@[idx[k].1] as int),
            forall|k1: int, k2: int|
                #![trigger idx[k1], idx[k2]]
                0 <= k1 < k2 < idx.len() ==> idx[k1].0 < idx[k2].0 || (idx[k1].0 == idx[k2].0
                    && idx[k1].1 < idx[k2].1),
            forall|a: int, c: int|
                0 <= a < i && 0 <= c < ys@.len() ==> #[trigger] has_pair(idx, a, c),
        decreases xs@.len() - i,
    {
        let mut j: usize = 0;
        while j < ys.len()
            invariant
                grid_ok(b),
                1 <= z <= 8,
                i < xs@.len(),
                j <= ys@.len(),
                idx.len() == plan@.len(),
                forall|k: int|
                    0 <= k < xs@.len() ==> b.lower_left_x <= #[trigger] xs@[k] <= b.upper_right_x,
                forall|k: int|
                    0 <= k < ys@.len() ==> b.lower_left_y <= #[trigger] ys@[k] <= b.upper_right_y,
                forall|k: int|
                    #![trigger idx[k]]
                    0 <= k < idx.len() ==> 0 <= idx[k].0 <= i && 0 <= idx[k].1 < ys@.len() && (
                    idx[k].0 < i || idx[k].1 < j) && plan@[k] == spec_placement(
                        b,
                        z as int,
                        xs@[idx[k].0] as int,
                        ys@[idx[k].1] as int,
                    ),
                forall|k1: int, k2: int|
                    #![trigger idx[k1], idx[k2]]
                    0 <= k1 < k2 < idx.len() ==> idx[k1].0 < idx[k2].0 || (idx[k1].0 == idx[k2].0
                        && idx[k1].1 < idx[k2].1),
                forall|a: int, c: int|
                    (0 <= a < i && 0 <= c < ys@.len()) || (a == i && 0 <= c < j) ==> #[trigger] has_pair(
                        idx,
                        a,
                        c,
                    ),
            decreases ys@.len() - j,
        {
            let p = placement(b, z, xs[i], ys[j]);
            plan.push(p);
            proof {
                let old_idx = idx;
                idx = idx.push((i as int, j as int));
                assert forall|k1: int, k2: int|
                    0 <= k1 < k2 < idx.len() implies idx[k1].0 < idx[k2].0 || (idx[k1].0
                    == idx[k2].0 && idx[k1].1 < idx[k2].1) by {
                    if k2 == idx.len() - 1 {
                        assert(idx[k1] == old_idx[k1]);
                    } else {
                        assert(idx[k1] == old_idx[k1] && idx[k2] == old_idx[k2]);
                    }
                }
                assert forall|a: int, c: int|
                    (0 <= a < i && 0 <= c < ys@.len()) || (a == i && 0 <= c < j + 1) implies #[trigger] has_pair(
                    idx,
                    a,
                    c,
                ) by {
                    if a == i && c == j {
                        assert(idx[idx.len() - 1] == (a, c));
                    } else {
                        assert(has_pair(old_idx, a, c));
                        let k = choose|k: int| 0 <= k < old_idx.len() && old_idx[k] == (a, c);
                        assert(idx[k] == old_idx[k]);
                    }
                }
                assert forall|k: int|
                    #![trigger idx[k]]
                    0 <= k < idx.len() implies 0 <= idx[k].0 <= i && 0 <= idx[k].1 < ys@.len() && (
                    idx[k].0 < i || idx[k].1 < j + 1) && plan@[k] == spec_placement(
                        b,
                        z as int,
                        xs@[idx[k].0] as int,
                        ys@[idx[k].1] as int,
                    ) by {
                    if k < idx.len() - 1 {
                        assert(idx[k] == old_idx[k]);
                    }
                }
            }
            j = j + 1;
        }
        i = i + 1;
    }
    proof {
        let pl = plan@;
        let bx = b.lower_left_x as int;
        let by = b.lower_left_y as int;
        assert forall|k: int|
            #![trigger pl[k]]
            0 <= k < pl.len() implies {
            let rx = pl[k].overlap.lower_left_x as int;
            let ry = pl[k].overlap.lower_left_y as int;
            &&& in_bounds(b, rx, ry)
            &&& starts_block(bx, rx, z as int)
            &&& starts_block(by, ry, z as int)
            &&& pl[k] == spec_placement(b, z as int, rx, ry)
        } by {
            let (a, c) = idx[k];
            assert(xs@[a] <= 65535 && ys@[c] <= 65535);
        }
        assert forall|rx: int, ry: int|
            in_bounds(b, rx, ry) && starts_block(bx, rx, z as int) && starts_block(
                by,
                ry,
                z as int,
            ) implies exists|k: int|
            #![trigger pl[k]]
            0 <= k < pl.len() && pl[k].overlap.lower_left_x == rx && pl[k].overlap.lower_left_y
                == ry by {
            let a = choose|a: int| 0 <= a < xs@.len() && xs@[a] == rx;
            let c = choose|c: int| 0 <= c < ys@.len() && ys@[c] == ry;
            assert(has_pair(idx, a, c));
            let k = choose|k: int| 0 <= k < idx.len() && idx[k] == (a, c);
            assert(pl[k] == spec_placement(b, z as int, rx, ry));
        }
        assert forall|k1: int, k2: int|
            #![trigger pl[k1], pl[k2]]
            0 <= k1 < pl.len() && 0 <= k2 < pl.len() && k1 != k2 implies (
            pl[k1].overlap.lower_left_x != pl[k2].overlap.lower_left_x
                || pl[k1].overlap.lower_left_y != pl[k2].overlap.lower_left_y) by {
            let (a1, c1) = idx[k1];
            let (a2, c2) = idx[k2];
            assert(xs@[a1] <= 65535 && ys@[c1] <= 65535 && xs@[a2] <= 65535 && ys@[c2] <= 65535);
            if k1 < k2 {
                assert(a1 < a2 || (a1 == a2 && c1 < c2));
            } else {
                assert(idx[k2].0 < idx[k1].0 || (idx[k2].0 == idx[k1].0 && idx[k2].1 < idx[k1].1));
            }
        }
    }
    plan
}

/// the start of the block holding `g` inside the map, whose edge is `lo`
pub open spec fn block_start_of(lo: int, g: int, z: int) -> int {
    if spec_tile_corner(z, g) < lo {
        lo
    } else {
        spec_tile_corner(z, g)
    }
}

/// along one direction: the block of `g` starts at `block_start_of`, which
/// starts a block, and every start of a block whose part of the map holds
/// `g` is that one
proof fn lemma_block_of(lo: int, hi: int, g: int, z: int)
    requires
        1 <= z <= 8,
        0 <= lo <= g <= hi,
    ensures
        starts_block(lo, block_start_of(lo, g, z), z),
        lo <= block_start_of(lo, g, z) <= g <= block_end(hi, block_start_of(lo, g, z), z),
        forall|r: int|
            #![trigger starts_block(lo, r, z), block_end(hi, r, z)]
            lo <= r && starts_block(lo, r, z) && r <= g <= block_end(hi, r, z) ==> r
                == block_start_of(lo, g, z),
{
    lemma_zoom_sizes(z);
    let ts = spec_tile_size(z);
    let c = spec_tile_corner(z, g);
    let s = block_start_of(lo, g, z);
    lemma_mod_pos_bound(g, ts);
    lemma_same_block(ts, g, s);
    assert forall|r: int|
        #![trigger starts_block(lo, r, z), block_end(hi, r, z)]
        lo <= r && starts_block(lo, r, z) && r <= g <= block_end(hi, r, z) implies r == s by {
        lemma_mod_pos_bound(r, ts);
        lemma_same_block(ts, r, g);
    }
}

/// The tiles of a map's plan partition the map: each region of the map
/// lies in the regions supplied by exactly one tile of the plan.
pub proof fn lemma_tiles_partition_map(b: GridBounds, z: int, plan: Seq<TilePlacement>, gx: int, gy: int)
    requires
        grid_ok(b),
        1 <= z <= 8,
        plan_is(b, z, plan),
        in_bounds(b, gx, gy),
    ensures
        exists|k: int|
            0 <= k < plan.len() && in_bounds(plan[k].overlap, gx, gy) && forall|k2: int|
                0 <= k2 < plan.len() && in_bounds(#[trigger] plan[k2].overlap, gx, gy) ==> k2 == k,
{
    let lox = b.lower_left_x as int;
    let loy = b.lower_left_y as int;
    let hix = b.upper_right_x as int;
    let hiy = b.upper_right_y as int;
    lemma_block_of(lox, hix, gx, z);
    lemma_block_of(loy, hiy, gy, z);
    let sx = block_start_of(lox, gx, z);
    let sy = block_start_of(loy, gy, z);
    assert(in_bounds(b, sx, sy));
    let k = choose|k: int|
        #![trigger plan[k]]
        0 <= k < plan.len() && plan[k].overlap.lower_left_x == sx && plan[k].overlap.lower_left_y
            == sy;
    assert(plan[k] == spec_placement(b, z, sx, sy));
    assert(in_bounds(plan[k].overlap, gx, gy));
    assert forall|k2: int|
        0 <= k2 < plan.len() && in_bounds(#[trigger] plan[k2].overlap, gx, gy) implies k2 == k by {
        let rx = plan[k2].overlap.lower_left_x as int;
        let ry = plan[k2].overlap.lower_left_y as int;
        assert(plan[k2] == spec_placement(b, z, rx, ry));
        assert(starts_block(lox, rx, z) && block_end(hix, rx, z) >= gx);
        assert(starts_block(loy, ry, z) && block_end(hiy, ry, z) >= gy);
        assert(rx == sx);
        assert(ry == sy);
    }
}

/// the step after looking for a region's map tile at zoom level `zoom`
/// while checking whether the region exists
#[derive(Debug, Clone, Copy, PartialEq, Eq, Structural)]
pub enum RegionCheck {
    /// no map tile holds the region at this zoom level: it does not exist
    Missing,
    /// every zoom level has a map tile holding the region: it exists
    Exists,
    /// look at this zoom level next
    Next(u8),
}

/// the zoom level at which the check whether a region exists starts (the
/// least detailed one, whose tiles cover the most regions); it then goes
/// down to zoom level 1, the most detailed
pub const REGION_CHECK_FIRST_ZOOM: u8 = 8;

/// the next step of checking whether a region exists, which looks for a
/// map tile holding it on every zoom level from 8 down to 1: a missing tile
/// ends the check (the region does not exist), a tile found at zoom level 1
/// completes it (the region exists), any other found tile leads to the
/// next lower zoom level
pub fn region_check_step(zoom: u8, found: bool) -> (r: RegionCheck)
    requires
        1 <= zoom <= 8,
    ensures
        r == (if !found {
            RegionCheck::Missing
        } else if zoom == 1 {
            RegionCheck::Exists
        } else {
            RegionCheck::Next((zoom - 1) as u8)
        }),
{
    if !found {
        RegionCheck::Missing
    } else if zoom == 1 {
        RegionCheck::Exists
    } else {
        RegionCheck::Next(zoom - 1)
    }
}

/// the lower left corner of the map tile of zoom level `zoom` that holds
/// region (`x`, `y`)
pub fn region_tile(zoom: u8, x: u16, y: u16) -> (r: (u16, u16))
    requires
        1 <= zoom <= 8,
    ensures
        r.0 == spec_tile_corner(zoom as int, x as int),
        r.1 == spec_tile_corner(zoom as int, y as int),
{
    proof {
        lemma_zoom_sizes(zoom as int);
        lemma_mod_pos_bound(x as int, spec_tile_size(zoom as int));
        lemma_mod_pos_bound(y as int, spec_tile_size(zoom as int));
    }
    let (cx, cy) = tile_corner(zoom, x as u32, y as u32);
    (cx as u16, cy as u16)
}

/// the pixel of the point `x`, `y` metres (from the south-west corner)
/// into region (`gx`, `gy`) of the map `b` at zoom level `z`: a region is
/// `ppr` pixels across its 256 metres, and image rows count from the top
pub open spec fn spec_point_pixel(b: GridBounds, z: int, gx: int, gy: int, x: int, y: int) -> (int, int) {
    let ppr = spec_pixels_per_region(z);
    (
        ppr * (gx - b.lower_left_x) + x * ppr / 256,
        spec_map_height(b, z) - (ppr * (gy - b.lower_left_y) + y * ppr / 256),
    )
}

/// where a route's waypoint at `x`, `y` metres into region (`gx`, `gy`)
/// goes in the image of the map `b` at zoom level `z`
pub fn waypoint_pixel(b: GridBounds, z: u8, gx: u16, gy: u16, x: u8, y: u8) -> (r: (u32, u32))
    requires
        grid_ok(b),
        1 <= z <= 8,
        in_bounds(b, gx as int, gy as int),
    ensures
        r.0 == spec_point_pixel(b, z as int, gx as int, gy as int, x as int, y as int).0,
        r.1 == spec_point_pixel(b, z as int, gx as int, gy as int, x as int, y as int).1,
{
    let ppr = pixels_per_region(z);
    let dx = (gx - b.lower_left_x) as u32;
    let dy = (b.upper_right_y - gy) as u32;
    let oy = (gy - b.lower_left_y) as u32;
    proof {
        lemma_zoom_sizes(z as int);
        assert(ppr * (dx + 1) <= 256 * 65536) by (nonlinear_arith)
            requires
                ppr <= 256,
                dx < 65536,
        ;
        assert(ppr * (dy + 1) <= 256 * 65536) by (nonlinear_arith)
            requires
                ppr <= 256,
                dy < 65536,
        ;
        assert(x * ppr <= 255 * 256 && y * ppr <= 255 * 256) by (nonlinear_arith)
            requires
                ppr <= 256,
                x <= 255,
                y <= 255,
        ;
        assert(x * ppr / 256 < ppr && y * ppr / 256 < ppr) by (nonlinear_arith)
            requires
                1 <= ppr,
                x <= 255,
                y <= 255,
        ;
        assert(ppr * dx + ppr == ppr * (dx + 1)) by (nonlinear_arith);
        assert(ppr * dy + ppr == ppr * (dy + 1)) by (nonlinear_arith);
        assert(spec_map_height(b, z as int) - ppr * oy == ppr * (dy + 1)) by (nonlinear_arith)
            requires
                spec_map_height(b, z as int) == ppr * (b.upper_right_y - b.lower_left_y + 1),
                oy == gy - b.lower_left_y,
                dy == b.upper_right_y - gy,
        ;
    }
    let px = ppr * dx + (x as u32) * ppr / 256;
    let py = ppr * (dy + 1) - (y as u32) * ppr / 256;
    (px, py)
}

/// a region's pixels in the map image: columns grow with the grid x from
/// the left edge, and rows count from the top while the grid y grows
/// northwards, so a region's bottom row edge is the map height less the
/// pixels of the regions south of it, and its top that less one region;
/// every waypoint of the region lies in its pixels (its south-west corner
/// on the region's bottom-left corner)
pub proof fn lemma_region_pixels_orientation(
    b: GridBounds,
    z: int,
    gx: int,
    gy: int,
    x: int,
    y: int,
)
    requires
        grid_ok(b),
        1 <= z <= 8,
        in_bounds(b, gx, gy),
        0 <= x < 256,
        0 <= y < 256,
    ensures
        ({
            let ppr = spec_pixels_per_region(z);
            let r = spec_region_pixels(b, z, gx, gy);
            &&& r.0 == ppr * (gx - b.lower_left_x)
            &&& r.2 == r.0 + ppr
            &&& r.3 == spec_map_height(b, z) - ppr * (gy - b.lower_left_y)
            &&& r.1 == spec_map_height(b, z) - ppr * (gy - b.lower_left_y + 1)
            &&& 0 <= r.1 < r.3 <= spec_map_height(b, z)
        }),
        ({
            let r = spec_region_pixels(b, z, gx, gy);
            let p = spec_point_pixel(b, z, gx, gy, x, y);
            &&& r.0 <= p.0 < r.2
            &&& r.1 < p.1 <= r.3
            &&& (x == 0 && y == 0 ==> p.0 == r.0 && p.1 == r.3)
        }),
{
    lemma_zoom_sizes(z);
    let ppr = spec_pixels_per_region(z);
    let h = b.upper_right_y - b.lower_left_y + 1;
    assert(ppr * h - ppr * (gy - b.lower_left_y) == ppr * (b.upper_right_y - gy + 1))
        by (nonlinear_arith)
        requires
            h == b.upper_right_y - b.lower_left_y + 1,
    ;
    assert(ppr * h - ppr * (gy - b.lower_left_y + 1) == ppr * (b.upper_right_y - gy))
        by (nonlinear_arith)
        requires
            h == b.upper_right_y - b.lower_left_y + 1,
    ;
    assert(ppr * (gx - b.lower_left_x + 1) == ppr * (gx - b.lower_left_x) + ppr)
        by (nonlinear_arith);
    assert(0 <= ppr * (b.upper_right_y - gy) && ppr * (b.upper_right_y - gy) < ppr * (
    b.upper_right_y - gy + 1)) by (nonlinear_arith)
        requires
            ppr >= 1,
            gy <= b.upper_right_y,
    ;
    assert(ppr * (b.upper_right_y - gy + 1) <= ppr * h) by (nonlinear_arith)
        requires
            ppr >= 1,
            gy >= b.lower_left_y,
            h == b.upper_right_y - b.lower_left_y + 1,
    ;
    assert(0 <= x * ppr / 256 < ppr && 0 <= y * ppr / 256 < ppr) by (nonlinear_arith)
        requires
            1 <= ppr <= 256,
            0 <= x < 256,
            0 <= y < 256,
    ;
    assert(0 * ppr / 256 == 0) by (nonlinear_arith);
    let r = spec_region_pixels(b, z, gx, gy);
    let p = spec_point_pixel(b, z, gx, gy, x, y);
    let xq = x * ppr / 256;
    let yq = y * ppr / 256;
    assert(p.0 == r.0 + xq);
    assert(spec_map_height(b, z) == ppr * h);
    assert(r.3 == spec_map_height(b, z) - ppr * (gy - b.lower_left_y));
    assert(p.1 == r.3 - yq);
    assert(ppr * (b.upper_right_y - gy + 1) == ppr * (b.upper_right_y - gy) + ppr)
        by (nonlinear_arith);
    assert(r.1 == r.3 - ppr);
}

} // verus!
