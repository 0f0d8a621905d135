//! The per-region annotations of a map: a hairline outline around each
//! region, and text (its `(x, y)` grid coordinates and its name) in its
//! lower-left corner. The text is drawn only when each region renders large
//! enough and the map holds few enough regions; the outline is drawn
//! whenever it is asked for.
use vstd::prelude::*;

use crate::chars::{push_decimal_chars, push_str_chars, spec_decimal, string_from_chars};
use crate::placement::RegionOverlayOptions;
use crate::region::GridBounds;
use crate::tile_plan::{pixels_per_region, spec_pixels_per_region};

verus! {

/// the smallest size in pixels at which a region gets its text
pub const MIN_PIXELS_PER_REGION_FOR_REGION_LABELS: u32 = 64;

/// the largest number of regions in a map whose regions get their text
pub const MAX_REGIONS_FOR_REGION_LABELS: u64 = 1024;

/// the padding in pixels between a region's lower-left corner and its text
pub const REGION_LABEL_PADDING: u32 = 3;

/// whether region text may be drawn: each region renders at least 64
/// pixels across and the map holds at most 1024 regions
pub fn region_text_overlay_allowed(pixels_per_region: u32, region_count: u64) -> (r: bool)
    ensures
        r == (pixels_per_region >= 64 && region_count <= 1024),
{
    pixels_per_region >= MIN_PIXELS_PER_REGION_FOR_REGION_LABELS && region_count
        <= MAX_REGIONS_FOR_REGION_LABELS
}

/// the number of regions of the map `b`
pub open spec fn spec_region_count(b: GridBounds) -> int {
    (b.upper_right_x - b.lower_left_x + 1) * (b.upper_right_y - b.lower_left_y + 1)
}

/// what to draw of the requested annotations on the map `b` at zoom level
/// `zoom`: whether to outline each region, and whether to write each
/// region's text (only where the text gate lets it)
pub fn region_overlay_plan(opts: RegionOverlayOptions, b: GridBounds, zoom: u8) -> (r: (bool, bool))
    requires
        1 <= zoom <= 8,
        b.lower_left_x <= b.upper_right_x,
        b.lower_left_y <= b.upper_right_y,
    ensures
        r.0 == opts.rectangles,
        r.1 == ((opts.names || opts.coordinates) && spec_pixels_per_region(zoom as int) >= 64 && spec_region_count(b)
            <= 1024),
{
    if !opts.any() {
        return (false, false);
    }
    let ppr = pixels_per_region(zoom);
    let size_x = (b.upper_right_x - b.lower_left_x) as u32 + 1;
    let size_y = (b.upper_right_y - b.lower_left_y) as u32 + 1;
    let count = crate::occupancy::mul_wide(size_x, size_y);
    let text = opts.any_text() && region_text_overlay_allowed(ppr, count);
    (opts.rectangles, text)
}

/// the coordinates line of region (`x`, `y`): `(x, y)`
pub open spec fn spec_coordinates_line(x: u16, y: u16) -> Seq<char> {
    "("@ + spec_decimal(x as nat) + ", "@ + spec_decimal(y as nat) + ")"@
}

/// the text lines of region (`x`, `y`): its coordinates `(x, y)` first when
/// they are asked for, then its name when it has one
pub fn region_label_lines(x: u16, y: u16, coordinates: bool, name: Option<String>) -> (r: Vec<
    String,
>)
    ensures
        r@.len() == (if coordinates {
            1int
        } else {
            0int
        }) + (if name is Some {
            1int
        } else {
            0int
        }),
        coordinates ==> r@[0]@ == spec_coordinates_line(x, y),
        name matches Some(n) ==> r@[r@.len() - 1]@ == n@,
{
    let mut lines: Vec<String> = Vec::new();
    if coordinates {
        let mut v: Vec<char> = Vec::new();
        push_str_chars(&mut v, "(");
        push_decimal_chars(&mut v, x as u64);
        push_str_chars(&mut v, ", ");
        push_decimal_chars(&mut v, y as u64);
        push_str_chars(&mut v, ")");
        lines.push(string_from_chars(&v));
    }
    match name {
        Some(n) => {
            lines.push(n);
        },
        None => {},
    }
    lines
}

/// `v` as an `i32`, or `0` when it does not fit
pub open spec fn spec_i32_or_zero(v: int) -> int {
    if v <= i32::MAX {
        v
    } else {
        0
    }
}

/// `v` clamped to the `i32` range
pub open spec fn spec_clamp_i32(v: int) -> int {
    if v > i32::MAX {
        i32::MAX as int
    } else if v < i32::MIN {
        i32::MIN as int
    } else {
        v
    }
}

/// `v` clamped to the `u32` range from above
pub open spec fn spec_clamp_u32(v: int) -> int {
    if v > u32::MAX {
        u32::MAX as int
    } else {
        v
    }
}

/// the origin of the text block of a region whose pixels start at `left`
/// and `top` and are `height` high, for text `text_height` pixels high:
/// the region's left edge plus the padding, and its bottom edge less the
/// padding and the text height (each clamped to `i32`, a value past
/// `i32::MAX` read as `0`)
pub open spec fn spec_label_origin(left: u32, top: u32, height: u32, text_height: u32) -> (int, int) {
    let bottom = spec_clamp_u32(top + height);
    (
        spec_clamp_i32(spec_i32_or_zero(left as int) + 3),
        spec_clamp_i32(
            spec_clamp_i32(spec_i32_or_zero(bottom) - 3) - spec_i32_or_zero(text_height as int),
        ),
    )
}

/// `v` as an `i32`, or `0` when it does not fit
fn i32_or_zero(v: u32) -> (r: i64)
    ensures
        r == spec_i32_or_zero(v as int),
{
    if v <= 0x7fff_ffff {
        v as i64
    } else {
        0
    }
}

/// `v` clamped to the `i32` range
fn clamp_i32(v: i64) -> (r: i64)
    ensures
        r == spec_clamp_i32(v as int),
        i32::MIN <= r <= i32::MAX,
{
    if v > 0x7fff_ffff {
        0x7fff_ffff
    } else if v < -0x8000_0000 {
        -0x8000_0000
    } else {
        v
    }
}

/// where the text block of a region goes: `(left + padding, bottom -
/// padding - text height)`, the region being `left`, `top` and `height` in
/// pixels and the text `text_height` pixels high
pub fn region_label_origin(left: u32, top: u32, height: u32, text_height: u32) -> (r: (i32, i32))
    ensures
        r.0 == spec_label_origin(left, top, height, text_height).0,
        r.1 == spec_label_origin(left, top, height, text_height).1,
{
    let bottom = top.saturating_add(height);
    let x = clamp_i32(i32_or_zero(left) + REGION_LABEL_PADDING as i64);
    let below = clamp_i32(i32_or_zero(bottom) - REGION_LABEL_PADDING as i64);
    let y = clamp_i32(below - i32_or_zero(text_height));
    (x as i32, y as i32)
}

} // verus!
