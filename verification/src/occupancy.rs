//! Pre-render occupancy analysis: which of the nine anchor positions on a map
//! are free of overlay content (routes, GLW shapes and labels).
//!
//! An overlay-only image is reduced to a coarse boolean [`OccupancyGrid`]
//! (a cell is occupied if any pixel inside it is covered). Each of the nine
//! [`PlacementSlot`]s is then evaluated for the largest empty rectangle that
//! can be anchored within its own third of the map
//! ([`OccupancyGrid::evaluate_slots`]). The thirds tile the grid exactly (the
//! centre third on each axis absorbs the division remainder so the two edge
//! thirds stay equal), so the per-slot rectangles never overlap. Adjacent
//! anchors that share one contiguous free area are reported as connected
//! neighbours, and a spanning element may grow across them
//! ([`OccupancyGrid::spanned_region`]).
use vstd::prelude::*;

use crate::coverage::{spec_all_slots, spec_cell, AxisMode, PlacementSlot};

verus! {

/// default number of grid cells along the longer image dimension used when
/// building an occupancy grid from an image
pub const DEFAULT_COVERAGE_GRID: u32 = 64;

/// an axis-aligned rectangle in image pixel coordinates (origin top-left)
#[derive(Debug, Clone, Copy, PartialEq, Eq, Structural)]
pub struct PixelRect {
    /// x coordinate of the left edge in pixels
    pub x: u32,
    /// y coordinate of the top edge in pixels
    pub y: u32,
    /// width in pixels
    pub width: u32,
    /// height in pixels
    pub height: u32,
}

/// the `(x, y, width, height)` of a pixel rectangle
pub open spec fn rect_tuple(p: PixelRect) -> (int, int, int, int) {
    (p.x as int, p.y as int, p.width as int, p.height as int)
}

/// the half-open range `[lo, hi)` covered by third `i` (`0..3`) of an axis of
/// `n` cells: the two edge thirds get `n / 3` cells each and the centre third
/// absorbs the remainder
pub open spec fn spec_band(n: int, i: int) -> (int, int) {
    let edge = n / 3;
    if i == 0 {
        (0, edge)
    } else if i == 1 {
        (edge, n - edge)
    } else {
        (n - edge, n)
    }
}

/// the three thirds of an axis of `n` cells tile `[0, n)` exactly, sharing
/// boundaries with no gap or overlap; the two edge thirds are equally wide
/// and the centre third, which absorbs the division remainder, is at least
/// as wide as each of them
pub proof fn lemma_bands_tile(n: int)
    requires
        n >= 0,
    ensures
        spec_band(n, 0).0 == 0,
        spec_band(n, 0).1 == spec_band(n, 1).0,
        spec_band(n, 1).1 == spec_band(n, 2).0,
        spec_band(n, 2).1 == n,
        spec_band(n, 0).0 <= spec_band(n, 0).1 <= spec_band(n, 1).1 <= spec_band(n, 2).1,
        spec_band(n, 0).1 - spec_band(n, 0).0 == spec_band(n, 2).1 - spec_band(n, 2).0,
        spec_band(n, 1).1 - spec_band(n, 1).0 >= spec_band(n, 0).1 - spec_band(n, 0).0,
{
}

/// `[a0, a1)` is a non-empty range within `[lo, hi)` positioned as the mode
/// requires: against `lo` (`Start`), against `hi` (`End`) or centred with the
/// odd cell left over on the high side (`Center`)
pub open spec fn anchored(mode: AxisMode, lo: int, hi: int, a0: int, a1: int) -> bool {
    &&& lo <= a0 < a1 <= hi
    &&& match mode {
        AxisMode::Start => a0 == lo,
        AxisMode::End => a1 == hi,
        AxisMode::Center => a0 == lo + ((hi - lo) - (a1 - a0)) / 2,
    }
}

/// the unique anchored range of length `len` within `[lo, hi)`
pub open spec fn anchored_range(mode: AxisMode, lo: int, hi: int, len: int) -> (int, int) {
    match mode {
        AxisMode::Start => (lo, lo + len),
        AxisMode::End => (hi - len, hi),
        AxisMode::Center => (lo + ((hi - lo) - len) / 2, lo + ((hi - lo) - len) / 2 + len),
    }
}

/// every entry of `s` in `[a0, a1)` is `true`
pub open spec fn all_true(s: Seq<bool>, a0: int, a1: int) -> bool {
    forall|i: int| a0 <= i < a1 ==> #[trigger] s[i]
}

/// the widest anchored run of `true` entries in `s`, as `(offset, width)`;
/// the width is `0` when no anchored run exists
pub open spec fn spec_run(s: Seq<bool>, mode: AxisMode) -> (int, int) {
    let n = s.len() as int;
    if exists|w: int| 1 <= w <= n && #[trigger] window_free(s, mode, w) {
        let w = choose|w: int|
            1 <= w <= n && #[trigger] window_free(s, mode, w) && (forall|v: int|
                w < v <= n ==> !window_free(s, mode, v));
        (anchored_range(mode, 0, n, w).0, w)
    } else {
        match mode {
            AxisMode::Start => (0int, 0int),
            AxisMode::End => (n, 0int),
            AxisMode::Center => (n / 2, 0int),
        }
    }
}

/// the anchored window of width `w` of `s` is all `true`
pub open spec fn window_free(s: Seq<bool>, mode: AxisMode, w: int) -> bool {
    let (a0, a1) = anchored_range(mode, 0, s.len() as int, w);
    all_true(s, a0, a1)
}

proof fn lemma_anchored_is_range(mode: AxisMode, lo: int, hi: int, a0: int, a1: int)
    requires
        lo <= hi,
    ensures
        anchored(mode, lo, hi, a0, a1) <==> (1 <= a1 - a0 <= hi - lo && (a0, a1) == anchored_range(
            mode,
            lo,
            hi,
            a1 - a0,
        )),
{
    if 1 <= a1 - a0 <= hi - lo {
        let len = a1 - a0;
        assert(0 <= ((hi - lo) - len) / 2 <= (hi - lo) - len) by (nonlinear_arith)
            requires
                0 <= (hi - lo) - len,
        ;
    }
}

proof fn lemma_spec_run_max(s: Seq<bool>, mode: AxisMode, w: int)
    requires
        1 <= w <= s.len(),
        window_free(s, mode, w),
        forall|v: int| w < v <= s.len() ==> !window_free(s, mode, v),
    ensures
        spec_run(s, mode) == (anchored_range(mode, 0, s.len() as int, w).0, w),
{
    let n = s.len() as int;
    assert(1 <= w <= n && window_free(s, mode, w));
    let c = choose|x: int|
        1 <= x <= n && #[trigger] window_free(s, mode, x) && (forall|v: int|
            x < v <= n ==> !window_free(s, mode, v));
    assert(c == w) by {
        if c < w {
            assert(!window_free(s, mode, w));
        } else if c > w {
            assert(!window_free(s, mode, c));
        }
    }
}

proof fn lemma_spec_run_none(s: Seq<bool>, mode: AxisMode)
    requires
        forall|v: int| 1 <= v <= s.len() ==> !window_free(s, mode, v),
    ensures
        spec_run(s, mode) == (match mode {
            AxisMode::Start => (0int, 0int),
            AxisMode::End => (s.len() as int, 0int),
            AxisMode::Center => (s.len() as int / 2, 0int),
        }),
{
}

/// the widest contiguous run of `true` (free) entries in `col_free`,
/// positioned per the anchoring mode: `Start` hugs index `0`, `End` hugs the
/// last index, `Center` centres the run within the slice. Returned as
/// `(offset, width)` into the slice (`width == 0` when nothing is free in the
/// required position).
pub fn run_for_mode(col_free: &Vec<bool>, mode: AxisMode) -> (r: (u32, u32))
    requires
        col_free@.len() <= u32::MAX,
    ensures
        r.0 as int == spec_run(col_free@, mode).0,
        r.1 as int == spec_run(col_free@, mode).1,
        r.1 > 0 ==> anchored(mode, 0, col_free@.len() as int, r.0 as int, r.0 + r.1)
            && all_true(col_free@, r.0 as int, r.0 + r.1),
        forall|a0: int, a1: int|
            anchored(mode, 0, col_free@.len() as int, a0, a1) && all_true(col_free@, a0, a1) ==> a1
                - a0 <= r.1,
{
    let n = col_free.len() as u32;
    let ghost s = col_free@;
    match mode {
        AxisMode::Start => {
            let mut w: u32 = 0;
            while w < n && col_free[w as usize]
                invariant
                    n as int == s.len(),
                    s == col_free@,
                    w <= n,
                    all_true(s, 0, w as int),
                decreases n - w,
            {
                w = w + 1;
            }
            proof {
                assert forall|a0: int, a1: int|
                    anchored(mode, 0, n as int, a0, a1) && all_true(s, a0, a1) implies a1 - a0
                    <= w by {
                    if a1 > w {
                        assert(s[w as int]);
                    }
                }
                if w > 0 {
                    assert(window_free(s, mode, w as int));
                    assert forall|v: int| w < v <= n implies !window_free(s, mode, v) by {
                        assert(!s[w as int]);
                    }
                    lemma_spec_run_max(s, mode, w as int);
                } else {
                    assert forall|v: int| 1 <= v <= n implies !window_free(s, mode, v) by {
                        assert(!s[0]);
                    }
                    lemma_spec_run_none(s, mode);
                }
            }
            (0, w)
        },
        AxisMode::End => {
            let mut w: u32 = 0;
            while w < n && col_free[(n - 1 - w) as usize]
                invariant
                    n as int == s.len(),
                    s == col_free@,
                    w <= n,
                    all_true(s, n - w, n as int),
                decreases n - w,
            {
                w = w + 1;
            }
            proof {
                assert forall|a0: int, a1: int|
                    anchored(mode, 0, n as int, a0, a1) && all_true(s, a0, a1) implies a1 - a0
                    <= w by {
                    if a1 - a0 > w {
                        assert(s[n - 1 - w]);
                    }
                }
                if w > 0 {
                    assert(window_free(s, mode, w as int));
                    assert forall|v: int| w < v <= n implies !window_free(s, mode, v) by {
                        assert(!s[n - 1 - w]);
                    }
                    lemma_spec_run_max(s, mode, w as int);
                } else {
                    assert forall|v: int| 1 <= v <= n implies !window_free(s, mode, v) by {
                        assert(!s[n - 1]);
                    }
                    lemma_spec_run_none(s, mode);
                }
            }
            (n - w, w)
        },
        AxisMode::Center => {
            let mut w: u32 = n;
            while w >= 1
                invariant
                    n as int == s.len(),
                    s == col_free@,
                    w <= n,
                    mode == AxisMode::Center,
                    forall|v: int| w < v <= n ==> !window_free(s, mode, v),
                decreases w,
            {
                let c0 = (n - w) / 2;
                let mut c = c0;
                let mut all = true;
                while c < c0 + w
                    invariant
                        n as int == s.len(),
                        s == col_free@,
                        1 <= w <= n,
                        c0 == (n - w) / 2,
                        c0 + w <= n,
                        c0 <= c <= c0 + w,
                        all ==> all_true(s, c0 as int, c as int),
                        !all ==> !all_true(s, c0 as int, (c0 + w) as int),
                    decreases c0 + w - c,
                {
                    if !col_free[c as usize] {
                        all = false;
                    }
                    c = c + 1;
                }
                if all {
                    proof {
                        assert(window_free(s, mode, w as int));
                        assert forall|a0: int, a1: int|
                            anchored(mode, 0, n as int, a0, a1) && all_true(s, a0, a1) implies a1
                            - a0 <= w by {
                            lemma_anchored_is_range(mode, 0, n as int, a0, a1);
                            if a1 - a0 > w {
                                assert(window_free(s, mode, a1 - a0));
                            }
                        }
                        lemma_spec_run_max(s, mode, w as int);
                    }
                    return (c0, w);
                }
                w = w - 1;
            }
            proof {
                assert forall|a0: int, a1: int|
                    anchored(mode, 0, n as int, a0, a1) && all_true(s, a0, a1) implies a1 - a0
                    <= 0 by {
                    lemma_anchored_is_range(mode, 0, n as int, a0, a1);
                    assert(window_free(s, mode, a1 - a0));
                }
                lemma_spec_run_none(s, mode);
            }
            (n / 2, 0)
        },
    }
}

/// area of an exclusive cell rectangle `(r0, r1, c0, c1)`
pub open spec fn rect_area(q: (int, int, int, int)) -> int {
    (q.1 - q.0) * (q.3 - q.2)
}

/// the grid dimensions `(cols, rows, cell_size)` for an image of the given
/// size, aiming for roughly `grid_resolution` square cells along the longer
/// dimension
pub open spec fn spec_grid_params(img_width: int, img_height: int, grid_resolution: int) -> (
    int,
    int,
    int,
) {
    if img_width == 0 || img_height == 0 {
        (0, 0, 1)
    } else {
        let resolution = if grid_resolution < 1 {
            1
        } else {
            grid_resolution
        };
        let longer = if img_width < img_height {
            img_height
        } else {
            img_width
        };
        let cell = spec_div_ceil(longer, resolution);
        let cell = if cell < 1 {
            1
        } else {
            cell
        };
        let cols = spec_div_ceil(img_width, cell);
        let rows = spec_div_ceil(img_height, cell);
        (if cols < 1 {
            1
        } else {
            cols
        }, if rows < 1 {
            1
        } else {
            rows
        }, cell)
    }
}

/// `a / b` rounded up
pub open spec fn spec_div_ceil(a: int, b: int) -> int {
    if a % b == 0 {
        a / b
    } else {
        a / b + 1
    }
}

/// the exact product of two `u32` values
pub(crate) fn mul_wide(a: u32, b: u32) -> (r: u64)
    ensures
        r == a as int * b as int,
{
    proof {
        assert(a as int * b as int <= u32::MAX as int * u32::MAX as int) by (nonlinear_arith)
            requires
                a <= u32::MAX,
                b <= u32::MAX,
        ;
    }
    a as u64 * b as u64
}

/// `a / b` rounded up
fn div_ceil(a: u32, b: u32) -> (r: u32)
    requires
        b >= 1,
    ensures
        r == spec_div_ceil(a as int, b as int),
        r as int * b as int >= a,
        r >= 1 ==> (r as int - 1) * b < a,
{
    let q = a / b;
    proof {
        assert(q * b + a % b == a) by (nonlinear_arith)
            requires
                b >= 1,
                q == a / b,
        ;
    }
    if a % b == 0 {
        proof {
            assert(q >= 1 ==> (q - 1) * b < a) by (nonlinear_arith)
                requires
                    q * b + a % b == a,
                    a % b == 0,
                    b >= 1,
            ;
        }
        q
    } else {
        proof {
            assert((q + 1) * b >= a && q * b < a) by (nonlinear_arith)
                requires
                    q * b + a % b == a,
                    0 < a % b < b,
            ;
            assert(q < a) by (nonlinear_arith)
                requires
                    q * b < a,
                    b >= 1,
            ;
        }
        q + 1
    }
}

/// the pixel `(x, y)` of a row-major alpha mask `width` pixels wide is covered
/// (its alpha is not zero)
pub open spec fn covered(alpha: Seq<u8>, width: int, x: int, y: int) -> bool {
    alpha[y * width + x] != 0
}

/// some covered pixel that comes before `(x, y)` in row-major order falls in
/// the cell at row-major position `i` of a grid of `cols` columns of `cell`
/// pixels
pub open spec fn hit_before(
    alpha: Seq<u8>,
    width: int,
    cell: int,
    cols: int,
    y: int,
    x: int,
    i: int,
) -> bool {
    exists|px: int, py: int|
        0 <= px < width && 0 <= py && (py < y || (py == y && px < x)) && #[trigger] covered(
            alpha,
            width,
            px,
            py,
        ) && (py / cell) * cols + px / cell == i
}

/// a coarse boolean occupancy grid downsampled from an overlay coverage mask
///
/// Cells are stored row-major with row `0` at the top of the image (pixel
/// `y == 0`). A cell is occupied if *any* pixel inside it is covered, so the
/// grid never reports covered space as free.
#[derive(Debug)]
pub struct OccupancyGrid {
    /// number of cell columns
    cols: u32,
    /// number of cell rows
    rows: u32,
    /// side length of a (square) cell in pixels
    cell_size: u32,
    /// image width in pixels
    img_width: u32,
    /// image height in pixels
    img_height: u32,
    /// row-major occupancy, length `cols * rows`
    occupied: Vec<bool>,
}

impl OccupancyGrid {
    /// number of cell columns
    pub closed spec fn spec_cols(&self) -> int {
        self.cols as int
    }

    /// number of cell rows
    pub closed spec fn spec_rows(&self) -> int {
        self.rows as int
    }

    /// side length of a cell in pixels
    pub closed spec fn spec_cell_size(&self) -> int {
        self.cell_size as int
    }

    /// image width in pixels
    pub closed spec fn spec_img_width(&self) -> int {
        self.img_width as int
    }

    /// image height in pixels
    pub closed spec fn spec_img_height(&self) -> int {
        self.img_height as int
    }

    /// the row-major occupancy flags
    pub closed spec fn spec_occupied(&self) -> Seq<bool> {
        self.occupied@
    }

    /// the dimensions are `u32` values
    pub proof fn lemma_dims_bounded(&self)
        ensures
            0 <= self.spec_cols() <= u32::MAX,
            0 <= self.spec_rows() <= u32::MAX,
            0 <= self.spec_cell_size() <= u32::MAX,
            0 <= self.spec_img_width() <= u32::MAX,
            0 <= self.spec_img_height() <= u32::MAX,
    {
    }

    /// the internal consistency of the grid: one flag per cell, cells of at
    /// least one pixel, and every row and column starting inside the image
    #[verifier::type_invariant]
    spec fn inv(&self) -> bool {
        &&& self.occupied@.len() == self.cols as int * self.rows as int
        &&& self.cell_size >= 1
        &&& (self.cols == 0 || (self.cols as int - 1) * (self.cell_size as int) < (
        self.img_width as int))
        &&& (self.rows == 0 || (self.rows as int - 1) * (self.cell_size as int) < (
        self.img_height as int))
    }

    /// whether the cell at `(r, c)` is inside the grid and free
    pub open spec fn free(&self, r: int, c: int) -> bool {
        &&& 0 <= r < self.spec_rows()
        &&& 0 <= c < self.spec_cols()
        &&& !self.spec_occupied()[r * self.spec_cols() + c]
    }

    /// whether the cell at row-major position `i` is inside the grid and free
    pub open spec fn free_at(&self, i: int) -> bool {
        0 <= i < self.spec_occupied().len() && !self.spec_occupied()[i]
    }

    /// whether the cells at row-major positions `a` and `b` are up/down or
    /// left/right neighbours (a left/right pair never wraps across a row end)
    pub open spec fn cell_adjacent(&self, a: int, b: int) -> bool {
        let cols = self.spec_cols();
        ||| (b == a + 1 && b % cols != 0)
        ||| (a == b + 1 && a % cols != 0)
        ||| b == a + cols
        ||| a == b + cols
    }

    /// every cell of the exclusive cell rectangle is free
    pub open spec fn rect_free(&self, q: (int, int, int, int)) -> bool {
        forall|r: int, c: int| q.0 <= r < q.1 && q.2 <= c < q.3 ==> #[trigger] self.free(r, c)
    }

    /// `q` is a free cell rectangle anchored per the modes within the given
    /// column and row ranges
    pub open spec fn anchored_free(
        &self,
        c_lo: int,
        c_hi: int,
        r_lo: int,
        r_hi: int,
        hmode: AxisMode,
        vmode: AxisMode,
        q: (int, int, int, int),
    ) -> bool {
        &&& anchored(vmode, r_lo, r_hi, q.0, q.1)
        &&& anchored(hmode, c_lo, c_hi, q.2, q.3)
        &&& self.rect_free(q)
    }

    /// `q` is the anchored free rectangle of largest area, the shortest one
    /// among those of equal area
    pub open spec fn is_largest_anchored(
        &self,
        c_lo: int,
        c_hi: int,
        r_lo: int,
        r_hi: int,
        hmode: AxisMode,
        vmode: AxisMode,
        q: (int, int, int, int),
    ) -> bool {
        &&& self.anchored_free(c_lo, c_hi, r_lo, r_hi, hmode, vmode, q)
        &&& forall|p: (int, int, int, int)|
            #[trigger] self.anchored_free(c_lo, c_hi, r_lo, r_hi, hmode, vmode, p) ==> rect_area(p)
                <= rect_area(q) && (rect_area(p) == rect_area(q) ==> p.1 - p.0 >= q.1 - q.0)
    }

    /// the largest all-free cell rectangle anchored per the modes within the
    /// column range `[c_lo, c_hi)` and the row range `[r_lo, r_hi)` (the
    /// shortest of those of equal area), or `None` when no anchored free
    /// rectangle exists there
    pub open spec fn spec_largest_free_rect_in(
        &self,
        c_lo: int,
        c_hi: int,
        r_lo: int,
        r_hi: int,
        hmode: AxisMode,
        vmode: AxisMode,
    ) -> Option<(int, int, int, int)> {
        if exists|q: (int, int, int, int)|
            self.is_largest_anchored(c_lo, c_hi, r_lo, r_hi, hmode, vmode, q) {
            Some(
                choose|q: (int, int, int, int)|
                    self.is_largest_anchored(c_lo, c_hi, r_lo, r_hi, hmode, vmode, q),
            )
        } else {
            None
        }
    }

    /// the pixel rectangle of an exclusive cell rectangle, clamped to the
    /// image bounds
    pub open spec fn spec_cell_rect_to_pixels(&self, q: (int, int, int, int)) -> (int, int, int, int) {
        let cell = self.spec_cell_size();
        let x = q.2 * cell;
        let y = q.0 * cell;
        let x1 = if q.3 * cell < self.spec_img_width() {
            q.3 * cell
        } else {
            self.spec_img_width()
        };
        let y1 = if q.1 * cell < self.spec_img_height() {
            q.1 * cell
        } else {
            self.spec_img_height()
        };
        (x, y, if x1 > x {
            x1 - x
        } else {
            0
        }, if y1 > y {
            y1 - y
        } else {
            0
        })
    }

    /// build a grid directly from a row-major cell layout (row `0` at the
    /// top) with square cells of `cell_size` pixels covering an image of
    /// exactly `cols * cell_size` by `rows * cell_size` pixels; `None` when
    /// the layout does not have one flag per cell, the cell size is zero or
    /// the image size does not fit in `u32`
    pub fn from_cells(cols: u32, rows: u32, cell_size: u32, occupied: Vec<bool>) -> (r: Option<
        OccupancyGrid,
    >)
        ensures
            r is Some <==> (occupied@.len() == cols as int * rows as int && cell_size >= 1
                && cols as int * cell_size as int <= u32::MAX && rows as int * cell_size as int
                <= u32::MAX),
            r matches Some(g) ==> {
                &&& g.spec_cols() == cols
                &&& g.spec_rows() == rows
                &&& g.spec_cell_size() == cell_size
                &&& g.spec_img_width() == cols as int * cell_size as int
                &&& g.spec_img_height() == rows as int * cell_size as int
                &&& g.spec_occupied() == occupied@
            },
    {
        if cell_size == 0 {
            return None;
        }
        let wide = mul_wide(cols, cell_size);
        let tall = mul_wide(rows, cell_size);
        if wide > u32::MAX as u64 || tall > u32::MAX as u64 {
            return None;
        }
        if occupied.len() as u64 != mul_wide(cols, rows) {
            return None;
        }
        proof {
            assert(cols == 0 || (cols as int - 1) * cell_size < cols as int * cell_size)
                by (nonlinear_arith)
                requires
                    cell_size >= 1,
            ;
            assert(rows == 0 || (rows as int - 1) * cell_size < rows as int * cell_size)
                by (nonlinear_arith)
                requires
                    cell_size >= 1,
            ;
        }
        Some(
            OccupancyGrid {
                cols,
                rows,
                cell_size,
                img_width: wide as u32,
                img_height: tall as u32,
                occupied,
            },
        )
    }

    /// build an occupancy grid from the alpha channel of an image, given
    /// row-major with one byte per pixel: a cell is occupied when any pixel
    /// inside it has a non-zero alpha, so the grid never reports covered
    /// space as free; the grid has roughly `grid_resolution` cells along the
    /// longer side (see [`OccupancyGrid::grid_params`])
    pub fn from_alpha(width: u32, height: u32, alpha: &[u8], grid_resolution: u32) -> (g: OccupancyGrid)
        requires
            alpha@.len() == width as int * height as int,
        ensures
            g.spec_cols() == spec_grid_params(width as int, height as int, grid_resolution as int).0,
            g.spec_rows() == spec_grid_params(width as int, height as int, grid_resolution as int).1,
            g.spec_cell_size() == spec_grid_params(
                width as int,
                height as int,
                grid_resolution as int,
            ).2,
            g.spec_img_width() == width,
            g.spec_img_height() == height,
            g.spec_occupied().len() == g.spec_cols() * g.spec_rows(),
            forall|i: int|
                0 <= i < g.spec_occupied().len() ==> (#[trigger] g.spec_occupied()[i] <==> hit_before(
                    alpha@,
                    width as int,
                    g.spec_cell_size(),
                    g.spec_cols(),
                    height as int,
                    0,
                    i,
                )),
    {
        let (cols, rows, cell) = Self::grid_params(width, height, grid_resolution);
        let ghost w = width as int;
        let ghost cs = cell as int;
        let ghost cl = cols as int;
        proof {
            assert(cols as int * rows as int <= width as int * height as int) by (nonlinear_arith)
                requires
                    cols <= width,
                    rows <= height,
            ;
        }
        let total = alpha.len();
        let n = cols as usize * rows as usize;
        let mut occupied: Vec<bool> = Vec::new();
        let mut t: usize = 0;
        while t < n
            invariant
                t <= n,
                occupied@.len() == t,
                forall|k: int| 0 <= k < t ==> !#[trigger] occupied@[k],
            decreases n - t,
        {
            occupied.push(false);
            t = t + 1;
        }
        let mut y: u32 = 0;
        while y < height
            invariant
                y <= height,
                alpha@.len() == width as int * height as int,
                w == width,
                cs == cell,
                cl == cols,
                cell >= 1,
                occupied@.len() == n,
                n == cols as int * rows as int,
                total == alpha@.len(),
                width > 0 && height > 0 ==> cols as int * cell as int >= width,
                width > 0 && height > 0 ==> rows as int * cell as int >= height,
                forall|i: int|
                    0 <= i < n ==> (#[trigger] occupied@[i] <==> hit_before(alpha@, w, cs, cl, y as int, 0, i)),
            decreases height - y,
        {
            let mut x: u32 = 0;
            while x < width
                invariant
                    x <= width,
                    y < height,
                    alpha@.len() == width as int * height as int,
                    w == width,
                    cs == cell,
                    cl == cols,
                    cell >= 1,
                    occupied@.len() == n,
                    n == cols as int * rows as int,
                    total == alpha@.len(),
                    width > 0 ==> cols as int * cell as int >= width,
                    width > 0 ==> rows as int * cell as int >= height,
                    forall|i: int|
                        0 <= i < n ==> (#[trigger] occupied@[i] <==> hit_before(
                            alpha@,
                            w,
                            cs,
                            cl,
                            y as int,
                            x as int,
                            i,
                        )),
                decreases width - x,
            {
                proof {
                    assert(0 <= y as int * width as int + (x as int) < width as int * height as int)
                        by (nonlinear_arith)
                        requires
                            x < width,
                            y < height,
                    ;
                }
                let a = alpha[y as usize * width as usize + x as usize];
                let ghost before = occupied@;
                let ghost xi = x as int;
                let ghost yi = y as int;
                if a != 0 {
                    let cy = y / cell;
                    let cx = x / cell;
                    proof {
                        assert(cy < rows && cx < cols) by (nonlinear_arith)
                            requires
                                x < width,
                                y < height,
                                cell >= 1,
                                cy == y / cell,
                                cx == x / cell,
                                cols as int * cell as int >= width,
                                rows as int * cell as int >= height,
                        ;
                        assert(0 <= cy as int * cols as int + (cx as int) < cols as int * rows as int)
                            by (nonlinear_arith)
                            requires
                                cy < rows,
                                cx < cols,
                        ;
                    }
                    let idx = cy as usize * cols as usize + cx as usize;
                    occupied.set(idx, true);
                    proof {
                        assert(covered(alpha@, w, xi, yi));
                        assert forall|i: int| 0 <= i < n implies (#[trigger] occupied@[i] <==> hit_before(
                            alpha@,
                            w,
                            cs,
                            cl,
                            yi,
                            xi + 1,
                            i,
                        )) by {
                            if i == idx {
                                assert(hit_before(alpha@, w, cs, cl, yi, xi + 1, i));
                            } else {
                                assert(occupied@[i] == before[i]);
                                if hit_before(alpha@, w, cs, cl, yi, xi + 1, i) {
                                    let (px, py) = choose|px: int, py: int|
                                        0 <= px < w && 0 <= py && (py < yi || (py == yi && px < xi
                                            + 1)) && #[trigger] covered(alpha@, w, px, py) && (py
                                            / cs) * cl + px / cs == i;
                                    assert(!(py == yi && px == xi));
                                    assert(hit_before(alpha@, w, cs, cl, yi, xi, i));
                                }
                                if hit_before(alpha@, w, cs, cl, yi, xi, i) {
                                    let (px, py) = choose|px: int, py: int|
                                        0 <= px < w && 0 <= py && (py < yi || (py == yi && px < xi))
                                            && #[trigger] covered(alpha@, w, px, py) && (py / cs)
                                            * cl + px / cs == i;
                                    assert(covered(alpha@, w, px, py));
                                }
                            }
                        }
                    }
                } else {
                    proof {
                        assert(!covered(alpha@, w, xi, yi));
                        assert forall|i: int| 0 <= i < n implies (#[trigger] occupied@[i] <==> hit_before(
                            alpha@,
                            w,
                            cs,
                            cl,
                            yi,
                            xi + 1,
                            i,
                        )) by {
                            if hit_before(alpha@, w, cs, cl, yi, xi + 1, i) {
                                let (px, py) = choose|px: int, py: int|
                                    0 <= px < w && 0 <= py && (py < yi || (py == yi && px < xi + 1))
                                        && #[trigger] covered(alpha@, w, px, py) && (py / cs) * cl
                                        + px / cs == i;
                                assert(!(py == yi && px == xi));
                                assert(hit_before(alpha@, w, cs, cl, yi, xi, i));
                            }
                            if hit_before(alpha@, w, cs, cl, yi, xi, i) {
                                let (px, py) = choose|px: int, py: int|
                                    0 <= px < w && 0 <= py && (py < yi || (py == yi && px < xi))
                                        && #[trigger] covered(alpha@, w, px, py) && (py / cs) * cl
                                        + px / cs == i;
                                assert(covered(alpha@, w, px, py));
                            }
                        }
                    }
                }
                x = x + 1;
            }
            proof {
                let yi = y as int;
                assert forall|i: int| 0 <= i < n implies (#[trigger] occupied@[i] <==> hit_before(
                    alpha@,
                    w,
                    cs,
                    cl,
                    yi + 1,
                    0,
                    i,
                )) by {
                    if hit_before(alpha@, w, cs, cl, yi + 1, 0, i) {
                        let (px, py) = choose|px: int, py: int|
                            0 <= px < w && 0 <= py && (py < yi + 1 || (py == yi + 1 && px < 0))
                                && #[trigger] covered(alpha@, w, px, py) && (py / cs) * cl + px / cs
                                == i;
                        assert(hit_before(alpha@, w, cs, cl, yi, w, i));
                    }
                    if hit_before(alpha@, w, cs, cl, yi, w, i) {
                        let (px, py) = choose|px: int, py: int|
                            0 <= px < w && 0 <= py && (py < yi || (py == yi && px < w))
                                && #[trigger] covered(alpha@, w, px, py) && (py / cs) * cl + px / cs
                                == i;
                        assert(covered(alpha@, w, px, py));
                    }
                }
            }
            y = y + 1;
        }
        proof {
            assert(cols == 0 || (cols as int - 1) * (cell as int) < (width as int));
            assert(occupied@.len() == cols as int * rows as int);
        }
        OccupancyGrid { cols, rows, cell_size: cell, img_width: width, img_height: height, occupied }
    }

    /// derive the cell grid dimensions `(cols, rows, cell_size)` for an image
    /// of the given size, aiming for roughly `grid_resolution` cells along the
    /// longer dimension with square cells
    pub fn grid_params(img_width: u32, img_height: u32, grid_resolution: u32) -> (r: (u32, u32, u32))
        ensures
            r.0 as int == spec_grid_params(img_width as int, img_height as int, grid_resolution as int).0,
            r.1 as int == spec_grid_params(img_width as int, img_height as int, grid_resolution as int).1,
            r.2 as int == spec_grid_params(img_width as int, img_height as int, grid_resolution as int).2,
            r.2 >= 1,
            r.0 == 0 || (r.0 as int - 1) * r.2 < img_width,
            r.1 == 0 || (r.1 as int - 1) * r.2 < img_height,
            img_width > 0 && img_height > 0 ==> r.0 as int * r.2 as int >= img_width,
            img_width > 0 && img_height > 0 ==> r.1 as int * r.2 as int >= img_height,
            r.0 <= img_width,
            r.1 <= img_height,
    {
        if img_width == 0 || img_height == 0 {
            return (0, 0, 1);
        }
        let resolution = if grid_resolution < 1 {
            1
        } else {
            grid_resolution
        };
        let longer = if img_width < img_height {
            img_height
        } else {
            img_width
        };
        let cell = div_ceil(longer, resolution);
        let cell = if cell < 1 {
            1
        } else {
            cell
        };
        let cols = div_ceil(img_width, cell);
        let rows = div_ceil(img_height, cell);
        proof {
            assert(cols >= 1 && rows >= 1) by (nonlinear_arith)
                requires
                    cols as int * cell >= img_width,
                    rows as int * cell >= img_height,
                    img_width >= 1,
                    img_height >= 1,
            ;
            assert(cols <= img_width) by (nonlinear_arith)
                requires
                    cols >= 1 ==> (cols as int - 1) * cell < img_width,
                    cell >= 1,
                    img_width >= 1,
            ;
            assert(rows <= img_height) by (nonlinear_arith)
                requires
                    rows >= 1 ==> (rows as int - 1) * cell < img_height,
                    cell >= 1,
                    img_height >= 1,
            ;
        }
        (if cols < 1 {
            1
        } else {
            cols
        }, if rows < 1 {
            1
        } else {
            rows
        }, cell)
    }

    /// number of cell columns
    pub fn cols(&self) -> (r: u32)
        ensures
            r == self.spec_cols(),
    {
        self.cols
    }

    /// number of cell rows
    pub fn rows(&self) -> (r: u32)
        ensures
            r == self.spec_rows(),
    {
        self.rows
    }

    /// side length of a cell in pixels
    pub fn cell_size(&self) -> (r: u32)
        ensures
            r == self.spec_cell_size(),
            r >= 1,
    {
        proof {
            use_type_invariant(self);
        }
        self.cell_size
    }

    /// image width in pixels
    pub fn img_width(&self) -> (r: u32)
        ensures
            r == self.spec_img_width(),
    {
        self.img_width
    }

    /// image height in pixels
    pub fn img_height(&self) -> (r: u32)
        ensures
            r == self.spec_img_height(),
    {
        self.img_height
    }

    /// the number of cells, `cols * rows`
    pub fn cell_count(&self) -> (n: usize)
        ensures
            n == self.spec_occupied().len(),
            n == self.spec_rows() * self.spec_cols(),
    {
        proof {
            use_type_invariant(self);
            assert(self.occupied@.len() == self.rows as int * self.cols as int) by (nonlinear_arith)
                requires
                    self.occupied@.len() == self.cols as int * self.rows as int,
            ;
        }
        self.occupied.len()
    }

    /// whether the cell at row-major position `i` is free
    pub fn is_free_at(&self, i: usize) -> (r: bool)
        requires
            i < self.spec_occupied().len(),
        ensures
            r == self.free_at(i as int),
    {
        !self.occupied[i]
    }

    /// whether the cell at `(row, col)` is free (cells outside the grid
    /// count as occupied)
    pub(crate) fn is_free(&self, row: u32, col: u32) -> (r: bool)
        ensures
            r == (row < self.spec_rows() && col < self.spec_cols() && self.free(
                row as int,
                col as int,
            )),
    {
        if row >= self.rows() || col >= self.cols() {
            return false;
        }
        let i = self.cell_index(row, col);
        !self.occupied[i]
    }

    /// the position of cell `(row, col)` in the row-major flag vector
    fn cell_index(&self, row: u32, col: u32) -> (i: usize)
        requires
            row < self.spec_rows(),
            col < self.spec_cols(),
        ensures
            i == row as int * self.spec_cols() + col as int,
            i < self.spec_occupied().len(),
            self.spec_occupied().len() == self.spec_rows() * self.spec_cols(),
    {
        let total = self.occupied.len();
        proof {
            use_type_invariant(self);
            lemma_index_in_bounds(row as int, col as int, self.rows as int, self.cols as int);
            assert(self.occupied@.len() == self.rows as int * self.cols as int) by (nonlinear_arith)
                requires
                    self.occupied@.len() == self.cols as int * self.rows as int,
            ;
            assert(row as int * self.cols as int <= row as int * self.cols as int + col as int);
        }
        row as usize * self.cols as usize + col as usize
    }

    /// convert an exclusive cell rectangle `[r0, r1) x [c0, c1)` to a pixel
    /// rectangle, clamped to the image bounds
    pub(crate) fn cell_rect_to_pixels(&self, r0: u32, r1: u32, c0: u32, c1: u32) -> (r: PixelRect)
        requires
            r0 < r1 <= self.spec_rows(),
            c0 < c1 <= self.spec_cols(),
        ensures
            (r.x as int, r.y as int, r.width as int, r.height as int) == self.spec_cell_rect_to_pixels(
                (r0 as int, r1 as int, c0 as int, c1 as int),
            ),
    {
        proof {
            use_type_invariant(self);
            assert(c0 as int * self.cell_size <= (self.cols as int - 1) * self.cell_size)
                by (nonlinear_arith)
                requires
                    c0 < self.cols,
                    self.cell_size >= 1,
            ;
            assert(r0 as int * self.cell_size <= (self.rows as int - 1) * self.cell_size)
                by (nonlinear_arith)
                requires
                    r0 < self.rows,
                    self.cell_size >= 1,
            ;
        }
        let x = c0 * self.cell_size;
        let y = r0 * self.cell_size;
        let x1w = mul_wide(c1, self.cell_size);
        let y1w = mul_wide(r1, self.cell_size);
        let x1: u32 = if x1w < self.img_width as u64 {
            x1w as u32
        } else {
            self.img_width
        };
        let y1: u32 = if y1w < self.img_height as u64 {
            y1w as u32
        } else {
            self.img_height
        };
        PixelRect { x, y, width: x1.saturating_sub(x), height: y1.saturating_sub(y) }
    }

    /// every cell of column `c` in the row range `[r0, r1)` is free
    pub open spec fn column_free(&self, r0: int, r1: int, c: int) -> bool {
        forall|r: int| r0 <= r < r1 ==> #[trigger] self.free(r, c)
    }

    /// for each column in `[c_lo, c_hi)`, whether all of its cells in the row
    /// range `[r0, r1)` are free
    fn columns_free(&self, c_lo: u32, c_hi: u32, r0: u32, r1: u32) -> (v: Vec<bool>)
        requires
            c_lo <= c_hi <= self.spec_cols(),
            r0 <= r1 <= self.spec_rows(),
        ensures
            v@.len() == c_hi - c_lo,
            forall|i: int|
                0 <= i < v@.len() ==> #[trigger] v@[i] == self.column_free(
                    r0 as int,
                    r1 as int,
                    c_lo + i,
                ),
    {
        let mut v: Vec<bool> = Vec::new();
        let mut c = c_lo;
        while c < c_hi
            invariant
                c_lo <= c <= c_hi <= self.spec_cols(),
                r0 <= r1 <= self.spec_rows(),
                v@.len() == c - c_lo,
                forall|i: int|
                    0 <= i < v@.len() ==> #[trigger] v@[i] == self.column_free(
                        r0 as int,
                        r1 as int,
                        c_lo + i,
                    ),
            decreases c_hi - c,
        {
            let mut r = r0;
            let mut all = true;
            while r < r1
                invariant
                    c_lo <= c < c_hi <= self.spec_cols(),
                    r0 <= r <= r1 <= self.spec_rows(),
                    all <==> (forall|rr: int| r0 <= rr < r ==> #[trigger] self.free(rr, c as int)),
                decreases r1 - r,
            {
                if !self.is_free(r, c) {
                    all = false;
                }
                r = r + 1;
            }
            v.push(all);
            c = c + 1;
        }
        v
    }

    /// the largest all-free cell rectangle anchored per the given axis modes,
    /// confined to the column range `[c_lo, c_hi)` and row range
    /// `[r_lo, r_hi)`, returned as an exclusive cell rectangle
    /// `(r0, r1, c0, c1)`
    #[verifier::rlimit(40)]
    pub(crate) fn largest_free_rect_in(
        &self,
        c_lo: u32,
        c_hi: u32,
        r_lo: u32,
        r_hi: u32,
        hmode: AxisMode,
        vmode: AxisMode,
    ) -> (res: Option<(u32, u32, u32, u32)>)
        requires
            c_hi <= self.spec_cols(),
            r_hi <= self.spec_rows(),
        ensures
            c_lo >= c_hi || r_lo >= r_hi ==> res is None,
            res is None <==> self.spec_largest_free_rect_in(
                c_lo as int,
                c_hi as int,
                r_lo as int,
                r_hi as int,
                hmode,
                vmode,
            ) is None,
            res matches Some(q) ==> self.spec_largest_free_rect_in(
                c_lo as int,
                c_hi as int,
                r_lo as int,
                r_hi as int,
                hmode,
                vmode,
            ) == Some((q.0 as int, q.1 as int, q.2 as int, q.3 as int)),
            res matches Some(q) ==> q.0 < q.1 <= r_hi && q.2 < q.3 <= c_hi && r_lo <= q.0 && c_lo
                <= q.2,
    {
        let ghost cl = c_lo as int;
        let ghost ch = c_hi as int;
        let ghost rl = r_lo as int;
        let ghost rh = r_hi as int;
        if c_lo >= c_hi || r_lo >= r_hi {
            proof {
                assert forall|p: (int, int, int, int)|
                    !#[trigger] self.anchored_free(cl, ch, rl, rh, hmode, vmode, p) by {}
                self.lemma_largest_none(cl, ch, rl, rh, hmode, vmode);
            }
            return None;
        }
        let band_rows = r_hi - r_lo;
        let n_cols = c_hi - c_lo;
        let mut best: Option<(u64, u32, u32, u32, u32)> = None;
        let mut k: u32 = 0;
        while k < band_rows
            invariant
                c_lo < c_hi <= self.spec_cols(),
                r_lo < r_hi <= self.spec_rows(),
                band_rows == r_hi - r_lo,
                n_cols == c_hi - c_lo,
                cl == c_lo,
                ch == c_hi,
                rl == r_lo,
                rh == r_hi,
                k <= band_rows,
                best is None ==> forall|p: (int, int, int, int)|
                    #[trigger] self.anchored_free(cl, ch, rl, rh, hmode, vmode, p) ==> p.1 - p.0 > k,
                best matches Some(b) ==> {
                    let q = (b.1 as int, b.2 as int, b.3 as int, b.4 as int);
                    &&& self.anchored_free(cl, ch, rl, rh, hmode, vmode, q)
                    &&& b.0 == rect_area(q)
                    &&& q.1 - q.0 <= k
                    &&& forall|p: (int, int, int, int)|
                        #[trigger] self.anchored_free(cl, ch, rl, rh, hmode, vmode, p) && p.1 - p.0
                            <= k ==> rect_area(p) <= b.0 && (rect_area(p) == b.0 ==> p.1 - p.0 >= q.1
                            - q.0)
                },
            decreases band_rows - k,
        {
            let h = k + 1;
            let (r0, r1) = match vmode {
                AxisMode::Start => (r_lo, r_lo + h),
                AxisMode::End => (r_hi - h, r_hi),
                AxisMode::Center => {
                    let r0 = r_lo + (band_rows - h) / 2;
                    (r0, r0 + h)
                },
            };
            proof {
                assert((r0 as int, r1 as int) == anchored_range(vmode, rl, rh, h as int));
            }
            let col_free = self.columns_free(c_lo, c_hi, r0, r1);
            let (off, w) = run_for_mode(&col_free, hmode);
            proof {
                self.lemma_height_step(
                    cl,
                    ch,
                    rl,
                    rh,
                    hmode,
                    vmode,
                    h as int,
                    col_free@,
                    off as int,
                    w as int,
                );
            }
            if w > 0 {
                let area = mul_wide(h, w);
                let c0 = c_lo + off;
                let c1 = c_lo + off + w;
                let better = match best {
                    None => true,
                    Some(b) => area > b.0,
                };
                if better {
                    best = Some((area, r0, r1, c0, c1));
                }
            }
            k = k + 1;
        }
        match best {
            Some(b) => {
                proof {
                    let q = (b.1 as int, b.2 as int, b.3 as int, b.4 as int);
                    assert forall|p: (int, int, int, int)|
                        #[trigger] self.anchored_free(cl, ch, rl, rh, hmode, vmode, p) implies p.1
                        - p.0 <= k by {}
                    assert(self.is_largest_anchored(cl, ch, rl, rh, hmode, vmode, q));
                    self.lemma_largest_value(cl, ch, rl, rh, hmode, vmode, q);
                }
                Some((b.1, b.2, b.3, b.4))
            },
            None => {
                proof {
                    assert forall|p: (int, int, int, int)|
                        !#[trigger] self.anchored_free(cl, ch, rl, rh, hmode, vmode, p) by {
                        if self.anchored_free(cl, ch, rl, rh, hmode, vmode, p) {
                            assert(p.1 - p.0 <= band_rows);
                        }
                    }
                    self.lemma_largest_none(cl, ch, rl, rh, hmode, vmode);
                }
                None
            },
        }
    }

    /// one height of the search: the anchored free rectangles of height `h`
    /// are at most `w` columns wide, and the candidate of the run is one of
    /// them
    proof fn lemma_height_step(
        &self,
        cl: int,
        ch: int,
        rl: int,
        rh: int,
        hmode: AxisMode,
        vmode: AxisMode,
        h: int,
        col_free: Seq<bool>,
        off: int,
        w: int,
    )
        requires
            cl < ch,
            rl < rh,
            1 <= h <= rh - rl,
            col_free.len() == ch - cl,
            forall|i: int|
                0 <= i < col_free.len() ==> #[trigger] col_free[i] == self.column_free(
                    anchored_range(vmode, rl, rh, h).0,
                    anchored_range(vmode, rl, rh, h).1,
                    cl + i,
                ),
            w > 0 ==> anchored(hmode, 0, ch - cl, off, off + w) && all_true(col_free, off, off + w),
            forall|a0: int, a1: int|
                anchored(hmode, 0, ch - cl, a0, a1) && all_true(col_free, a0, a1) ==> a1 - a0 <= w,
        ensures
            forall|p: (int, int, int, int)|
                #[trigger] self.anchored_free(cl, ch, rl, rh, hmode, vmode, p) && p.1 - p.0 == h
                    ==> p.3 - p.2 <= w && rect_area(p) <= h * w,
            w > 0 ==> self.anchored_free(
                cl,
                ch,
                rl,
                rh,
                hmode,
                vmode,
                (
                    anchored_range(vmode, rl, rh, h).0,
                    anchored_range(vmode, rl, rh, h).1,
                    cl + off,
                    cl + off + w,
                ),
            ),
            w > 0 ==> rect_area(
                (
                    anchored_range(vmode, rl, rh, h).0,
                    anchored_range(vmode, rl, rh, h).1,
                    cl + off,
                    cl + off + w,
                ),
            ) == h * w,
    {
        let r0 = anchored_range(vmode, rl, rh, h).0;
        let r1 = anchored_range(vmode, rl, rh, h).1;
        lemma_anchored_is_range(vmode, rl, rh, r0, r1);
        assert forall|p: (int, int, int, int)|
            #[trigger] self.anchored_free(cl, ch, rl, rh, hmode, vmode, p) && p.1 - p.0
                == h implies p.3 - p.2 <= w && rect_area(p) <= h * w by {
            lemma_anchored_is_range(vmode, rl, rh, p.0, p.1);
            let a0 = p.2 - cl;
            let a1 = p.3 - cl;
            assert(anchored(hmode, 0, ch - cl, a0, a1));
            assert forall|i: int| a0 <= i < a1 implies #[trigger] col_free[i] by {
                assert forall|r: int| r0 <= r < r1 implies #[trigger] self.free(r, cl + i) by {
                    assert(self.free(r, cl + i));
                }
            }
            assert(all_true(col_free, a0, a1));
            lemma_mul_le_right(h, p.3 - p.2, w);
        }
        if w > 0 {
            let q = (r0, r1, cl + off, cl + off + w);
            assert forall|r: int, c: int| q.0 <= r < q.1 && q.2 <= c < q.3 implies #[trigger] self.free(
                r,
                c,
            ) by {
                assert(col_free[c - cl]);
            }
        }
    }

    /// the largest anchored free rectangle lies within the searched ranges
    /// and is free
    pub proof fn lemma_largest_within(
        &self,
        c_lo: int,
        c_hi: int,
        r_lo: int,
        r_hi: int,
        hmode: AxisMode,
        vmode: AxisMode,
    )
        requires
            self.spec_largest_free_rect_in(c_lo, c_hi, r_lo, r_hi, hmode, vmode) is Some,
        ensures
            ({
                let q = self.spec_largest_free_rect_in(c_lo, c_hi, r_lo, r_hi, hmode, vmode).unwrap();
                &&& r_lo <= q.0 < q.1 <= r_hi
                &&& c_lo <= q.2 < q.3 <= c_hi
                &&& self.rect_free(q)
            }),
    {
        let q = self.spec_largest_free_rect_in(c_lo, c_hi, r_lo, r_hi, hmode, vmode).unwrap();
        assert(self.is_largest_anchored(c_lo, c_hi, r_lo, r_hi, hmode, vmode, q));
        assert(self.anchored_free(c_lo, c_hi, r_lo, r_hi, hmode, vmode, q));
    }

    /// two largest anchored rectangles of the same ranges and modes coincide
    proof fn lemma_largest_unique(
        &self,
        c_lo: int,
        c_hi: int,
        r_lo: int,
        r_hi: int,
        hmode: AxisMode,
        vmode: AxisMode,
        q1: (int, int, int, int),
        q2: (int, int, int, int),
    )
        requires
            self.is_largest_anchored(c_lo, c_hi, r_lo, r_hi, hmode, vmode, q1),
            self.is_largest_anchored(c_lo, c_hi, r_lo, r_hi, hmode, vmode, q2),
        ensures
            q1 == q2,
    {
        assert(self.anchored_free(c_lo, c_hi, r_lo, r_hi, hmode, vmode, q1));
        assert(self.anchored_free(c_lo, c_hi, r_lo, r_hi, hmode, vmode, q2));
        lemma_anchored_is_range(vmode, r_lo, r_hi, q1.0, q1.1);
        lemma_anchored_is_range(vmode, r_lo, r_hi, q2.0, q2.1);
        lemma_anchored_is_range(hmode, c_lo, c_hi, q1.2, q1.3);
        lemma_anchored_is_range(hmode, c_lo, c_hi, q2.2, q2.3);
        let h = q1.1 - q1.0;
        assert(q1.3 - q1.2 == q2.3 - q2.2) by (nonlinear_arith)
            requires
                h >= 1,
                h * (q1.3 - q1.2) == h * (q2.3 - q2.2),
        ;
    }

    /// the spec of the largest anchored rectangle is any largest one
    proof fn lemma_largest_value(
        &self,
        c_lo: int,
        c_hi: int,
        r_lo: int,
        r_hi: int,
        hmode: AxisMode,
        vmode: AxisMode,
        q: (int, int, int, int),
    )
        requires
            self.is_largest_anchored(c_lo, c_hi, r_lo, r_hi, hmode, vmode, q),
        ensures
            self.spec_largest_free_rect_in(c_lo, c_hi, r_lo, r_hi, hmode, vmode) == Some(q),
    {
        let c = choose|x: (int, int, int, int)|
            self.is_largest_anchored(c_lo, c_hi, r_lo, r_hi, hmode, vmode, x);
        self.lemma_largest_unique(c_lo, c_hi, r_lo, r_hi, hmode, vmode, q, c);
    }

    /// from an anchored free rectangle of area at least `a`, one of the
    /// largest area
    proof fn lemma_max_area(
        &self,
        c_lo: int,
        c_hi: int,
        r_lo: int,
        r_hi: int,
        hmode: AxisMode,
        vmode: AxisMode,
        a: int,
    ) -> (q: (int, int, int, int))
        requires
            exists|p: (int, int, int, int)|
                #[trigger] self.anchored_free(c_lo, c_hi, r_lo, r_hi, hmode, vmode, p)
                    && rect_area(p) >= a,
        ensures
            self.anchored_free(c_lo, c_hi, r_lo, r_hi, hmode, vmode, q),
            forall|p: (int, int, int, int)|
                #[trigger] self.anchored_free(c_lo, c_hi, r_lo, r_hi, hmode, vmode, p)
                    ==> rect_area(p) <= rect_area(q),
        decreases (r_hi - r_lo) * (c_hi - c_lo) - a,
    {
        let p0 = choose|p: (int, int, int, int)|
            #[trigger] self.anchored_free(c_lo, c_hi, r_lo, r_hi, hmode, vmode, p)
                && rect_area(p) >= a;
        let hh = r_hi - r_lo;
        let ww = c_hi - c_lo;
        assert(rect_area(p0) <= hh * ww) by (nonlinear_arith)
            requires
                1 <= p0.1 - p0.0 <= hh,
                1 <= p0.3 - p0.2 <= ww,
                rect_area(p0) == (p0.1 - p0.0) * (p0.3 - p0.2),
        ;
        if exists|p: (int, int, int, int)|
            #[trigger] self.anchored_free(c_lo, c_hi, r_lo, r_hi, hmode, vmode, p)
                && rect_area(p) >= a + 1 {
            let p1 = choose|p: (int, int, int, int)|
                #[trigger] self.anchored_free(c_lo, c_hi, r_lo, r_hi, hmode, vmode, p)
                    && rect_area(p) >= a + 1;
            assert(rect_area(p1) <= hh * ww) by (nonlinear_arith)
                requires
                    1 <= p1.1 - p1.0 <= hh,
                    1 <= p1.3 - p1.2 <= ww,
                    rect_area(p1) == (p1.1 - p1.0) * (p1.3 - p1.2),
            ;
            self.lemma_max_area(c_lo, c_hi, r_lo, r_hi, hmode, vmode, a + 1)
        } else {
            p0
        }
    }

    /// among the anchored free rectangles of the largest area `top`, from
    /// one at most `k` rows high, the shortest
    proof fn lemma_min_height(
        &self,
        c_lo: int,
        c_hi: int,
        r_lo: int,
        r_hi: int,
        hmode: AxisMode,
        vmode: AxisMode,
        top: int,
        k: int,
    ) -> (q: (int, int, int, int))
        requires
            exists|p: (int, int, int, int)|
                #[trigger] self.anchored_free(c_lo, c_hi, r_lo, r_hi, hmode, vmode, p)
                    && rect_area(p) == top && p.1 - p.0 <= k,
            forall|p: (int, int, int, int)|
                #[trigger] self.anchored_free(c_lo, c_hi, r_lo, r_hi, hmode, vmode, p)
                    ==> rect_area(p) <= top,
        ensures
            self.is_largest_anchored(c_lo, c_hi, r_lo, r_hi, hmode, vmode, q),
        decreases k,
    {
        let p0 = choose|p: (int, int, int, int)|
            #[trigger] self.anchored_free(c_lo, c_hi, r_lo, r_hi, hmode, vmode, p)
                && rect_area(p) == top && p.1 - p.0 <= k;
        if exists|p: (int, int, int, int)|
            #[trigger] self.anchored_free(c_lo, c_hi, r_lo, r_hi, hmode, vmode, p)
                && rect_area(p) == top && p.1 - p.0 <= k - 1 {
            let p1 = choose|p: (int, int, int, int)|
                #[trigger] self.anchored_free(c_lo, c_hi, r_lo, r_hi, hmode, vmode, p)
                    && rect_area(p) == top && p.1 - p.0 <= k - 1;
            assert(p1.1 - p1.0 >= 1);
            self.lemma_min_height(c_lo, c_hi, r_lo, r_hi, hmode, vmode, top, k - 1)
        } else {
            p0
        }
    }

    /// a largest anchored free rectangle exists whenever an anchored free
    /// rectangle does: the search for the largest one in a band finds one
    /// exactly when the band has any anchored free rectangle at all
    pub proof fn lemma_largest_exists(
        &self,
        c_lo: int,
        c_hi: int,
        r_lo: int,
        r_hi: int,
        hmode: AxisMode,
        vmode: AxisMode,
    )
        ensures
            (exists|p: (int, int, int, int)|
                #[trigger] self.anchored_free(c_lo, c_hi, r_lo, r_hi, hmode, vmode, p))
                <==> self.spec_largest_free_rect_in(c_lo, c_hi, r_lo, r_hi, hmode, vmode) is Some,
    {
        if exists|p: (int, int, int, int)|
            #[trigger] self.anchored_free(c_lo, c_hi, r_lo, r_hi, hmode, vmode, p) {
            let p0 = choose|p: (int, int, int, int)|
                #[trigger] self.anchored_free(c_lo, c_hi, r_lo, r_hi, hmode, vmode, p);
            assert(rect_area(p0) >= rect_area(p0));
            let m = self.lemma_max_area(c_lo, c_hi, r_lo, r_hi, hmode, vmode, rect_area(p0));
            let q = self.lemma_min_height(
                c_lo,
                c_hi,
                r_lo,
                r_hi,
                hmode,
                vmode,
                rect_area(m),
                m.1 - m.0,
            );
            assert(self.is_largest_anchored(c_lo, c_hi, r_lo, r_hi, hmode, vmode, q));
        } else {
            if self.spec_largest_free_rect_in(c_lo, c_hi, r_lo, r_hi, hmode, vmode) is Some {
                let q = choose|x: (int, int, int, int)|
                    self.is_largest_anchored(c_lo, c_hi, r_lo, r_hi, hmode, vmode, x);
                assert(self.anchored_free(c_lo, c_hi, r_lo, r_hi, hmode, vmode, q));
            }
        }
    }

    /// when every cell of a non-empty band is free, its largest anchored
    /// free rectangle is the whole band, whatever the anchoring
    pub proof fn lemma_full_band(
        &self,
        c_lo: int,
        c_hi: int,
        r_lo: int,
        r_hi: int,
        hmode: AxisMode,
        vmode: AxisMode,
    )
        requires
            0 <= c_lo < c_hi <= self.spec_cols(),
            0 <= r_lo < r_hi <= self.spec_rows(),
            self.spec_occupied().len() == self.spec_rows() * self.spec_cols(),
            forall|i: int| 0 <= i < self.spec_occupied().len() ==> self.free_at(i),
        ensures
            self.spec_largest_free_rect_in(c_lo, c_hi, r_lo, r_hi, hmode, vmode) == Some(
                (r_lo, r_hi, c_lo, c_hi),
            ),
    {
        let q = (r_lo, r_hi, c_lo, c_hi);
        let hh = r_hi - r_lo;
        let ww = c_hi - c_lo;
        assert forall|r: int, c: int| q.0 <= r < q.1 && q.2 <= c < q.3 implies #[trigger] self.free(
            r,
            c,
        ) by {
            assert(0 <= r * self.spec_cols() + c < self.spec_rows() * self.spec_cols())
                by (nonlinear_arith)
                requires
                    0 <= r < self.spec_rows(),
                    0 <= c < self.spec_cols(),
            ;
            assert(self.free_at(r * self.spec_cols() + c));
        }
        assert(self.anchored_free(c_lo, c_hi, r_lo, r_hi, hmode, vmode, q));
        assert forall|p: (int, int, int, int)|
            #[trigger] self.anchored_free(c_lo, c_hi, r_lo, r_hi, hmode, vmode, p) implies rect_area(p)
            <= rect_area(q) && (rect_area(p) == rect_area(q) ==> p.1 - p.0 >= q.1 - q.0) by {
            let h = p.1 - p.0;
            let w = p.3 - p.2;
            assert(h * w <= hh * ww && (h * w == hh * ww ==> h == hh)) by (nonlinear_arith)
                requires
                    1 <= h <= hh,
                    1 <= w <= ww,
            ;
        }
        assert(self.is_largest_anchored(c_lo, c_hi, r_lo, r_hi, hmode, vmode, q));
        let q2 = choose|x: (int, int, int, int)|
            self.is_largest_anchored(c_lo, c_hi, r_lo, r_hi, hmode, vmode, x);
        assert(self.anchored_free(c_lo, c_hi, r_lo, r_hi, hmode, vmode, q2));
        assert(rect_area(q) <= rect_area(q2));
        let h2 = q2.1 - q2.0;
        let w2 = q2.3 - q2.2;
        assert(h2 == hh && w2 == ww) by (nonlinear_arith)
            requires
                1 <= h2 <= hh,
                1 <= w2 <= ww,
                hh * ww <= h2 * w2,
        ;
    }

    /// with no anchored free rectangle there is no largest one
    proof fn lemma_largest_none(
        &self,
        c_lo: int,
        c_hi: int,
        r_lo: int,
        r_hi: int,
        hmode: AxisMode,
        vmode: AxisMode,
    )
        requires
            forall|p: (int, int, int, int)|
                !#[trigger] self.anchored_free(c_lo, c_hi, r_lo, r_hi, hmode, vmode, p),
        ensures
            self.spec_largest_free_rect_in(c_lo, c_hi, r_lo, r_hi, hmode, vmode) is None,
    {
    }

    /// the half-open range `[lo, hi)` of grid columns covered by the
    /// third-of-the-grid at horizontal index `h3` (`0..3`)
    pub(crate) fn col_band(&self, h3: u32) -> (r: (u32, u32))
        ensures
            r.0 as int == spec_band(self.spec_cols(), h3 as int).0,
            r.1 as int == spec_band(self.spec_cols(), h3 as int).1,
    {
        let edge = self.cols / 3;
        match h3 {
            0 => (0, edge),
            1 => (edge, self.cols - edge),
            _ => (self.cols - edge, self.cols),
        }
    }

    /// the half-open range `[lo, hi)` of grid rows covered by the
    /// third-of-the-grid at vertical index `v3` (`0..3`)
    pub(crate) fn row_band(&self, v3: u32) -> (r: (u32, u32))
        ensures
            r.0 as int == spec_band(self.spec_rows(), v3 as int).0,
            r.1 as int == spec_band(self.spec_rows(), v3 as int).1,
    {
        let edge = self.rows / 3;
        match v3 {
            0 => (0, edge),
            1 => (edge, self.rows - edge),
            _ => (self.rows - edge, self.rows),
        }
    }
}

proof fn lemma_mul_le_right(h: int, a: int, b: int)
    requires
        h >= 0,
        a <= b,
    ensures
        h * a <= h * b,
{
    assert(h * a <= h * b) by (nonlinear_arith)
        requires
            h >= 0,
            a <= b,
    ;
}

proof fn lemma_index_in_bounds(r: int, c: int, rows: int, cols: int)
    requires
        0 <= r < rows,
        0 <= c < cols,
    ensures
        0 <= r * cols + c < rows * cols,
{
    assert(0 <= r * cols + c < rows * cols) by (nonlinear_arith)
        requires
            0 <= r < rows,
            0 <= c < cols,
    ;
}

} // verus!
