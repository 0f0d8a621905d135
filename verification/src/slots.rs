//! evaluation of the nine placement slots against an [`OccupancyGrid`]
use vstd::prelude::*;

use crate::coverage::{
    group_bounds, spec_all_slots, spec_cell, spec_group_bounds, spec_orthogonally_adjacent,
    AxisMode, PlacementSlot,
};
use crate::occupancy::{lemma_bands_tile, mul_wide, rect_tuple, spec_band, OccupancyGrid, PixelRect};

verus! {

/// the pixel `(x, y)` lies within the rectangle `p`
pub open spec fn pixel_in(p: PixelRect, x: int, y: int) -> bool {
    p.x <= x < p.x + p.width && p.y <= y < p.y + p.height
}

/// the pixel extent of the cells `[b.0, b.1)` of `cell` pixels each, cut
/// off at the image edge `img`
pub open spec fn px_extent(cell: int, img: int, b: (int, int)) -> int {
    let x0 = b.0 * cell;
    let x1 = if b.1 * cell < img {
        b.1 * cell
    } else {
        img
    };
    if x1 > x0 {
        x1 - x0
    } else {
        0
    }
}

/// the area of a slot's free rectangle, `0` where it has none
pub open spec fn free_area(info: PlacementSlotInfo) -> int {
    match info.free_rect {
        Some(p) => p.width * p.height,
        None => 0,
    }
}

/// the pixel extents of the three thirds of an axis of `n` cells add up
/// to the part of the image (of extent `img`) that the cells cover
proof fn lemma_extents_sum(cell: int, img: int, n: int)
    requires
        cell >= 0,
        img >= 0,
        n >= 0,
    ensures
        px_extent(cell, img, spec_band(n, 0)) + px_extent(cell, img, spec_band(n, 1)) + px_extent(
            cell,
            img,
            spec_band(n, 2),
        ) == if n * cell < img {
            n * cell
        } else {
            img
        },
{
    lemma_bands_tile(n);
    let e = n / 3;
    lemma_scale_le(cell, 0, e);
    lemma_scale_le(cell, e, n - e);
    lemma_scale_le(cell, n - e, n);
    assert(0 * cell == 0) by (nonlinear_arith);
}

/// the slot at position `i` of the reading order sits in column `i % 3`
/// and row `i / 3` of the 3x3 layout
proof fn lemma_slot_at_cell(i: int)
    requires
        0 <= i < 9,
    ensures
        spec_cell(spec_all_slots()[i]) == (i % 3, i / 3),
{
    if i == 0 {
    } else if i == 1 {
    } else if i == 2 {
    } else if i == 3 {
    } else if i == 4 {
    } else if i == 5 {
    } else if i == 6 {
    } else if i == 7 {
    } else {
    }
}

/// the band (`0`, `1` or `2`) of an axis of `n` cells holding cell `c`
proof fn lemma_band_of(n: int, c: int) -> (k: int)
    requires
        0 <= c < n,
    ensures
        0 <= k < 3,
        spec_band(n, k).0 <= c < spec_band(n, k).1,
{
    lemma_bands_tile(n);
    if c < spec_band(n, 0).1 {
        0
    } else if c < spec_band(n, 1).1 {
        1
    } else {
        2
    }
}

/// `x` lies in cell `x / cell` of an axis of `n` cells of `cell` pixels
proof fn lemma_pixel_cell(x: int, cell: int, n: int)
    requires
        0 <= x < n * cell,
        cell >= 0,
    ensures
        cell >= 1,
        0 <= x / cell < n,
        (x / cell) * cell <= x < (x / cell + 1) * cell,
{
    if cell == 0 {
        assert(n * cell == 0) by (nonlinear_arith)
            requires
                cell == 0,
        ;
    }
    assert(cell >= 1);
    let c = x / cell;
    assert(c * cell <= x < (c + 1) * cell) by (nonlinear_arith)
        requires
            cell >= 1,
            c == x / cell,
            x >= 0,
    ;
    assert(0 <= c < n) by (nonlinear_arith)
        requires
            cell >= 1,
            c * cell <= x,
            x < n * cell,
            x >= 0,
            c == x / cell,
    ;
}


/// the cell index along one axis of `n` cells (of `cell` pixels, spanning
/// `img` pixels) that an anchor of the given mode sits in
pub open spec fn spec_anchor_axis(mode: AxisMode, img: int, cell: int, n: int) -> int {
    let raw = match mode {
        AxisMode::Start => 0,
        AxisMode::Center => img / 2 / cell,
        AxisMode::End => (if img > 0 {
            img - 1
        } else {
            0
        }) / cell,
    };
    let cap = if n > 0 {
        n - 1
    } else {
        0
    };
    if raw < cap {
        raw
    } else {
        cap
    }
}

/// the result of evaluating one [`PlacementSlot`] against an
/// [`OccupancyGrid`]
#[derive(Debug, PartialEq)]
pub struct PlacementSlotInfo {
    /// which slot this describes
    pub slot: PlacementSlot,
    /// whether there is any free space at this anchor at all: the anchor's
    /// own cell is not covered by overlay content
    pub available: bool,
    /// the largest empty rectangle that can be placed anchored at this slot,
    /// confined to the slot's own third of the map so the nine slot
    /// rectangles never overlap, in pixel coordinates, or `None` if the
    /// slot's third has no free space at the anchor
    pub free_rect: Option<PixelRect>,
    /// `(width, height)` of [`Self::free_rect`] in pixels, `(0, 0)` when
    /// there is no free rectangle
    pub free_size: (u32, u32),
    /// how many grid cells of the slot's third are covered by overlay
    /// content
    pub occupied_cells: u64,
    /// how many grid cells the slot's third has
    pub local_cells: u64,
    /// the orthogonally adjacent anchors that share one contiguous free area
    /// with this anchor, so they could be combined for a larger element
    pub connected_neighbours: Vec<PlacementSlot>,
}

/// the two pixel rectangles share at least one pixel
pub open spec fn rects_overlap(a: PixelRect, b: PixelRect) -> bool {
    &&& a.x < b.x + b.width
    &&& b.x < a.x + a.width
    &&& a.y < b.y + b.height
    &&& b.y < a.y + a.height
}

/// `k * a <= k * b` for `k >= 0` and `a <= b`
proof fn lemma_scale_le(k: int, a: int, b: int)
    requires
        k >= 0,
        a <= b,
    ensures
        k * a <= k * b,
        a * k <= b * k,
{
    assert(k * a <= k * b) by (nonlinear_arith)
        requires
            k >= 0,
            a <= b,
    ;
    assert(a * k <= b * k) by (nonlinear_arith)
        requires
            k >= 0,
            a <= b,
    ;
}

impl OccupancyGrid {
    /// the `(row, col)` of the cell the anchor sits in
    pub open spec fn spec_anchor_cell(&self, a: PlacementSlot) -> (int, int) {
        (
            spec_anchor_axis(
                a.spec_vertical(),
                self.spec_img_height(),
                self.spec_cell_size(),
                self.spec_rows(),
            ),
            spec_anchor_axis(
                a.spec_horizontal(),
                self.spec_img_width(),
                self.spec_cell_size(),
                self.spec_cols(),
            ),
        )
    }

    /// the row-major position of the cell the anchor sits in
    pub open spec fn spec_anchor_index(&self, a: PlacementSlot) -> int {
        self.spec_anchor_cell(a).0 * self.spec_cols() + self.spec_anchor_cell(a).1
    }

    /// the grid is not empty and the anchor's cell is free
    pub open spec fn anchor_is_free(&self, a: PlacementSlot) -> bool {
        self.spec_rows() > 0 && self.spec_cols() > 0 && self.free_at(self.spec_anchor_index(a))
    }

    /// the anchors `a` and `b` sit in one contiguous free area
    pub open spec fn anchors_linked(&self, a: PlacementSlot, b: PlacementSlot) -> bool {
        self.spec_rows() > 0 && self.spec_cols() > 0 && self.connected(
            self.spec_anchor_index(a),
            self.spec_anchor_index(b),
        )
    }

    /// the orthogonal neighbours of `a` (in reading order) that share a
    /// contiguous free area with it
    pub open spec fn spec_linked_neighbours(&self, a: PlacementSlot) -> Seq<PlacementSlot> {
        spec_all_slots().filter(|o: PlacementSlot| spec_orthogonally_adjacent(a, o)).filter(
            |o: PlacementSlot| self.anchors_linked(a, o),
        )
    }

    /// the number of occupied cells in row `r` among the columns `[c0, c1)`
    pub open spec fn count_row(&self, r: int, c0: int, c1: int) -> int
        decreases c1 - c0,
    {
        if c1 <= c0 {
            0
        } else {
            self.count_row(r, c0, c1 - 1) + if self.free(r, c1 - 1) {
                0int
            } else {
                1int
            }
        }
    }

    /// the number of occupied cells in the cell rectangle `[r0, r1) x
    /// [c0, c1)`
    pub open spec fn count_rect(&self, r0: int, r1: int, c0: int, c1: int) -> int
        decreases r1 - r0,
    {
        if r1 <= r0 {
            0
        } else {
            self.count_rect(r0, r1 - 1, c0, c1) + self.count_row(r1 - 1, c0, c1)
        }
    }

    /// what [`OccupancyGrid::evaluate_slots`] reports for slot `s`: its free
    /// rectangle within its own third, the third's occupancy and the linked
    /// neighbours
    pub open spec fn slot_info_matches(&self, s: PlacementSlot, info: PlacementSlotInfo) -> bool {
        let cb = spec_band(self.spec_cols(), spec_cell(s).0);
        let rb = spec_band(self.spec_rows(), spec_cell(s).1);
        let best = self.spec_largest_free_rect_in(
            cb.0,
            cb.1,
            rb.0,
            rb.1,
            s.spec_horizontal(),
            s.spec_vertical(),
        );
        &&& info.slot == s
        &&& (info.free_rect is None <==> best is None)
        &&& (best is Some ==> rect_tuple(info.free_rect.unwrap()) == self.spec_cell_rect_to_pixels(
            best.unwrap(),
        ))
        &&& info.free_size == (if info.free_rect is Some {
            (info.free_rect.unwrap().width, info.free_rect.unwrap().height)
        } else {
            (0u32, 0u32)
        })
        &&& info.available == self.anchor_is_free(s)
        &&& info.occupied_cells == self.count_rect(rb.0, rb.1, cb.0, cb.1)
        &&& info.local_cells == (rb.1 - rb.0) * (cb.1 - cb.0)
        &&& info.connected_neighbours@ == self.spec_linked_neighbours(s)
    }

    /// the cell `(row, col)` that the given anchor sits in
    fn anchor_cell(&self, anchor: PlacementSlot) -> (r: (u32, u32))
        ensures
            r.0 == self.spec_anchor_cell(anchor).0,
            r.1 == self.spec_anchor_cell(anchor).1,
    {
        let cell = self.cell_size();
        let w = self.img_width();
        let h = self.img_height();
        let cols = self.cols();
        let rows = self.rows();
        let col_raw = match anchor.horizontal() {
            AxisMode::Start => 0,
            AxisMode::Center => w / 2 / cell,
            AxisMode::End => w.saturating_sub(1) / cell,
        };
        let col_cap = cols.saturating_sub(1);
        let col = if col_raw < col_cap {
            col_raw
        } else {
            col_cap
        };
        let row_raw = match anchor.vertical() {
            AxisMode::Start => 0,
            AxisMode::Center => h / 2 / cell,
            AxisMode::End => h.saturating_sub(1) / cell,
        };
        let row_cap = rows.saturating_sub(1);
        let row = if row_raw < row_cap {
            row_raw
        } else {
            row_cap
        };
        (row, col)
    }

    /// the label of the cell the anchor sits in, or `None` if that cell is
    /// occupied (or the grid is empty)
    fn anchor_component(&self, anchor: PlacementSlot, comp: &Vec<Option<usize>>) -> (r: Option<
        usize,
    >)
        requires
            comp@.len() == self.spec_occupied().len(),
        ensures
            r == (if self.spec_rows() > 0 && self.spec_cols() > 0 {
                comp@[self.spec_anchor_index(anchor)]
            } else {
                None
            }),
            self.spec_rows() > 0 && self.spec_cols() > 0 ==> 0 <= self.spec_anchor_index(anchor)
                < comp@.len(),
    {
        let n = self.cell_count();
        let cols = self.cols();
        let rows = self.rows();
        if cols == 0 || rows == 0 {
            return None;
        }
        let (row, col) = self.anchor_cell(anchor);
        proof {
            self.lemma_dims_bounded();
            assert(0 <= row as int * cols as int + (col as int) < rows as int * cols as int)
                by (nonlinear_arith)
                requires
                    row < rows,
                    col < cols,
            ;
        }
        let i = row as usize * cols as usize + col as usize;
        comp[i]
    }

    /// the anchor's cell is free exactly when it carries a label
    proof fn lemma_anchor_label(&self, a: PlacementSlot, comp: Seq<Option<usize>>)
        requires
            self.is_component_labelling(comp),
            self.spec_rows() > 0,
            self.spec_cols() > 0,
            0 <= self.spec_anchor_index(a) < comp.len(),
        ensures
            comp[self.spec_anchor_index(a)] is Some <==> self.anchor_is_free(a),
    {
        assert(comp[self.spec_anchor_index(a)] is Some <==> self.free_at(self.spec_anchor_index(a)));
    }

    /// the orthogonally adjacent anchors that share a contiguous free area
    /// with the given anchor
    fn connected_neighbours(&self, anchor: PlacementSlot, comp: &Vec<Option<usize>>) -> (r: Vec<
        PlacementSlot,
    >)
        requires
            self.is_component_labelling(comp@),
        ensures
            r@ == self.spec_linked_neighbours(anchor),
    {
        let nbs = anchor.neighbours();
        let mine = self.anchor_component(anchor, comp);
        let mut r: Vec<PlacementSlot> = Vec::new();
        let mut i: usize = 0;
        while i < nbs.len()
            invariant
                self.is_component_labelling(comp@),
                nbs@ == spec_all_slots().filter(
                    |o: PlacementSlot| spec_orthogonally_adjacent(anchor, o),
                ),
                mine == (if self.spec_rows() > 0 && self.spec_cols() > 0 {
                    comp@[self.spec_anchor_index(anchor)]
                } else {
                    None
                }),
                self.spec_rows() > 0 && self.spec_cols() > 0 ==> 0 <= self.spec_anchor_index(anchor)
                    < comp@.len(),
                i <= nbs.len(),
                r@ == nbs@.take(i as int).filter(|o: PlacementSlot| self.anchors_linked(anchor, o)),
            decreases nbs.len() - i,
        {
            let nb = nbs[i];
            let theirs = self.anchor_component(nb, comp);
            let linked = match (mine, theirs) {
                (Some(a), Some(b)) => a == b,
                _ => false,
            };
            proof {
                reveal_with_fuel(Seq::filter, 1);
                assert(nbs@.take(i as int + 1).drop_last() =~= nbs@.take(i as int));
                let ia = self.spec_anchor_index(anchor);
                let ib = self.spec_anchor_index(nb);
                if self.spec_rows() > 0 && self.spec_cols() > 0 {
                    if self.connected(ia, ib) {
                        self.lemma_connected_free(ia, ib);
                        assert(comp@[ia] is Some <==> self.free_at(ia));
                        assert(comp@[ib] is Some <==> self.free_at(ib));
                    }
                    if comp@[ia] is Some && comp@[ib] is Some {
                        assert(comp@[ia] == comp@[ib] <==> self.connected(ia, ib));
                    }
                }
                assert(linked == self.anchors_linked(anchor, nb));
            }
            if linked {
                r.push(nb);
            }
            i = i + 1;
        }
        proof {
            assert(nbs@.take(nbs@.len() as int) =~= nbs@);
        }
        r
    }

    /// the number of occupied cells in the cell rectangle `[r0, r1) x
    /// [c0, c1)`
    fn occupied_in(&self, r0: u32, r1: u32, c0: u32, c1: u32) -> (occ: u64)
        requires
            r0 <= r1 <= self.spec_rows(),
            c0 <= c1 <= self.spec_cols(),
        ensures
            occ == self.count_rect(r0 as int, r1 as int, c0 as int, c1 as int),
    {
        proof {
            self.lemma_dims_bounded();
        }
        let ghost width = c1 - c0;
        let mut occ: u64 = 0;
        let mut r = r0;
        while r < r1
            invariant
                r0 <= r <= r1 <= self.spec_rows(),
                c0 <= c1 <= self.spec_cols(),
                self.spec_rows() <= u32::MAX,
                self.spec_cols() <= u32::MAX,
                width == c1 - c0,
                occ == self.count_rect(r0 as int, r as int, c0 as int, c1 as int),
                occ <= (r - r0) * width,
            decreases r1 - r,
        {
            let mut row_occ: u64 = 0;
            let mut c = c0;
            while c < c1
                invariant
                    r0 <= r < r1 <= self.spec_rows(),
                    c0 <= c <= c1 <= self.spec_cols(),
                    row_occ == self.count_row(r as int, c0 as int, c as int),
                    row_occ <= c - c0,
                decreases c1 - c,
            {
                if !self.is_free(r, c) {
                    row_occ = row_occ + 1;
                }
                c = c + 1;
            }
            proof {
                assert((r - r0) * width + width == (r + 1 - r0) * width) by (nonlinear_arith);
                assert((r + 1 - r0) * width <= 0xffff_ffff * 0xffff_ffff) by (nonlinear_arith)
                    requires
                        r + 1 - r0 <= 0xffff_ffff,
                        width <= 0xffff_ffff,
                        r + 1 - r0 >= 0,
                        width >= 0,
                ;
            }
            occ = occ + row_occ;
            r = r + 1;
        }
        occ
    }

    /// evaluate one anchor against this grid, given the labelling of its
    /// free regions
    fn evaluate_slot(&self, anchor: PlacementSlot, comp: &Vec<Option<usize>>) -> (info:
        PlacementSlotInfo)
        requires
            self.is_component_labelling(comp@),
        ensures
            self.slot_info_matches(anchor, info),
    {
        let (h3, v3) = anchor.cell_3x3();
        let (c_lo, c_hi) = self.col_band(h3 as u32);
        let (r_lo, r_hi) = self.row_band(v3 as u32);
        let free = self.largest_free_rect_in(
            c_lo,
            c_hi,
            r_lo,
            r_hi,
            anchor.horizontal(),
            anchor.vertical(),
        );
        let free_rect = match free {
            Some((r0, r1, c0, c1)) => Some(self.cell_rect_to_pixels(r0, r1, c0, c1)),
            None => None,
        };
        let free_size = match free_rect {
            Some(p) => (p.width, p.height),
            None => (0, 0),
        };
        let available = match self.anchor_component(anchor, comp) {
            Some(_) => true,
            None => false,
        };
        proof {
            if self.spec_rows() > 0 && self.spec_cols() > 0 {
                self.lemma_anchor_label(anchor, comp@);
            }
        }
        let occupied_cells = self.occupied_in(r_lo, r_hi, c_lo, c_hi);
        let local_cells = mul_wide(r_hi - r_lo, c_hi - c_lo);
        let connected_neighbours = self.connected_neighbours(anchor, comp);
        PlacementSlotInfo {
            slot: anchor,
            available,
            free_rect,
            free_size,
            occupied_cells,
            local_cells,
            connected_neighbours,
        }
    }

    /// evaluate all nine anchors against this grid, in reading order
    pub fn evaluate_slots(&self) -> (r: Vec<PlacementSlotInfo>)
        ensures
            r@.len() == 9,
            forall|i: int| 0 <= i < 9 ==> self.slot_info_matches(spec_all_slots()[i], #[trigger] r@[i]),
    {
        let components = self.free_components();
        let all = PlacementSlot::all();
        let mut r: Vec<PlacementSlotInfo> = Vec::new();
        let mut i: usize = 0;
        while i < all.len()
            invariant
                self.is_component_labelling(components@),
                all@ == spec_all_slots(),
                i <= all.len(),
                r@.len() == i,
                forall|k: int| 0 <= k < i ==> self.slot_info_matches(spec_all_slots()[k], #[trigger] r@[k]),
            decreases all.len() - i,
        {
            let info = self.evaluate_slot(all[i], &components);
            r.push(info);
            i = i + 1;
        }
        r
    }

    /// the largest all-free cell rectangle anchored per the given axis
    /// modes, searched over the whole grid, as an exclusive cell rectangle
    /// `(r0, r1, c0, c1)`
    fn largest_free_rect(&self, hmode: AxisMode, vmode: AxisMode) -> (res: Option<(u32, u32, u32, u32)>)
        ensures
            res is None <==> self.spec_largest_free_rect_in(
                0,
                self.spec_cols(),
                0,
                self.spec_rows(),
                hmode,
                vmode,
            ) is None,
            res matches Some(q) ==> self.spec_largest_free_rect_in(
                0,
                self.spec_cols(),
                0,
                self.spec_rows(),
                hmode,
                vmode,
            ) == Some((q.0 as int, q.1 as int, q.2 as int, q.3 as int)),
            res matches Some(q) ==> q.0 < q.1 <= self.spec_rows() && q.2 < q.3 <= self.spec_cols(),
    {
        self.largest_free_rect_in(0, self.cols(), 0, self.rows(), hmode, vmode)
    }

    /// the slots and pixel rectangle a *spanning* element anchored at
    /// `anchor` would occupy: every slot whose anchor cell lies in the same
    /// contiguous free area as `anchor` (in reading order), with the largest
    /// all-free rectangle anchored at `anchor` over the whole grid; `None`
    /// when the anchor's own cell is covered or no such rectangle exists
    pub fn spanned_region(&self, anchor: PlacementSlot) -> (r: Option<(Vec<PlacementSlot>, PixelRect)>)
        ensures
            r is Some <==> self.anchor_is_free(anchor) && self.spec_largest_free_rect_in(
                0,
                self.spec_cols(),
                0,
                self.spec_rows(),
                anchor.spec_horizontal(),
                anchor.spec_vertical(),
            ) is Some,
            r is Some ==> r.unwrap().0@ == spec_all_slots().filter(
                |s: PlacementSlot| self.anchors_linked(anchor, s),
            ),
            r is Some ==> rect_tuple(r.unwrap().1) == self.spec_cell_rect_to_pixels(
                self.spec_largest_free_rect_in(
                    0,
                    self.spec_cols(),
                    0,
                    self.spec_rows(),
                    anchor.spec_horizontal(),
                    anchor.spec_vertical(),
                ).unwrap(),
            ),
    {
        let components = self.free_components();
        let mine = match self.anchor_component(anchor, &components) {
            Some(id) => id,
            None => {
                proof {
                    if self.spec_rows() > 0 && self.spec_cols() > 0 {
                        self.lemma_anchor_label(anchor, components@);
                    }
                }
                return None;
            },
        };
        proof {
            self.lemma_anchor_label(anchor, components@);
        }
        let all = PlacementSlot::all();
        let mut slots: Vec<PlacementSlot> = Vec::new();
        let mut i: usize = 0;
        while i < all.len()
            invariant
                self.is_component_labelling(components@),
                all@ == spec_all_slots(),
                self.spec_rows() > 0 && self.spec_cols() > 0,
                0 <= self.spec_anchor_index(anchor) < components@.len(),
                components@[self.spec_anchor_index(anchor)] == Some(mine),
                i <= all.len(),
                slots@ == all@.take(i as int).filter(|s: PlacementSlot| self.anchors_linked(anchor, s)),
            decreases all.len() - i,
        {
            let s = all[i];
            let theirs = self.anchor_component(s, &components);
            let linked = match theirs {
                Some(b) => b == mine,
                None => false,
            };
            proof {
                reveal_with_fuel(Seq::filter, 1);
                assert(all@.take(i as int + 1).drop_last() =~= all@.take(i as int));
                let ia = self.spec_anchor_index(anchor);
                let ib = self.spec_anchor_index(s);
                if self.connected(ia, ib) {
                    self.lemma_connected_free(ia, ib);
                    assert(components@[ib] is Some <==> self.free_at(ib));
                }
                assert(components@[ia] is Some <==> self.free_at(ia));
                if components@[ib] is Some {
                    assert(components@[ia] == components@[ib] <==> self.connected(ia, ib));
                }
                assert(linked == self.anchors_linked(anchor, s));
            }
            if linked {
                slots.push(s);
            }
            i = i + 1;
        }
        proof {
            assert(all@.take(all@.len() as int) =~= all@);
        }
        match self.largest_free_rect(anchor.horizontal(), anchor.vertical()) {
            Some((r0, r1, c0, c1)) => Some((slots, self.cell_rect_to_pixels(r0, r1, c0, c1))),
            None => None,
        }
    }
    /// the largest free rectangle for a combined placement of the slots
    /// `g`: searched within the thirds spanned by the group's bounding box,
    /// anchored as the group's first slot
    pub open spec fn spec_subset_best(&self, g: Seq<PlacementSlot>) -> Option<(int, int, int, int)> {
        let b = spec_group_bounds(g);
        self.spec_largest_free_rect_in(
            spec_band(self.spec_cols(), b.0).0,
            spec_band(self.spec_cols(), b.1).1,
            spec_band(self.spec_rows(), b.2).0,
            spec_band(self.spec_rows(), b.3).1,
            g[0].spec_horizontal(),
            g[0].spec_vertical(),
        )
    }

    /// the pixel rectangle to fit content into for a placement that
    /// combines the slots of `group` (its first slot being the anchor): the
    /// largest free rectangle within exactly the thirds the group spans,
    /// anchored as the first slot; `None` for an empty group or when that
    /// area has no free space at the anchor
    pub fn subset_rect(&self, group: &[PlacementSlot]) -> (r: Option<PixelRect>)
        ensures
            r is None <==> (group@.len() == 0 || self.spec_subset_best(group@) is None),
            r is Some ==> rect_tuple(r.unwrap()) == self.spec_cell_rect_to_pixels(
                self.spec_subset_best(group@).unwrap(),
            ),
    {
        if group.len() == 0 {
            return None;
        }
        let (hmin, hmax, vmin, vmax) = group_bounds(group);
        let (c_lo, _) = self.col_band(hmin as u32);
        let (_, c_hi) = self.col_band(hmax as u32);
        let (r_lo, _) = self.row_band(vmin as u32);
        let (_, r_hi) = self.row_band(vmax as u32);
        let anchor = group[0];
        match self.largest_free_rect_in(
            c_lo,
            c_hi,
            r_lo,
            r_hi,
            anchor.horizontal(),
            anchor.vertical(),
        ) {
            Some((r0, r1, c0, c1)) => Some(self.cell_rect_to_pixels(r0, r1, c0, c1)),
            None => None,
        }
    }
    /// a cell rectangle whose columns end before another's begin maps to a
    /// pixel rectangle that ends (horizontally) where the other's begins or
    /// earlier; likewise for rows
    proof fn lemma_pixels_ordered(&self, qa: (int, int, int, int), qb: (int, int, int, int))
        requires
            0 <= qa.0 < qa.1,
            0 <= qa.2 < qa.3,
            0 <= qb.0 < qb.1,
            0 <= qb.2 < qb.3,
        ensures
            qa.3 <= qb.2 ==> self.spec_cell_rect_to_pixels(qa).0 + self.spec_cell_rect_to_pixels(
                qa,
            ).2 <= self.spec_cell_rect_to_pixels(qb).0,
            qa.1 <= qb.0 ==> self.spec_cell_rect_to_pixels(qa).1 + self.spec_cell_rect_to_pixels(
                qa,
            ).3 <= self.spec_cell_rect_to_pixels(qb).1,
    {
        self.lemma_dims_bounded();
        let cell = self.spec_cell_size();
        lemma_scale_le(cell, qa.2, qa.3);
        lemma_scale_le(cell, qa.0, qa.1);
        if qa.3 <= qb.2 {
            lemma_scale_le(cell, qa.3, qb.2);
        }
        if qa.1 <= qb.0 {
            lemma_scale_le(cell, qa.1, qb.0);
        }
    }

    /// the free rectangles that [`OccupancyGrid::evaluate_slots`] reports
    /// for two different slots never overlap: each lies within its own
    /// slot's third of the map
    pub proof fn lemma_slot_rects_disjoint(
        &self,
        a: PlacementSlot,
        b: PlacementSlot,
        ia: PlacementSlotInfo,
        ib: PlacementSlotInfo,
    )
        requires
            a != b,
            self.slot_info_matches(a, ia),
            self.slot_info_matches(b, ib),
            ia.free_rect is Some,
            ib.free_rect is Some,
        ensures
            !rects_overlap(ia.free_rect.unwrap(), ib.free_rect.unwrap()),
    {
        self.lemma_dims_bounded();
        lemma_bands_tile(self.spec_cols());
        lemma_bands_tile(self.spec_rows());
        let cba = spec_band(self.spec_cols(), spec_cell(a).0);
        let rba = spec_band(self.spec_rows(), spec_cell(a).1);
        let cbb = spec_band(self.spec_cols(), spec_cell(b).0);
        let rbb = spec_band(self.spec_rows(), spec_cell(b).1);
        self.lemma_largest_within(cba.0, cba.1, rba.0, rba.1, a.spec_horizontal(), a.spec_vertical());
        self.lemma_largest_within(cbb.0, cbb.1, rbb.0, rbb.1, b.spec_horizontal(), b.spec_vertical());
        let qa = self.spec_largest_free_rect_in(
            cba.0,
            cba.1,
            rba.0,
            rba.1,
            a.spec_horizontal(),
            a.spec_vertical(),
        ).unwrap();
        let qb = self.spec_largest_free_rect_in(
            cbb.0,
            cbb.1,
            rbb.0,
            rbb.1,
            b.spec_horizontal(),
            b.spec_vertical(),
        ).unwrap();
        self.lemma_pixels_ordered(qa, qb);
        self.lemma_pixels_ordered(qb, qa);
        assert(spec_cell(a) != spec_cell(b));
    }

    /// the free rectangle of slot `s` when every cell is free is its whole
    /// third: its area is the product of the third's pixel extents
    proof fn lemma_free_grid_slot_area(&self, s: PlacementSlot, info: PlacementSlotInfo)
        requires
            self.spec_occupied().len() == self.spec_rows() * self.spec_cols(),
            forall|i: int| 0 <= i < self.spec_occupied().len() ==> self.free_at(i),
            self.slot_info_matches(s, info),
        ensures
            free_area(info) == px_extent(
                self.spec_cell_size(),
                self.spec_img_width(),
                spec_band(self.spec_cols(), spec_cell(s).0),
            ) * px_extent(
                self.spec_cell_size(),
                self.spec_img_height(),
                spec_band(self.spec_rows(), spec_cell(s).1),
            ),
    {
        self.lemma_dims_bounded();
        lemma_bands_tile(self.spec_cols());
        lemma_bands_tile(self.spec_rows());
        let cb = spec_band(self.spec_cols(), spec_cell(s).0);
        let rb = spec_band(self.spec_rows(), spec_cell(s).1);
        let cell = self.spec_cell_size();
        let wx = px_extent(cell, self.spec_img_width(), cb);
        let hy = px_extent(cell, self.spec_img_height(), rb);
        if cb.0 < cb.1 && rb.0 < rb.1 {
            self.lemma_full_band(cb.0, cb.1, rb.0, rb.1, s.spec_horizontal(), s.spec_vertical());
            assert(info.free_rect.unwrap().width == wx);
            assert(info.free_rect.unwrap().height == hy);
        } else {
            assert forall|p: (int, int, int, int)|
                !#[trigger] self.is_largest_anchored(
                    cb.0,
                    cb.1,
                    rb.0,
                    rb.1,
                    s.spec_horizontal(),
                    s.spec_vertical(),
                    p,
                ) by {}
            if cb.0 >= cb.1 {
                lemma_scale_le(cell, cb.1, cb.0);
                assert(wx == 0);
            } else {
                lemma_scale_le(cell, rb.1, rb.0);
                assert(hy == 0);
            }
            assert(wx * hy == 0) by (nonlinear_arith)
                requires
                    wx == 0 || hy == 0,
            ;
        }
    }

    /// when every cell is free, the areas of the free rectangles that
    /// [`OccupancyGrid::evaluate_slots`] reports for the nine slots add up
    /// to the area of the part of the image that the cells cover (the
    /// whole image for a grid built from an image, whose cells cover it)
    pub proof fn lemma_free_grid_slot_areas(&self, infos: Seq<PlacementSlotInfo>)
        requires
            self.spec_occupied().len() == self.spec_rows() * self.spec_cols(),
            forall|i: int| 0 <= i < self.spec_occupied().len() ==> self.free_at(i),
            infos.len() == 9,
            forall|i: int|
                0 <= i < 9 ==> self.slot_info_matches(spec_all_slots()[i], #[trigger] infos[i]),
        ensures
            free_area(infos[0]) + free_area(infos[1]) + free_area(infos[2]) + free_area(infos[3])
                + free_area(infos[4]) + free_area(infos[5]) + free_area(infos[6]) + free_area(
                infos[7],
            ) + free_area(infos[8]) == (if self.spec_cols() * self.spec_cell_size()
                < self.spec_img_width() {
                self.spec_cols() * self.spec_cell_size()
            } else {
                self.spec_img_width()
            }) * (if self.spec_rows() * self.spec_cell_size() < self.spec_img_height() {
                self.spec_rows() * self.spec_cell_size()
            } else {
                self.spec_img_height()
            }),
    {
        self.lemma_dims_bounded();
        let cell = self.spec_cell_size();
        let w = self.spec_img_width();
        let h = self.spec_img_height();
        let cols = self.spec_cols();
        let rows = self.spec_rows();
        let w0 = px_extent(cell, w, spec_band(cols, 0));
        let w1 = px_extent(cell, w, spec_band(cols, 1));
        let w2 = px_extent(cell, w, spec_band(cols, 2));
        let h0 = px_extent(cell, h, spec_band(rows, 0));
        let h1 = px_extent(cell, h, spec_band(rows, 1));
        let h2 = px_extent(cell, h, spec_band(rows, 2));
        lemma_slot_at_cell(0);
        self.lemma_free_grid_slot_area(spec_all_slots()[0], infos[0]);
        lemma_slot_at_cell(1);
        self.lemma_free_grid_slot_area(spec_all_slots()[1], infos[1]);
        lemma_slot_at_cell(2);
        self.lemma_free_grid_slot_area(spec_all_slots()[2], infos[2]);
        lemma_slot_at_cell(3);
        self.lemma_free_grid_slot_area(spec_all_slots()[3], infos[3]);
        lemma_slot_at_cell(4);
        self.lemma_free_grid_slot_area(spec_all_slots()[4], infos[4]);
        lemma_slot_at_cell(5);
        self.lemma_free_grid_slot_area(spec_all_slots()[5], infos[5]);
        lemma_slot_at_cell(6);
        self.lemma_free_grid_slot_area(spec_all_slots()[6], infos[6]);
        lemma_slot_at_cell(7);
        self.lemma_free_grid_slot_area(spec_all_slots()[7], infos[7]);
        lemma_slot_at_cell(8);
        self.lemma_free_grid_slot_area(spec_all_slots()[8], infos[8]);
        assert(free_area(infos[0]) == w0 * h0);
        assert(free_area(infos[1]) == w1 * h0);
        assert(free_area(infos[2]) == w2 * h0);
        assert(free_area(infos[3]) == w0 * h1);
        assert(free_area(infos[4]) == w1 * h1);
        assert(free_area(infos[5]) == w2 * h1);
        assert(free_area(infos[6]) == w0 * h2);
        assert(free_area(infos[7]) == w1 * h2);
        assert(free_area(infos[8]) == w2 * h2);
        lemma_extents_sum(cell, w, cols);
        lemma_extents_sum(cell, h, rows);
        assert(w0 * h0 + w1 * h0 + w2 * h0 + w0 * h1 + w1 * h1 + w2 * h1 + w0 * h2 + w1 * h2 + w2
            * h2 == (w0 + w1 + w2) * (h0 + h1 + h2)) by (nonlinear_arith);
    }

    /// when every cell is free, the free rectangles that
    /// [`OccupancyGrid::evaluate_slots`] reports for the nine slots tile the
    /// part of the image that the cells cover: each of its pixels lies in the
    /// rectangle of exactly one slot
    pub proof fn lemma_free_grid_slots_tile(&self, infos: Seq<PlacementSlotInfo>, x: int, y: int)
        requires
            self.spec_occupied().len() == self.spec_rows() * self.spec_cols(),
            forall|i: int| 0 <= i < self.spec_occupied().len() ==> self.free_at(i),
            infos.len() == 9,
            forall|i: int|
                0 <= i < 9 ==> self.slot_info_matches(spec_all_slots()[i], #[trigger] infos[i]),
            0 <= x < self.spec_img_width(),
            x < self.spec_cols() * self.spec_cell_size(),
            0 <= y < self.spec_img_height(),
            y < self.spec_rows() * self.spec_cell_size(),
        ensures
            exists|i: int|
                0 <= i < 9 && #[trigger] infos[i].free_rect is Some && pixel_in(
                    infos[i].free_rect.unwrap(),
                    x,
                    y,
                ),
            forall|i: int, j: int|
                0 <= i < 9 && 0 <= j < 9 && #[trigger] infos[i].free_rect is Some
                    && #[trigger] infos[j].free_rect is Some && pixel_in(
                    infos[i].free_rect.unwrap(),
                    x,
                    y,
                ) && pixel_in(infos[j].free_rect.unwrap(), x, y) ==> i == j,
    {
        self.lemma_dims_bounded();
        let cell = self.spec_cell_size();
        let cols = self.spec_cols();
        let rows = self.spec_rows();
        lemma_pixel_cell(x, cell, cols);
        lemma_pixel_cell(y, cell, rows);
        let c = x / cell;
        let r = y / cell;
        let bc = lemma_band_of(cols, c);
        let br = lemma_band_of(rows, r);
        let i = br * 3 + bc;
        lemma_slot_at_cell(i);
        let s = spec_all_slots()[i];
        assert(spec_cell(s) == (bc, br));
        let cb = spec_band(cols, bc);
        let rb = spec_band(rows, br);
        assert(self.slot_info_matches(s, infos[i]));
        self.lemma_full_band(cb.0, cb.1, rb.0, rb.1, s.spec_horizontal(), s.spec_vertical());
        let p = infos[i].free_rect.unwrap();
        lemma_scale_le(cell, cb.0, c);
        lemma_scale_le(cell, c + 1, cb.1);
        lemma_scale_le(cell, rb.0, r);
        lemma_scale_le(cell, r + 1, rb.1);
        assert(pixel_in(p, x, y));
        assert forall|i1: int, j1: int|
            0 <= i1 < 9 && 0 <= j1 < 9 && #[trigger] infos[i1].free_rect is Some
                && #[trigger] infos[j1].free_rect is Some && pixel_in(infos[i1].free_rect.unwrap(), x, y)
                && pixel_in(infos[j1].free_rect.unwrap(), x, y) implies i1 == j1 by {
            if i1 != j1 {
                lemma_slot_at_cell(i1);
                lemma_slot_at_cell(j1);
                let a = spec_all_slots()[i1];
                let b = spec_all_slots()[j1];
                assert(spec_cell(a) != spec_cell(b));
                self.lemma_slot_rects_disjoint(a, b, infos[i1], infos[j1]);
            }
        }
    }

    /// two anchors share a contiguous free area in either order
    pub proof fn lemma_linked_symmetric(&self, a: PlacementSlot, b: PlacementSlot)
        ensures
            self.anchors_linked(a, b) <==> self.anchors_linked(b, a),
    {
        if self.anchors_linked(a, b) {
            self.lemma_connected_symm(self.spec_anchor_index(a), self.spec_anchor_index(b));
        }
        if self.anchors_linked(b, a) {
            self.lemma_connected_symm(self.spec_anchor_index(b), self.spec_anchor_index(a));
        }
    }

    /// the linked neighbours of `a` are orthogonal neighbours of `a`, and
    /// `b` is a linked neighbour of `a` exactly when `a` is one of `b`
    pub proof fn lemma_linked_neighbours(&self, a: PlacementSlot, b: PlacementSlot)
        ensures
            self.spec_linked_neighbours(a).contains(b) ==> spec_orthogonally_adjacent(a, b),
            self.spec_linked_neighbours(a).contains(b) <==> self.spec_linked_neighbours(b).contains(
                a,
            ),
    {
        let adj_a = spec_all_slots().filter(|o: PlacementSlot| spec_orthogonally_adjacent(a, o));
        let adj_b = spec_all_slots().filter(|o: PlacementSlot| spec_orthogonally_adjacent(b, o));
        let fa = |o: PlacementSlot| self.anchors_linked(a, o);
        let fb = |o: PlacementSlot| self.anchors_linked(b, o);
        crate::coverage::lemma_filter_contains_iff(adj_a, fa, b);
        crate::coverage::lemma_filter_contains_iff(adj_b, fb, a);
        crate::coverage::lemma_filter_contains_iff(
            spec_all_slots(),
            |o: PlacementSlot| spec_orthogonally_adjacent(a, o),
            b,
        );
        crate::coverage::lemma_filter_contains_iff(
            spec_all_slots(),
            |o: PlacementSlot| spec_orthogonally_adjacent(b, o),
            a,
        );
        crate::coverage::lemma_slot_listed(a);
        crate::coverage::lemma_slot_listed(b);
        self.lemma_linked_symmetric(a, b);
    }
}

} // verus!
