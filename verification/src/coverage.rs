//! Placement anchors: the nine fixed positions on a map (corners, edge
//! midpoints and centre) at which position-flexible elements such as a
//! legend, a logo or a text label can be put, and the alignment rules used
//! to position content at them.
//!
//! The occupancy analysis that decides which anchors are free lives in
//! [`crate::occupancy`] and is re-exported here.
use vstd::prelude::*;

use crate::chars::str_eq;

pub use crate::occupancy::{OccupancyGrid, PixelRect, DEFAULT_COVERAGE_GRID};
pub use crate::slots::PlacementSlotInfo;

verus! {

/// how a slot is anchored along one axis of the image
#[derive(Debug, Clone, Copy, PartialEq, Eq, Structural)]
pub enum AxisMode {
    /// against the low edge (left or top): grows toward the high edge
    Start,
    /// centred on the axis: grows symmetrically toward both edges
    Center,
    /// against the high edge (right or bottom): grows toward the low edge
    End,
}

/// horizontal alignment of content within an available span
#[derive(Debug, Clone, Copy, PartialEq, Eq, Structural)]
pub enum HAlign {
    /// against the left edge of the span
    Left,
    /// centred within the span
    Center,
    /// against the right edge of the span
    Right,
}

/// vertical alignment of content within an available span
#[derive(Debug, Clone, Copy, PartialEq, Eq, Structural)]
pub enum VAlign {
    /// against the top edge of the span
    Top,
    /// centred within the span
    Center,
    /// against the bottom edge of the span
    Bottom,
}

/// the room left in a span of `available` pixels by content of `content`
/// pixels (never negative)
pub open spec fn spec_slack(content: int, available: int) -> int {
    if content <= available {
        available - content
    } else {
        0
    }
}

/// offset of content within a span for the given alignment
pub open spec fn spec_h_offset(align: HAlign, content: int, available: int) -> int {
    match align {
        HAlign::Left => 0,
        HAlign::Center => spec_slack(content, available) / 2,
        HAlign::Right => spec_slack(content, available),
    }
}

/// offset of content within a span for the given alignment
pub open spec fn spec_v_offset(align: VAlign, content: int, available: int) -> int {
    match align {
        VAlign::Top => 0,
        VAlign::Center => spec_slack(content, available) / 2,
        VAlign::Bottom => spec_slack(content, available),
    }
}

/// the alignments place content as their names say: at the start (left,
/// top), at the end (right, bottom: the content ends where the span ends),
/// or centred, leaving equal room on both sides (the odd pixel after the
/// content); content wider than the span starts at the span's start
pub proof fn lemma_alignment_offsets(content: int, available: int)
    requires
        0 <= content,
        0 <= available,
    ensures
        spec_h_offset(HAlign::Left, content, available) == 0,
        spec_v_offset(VAlign::Top, content, available) == 0,
        content <= available ==> spec_h_offset(HAlign::Right, content, available) + content
            == available,
        content <= available ==> spec_v_offset(VAlign::Bottom, content, available) + content
            == available,
        content <= available ==> {
            let o = spec_h_offset(HAlign::Center, content, available);
            0 <= o && 2 * o <= available - content <= 2 * o + 1
        },
        content <= available ==> {
            let o = spec_v_offset(VAlign::Center, content, available);
            0 <= o && 2 * o <= available - content <= 2 * o + 1
        },
        content > available ==> spec_h_offset(HAlign::Center, content, available) == 0
            && spec_h_offset(HAlign::Right, content, available) == 0 && spec_v_offset(
            VAlign::Center,
            content,
            available,
        ) == 0 && spec_v_offset(VAlign::Bottom, content, available) == 0,
{
}

impl HAlign {
    /// pixel offset of `content`-wide content within an `available`-wide span
    /// for this alignment, clamped so the content never starts past the span
    /// end
    pub fn offset(self, content: u32, available: u32) -> (r: u32)
        ensures
            r == spec_h_offset(self, content as int, available as int),
            r <= available,
            content <= available ==> r + content <= available,
    {
        let slack = available.saturating_sub(content);
        match self {
            HAlign::Left => 0,
            HAlign::Center => slack / 2,
            HAlign::Right => slack,
        }
    }
}

impl VAlign {
    /// pixel offset of `content`-tall content within an `available`-tall span
    /// for this alignment, clamped so the content never starts past the span
    /// end
    pub fn offset(self, content: u32, available: u32) -> (r: u32)
        ensures
            r == spec_v_offset(self, content as int, available as int),
            r <= available,
            content <= available ==> r + content <= available,
    {
        let slack = available.saturating_sub(content);
        match self {
            VAlign::Top => 0,
            VAlign::Center => slack / 2,
            VAlign::Bottom => slack,
        }
    }
}

/// pixel origin of `content`-sized content on a `total`-sized axis for the
/// given anchoring mode
pub open spec fn spec_axis_origin(mode: AxisMode, content: int, total: int, margin: int) -> int {
    let slack = spec_slack(content, total);
    match mode {
        AxisMode::Start => if margin < slack {
            margin
        } else {
            slack
        },
        AxisMode::Center => slack / 2,
        AxisMode::End => if margin <= slack {
            slack - margin
        } else {
            0
        },
    }
}

/// pixel origin of `content`-sized content within a `total`-sized image axis
/// for the given anchoring mode: `Start` hugs the low edge by `margin`, `End`
/// hugs the high edge by `margin`, `Center` centres; all clamped to stay
/// inside
pub fn axis_origin(mode: AxisMode, content: u32, total: u32, margin: u32) -> (r: u32)
    ensures
        r == spec_axis_origin(mode, content as int, total as int, margin as int),
        content <= total ==> r + content <= total,
{
    let slack = total.saturating_sub(content);
    match mode {
        AxisMode::Start => {
            if margin < slack {
                margin
            } else {
                slack
            }
        },
        AxisMode::Center => slack / 2,
        AxisMode::End => slack.saturating_sub(margin),
    }
}

/// one of the nine fixed candidate anchor positions on a map, laid out as a
/// conceptual 3x3 grid (the four corners, the four side midpoints and the
/// centre)
#[derive(Debug, Clone, Copy, PartialEq, Eq, Hash, Structural)]
pub enum PlacementSlot {
    /// top-left corner
    TopLeft,
    /// middle of the top edge
    TopCenter,
    /// top-right corner
    TopRight,
    /// middle of the left edge
    MiddleLeft,
    /// centre of the map
    Center,
    /// middle of the right edge
    MiddleRight,
    /// bottom-left corner
    BottomLeft,
    /// middle of the bottom edge
    BottomCenter,
    /// bottom-right corner
    BottomRight,
}

/// the nine anchors in reading order (top row left to right, then the middle
/// row, then the bottom row)
pub open spec fn spec_all_slots() -> Seq<PlacementSlot> {
    seq![
        PlacementSlot::TopLeft,
        PlacementSlot::TopCenter,
        PlacementSlot::TopRight,
        PlacementSlot::MiddleLeft,
        PlacementSlot::Center,
        PlacementSlot::MiddleRight,
        PlacementSlot::BottomLeft,
        PlacementSlot::BottomCenter,
        PlacementSlot::BottomRight,
    ]
}

/// position of a slot in the 3x3 layout as `(horizontal, vertical)` index
pub open spec fn spec_cell(s: PlacementSlot) -> (int, int) {
    match s {
        PlacementSlot::TopLeft => (0, 0),
        PlacementSlot::TopCenter => (1, 0),
        PlacementSlot::TopRight => (2, 0),
        PlacementSlot::MiddleLeft => (0, 1),
        PlacementSlot::Center => (1, 1),
        PlacementSlot::MiddleRight => (2, 1),
        PlacementSlot::BottomLeft => (0, 2),
        PlacementSlot::BottomCenter => (1, 2),
        PlacementSlot::BottomRight => (2, 2),
    }
}

/// the anchoring mode that a 3x3 index (`0`, `1` or `2`) stands for
pub open spec fn spec_mode_of_index(i: int) -> AxisMode {
    if i == 0 {
        AxisMode::Start
    } else if i == 1 {
        AxisMode::Center
    } else {
        AxisMode::End
    }
}

/// the stable snake_case name of a slot
pub open spec fn spec_slot_name(s: PlacementSlot) -> Seq<char> {
    match s {
        PlacementSlot::TopLeft => "top_left"@,
        PlacementSlot::TopCenter => "top_center"@,
        PlacementSlot::TopRight => "top_right"@,
        PlacementSlot::MiddleLeft => "middle_left"@,
        PlacementSlot::Center => "center"@,
        PlacementSlot::MiddleRight => "middle_right"@,
        PlacementSlot::BottomLeft => "bottom_left"@,
        PlacementSlot::BottomCenter => "bottom_center"@,
        PlacementSlot::BottomRight => "bottom_right"@,
    }
}

/// whether two slots are up/down/left/right neighbours in the 3x3 layout
pub open spec fn spec_orthogonally_adjacent(a: PlacementSlot, b: PlacementSlot) -> bool {
    let (ah, av) = spec_cell(a);
    let (bh, bv) = spec_cell(b);
    (ah == bh && (av - bv == 1 || bv - av == 1)) || (av == bv && (ah - bh == 1 || bh - ah == 1))
}

impl PlacementSlot {
    /// all nine anchors, in reading order (top row left-to-right, then middle,
    /// then bottom)
    pub fn all() -> (r: Vec<PlacementSlot>)
        ensures
            r@ == spec_all_slots(),
    {
        let r = vec![
            PlacementSlot::TopLeft,
            PlacementSlot::TopCenter,
            PlacementSlot::TopRight,
            PlacementSlot::MiddleLeft,
            PlacementSlot::Center,
            PlacementSlot::MiddleRight,
            PlacementSlot::BottomLeft,
            PlacementSlot::BottomCenter,
            PlacementSlot::BottomRight,
        ];
        assert(r@ =~= spec_all_slots());
        r
    }

    /// the stable snake_case name for this slot (`top_left` … `bottom_right`),
    /// the inverse of [`PlacementSlot::from_name`]
    pub fn as_str(self) -> (r: &'static str)
        ensures
            r@ == spec_slot_name(self),
    {
        match self {
            PlacementSlot::TopLeft => "top_left",
            PlacementSlot::TopCenter => "top_center",
            PlacementSlot::TopRight => "top_right",
            PlacementSlot::MiddleLeft => "middle_left",
            PlacementSlot::Center => "center",
            PlacementSlot::MiddleRight => "middle_right",
            PlacementSlot::BottomLeft => "bottom_left",
            PlacementSlot::BottomCenter => "bottom_center",
            PlacementSlot::BottomRight => "bottom_right",
        }
    }

    /// the position of this anchor in the conceptual 3x3 layout as
    /// `(horizontal_index, vertical_index)`, each in `0..3` with `0` against
    /// the low edge
    pub fn cell_3x3(self) -> (r: (u8, u8))
        ensures
            r.0 as int == spec_cell(self).0,
            r.1 as int == spec_cell(self).1,
            r.0 < 3,
            r.1 < 3,
    {
        match self {
            PlacementSlot::TopLeft => (0, 0),
            PlacementSlot::TopCenter => (1, 0),
            PlacementSlot::TopRight => (2, 0),
            PlacementSlot::MiddleLeft => (0, 1),
            PlacementSlot::Center => (1, 1),
            PlacementSlot::MiddleRight => (2, 1),
            PlacementSlot::BottomLeft => (0, 2),
            PlacementSlot::BottomCenter => (1, 2),
            PlacementSlot::BottomRight => (2, 2),
        }
    }

    /// how this anchor is positioned along the horizontal axis
    pub open spec fn spec_horizontal(self) -> AxisMode {
        spec_mode_of_index(spec_cell(self).0)
    }

    /// how this anchor is positioned along the vertical axis
    pub open spec fn spec_vertical(self) -> AxisMode {
        spec_mode_of_index(spec_cell(self).1)
    }

    /// how this anchor is positioned along the horizontal axis
    pub fn horizontal(self) -> (r: AxisMode)
        ensures
            r == self.spec_horizontal(),
    {
        match self.cell_3x3().0 {
            0 => AxisMode::Start,
            1 => AxisMode::Center,
            _ => AxisMode::End,
        }
    }

    /// how this anchor is positioned along the vertical axis
    pub fn vertical(self) -> (r: AxisMode)
        ensures
            r == self.spec_vertical(),
    {
        match self.cell_3x3().1 {
            0 => AxisMode::Start,
            1 => AxisMode::Center,
            _ => AxisMode::End,
        }
    }

    /// the outward alignment of content at this anchor
    pub open spec fn spec_default_alignment(self) -> (HAlign, VAlign) {
        (
            if spec_cell(self).0 == 0 {
                HAlign::Left
            } else if spec_cell(self).0 == 1 {
                HAlign::Center
            } else {
                HAlign::Right
            },
            if spec_cell(self).1 == 0 {
                VAlign::Top
            } else if spec_cell(self).1 == 1 {
                VAlign::Center
            } else {
                VAlign::Bottom
            },
        )
    }

    /// the natural alignment for content placed at this anchor: the slot's
    /// own 3x3 position, biased to the outside of the image (e.g. `TopLeft` →
    /// left/top, `Center` → center/center, `BottomRight` → right/bottom)
    pub fn default_alignment(self) -> (r: (HAlign, VAlign))
        ensures
            r == self.spec_default_alignment(),
    {
        let (h, v) = self.cell_3x3();
        let ha = match h {
            0 => HAlign::Left,
            1 => HAlign::Center,
            _ => HAlign::Right,
        };
        let va = match v {
            0 => VAlign::Top,
            1 => VAlign::Center,
            _ => VAlign::Bottom,
        };
        (ha, va)
    }

    /// pixel origin (top-left) at which to place a `content_w` × `content_h`
    /// box anchored at this slot within an `img_w` × `img_h` image: corners
    /// hug their edges leaving `margin` px, edge midpoints and the centre
    /// centre the box on the relevant axis, all clamped to keep the box inside
    /// the image
    pub fn anchored_origin(self, content_w: u32, content_h: u32, img_w: u32, img_h: u32, margin: u32)
        -> (r: (u32, u32))
        ensures
            r.0 == spec_axis_origin(self.spec_horizontal(), content_w as int, img_w as int, margin as int),
            r.1 == spec_axis_origin(self.spec_vertical(), content_h as int, img_h as int, margin as int),
            content_w <= img_w ==> r.0 + content_w <= img_w,
            content_h <= img_h ==> r.1 + content_h <= img_h,
    {
        let x = axis_origin(self.horizontal(), content_w, img_w, margin);
        let y = axis_origin(self.vertical(), content_h, img_h, margin);
        (x, y)
    }

    /// the anchors orthogonally adjacent to this one in the 3x3 layout (the
    /// up/down/left/right neighbours, never the diagonals), in reading order
    pub fn neighbours(self) -> (r: Vec<PlacementSlot>)
        ensures
            r@ == spec_all_slots().filter(|o: PlacementSlot| spec_orthogonally_adjacent(self, o)),
    {
        let (h, v) = self.cell_3x3();
        let all = PlacementSlot::all();
        let mut r: Vec<PlacementSlot> = Vec::new();
        let mut i: usize = 0;
        while i < all.len()
            invariant
                all@ == spec_all_slots(),
                i <= all.len(),
                h as int == spec_cell(self).0,
                v as int == spec_cell(self).1,
                r@ == all@.take(i as int).filter(|o: PlacementSlot| spec_orthogonally_adjacent(self, o)),
            decreases all.len() - i,
        {
            let other = all[i];
            let (oh, ov) = other.cell_3x3();
            let dh: u8 = if h >= oh { h - oh } else { oh - h };
            let dv: u8 = if v >= ov { v - ov } else { ov - v };
            proof {
                reveal_with_fuel(Seq::filter, 1);
                assert(all@.take(i as int + 1).drop_last() =~= all@.take(i as int));
            }
            if dh as u16 + dv as u16 == 1 {
                r.push(other);
            }
            i = i + 1;
        }
        proof {
            assert(all@.take(all@.len() as int) =~= all@);
        }
        r
    }
}

/// `(h_min, h_max, v_min, v_max)`: the bounding box of the 3x3 positions of
/// a group of slots; `(3, -1, 3, -1)` for no slots
pub open spec fn spec_group_bounds(g: Seq<PlacementSlot>) -> (int, int, int, int)
    decreases g.len(),
{
    if g.len() == 0 {
        (3, -1, 3, -1)
    } else {
        let b = spec_group_bounds(g.drop_last());
        let c = spec_cell(g.last());
        (
            if c.0 < b.0 {
                c.0
            } else {
                b.0
            },
            if c.0 > b.1 {
                c.0
            } else {
                b.1
            },
            if c.1 < b.2 {
                c.1
            } else {
                b.2
            },
            if c.1 > b.3 {
                c.1
            } else {
                b.3
            },
        )
    }
}

/// the 3x3 position `c` lies in the bounding box `b`
pub open spec fn spec_in_bounds(c: (int, int), b: (int, int, int, int)) -> bool {
    b.0 <= c.0 <= b.1 && b.2 <= c.1 <= b.3
}

/// a non-empty group whose slots fill their whole bounding box
pub open spec fn spec_forms_rectangle(g: Seq<PlacementSlot>) -> bool {
    &&& g.len() > 0
    &&& forall|s: PlacementSlot| #[trigger] spec_in_bounds(spec_cell(s), spec_group_bounds(g)) ==> g.contains(s)
}

/// an element is kept by a filter exactly when it occurs and satisfies the
/// predicate
pub proof fn lemma_filter_contains_iff<A>(s: Seq<A>, p: spec_fn(A) -> bool, x: A)
    ensures
        s.filter(p).contains(x) <==> (s.contains(x) && p(x)),
{
    if s.filter(p).contains(x) {
        let i = choose|i: int| 0 <= i < s.filter(p).len() && s.filter(p)[i] == x;
        s.lemma_filter_pred(p, i);
        s.lemma_filter_contains_rev(p, x);
    }
    if s.contains(x) && p(x) {
        let i = choose|i: int| 0 <= i < s.len() && s[i] == x;
        s.lemma_filter_contains(p, i);
    }
}

/// every slot is one of the nine listed by [`spec_all_slots`]
pub proof fn lemma_slot_listed(s: PlacementSlot)
    ensures
        exists|k: int| 0 <= k < 9 && spec_all_slots()[k] == s,
{
    match s {
        PlacementSlot::TopLeft => assert(spec_all_slots()[0] == s),
        PlacementSlot::TopCenter => assert(spec_all_slots()[1] == s),
        PlacementSlot::TopRight => assert(spec_all_slots()[2] == s),
        PlacementSlot::MiddleLeft => assert(spec_all_slots()[3] == s),
        PlacementSlot::Center => assert(spec_all_slots()[4] == s),
        PlacementSlot::MiddleRight => assert(spec_all_slots()[5] == s),
        PlacementSlot::BottomLeft => assert(spec_all_slots()[6] == s),
        PlacementSlot::BottomCenter => assert(spec_all_slots()[7] == s),
        PlacementSlot::BottomRight => assert(spec_all_slots()[8] == s),
    }
}

/// the length of a slot's name
pub open spec fn spec_name_len(s: PlacementSlot) -> int {
    match s {
        PlacementSlot::TopLeft => 8,
        PlacementSlot::TopCenter => 10,
        PlacementSlot::TopRight => 9,
        PlacementSlot::MiddleLeft => 11,
        PlacementSlot::Center => 6,
        PlacementSlot::MiddleRight => 12,
        PlacementSlot::BottomLeft => 11,
        PlacementSlot::BottomCenter => 13,
        PlacementSlot::BottomRight => 12,
    }
}

/// the first character of a slot's name
pub open spec fn spec_name_initial(s: PlacementSlot) -> char {
    match s {
        PlacementSlot::TopLeft | PlacementSlot::TopCenter | PlacementSlot::TopRight => 't',
        PlacementSlot::MiddleLeft | PlacementSlot::MiddleRight => 'm',
        PlacementSlot::Center => 'c',
        PlacementSlot::BottomLeft | PlacementSlot::BottomCenter | PlacementSlot::BottomRight => 'b',
    }
}

/// the length and first character of each slot name
proof fn lemma_name_shape(s: PlacementSlot)
    ensures
        spec_slot_name(s).len() == spec_name_len(s),
        spec_slot_name(s)[0] == spec_name_initial(s),
{
    match s {
        PlacementSlot::TopLeft => reveal_strlit("top_left"),
        PlacementSlot::TopCenter => reveal_strlit("top_center"),
        PlacementSlot::TopRight => reveal_strlit("top_right"),
        PlacementSlot::MiddleLeft => reveal_strlit("middle_left"),
        PlacementSlot::Center => reveal_strlit("center"),
        PlacementSlot::MiddleRight => reveal_strlit("middle_right"),
        PlacementSlot::BottomLeft => reveal_strlit("bottom_left"),
        PlacementSlot::BottomCenter => reveal_strlit("bottom_center"),
        PlacementSlot::BottomRight => reveal_strlit("bottom_right"),
    }
}

/// the nine slot names are pairwise different
pub proof fn lemma_slot_names_distinct(a: PlacementSlot, b: PlacementSlot)
    requires
        spec_slot_name(a) == spec_slot_name(b),
    ensures
        a == b,
{
    lemma_name_shape(a);
    lemma_name_shape(b);
}

/// the slot named `name`, if any
pub open spec fn spec_slot_from_name(name: Seq<char>) -> Option<PlacementSlot> {
    if exists|s: PlacementSlot| spec_slot_name(s) == name {
        Some(choose|s: PlacementSlot| spec_slot_name(s) == name)
    } else {
        None
    }
}

/// reading a slot's name back gives the slot: the name of each slot is
/// parsed to that slot
pub proof fn lemma_name_round_trip(s: PlacementSlot)
    ensures
        spec_slot_from_name(spec_slot_name(s)) == Some(s),
{
    let t = choose|t: PlacementSlot| spec_slot_name(t) == spec_slot_name(s);
    lemma_slot_names_distinct(s, t);
}

/// orthogonal adjacency in the 3x3 layout is symmetric and never relates a
/// slot to itself
pub proof fn lemma_adjacency_symmetric(a: PlacementSlot, b: PlacementSlot)
    ensures
        spec_orthogonally_adjacent(a, b) <==> spec_orthogonally_adjacent(b, a),
        !spec_orthogonally_adjacent(a, a),
{
}

/// Error returned by [`PlacementSlot`]'s `FromStr` impl when the string is
/// not one of the nine snake_case slot names; it holds the rejected text
#[derive(Debug, Clone)]
pub struct ParsePlacementSlotError(pub String);

impl ParsePlacementSlotError {
    /// the text that is not a slot name
    pub fn input(&self) -> (r: &str)
        ensures
            r@ == self.0@,
    {
        self.0.as_str()
    }
}

impl PlacementSlot {
    /// the slot whose snake_case name is `name`, or `None` when `name` is
    /// not one of the nine slot names
    pub fn from_name(name: &str) -> (r: Option<PlacementSlot>)
        ensures
            r == spec_slot_from_name(name@),
    {
        let all = PlacementSlot::all();
        let mut i: usize = 0;
        while i < all.len()
            invariant
                all@ == spec_all_slots(),
                i <= all.len(),
                forall|k: int| 0 <= k < i ==> spec_slot_name(#[trigger] all@[k]) != name@,
            decreases all.len() - i,
        {
            let s = all[i];
            if str_eq(s.as_str(), name) {
                proof {
                    let t = choose|t: PlacementSlot| spec_slot_name(t) == name@;
                    lemma_slot_names_distinct(s, t);
                }
                return Some(s);
            }
            i = i + 1;
        }
        proof {
            assert forall|s: PlacementSlot| spec_slot_name(s) != name@ by {
                lemma_slot_listed(s);
                let k = choose|k: int| 0 <= k < 9 && spec_all_slots()[k] == s;
                assert(spec_slot_name(all@[k]) != name@);
            }
        }
        None
    }

    /// whether the slots of `group` fill exactly their bounding box in the
    /// 3x3 layout (a solid axis-aligned rectangle); `false` for no slots
    pub fn slots_form_rectangle(group: &[PlacementSlot]) -> (r: bool)
        ensures
            r == spec_forms_rectangle(group@),
    {
        if group.len() == 0 {
            return false;
        }
        let (hmin, hmax, vmin, vmax) = group_bounds(group);
        let all = PlacementSlot::all();
        let mut i: usize = 0;
        while i < all.len()
            invariant
                all@ == spec_all_slots(),
                group@.len() > 0,
                i <= all.len(),
                hmin == spec_group_bounds(group@).0,
                hmax == spec_group_bounds(group@).1,
                vmin == spec_group_bounds(group@).2,
                vmax == spec_group_bounds(group@).3,
                forall|k: int|
                    0 <= k < i && #[trigger] spec_in_bounds(spec_cell(all@[k]), spec_group_bounds(group@))
                        ==> group@.contains(all@[k]),
            decreases all.len() - i,
        {
            let s = all[i];
            let (h, v) = s.cell_3x3();
            if hmin <= h && h <= hmax && vmin <= v && v <= vmax && !slot_listed(group, s) {
                proof {
                    assert(spec_in_bounds(spec_cell(s), spec_group_bounds(group@)));
                }
                return false;
            }
            i = i + 1;
        }
        proof {
            assert forall|s: PlacementSlot| #[trigger]
                spec_in_bounds(spec_cell(s), spec_group_bounds(group@)) implies group@.contains(s) by {
                lemma_slot_listed(s);
                let k = choose|k: int| 0 <= k < 9 && spec_all_slots()[k] == s;
                assert(spec_in_bounds(spec_cell(all@[k]), spec_group_bounds(group@)));
            }
        }
        true
    }
}

/// whether `s` is one of the slots of `group`
pub fn slot_listed(group: &[PlacementSlot], s: PlacementSlot) -> (r: bool)
    ensures
        r == group@.contains(s),
{
    let mut i: usize = 0;
    while i < group.len()
        invariant
            i <= group@.len(),
            forall|k: int| 0 <= k < i ==> group@[k] != s,
        decreases group.len() - i,
    {
        if group[i] == s {
            return true;
        }
        i = i + 1;
    }
    false
}

/// the bounding box `(h_min, h_max, v_min, v_max)` of the 3x3 positions of
/// a non-empty group of slots
pub fn group_bounds(group: &[PlacementSlot]) -> (r: (u8, u8, u8, u8))
    requires
        group@.len() > 0,
    ensures
        r.0 == spec_group_bounds(group@).0,
        r.1 == spec_group_bounds(group@).1,
        r.2 == spec_group_bounds(group@).2,
        r.3 == spec_group_bounds(group@).3,
        r.0 <= r.1 < 3,
        r.2 <= r.3 < 3,
{
    let (h0, v0) = group[0].cell_3x3();
    let mut hmin = h0;
    let mut hmax = h0;
    let mut vmin = v0;
    let mut vmax = v0;
    proof {
        reveal_with_fuel(spec_group_bounds, 2);
        assert(group@.take(1).drop_last() =~= Seq::<PlacementSlot>::empty());
        assert(group@.take(1).last() == group@[0]);
    }
    let mut i: usize = 1;
    while i < group.len()
        invariant
            1 <= i <= group@.len(),
            hmin == spec_group_bounds(group@.take(i as int)).0,
            hmax == spec_group_bounds(group@.take(i as int)).1,
            vmin == spec_group_bounds(group@.take(i as int)).2,
            vmax == spec_group_bounds(group@.take(i as int)).3,
            hmin <= hmax < 3,
            vmin <= vmax < 3,
        decreases group.len() - i,
    {
        let (h, v) = group[i].cell_3x3();
        proof {
            assert(group@.take(i as int + 1).drop_last() =~= group@.take(i as int));
            assert(group@.take(i as int + 1).last() == group@[i as int]);
        }
        if h < hmin {
            hmin = h;
        }
        if h > hmax {
            hmax = h;
        }
        if v < vmin {
            vmin = v;
        }
        if v > vmax {
            vmax = v;
        }
        i = i + 1;
    }
    proof {
        assert(group@.take(group@.len() as int) =~= group@);
    }
    (hmin, hmax, vmin, vmax)
}

impl std::str::FromStr for PlacementSlot {
    type Err = ParsePlacementSlotError;

    fn from_str(s: &str) -> (r: Result<Self, Self::Err>)
        ensures
            match spec_slot_from_name(s@) {
                Some(slot) => r == Ok::<PlacementSlot, ParsePlacementSlotError>(slot),
                None => r matches Err(e) && e.0@ == s@,
            },
    {
        match PlacementSlot::from_name(s) {
            Some(slot) => Ok(slot),
            None => Err(ParsePlacementSlotError(s.to_owned())),
        }
    }
}

} // verus!
