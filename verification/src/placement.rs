//! The placement rules of the map renderer's command line: reading slot
//! groups and alignment names, reserving slots for logos, labels and the
//! legend, resolving a placement to a free rectangle, fitting content into
//! it, and bounding the output dimensions.
use vstd::prelude::*;

use crate::chars::{spec_split, spec_trim, str_to_chars, string_from_chars, trim_chars};
use crate::coverage::{
    slot_listed, spec_forms_rectangle, spec_h_offset, spec_slot_from_name, spec_v_offset, HAlign,
    PlacementSlot, VAlign,
};
use crate::occupancy::{rect_tuple, OccupancyGrid, PixelRect};
use crate::slots::PlacementSlotInfo;

verus! {

/// the largest allowed output width or height in pixels
pub const MAX_OUTPUT_DIMENSION: u32 = 0x8000;

/// the largest allowed output area in pixels
pub const MAX_OUTPUT_AREA: u64 = 0x1000_0000;

/// why a logo or label placement could not be satisfied
#[derive(Debug)]
pub enum PlacementError {
    /// a name in a slot group is not one of the nine slot names
    UnknownSlot(String),
    /// no slot name was supplied
    NoSlot,
    /// the combined slot group (the text given) is not a solid rectangle
    NotRectangle(String),
    /// an unknown horizontal alignment name
    InvalidHAlign(String),
    /// an unknown vertical alignment name
    InvalidVAlign(String),
    /// a placement with an empty slot group
    EmptyGroup,
    /// the combined slot anchored at this slot has no free space
    CombinedCovered(PlacementSlot),
    /// this slot was not among the evaluated slots
    SlotNotFound(PlacementSlot),
    /// this slot has no free space
    SlotCovered(PlacementSlot),
    /// a placement of the named kind wants the legend's slot
    LegendClash {
        /// the kind of placement (`label` or `logo`)
        what: String,
        /// the slot
        slot: PlacementSlot,
    },
    /// two placements target the same slot
    SlotClash(PlacementSlot),
    /// a logo scale other than 1, 2 or 4
    InvalidLogoScale(u8),
    /// content of `width` x `height` pixels does not fit the free area
    /// `available` at the anchor slot
    DoesNotFit {
        /// content width in pixels
        width: u32,
        /// content height in pixels
        height: u32,
        /// the anchor slot
        slot: PlacementSlot,
        /// the free area
        available: PixelRect,
    },
}

/// why output dimensions were rejected
#[derive(Debug, Clone, Copy, PartialEq, Eq, Structural)]
pub enum DimensionError {
    /// a side is zero
    Zero,
    /// a side is larger than [`MAX_OUTPUT_DIMENSION`]
    SideTooLarge,
    /// the area is larger than [`MAX_OUTPUT_AREA`]
    AreaTooLarge,
}

/// Output image format for a generated map; `png` is the default and
/// `jpeg` the lossy alternative.
#[derive(Debug, Clone, Copy, PartialEq, Eq, Structural)]
pub enum OutputFormat {
    /// PNG output (lossless, default)
    Png,
    /// JPEG output (lossy, smaller files)
    Jpeg,
}

impl Default for OutputFormat {
    fn default() -> (r: Self)
        ensures
            r == OutputFormat::Png,
    {
        OutputFormat::Png
    }
}

/// A logo image to composite onto the map: `slot` is one slot name or
/// several joined with `+`, `scale` an integer upscale factor (1, 2 or 4)
#[derive(Debug, Clone)]
pub struct LogoSpec {
    /// path to the logo image file
    pub file: String,
    /// placement slot name, or several joined with `+`
    pub slot: String,
    /// integer upscale factor
    pub scale: u8,
    /// horizontal alignment within the free area, absent for the slot's
    /// outward default
    pub h_align: Option<String>,
    /// vertical alignment within the free area, absent for the slot's
    /// outward default
    pub v_align: Option<String>,
}

/// Which of the optional per-region annotation overlays to draw.
#[derive(Debug, Clone, Copy, Default, PartialEq, Eq, Structural)]
pub struct RegionOverlayOptions {
    /// draw a hairline rectangle around each region
    pub rectangles: bool,
    /// draw each region's name in its lower-left corner
    pub names: bool,
    /// draw each region's `(x, y)` grid coordinates
    pub coordinates: bool,
}

impl RegionOverlayOptions {
    /// whether any overlay at all is requested
    pub fn any(self) -> (r: bool)
        ensures
            r == (self.rectangles || self.names || self.coordinates),
    {
        self.rectangles || self.names || self.coordinates
    }

    /// whether any text overlay (name or coordinates) is requested
    pub fn any_text(self) -> (r: bool)
        ensures
            r == (self.names || self.coordinates),
    {
        self.names || self.coordinates
    }
}

/// default scale (native size) for a logo placement that names none
pub fn default_logo_scale() -> (r: u8)
    ensures
        r == 1,
{
    1
}

/// default colour (opaque white) for a text label that names none
pub fn default_label_color() -> (r: String)
    ensures
        r@ == "#ffffff"@,
{
    "#ffffff".to_owned()
}

/// a logo scale is one of 1, 2 and 4
pub fn valid_logo_scale(scale: u8) -> (r: bool)
    ensures
        r == (scale == 1 || scale == 2 || scale == 4),
{
    scale == 1 || scale == 2 || scale == 4
}

/// the slots named by `names` (each trimmed), in order and without
/// repeats, or the first trimmed name that is not a slot name
pub open spec fn spec_collect_slots(names: Seq<Seq<char>>) -> Result<Seq<PlacementSlot>, Seq<char>>
    decreases names.len(),
{
    if names.len() == 0 {
        Ok(Seq::empty())
    } else {
        match spec_collect_slots(names.drop_last()) {
            Err(e) => Err(e),
            Ok(g) => match spec_slot_from_name(spec_trim(names.last())) {
                None => Err(spec_trim(names.last())),
                Some(s) => Ok(
                    if g.contains(s) {
                        g
                    } else {
                        g.push(s)
                    },
                ),
            },
        }
    }
}

/// add the slot named by the (untrimmed) piece `piece` to `group` unless
/// it is there already; the trimmed piece when it is not a slot name
fn add_named_slot(group: &mut Vec<PlacementSlot>, piece: &Vec<char>) -> (r: Result<(), Vec<char>>)
    ensures
        match spec_slot_from_name(spec_trim(piece@)) {
            None => r is Err && r->Err_0@ == spec_trim(piece@) && final(group)@ == old(group)@,
            Some(s) => r is Ok && final(group)@ == (if old(group)@.contains(s) {
                old(group)@
            } else {
                old(group)@.push(s)
            }),
        },
{
    let name = trim_chars(piece);
    let text = string_from_chars(&name);
    match PlacementSlot::from_name(text.as_str()) {
        Some(s) => {
            if !slot_listed(group.as_slice(), s) {
                group.push(s);
            }
            Ok(())
        },
        None => Err(name),
    }
}

/// Parse a single slot name, or several joined with `+`, into the list of
/// placement slots they reserve: each name is trimmed, the slots are
/// de-duplicated keeping the first occurrence (the group's anchor comes
/// first) and must form a solid rectangle.
pub fn parse_slot_group(slot: &str) -> (r: Result<Vec<PlacementSlot>, PlacementError>)
    ensures
        match spec_collect_slots(spec_split(slot@, '+')) {
            Err(name) => r matches Err(PlacementError::UnknownSlot(n)) && n@ == name,
            Ok(g) => if g.len() == 0 {
                r matches Err(PlacementError::NoSlot)
            } else if !spec_forms_rectangle(g) {
                r matches Err(PlacementError::NotRectangle(t)) && t@ == slot@
            } else {
                r matches Ok(v) && v@ == g
            },
        },
{
    let chars = str_to_chars(slot);
    let mut group: Vec<PlacementSlot> = Vec::new();
    let mut bad: Option<Vec<char>> = None;
    let mut piece: Vec<char> = Vec::new();
    let mut i: usize = 0;
    while i < chars.len()
        invariant
            chars@ == slot@,
            i <= chars@.len(),
            spec_split(chars@.take(i as int), '+').len() >= 1,
            piece@ == spec_split(chars@.take(i as int), '+').last(),
            spec_collect_slots(spec_split(chars@.take(i as int), '+').drop_last()) == (match bad {
                None => Ok::<Seq<PlacementSlot>, Seq<char>>(group@),
                Some(b) => Err(b@),
            }),
        decreases chars.len() - i,
    {
        let c = chars[i];
        let ghost before = spec_split(chars@.take(i as int), '+');
        proof {
            assert(chars@.take(i as int + 1).drop_last() =~= chars@.take(i as int));
            assert(chars@.take(i as int + 1).last() == c);
        }
        if c == '+' {
            if bad.is_none() {
                match add_named_slot(&mut group, &piece) {
                    Ok(()) => {},
                    Err(name) => {
                        bad = Some(name);
                    },
                }
            }
            piece = Vec::new();
            proof {
                let after = spec_split(chars@.take(i as int + 1), '+');
                assert(after == before.push(Seq::<char>::empty()));
                assert(after.drop_last() =~= before);
                assert(before.drop_last().push(before.last()) =~= before);
            }
        } else {
            piece.push(c);
            proof {
                let after = spec_split(chars@.take(i as int + 1), '+');
                assert(after == before.update(before.len() - 1, before.last().push(c)));
                assert(after.drop_last() =~= before.drop_last());
            }
        }
        i = i + 1;
    }
    proof {
        assert(chars@.take(chars@.len() as int) =~= chars@);
        let all = spec_split(slot@, '+');
        assert(all.drop_last().push(all.last()) =~= all);
    }
    if bad.is_none() {
        match add_named_slot(&mut group, &piece) {
            Ok(()) => {},
            Err(name) => {
                bad = Some(name);
            },
        }
    }
    match bad {
        Some(name) => {
            return Err(PlacementError::UnknownSlot(string_from_chars(&name)));
        },
        None => {},
    }
    if group.len() == 0 {
        return Err(PlacementError::NoSlot);
    }
    if !PlacementSlot::slots_form_rectangle(group.as_slice()) {
        return Err(PlacementError::NotRectangle(slot.to_owned()));
    }
    Ok(group)
}

/// the horizontal alignment named by a trimmed text
pub open spec fn spec_h_align_named(t: Seq<char>) -> Option<HAlign> {
    if t == "left"@ {
        Some(HAlign::Left)
    } else if t == "center"@ {
        Some(HAlign::Center)
    } else if t == "right"@ {
        Some(HAlign::Right)
    } else {
        None
    }
}

/// the vertical alignment named by a trimmed text
pub open spec fn spec_v_align_named(t: Seq<char>) -> Option<VAlign> {
    if t == "top"@ {
        Some(VAlign::Top)
    } else if t == "center"@ {
        Some(VAlign::Center)
    } else if t == "bottom"@ {
        Some(VAlign::Bottom)
    } else {
        None
    }
}

/// Parse an optional horizontal-alignment name (`left`, `center`,
/// `right`, surrounding whitespace ignored); absent or blank gives `None`
/// (use the slot's outward default)
pub fn parse_h_align(value: Option<&str>) -> (r: Result<Option<HAlign>, PlacementError>)
    ensures
        match value {
            None => r matches Ok(None),
            Some(v) => if spec_trim(v@).len() == 0 {
                r matches Ok(None)
            } else {
                match spec_h_align_named(spec_trim(v@)) {
                    Some(a) => r == Ok::<Option<HAlign>, PlacementError>(Some(a)),
                    None => r matches Err(PlacementError::InvalidHAlign(t)) && t@ == spec_trim(v@),
                }
            },
        },
{
    match value {
        None => Ok(None),
        Some(v) => {
            let chars = str_to_chars(v);
            let t = trim_chars(&chars);
            if t.len() == 0 {
                return Ok(None);
            }
            let text = string_from_chars(&t);
            let s = text.as_str();
            if crate::chars::str_eq(s, "left") {
                Ok(Some(HAlign::Left))
            } else if crate::chars::str_eq(s, "center") {
                Ok(Some(HAlign::Center))
            } else if crate::chars::str_eq(s, "right") {
                Ok(Some(HAlign::Right))
            } else {
                Err(PlacementError::InvalidHAlign(text))
            }
        },
    }
}

/// Parse an optional vertical-alignment name (`top`, `center`, `bottom`,
/// surrounding whitespace ignored); absent or blank gives `None` (use the
/// slot's outward default)
pub fn parse_v_align(value: Option<&str>) -> (r: Result<Option<VAlign>, PlacementError>)
    ensures
        match value {
            None => r matches Ok(None),
            Some(v) => if spec_trim(v@).len() == 0 {
                r matches Ok(None)
            } else {
                match spec_v_align_named(spec_trim(v@)) {
                    Some(a) => r == Ok::<Option<VAlign>, PlacementError>(Some(a)),
                    None => r matches Err(PlacementError::InvalidVAlign(t)) && t@ == spec_trim(v@),
                }
            },
        },
{
    match value {
        None => Ok(None),
        Some(v) => {
            let chars = str_to_chars(v);
            let t = trim_chars(&chars);
            if t.len() == 0 {
                return Ok(None);
            }
            let text = string_from_chars(&t);
            let s = text.as_str();
            if crate::chars::str_eq(s, "top") {
                Ok(Some(VAlign::Top))
            } else if crate::chars::str_eq(s, "center") {
                Ok(Some(VAlign::Center))
            } else if crate::chars::str_eq(s, "bottom") {
                Ok(Some(VAlign::Bottom))
            } else {
                Err(PlacementError::InvalidVAlign(text))
            }
        },
    }
}

/// Map a legend-slot name to a placement slot, or `None` to hide the
/// legend: absent or blank gives `TopLeft` (the default), `none` hides it,
/// any of the nine slot names gives that slot (surrounding whitespace
/// ignored) and anything else is an error
pub fn legend_position_from_slot(slot: Option<&str>) -> (r: Result<
    Option<PlacementSlot>,
    PlacementError,
>)
    ensures
        match slot {
            None => r == Ok::<Option<PlacementSlot>, PlacementError>(Some(PlacementSlot::TopLeft)),
            Some(s) => if spec_trim(s@).len() == 0 {
                r == Ok::<Option<PlacementSlot>, PlacementError>(Some(PlacementSlot::TopLeft))
            } else if spec_trim(s@) == "none"@ {
                r == Ok::<Option<PlacementSlot>, PlacementError>(None)
            } else {
                match spec_slot_from_name(spec_trim(s@)) {
                    Some(p) => r == Ok::<Option<PlacementSlot>, PlacementError>(Some(p)),
                    None => r matches Err(PlacementError::UnknownSlot(t)) && t@ == spec_trim(s@),
                }
            },
        },
{
    match slot {
        None => Ok(Some(PlacementSlot::TopLeft)),
        Some(s) => {
            let chars = str_to_chars(s);
            let t = trim_chars(&chars);
            if t.len() == 0 {
                return Ok(Some(PlacementSlot::TopLeft));
            }
            let text = string_from_chars(&t);
            if crate::chars::str_eq(text.as_str(), "none") {
                return Ok(None);
            }
            match PlacementSlot::from_name(text.as_str()) {
                Some(p) => Ok(Some(p)),
                None => Err(PlacementError::UnknownSlot(text)),
            }
        },
    }
}

/// the slot at index `k` of `reserved` clashes with the legend, with a
/// slot already in `used` or reserved before it, or with `others`
pub open spec fn spec_clashes_at(
    reserved: Seq<PlacementSlot>,
    used: Seq<PlacementSlot>,
    others: Seq<PlacementSlot>,
    legend: Option<PlacementSlot>,
    k: int,
) -> bool {
    let s = reserved[k];
    legend == Some(s) || (used + reserved.take(k)).contains(s) || others.contains(s)
}

/// Reserve a placement's slots in the shared pool: each slot of
/// `reserved` in turn is rejected if it is the legend's slot, or was
/// reserved earlier (in `used`, or before it in this call), or is held by
/// the other placement kind (`others`); otherwise it is added to `used`.
/// `what` names the placement kind for the legend error.
pub fn reserve(
    reserved: &[PlacementSlot],
    used: &mut Vec<PlacementSlot>,
    others: &[PlacementSlot],
    legend_slot: Option<PlacementSlot>,
    what: &str,
) -> (r: Result<(), PlacementError>)
    ensures
        r is Ok <==> forall|k: int|
            0 <= k < reserved@.len() ==> !spec_clashes_at(
                reserved@,
                old(used)@,
                others@,
                legend_slot,
                k,
            ),
        r is Ok ==> final(used)@ == old(used)@ + reserved@,
        r is Err ==> exists|k: int|
            0 <= k < reserved@.len() && spec_clashes_at(reserved@, old(used)@, others@, legend_slot, k)
                && (forall|j: int|
                0 <= j < k ==> !spec_clashes_at(reserved@, old(used)@, others@, legend_slot, j))
                && final(used)@ == old(used)@ + reserved@.take(k) && (if legend_slot == Some(
                reserved@[k],
            ) {
                r matches Err(PlacementError::LegendClash { what: w, slot: s }) && w@ == what@ && s
                    == reserved@[k]
            } else {
                r matches Err(PlacementError::SlotClash(s)) && s == reserved@[k]
            }),
{
    let ghost used0 = used@;
    let mut i: usize = 0;
    while i < reserved.len()
        invariant
            i <= reserved@.len(),
            used0 == old(used)@,
            used@ == used0 + reserved@.take(i as int),
            forall|j: int|
                0 <= j < i ==> !spec_clashes_at(reserved@, used0, others@, legend_slot, j),
        decreases reserved.len() - i,
    {
        let slot = reserved[i];
        let is_legend = match legend_slot {
            Some(l) => l == slot,
            None => false,
        };
        if is_legend {
            proof {
                assert(spec_clashes_at(reserved@, used0, others@, legend_slot, i as int));
            }
            return Err(PlacementError::LegendClash { what: what.to_owned(), slot });
        }
        if slot_listed(used.as_slice(), slot) || slot_listed(others, slot) {
            proof {
                assert(spec_clashes_at(reserved@, used0, others@, legend_slot, i as int));
            }
            return Err(PlacementError::SlotClash(slot));
        }
        used.push(slot);
        proof {
            assert(reserved@.take(i as int + 1) =~= reserved@.take(i as int).push(slot));
        }
        i = i + 1;
    }
    proof {
        assert(reserved@.take(reserved@.len() as int) =~= reserved@);
    }
    Ok(())
}

/// the index of the first evaluated slot describing `anchor`, if any
pub open spec fn spec_find_info(slots: Seq<PlacementSlotInfo>, anchor: PlacementSlot) -> Option<int> {
    if exists|k: int| 0 <= k < slots.len() && slots[k].slot == anchor {
        Some(
            choose|k: int|
                0 <= k < slots.len() && slots[k].slot == anchor && forall|j: int|
                    0 <= j < k ==> slots[j].slot != anchor,
        )
    } else {
        None
    }
}

/// Resolve a placement to the slots it reserves and the pixel rectangle
/// to fit content into: a single-slot placement uses that slot's own free
/// rectangle from `slots`; a combined placement uses the largest free
/// rectangle within exactly those slots' thirds (see
/// [`OccupancyGrid::subset_rect`]). `group`'s first element is the anchor.
pub fn resolve_placement(
    group: &[PlacementSlot],
    slots: &[PlacementSlotInfo],
    grid: &OccupancyGrid,
) -> (r: Result<(Vec<PlacementSlot>, PixelRect), PlacementError>)
    ensures
        group@.len() == 0 ==> r matches Err(PlacementError::EmptyGroup),
        group@.len() > 1 ==> (r is Ok <==> grid.spec_subset_best(group@) is Some),
        group@.len() > 1 && r is Ok ==> r->Ok_0.0@ == group@ && rect_tuple(r->Ok_0.1)
            == grid.spec_cell_rect_to_pixels(grid.spec_subset_best(group@).unwrap()),
        group@.len() > 1 && r is Err ==> (r matches Err(PlacementError::CombinedCovered(a)) && a
            == group@[0]),
        group@.len() == 1 ==> match spec_find_info(slots@, group@[0]) {
            None => r matches Err(PlacementError::SlotNotFound(a)) && a == group@[0],
            Some(k) => match slots@[k].free_rect {
                None => r matches Err(PlacementError::SlotCovered(a)) && a == group@[0],
                Some(p) => r matches Ok(v) && v.0@ == seq![group@[0]] && v.1 == p,
            },
        },
{
    if group.len() == 0 {
        return Err(PlacementError::EmptyGroup);
    }
    let anchor = group[0];
    if group.len() > 1 {
        return match grid.subset_rect(group) {
            Some(rect) => {
                let mut v: Vec<PlacementSlot> = Vec::new();
                let mut i: usize = 0;
                while i < group.len()
                    invariant
                        i <= group@.len(),
                        v@ == group@.take(i as int),
                    decreases group.len() - i,
                {
                    v.push(group[i]);
                    proof {
                        assert(group@.take(i as int + 1) =~= group@.take(i as int).push(group@[i as int]));
                    }
                    i = i + 1;
                }
                proof {
                    assert(group@.take(group@.len() as int) =~= group@);
                }
                Ok((v, rect))
            },
            None => Err(PlacementError::CombinedCovered(anchor)),
        };
    }
    let mut k: usize = 0;
    while k < slots.len()
        invariant
            k <= slots@.len(),
            group@.len() == 1,
            anchor == group@[0],
            forall|j: int| 0 <= j < k ==> slots@[j].slot != anchor,
        decreases slots.len() - k,
    {
        if slots[k].slot == anchor {
            proof {
                let c = choose|c: int|
                    0 <= c < slots@.len() && slots@[c].slot == anchor && forall|j: int|
                        0 <= j < c ==> slots@[j].slot != anchor;
                assert(c == k as int) by {
                    if c < k {
                    } else if c > k {
                        assert(slots@[k as int].slot == anchor);
                    }
                }
            }
            return match slots[k].free_rect {
                Some(rect) => {
                    let mut v: Vec<PlacementSlot> = Vec::new();
                    v.push(anchor);
                    proof {
                        assert(v@ =~= seq![group@[0]]);
                    }
                    Ok((v, rect))
                },
                None => Err(PlacementError::SlotCovered(anchor)),
            };
        }
        k = k + 1;
    }
    Err(PlacementError::SlotNotFound(anchor))
}

/// the top-left pixel at which content of `width` x `height` pixels is
/// drawn in the free area `rect` with the given alignments
pub open spec fn spec_fit_origin(
    rect: PixelRect,
    width: int,
    height: int,
    h: HAlign,
    v: VAlign,
) -> (int, int) {
    let ox = rect.x + spec_h_offset(h, width, rect.width as int);
    let oy = rect.y + spec_v_offset(v, height, rect.height as int);
    (
        if ox > u32::MAX {
            u32::MAX as int
        } else {
            ox
        },
        if oy > u32::MAX {
            u32::MAX as int
        } else {
            oy
        },
    )
}

/// Fit content of `width` x `height` pixels into the free area `rect` at
/// the anchor slot `anchor`: rejected when it is wider or taller than the
/// area, otherwise placed at the given alignments, or at the anchor's
/// outward default alignment where none is given
pub fn fit_content(
    anchor: PlacementSlot,
    rect: PixelRect,
    width: u32,
    height: u32,
    h_align: Option<HAlign>,
    v_align: Option<VAlign>,
) -> (r: Result<(u32, u32), PlacementError>)
    ensures
        r is Ok <==> width <= rect.width && height <= rect.height,
        r matches Err(e) ==> (e matches PlacementError::DoesNotFit {
            width: w,
            height: h,
            slot: s,
            available: a,
        } && w == width && h == height && s == anchor && a == rect),
        r matches Ok(o) ==> {
            let h = match h_align {
                Some(a) => a,
                None => anchor.spec_default_alignment().0,
            };
            let v = match v_align {
                Some(a) => a,
                None => anchor.spec_default_alignment().1,
            };
            (o.0 as int, o.1 as int) == spec_fit_origin(rect, width as int, height as int, h, v)
        },
{
    if width > rect.width || height > rect.height {
        return Err(PlacementError::DoesNotFit { width, height, slot: anchor, available: rect });
    }
    let (default_h, default_v) = anchor.default_alignment();
    let h = match h_align {
        Some(a) => a,
        None => default_h,
    };
    let v = match v_align {
        Some(a) => a,
        None => default_v,
    };
    let ox = rect.x.saturating_add(h.offset(width, rect.width));
    let oy = rect.y.saturating_add(v.offset(height, rect.height));
    Ok((ox, oy))
}

/// Reject output dimensions outside the allowed bounds: both sides must
/// be greater than zero and at most [`MAX_OUTPUT_DIMENSION`], and their
/// product at most [`MAX_OUTPUT_AREA`]
pub fn validate_dimensions(max_width: u32, max_height: u32) -> (r: Result<(), DimensionError>)
    ensures
        r == (if max_width == 0 || max_height == 0 {
            Err::<(), DimensionError>(DimensionError::Zero)
        } else if max_width > MAX_OUTPUT_DIMENSION || max_height > MAX_OUTPUT_DIMENSION {
            Err(DimensionError::SideTooLarge)
        } else if max_width as int * max_height as int > MAX_OUTPUT_AREA {
            Err(DimensionError::AreaTooLarge)
        } else {
            Ok(())
        }),
{
    if max_width == 0 || max_height == 0 {
        return Err(DimensionError::Zero);
    }
    if max_width > MAX_OUTPUT_DIMENSION || max_height > MAX_OUTPUT_DIMENSION {
        return Err(DimensionError::SideTooLarge);
    }
    proof {
        assert(max_width as int * max_height as int <= 0x8000 * 0x8000) by (nonlinear_arith)
            requires
                max_width <= 0x8000,
                max_height <= 0x8000,
        ;
    }
    if (max_width as u64) * (max_height as u64) > MAX_OUTPUT_AREA {
        return Err(DimensionError::AreaTooLarge);
    }
    Ok(())
}

} // verus!
