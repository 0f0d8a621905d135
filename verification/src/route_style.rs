//! The cascade of a route's style: a list of style changes, each taking
//! effect at a waypoint and staying in effect until a later change
//! overrides it. Every field of a change is optional; an unset field keeps
//! what is currently in effect.
//!
//! Here a change is described by which of its fields it sets (the values
//! themselves stay with the caller), and the cascade tells, for each
//! waypoint and each field, which change supplies the value in effect.
//! Changes apply in waypoint order; changes at the same waypoint apply in
//! the order they were added. Setting a line style drops explicit dash and
//! gap lengths inherited from an earlier change.
use vstd::prelude::*;

verus! {

/// how the route line itself is stroked
#[derive(Debug, Clone, Copy, PartialEq, Eq, Structural)]
pub enum RouteLineStyle {
    /// one continuous run with no gaps
    Solid,
    /// long dashes separated by gaps
    Dashed,
    /// short dots one line thickness long, the historical look
    Dotted,
}

impl Default for RouteLineStyle {
    fn default() -> (r: Self)
        ensures
            r == RouteLineStyle::Dotted,
    {
        RouteLineStyle::Dotted
    }
}

/// which fields a style change sets, taking effect at `from_waypoint`
#[derive(Debug, Clone, Copy, PartialEq, Eq, Structural)]
pub struct SectionFields {
    /// the waypoint the change takes effect at
    pub from_waypoint: usize,
    /// the change sets the colour
    pub color: bool,
    /// the change sets the line thickness
    pub thickness: bool,
    /// the change sets the lateral offset
    pub offset: bool,
    /// the line style the change sets, if any
    pub line_style: Option<RouteLineStyle>,
    /// the change sets an explicit dash length
    pub dash_length: bool,
    /// the change sets an explicit gap length
    pub gap_length: bool,
    /// the change sets the arrow placement
    pub arrow_placement: bool,
    /// the change sets the arrow scale
    pub arrow_scale: bool,
}

/// for one waypoint, the index of the change supplying each field in
/// effect (`None`: the default, or for dash and gap lengths the length the
/// line style derives), and the line style in effect
#[derive(Debug, Clone, Copy, PartialEq, Eq, Structural)]
pub struct StyleSources {
    /// source of the colour
    pub color: Option<usize>,
    /// source of the line thickness
    pub thickness: Option<usize>,
    /// source of the lateral offset
    pub offset: Option<usize>,
    /// the line style in effect
    pub line_style: RouteLineStyle,
    /// source of an explicit dash length
    pub dash_length: Option<usize>,
    /// source of an explicit gap length
    pub gap_length: Option<usize>,
    /// source of the arrow placement
    pub arrow_placement: Option<usize>,
    /// source of the arrow scale
    pub arrow_scale: Option<usize>,
}

/// the fields of a change, numbered: colour, thickness, offset, line
/// style, dash length, gap length, arrow placement, arrow scale
pub open spec fn sets_field(s: SectionFields, f: int) -> bool {
    if f == 0 {
        s.color
    } else if f == 1 {
        s.thickness
    } else if f == 2 {
        s.offset
    } else if f == 3 {
        s.line_style is Some
    } else if f == 4 {
        s.dash_length
    } else if f == 5 {
        s.gap_length
    } else if f == 6 {
        s.arrow_placement
    } else {
        s.arrow_scale
    }
}

/// change `i` applies before change `j`: an earlier waypoint, or the same
/// waypoint and added earlier
pub open spec fn applies_before(secs: Seq<SectionFields>, i: int, j: int) -> bool {
    secs[i].from_waypoint < secs[j].from_waypoint || (secs[i].from_waypoint == secs[j].from_waypoint
        && i < j)
}

/// change `i` is in effect at waypoint `w` and sets field `f`
pub open spec fn setter_at(secs: Seq<SectionFields>, w: int, f: int, i: int) -> bool {
    0 <= i < secs.len() && secs[i].from_waypoint <= w && sets_field(secs[i], f)
}

/// the change applied last among those in effect at waypoint `w` that set
/// field `f`, if any
pub open spec fn spec_last_setter(secs: Seq<SectionFields>, w: int, f: int) -> Option<int> {
    if exists|i: int|
        setter_at(secs, w, f, i) && forall|j: int|
            setter_at(secs, w, f, j) && j != i ==> applies_before(secs, j, i) {
        Some(
            choose|i: int|
                setter_at(secs, w, f, i) && forall|j: int|
                    setter_at(secs, w, f, j) && j != i ==> applies_before(secs, j, i),
        )
    } else {
        None
    }
}

/// the source of an explicit dash (`f == 4`) or gap (`f == 5`) length at
/// waypoint `w`: the last change setting it, unless a line style was set
/// after it
pub open spec fn spec_length_source(secs: Seq<SectionFields>, w: int, f: int) -> Option<int> {
    match spec_last_setter(secs, w, f) {
        None => None,
        Some(i) => match spec_last_setter(secs, w, 3) {
            None => Some(i),
            Some(l) => if applies_before(secs, i, l) {
                None
            } else {
                Some(i)
            },
        },
    }
}

/// `o` as an index
pub open spec fn opt_index(o: Option<usize>) -> Option<int> {
    match o {
        Some(i) => Some(i as int),
        None => None,
    }
}

/// what the cascade gives at waypoint `w`
pub open spec fn spec_sources_at(secs: Seq<SectionFields>, w: int, r: StyleSources) -> bool {
    &&& opt_index(r.color) == spec_last_setter(secs, w, 0)
    &&& opt_index(r.thickness) == spec_last_setter(secs, w, 1)
    &&& opt_index(r.offset) == spec_last_setter(secs, w, 2)
    &&& r.line_style == (match spec_last_setter(secs, w, 3) {
        None => RouteLineStyle::Dotted,
        Some(l) => secs[l].line_style.unwrap(),
    })
    &&& opt_index(r.dash_length) == spec_length_source(secs, w, 4)
    &&& opt_index(r.gap_length) == spec_length_source(secs, w, 5)
    &&& opt_index(r.arrow_placement) == spec_last_setter(secs, w, 6)
    &&& opt_index(r.arrow_scale) == spec_last_setter(secs, w, 7)
}

/// whether change `i` sets field `f`
fn sets(s: &SectionFields, f: u8) -> (r: bool)
    requires
        f < 8,
    ensures
        r == sets_field(*s, f as int),
{
    match f {
        0 => s.color,
        1 => s.thickness,
        2 => s.offset,
        3 => s.line_style.is_some(),
        4 => s.dash_length,
        5 => s.gap_length,
        6 => s.arrow_placement,
        _ => s.arrow_scale,
    }
}

/// the change applied last among those in effect at waypoint `w` that set
/// field `f`
fn last_setter(secs: &[SectionFields], w: usize, f: u8) -> (r: Option<usize>)
    requires
        f < 8,
    ensures
        opt_index(r) == spec_last_setter(secs@, w as int, f as int),
        r matches Some(i) ==> i < secs@.len(),
{
    let mut best: Option<usize> = None;
    let mut i: usize = 0;
    while i < secs.len()
        invariant
            i <= secs@.len(),
            f < 8,
            best is None ==> forall|j: int| 0 <= j < i ==> !setter_at(secs@, w as int, f as int, j),
            best matches Some(b) ==> b < i,
            best matches Some(b) ==> setter_at(secs@, w as int, f as int, b as int),
            best matches Some(b) ==> forall|j: int|
                0 <= j < i && setter_at(secs@, w as int, f as int, j) && j != b ==> applies_before(
                    secs@,
                    j,
                    b as int,
                ),
        decreases secs.len() - i,
    {
        let s = &secs[i];
        proof {
            assert(setter_at(secs@, w as int, f as int, i as int) == (s.from_waypoint <= w
                && sets_field(*s, f as int)));
        }
        let ghost ob = best;
        if s.from_waypoint <= w && sets(s, f) {
            let replace = match best {
                None => true,
                Some(b) => secs[b].from_waypoint <= s.from_waypoint,
            };
            if replace {
                best = Some(i);
            }
        }
        proof {
            if best is Some {
                let b = best.unwrap() as int;
                assert forall|j: int|
                    0 <= j < i + 1 && setter_at(secs@, w as int, f as int, j) && j != b implies applies_before(
                    secs@,
                    j,
                    b,
                ) by {
                    if ob is Some && j != ob.unwrap() && j < i {
                        assert(applies_before(secs@, j, ob.unwrap() as int));
                    }
                }
            }
        }
        i = i + 1;
    }
    proof {
        let ws = w as int;
        let fs = f as int;
        match best {
            None => {},
            Some(b) => {
                let c = choose|c: int|
                    setter_at(secs@, ws, fs, c) && forall|j: int|
                        setter_at(secs@, ws, fs, j) && j != c ==> applies_before(secs@, j, c);
                if c != b {
                    assert(applies_before(secs@, c, b as int));
                    assert(applies_before(secs@, b as int, c));
                }
            },
        }
    }
    best
}

/// the cascade at waypoint `w`
fn sources_at(secs: &[SectionFields], w: usize) -> (r: StyleSources)
    ensures
        spec_sources_at(secs@, w as int, r),
{
    let color = last_setter(secs, w, 0);
    let thickness = last_setter(secs, w, 1);
    let offset = last_setter(secs, w, 2);
    let style_source = last_setter(secs, w, 3);
    let line_style = match style_source {
        None => RouteLineStyle::Dotted,
        Some(l) => match secs[l].line_style {
            Some(v) => v,
            None => RouteLineStyle::Dotted,
        },
    };
    let dash = last_setter(secs, w, 4);
    let gap = last_setter(secs, w, 5);
    let dash_length = match (dash, style_source) {
        (Some(i), Some(l)) => if secs[i].from_waypoint < secs[l].from_waypoint || (
        secs[i].from_waypoint == secs[l].from_waypoint && i < l) {
            None
        } else {
            Some(i)
        },
        (d, None) => d,
        (None, _) => None,
    };
    let gap_length = match (gap, style_source) {
        (Some(i), Some(l)) => if secs[i].from_waypoint < secs[l].from_waypoint || (
        secs[i].from_waypoint == secs[l].from_waypoint && i < l) {
            None
        } else {
            Some(i)
        },
        (g, None) => g,
        (None, _) => None,
    };
    let arrow_placement = last_setter(secs, w, 6);
    let arrow_scale = last_setter(secs, w, 7);
    StyleSources {
        color,
        thickness,
        offset,
        line_style,
        dash_length,
        gap_length,
        arrow_placement,
        arrow_scale,
    }
}

/// the style sources in effect at each waypoint of a route with
/// `waypoint_count` waypoints
pub fn effective_sources_per_waypoint(secs: &[SectionFields], waypoint_count: usize) -> (r: Vec<
    StyleSources,
>)
    ensures
        r@.len() == waypoint_count,
        forall|w: int| 0 <= w < waypoint_count ==> spec_sources_at(secs@, w, #[trigger] r@[w]),
{
    let mut r: Vec<StyleSources> = Vec::new();
    let mut w: usize = 0;
    while w < waypoint_count
        invariant
            w <= waypoint_count,
            r@.len() == w,
            forall|k: int| 0 <= k < w ==> spec_sources_at(secs@, k, #[trigger] r@[k]),
        decreases waypoint_count - w,
    {
        r.push(sources_at(secs, w));
        w = w + 1;
    }
    r
}

/// a change at waypoint `w` that sets nothing
pub open spec fn spec_empty_section(w: usize) -> SectionFields {
    SectionFields {
        from_waypoint: w,
        color: false,
        thickness: false,
        offset: false,
        line_style: None,
        dash_length: false,
        gap_length: false,
        arrow_placement: false,
        arrow_scale: false,
    }
}

/// the position of the route-wide change (the first change at waypoint
/// `0`), inserting a change that sets nothing at the front when there is
/// none yet; front-ends write their route-wide settings into it
pub fn base_section_index(secs: &mut Vec<SectionFields>) -> (i: usize)
    ensures
        (exists|k: int| 0 <= k < old(secs)@.len() && old(secs)@[k].from_waypoint == 0) ==> {
            &&& final(secs)@ == old(secs)@
            &&& i < old(secs)@.len()
            &&& old(secs)@[i as int].from_waypoint == 0
            &&& forall|k: int| 0 <= k < i ==> old(secs)@[k].from_waypoint != 0
        },
        !(exists|k: int| 0 <= k < old(secs)@.len() && old(secs)@[k].from_waypoint == 0) ==> {
            &&& final(secs)@ == seq![spec_empty_section(0)] + old(secs)@
            &&& i == 0
        },
{
    let mut k: usize = 0;
    while k < secs.len()
        invariant
            k <= secs@.len(),
            secs@ == old(secs)@,
            forall|j: int| 0 <= j < k ==> secs@[j].from_waypoint != 0,
        decreases secs@.len() - k,
    {
        if secs[k].from_waypoint == 0 {
            return k;
        }
        k = k + 1;
    }
    let empty = SectionFields {
        from_waypoint: 0,
        color: false,
        thickness: false,
        offset: false,
        line_style: None,
        dash_length: false,
        gap_length: false,
        arrow_placement: false,
        arrow_scale: false,
    };
    secs.insert(0, empty);
    proof {
        assert(secs@ =~= seq![spec_empty_section(0)] + old(secs)@);
    }
    0
}

/// what [`spec_last_setter`] picks: a change in effect at `w` that sets the
/// field, applied after every other such change; `None` when no change in
/// effect sets it
proof fn lemma_last_setter(secs: Seq<SectionFields>, w: int, f: int)
    ensures
        match spec_last_setter(secs, w, f) {
            Some(i) => setter_at(secs, w, f, i) && forall|j: int|
                setter_at(secs, w, f, j) && j != i ==> applies_before(secs, j, i),
            None => forall|j: int| !setter_at(secs, w, f, j),
        },
{
    if spec_last_setter(secs, w, f) is None {
        assert forall|j: int| !setter_at(secs, w, f, j) by {
            if setter_at(secs, w, f, j) {
                lemma_later_setter(secs, w, f, j);
            }
        }
    }
}

/// from a change in effect that sets a field, one applied after all others
/// that do (by the number of changes applied after it)
proof fn lemma_later_setter(secs: Seq<SectionFields>, w: int, f: int, j: int)
    requires
        setter_at(secs, w, f, j),
    ensures
        spec_last_setter(secs, w, f) is Some,
    decreases count_after(secs, j, secs.len() as int),
{
    if exists|k: int| setter_at(secs, w, f, k) && k != j && !applies_before(secs, k, j) {
        let k = choose|k: int| setter_at(secs, w, f, k) && k != j && !applies_before(secs, k, j);
        lemma_count_after_less(secs, j, k, secs.len() as int);
        lemma_later_setter(secs, w, f, k);
    } else {
        assert(setter_at(secs, w, f, j) && forall|i: int|
            setter_at(secs, w, f, i) && i != j ==> applies_before(secs, i, j));
    }
}

/// the number of changes among the first `n` applied after change `j`
pub open spec fn count_after(secs: Seq<SectionFields>, j: int, n: int) -> nat
    decreases n,
{
    if n <= 0 {
        0
    } else {
        count_after(secs, j, n - 1) + if n - 1 != j && applies_before(secs, j, n - 1) {
            1nat
        } else {
            0nat
        }
    }
}

/// fewer changes are applied after a later change `k` than after `j`
proof fn lemma_count_after_less(secs: Seq<SectionFields>, j: int, k: int, n: int)
    requires
        0 <= j < secs.len(),
        0 <= k < secs.len(),
        k != j,
        applies_before(secs, j, k),
        0 <= n <= secs.len(),
    ensures
        count_after(secs, k, n) <= count_after(secs, j, n),
        k < n ==> count_after(secs, k, n) < count_after(secs, j, n),
    decreases n,
{
    if n > 0 {
        lemma_count_after_less(secs, j, k, n - 1);
    }
}

/// the source of each style field at waypoint `w` is the last change in
/// effect there that sets that very field (of the struct), or none when no
/// change in effect sets it; the line style is the one the last change
/// setting a line style gives (dotted without one); an explicit dash or gap
/// length comes from the last change setting it unless a line style was set
/// after it
pub proof fn lemma_sources_follow_fields(secs: Seq<SectionFields>, w: int, r: StyleSources)
    requires
        spec_sources_at(secs, w, r),
    ensures
        r.color matches Some(i) ==> i < secs.len() && secs[i as int].color
            && secs[i as int].from_waypoint <= w && forall|j: int|
            0 <= j < secs.len() && j != i && secs[j].color && secs[j].from_waypoint <= w
                ==> applies_before(secs, j, i as int),
        r.color is None ==> forall|j: int|
            0 <= j < secs.len() && secs[j].from_waypoint <= w ==> !secs[j].color,
        r.thickness matches Some(i) ==> i < secs.len() && secs[i as int].thickness
            && secs[i as int].from_waypoint <= w && forall|j: int|
            0 <= j < secs.len() && j != i && secs[j].thickness && secs[j].from_waypoint <= w
                ==> applies_before(secs, j, i as int),
        r.thickness is None ==> forall|j: int|
            0 <= j < secs.len() && secs[j].from_waypoint <= w ==> !secs[j].thickness,
        r.offset matches Some(i) ==> i < secs.len() && secs[i as int].offset
            && secs[i as int].from_waypoint <= w && forall|j: int|
            0 <= j < secs.len() && j != i && secs[j].offset && secs[j].from_waypoint <= w
                ==> applies_before(secs, j, i as int),
        r.offset is None ==> forall|j: int|
            0 <= j < secs.len() && secs[j].from_waypoint <= w ==> !secs[j].offset,
        r.arrow_placement matches Some(i) ==> i < secs.len() && secs[i as int].arrow_placement
            && secs[i as int].from_waypoint <= w && forall|j: int|
            0 <= j < secs.len() && j != i && secs[j].arrow_placement && secs[j].from_waypoint <= w
                ==> applies_before(secs, j, i as int),
        r.arrow_placement is None ==> forall|j: int|
            0 <= j < secs.len() && secs[j].from_waypoint <= w ==> !secs[j].arrow_placement,
        r.arrow_scale matches Some(i) ==> i < secs.len() && secs[i as int].arrow_scale
            && secs[i as int].from_waypoint <= w && forall|j: int|
            0 <= j < secs.len() && j != i && secs[j].arrow_scale && secs[j].from_waypoint <= w
                ==> applies_before(secs, j, i as int),
        r.arrow_scale is None ==> forall|j: int|
            0 <= j < secs.len() && secs[j].from_waypoint <= w ==> !secs[j].arrow_scale,
        (forall|j: int|
            0 <= j < secs.len() && secs[j].from_waypoint <= w ==> secs[j].line_style is None)
            ==> r.line_style == RouteLineStyle::Dotted,
        forall|l: int|
            0 <= l < secs.len() && secs[l].from_waypoint <= w && secs[l].line_style is Some && (
            forall|j: int|
                0 <= j < secs.len() && j != l && secs[j].from_waypoint <= w
                    && secs[j].line_style is Some ==> applies_before(secs, j, l))
                ==> r.line_style == secs[l].line_style.unwrap(),
        r.dash_length matches Some(i) ==> i < secs.len() && secs[i as int].dash_length
            && secs[i as int].from_waypoint <= w && forall|j: int|
            0 <= j < secs.len() && j != i && secs[j].from_waypoint <= w && (secs[j].dash_length
                || secs[j].line_style is Some) ==> applies_before(secs, j, i as int),
        r.gap_length matches Some(i) ==> i < secs.len() && secs[i as int].gap_length
            && secs[i as int].from_waypoint <= w && forall|j: int|
            0 <= j < secs.len() && j != i && secs[j].from_waypoint <= w && (secs[j].gap_length
                || secs[j].line_style is Some) ==> applies_before(secs, j, i as int),
{
    lemma_last_setter(secs, w, 0);
    lemma_last_setter(secs, w, 1);
    lemma_last_setter(secs, w, 2);
    lemma_last_setter(secs, w, 3);
    lemma_last_setter(secs, w, 4);
    lemma_last_setter(secs, w, 5);
    lemma_last_setter(secs, w, 6);
    lemma_last_setter(secs, w, 7);
    if r.color is None {
        assert forall|j: int| 0 <= j < secs.len() && secs[j].from_waypoint <= w implies !secs[j].color by {
            assert(!setter_at(secs, w, 0, j));
        }
    } else {
        let i = r.color.unwrap() as int;
        assert(setter_at(secs, w, 0, i));
        assert forall|j: int|
            0 <= j < secs.len() && j != i && secs[j].color && secs[j].from_waypoint <= w implies applies_before(secs, j, i) by {
            assert(setter_at(secs, w, 0, j));
        }
    }
    if r.thickness is None {
        assert forall|j: int| 0 <= j < secs.len() && secs[j].from_waypoint <= w implies !secs[j].thickness by {
            assert(!setter_at(secs, w, 1, j));
        }
    } else {
        let i = r.thickness.unwrap() as int;
        assert(setter_at(secs, w, 1, i));
        assert forall|j: int|
            0 <= j < secs.len() && j != i && secs[j].thickness && secs[j].from_waypoint <= w implies applies_before(secs, j, i) by {
            assert(setter_at(secs, w, 1, j));
        }
    }
    if r.offset is None {
        assert forall|j: int| 0 <= j < secs.len() && secs[j].from_waypoint <= w implies !secs[j].offset by {
            assert(!setter_at(secs, w, 2, j));
        }
    } else {
        let i = r.offset.unwrap() as int;
        assert(setter_at(secs, w, 2, i));
        assert forall|j: int|
            0 <= j < secs.len() && j != i && secs[j].offset && secs[j].from_waypoint <= w implies applies_before(secs, j, i) by {
            assert(setter_at(secs, w, 2, j));
        }
    }
    if r.arrow_placement is None {
        assert forall|j: int| 0 <= j < secs.len() && secs[j].from_waypoint <= w implies !secs[j].arrow_placement by {
            assert(!setter_at(secs, w, 6, j));
        }
    } else {
        let i = r.arrow_placement.unwrap() as int;
        assert(setter_at(secs, w, 6, i));
        assert forall|j: int|
            0 <= j < secs.len() && j != i && secs[j].arrow_placement && secs[j].from_waypoint <= w implies applies_before(secs, j, i) by {
            assert(setter_at(secs, w, 6, j));
        }
    }
    if r.arrow_scale is None {
        assert forall|j: int| 0 <= j < secs.len() && secs[j].from_waypoint <= w implies !secs[j].arrow_scale by {
            assert(!setter_at(secs, w, 7, j));
        }
    } else {
        let i = r.arrow_scale.unwrap() as int;
        assert(setter_at(secs, w, 7, i));
        assert forall|j: int|
            0 <= j < secs.len() && j != i && secs[j].arrow_scale && secs[j].from_waypoint <= w implies applies_before(secs, j, i) by {
            assert(setter_at(secs, w, 7, j));
        }
    }
    assert forall|l: int|
        0 <= l < secs.len() && secs[l].from_waypoint <= w && secs[l].line_style is Some && (
        forall|j: int|
            0 <= j < secs.len() && j != l && secs[j].from_waypoint <= w
                && secs[j].line_style is Some ==> applies_before(secs, j, l))
            implies r.line_style == secs[l].line_style.unwrap() by {
        assert(setter_at(secs, w, 3, l));
        let m = spec_last_setter(secs, w, 3).unwrap();
        if m != l {
            assert(setter_at(secs, w, 3, m));
            assert(applies_before(secs, m, l));
            assert(applies_before(secs, l, m));
        }
    }
    assert forall|j: int|
        0 <= j < secs.len() && secs[j].from_waypoint <= w implies (secs[j].line_style is None
        || spec_last_setter(secs, w, 3) is Some) by {
        if secs[j].line_style is Some {
            assert(setter_at(secs, w, 3, j));
        }
    }
    if r.dash_length is Some {
        let i = r.dash_length.unwrap() as int;
        assert forall|j: int|
            0 <= j < secs.len() && j != i && secs[j].from_waypoint <= w && (secs[j].dash_length
                || secs[j].line_style is Some) implies applies_before(secs, j, i) by {
            if secs[j].line_style is Some && !secs[j].dash_length {
                assert(setter_at(secs, w, 3, j));
                let l = spec_last_setter(secs, w, 3).unwrap();
                if l != j {
                    assert(applies_before(secs, j, l));
                }
            } else {
                assert(setter_at(secs, w, 4, j));
            }
        }
    }
    if r.gap_length is Some {
        let i = r.gap_length.unwrap() as int;
        assert forall|j: int|
            0 <= j < secs.len() && j != i && secs[j].from_waypoint <= w && (secs[j].gap_length
                || secs[j].line_style is Some) implies applies_before(secs, j, i) by {
            if secs[j].line_style is Some && !secs[j].gap_length {
                assert(setter_at(secs, w, 3, j));
                let l = spec_last_setter(secs, w, 3).unwrap();
                if l != j {
                    assert(applies_before(secs, j, l));
                }
            } else {
                assert(setter_at(secs, w, 5, j));
            }
        }
    }
}

} // verus!
