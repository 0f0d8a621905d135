//! Reading the answers of the Linden Lab region lookup service (region name
//! to grid coordinates and back), the bounding rectangle of the regions of
//! a route, and what to do with the region caches after a lookup.
use vstd::prelude::*;

use crate::chars::{
    ends_with_chars, find_chars, occurs_at, push_decimal_chars, push_str_chars, slice_chars,
    spec_decimal, spec_ends_with, spec_parse_unsigned, spec_starts_with, spec_trim,
    starts_with_chars, str_to_chars, string_from_chars, trim_chars,
};

verus! {

/// the error of reading an integer from text
#[verifier::external_type_specification]
#[verifier::external_body]
pub struct ExParseIntError(std::num::ParseIntError);

/// read a `u16` from decimal text; this calls `str::parse::<u16>`, whose
/// documentation (`u16::from_str_radix` with radix 10) accepts exactly an
/// optional `+` followed by one or more ASCII digits whose value fits
#[verifier::external_body]
fn parse_u16(s: &str) -> (r: Result<u16, std::num::ParseIntError>)
    ensures
        r is Ok <==> spec_parse_unsigned(s@, 0xffff) is Some,
        r matches Ok(v) ==> v == spec_parse_unsigned(s@, 0xffff).unwrap(),
{
    s.parse::<u16>()
}

/// what the region-name lookup answers for a name that names no region
pub open spec fn spec_coords_absent() -> Seq<char> {
    "var coords = {'error' : true };"@
}

/// the text before the x coordinate in a region-name lookup answer
pub open spec fn spec_coords_prefix() -> Seq<char> {
    "var coords = {'x' : "@
}

/// the text after the y coordinate in a region-name lookup answer
pub open spec fn spec_coords_suffix() -> Seq<char> {
    " };"@
}

/// the text between the two coordinates in a region-name lookup answer
pub open spec fn spec_coords_infix() -> Seq<char> {
    ", 'y' : "@
}

/// why an answer of the region-name lookup could not be read
#[derive(Debug)]
pub enum CoordinatesResponseError {
    /// the answer (given) does not start as expected
    UnexpectedPrefix(String),
    /// the answer after its prefix (given) does not end as expected
    UnexpectedSuffix(String),
    /// the coordinates part (given) is not two values separated once
    UnexpectedInfix(String),
    /// the x coordinate (given) is not a `u16`
    X(String, std::num::ParseIntError),
    /// the y coordinate (given) is not a `u16`
    Y(String, std::num::ParseIntError),
}

/// the answer text between the prefix and the suffix
pub open spec fn spec_coords_middle(body: Seq<char>) -> Seq<char> {
    let r1 = body.subrange(spec_coords_prefix().len() as int, body.len() as int);
    r1.subrange(0, r1.len() - spec_coords_suffix().len())
}

/// `r` is the reading of the region-name lookup answer `body`: `Ok(None)`
/// for the answer that no region has the name, otherwise `var coords =
/// {'x' : X, 'y' : Y };` with `X` and `Y` decimal `u16` values, and
/// otherwise the error at the first part that does not fit
pub open spec fn coords_response_is(
    body: Seq<char>,
    r: Result<Option<(u16, u16)>, CoordinatesResponseError>,
) -> bool {
    &&& (body == spec_coords_absent() ==> r matches Ok(None))
    &&& (body != spec_coords_absent() && !spec_starts_with(body, spec_coords_prefix()) ==> (r matches Err(
            CoordinatesResponseError::UnexpectedPrefix(t),
        ) && t@ == body))
    &&& (body != spec_coords_absent() && spec_starts_with(body, spec_coords_prefix()) ==> {
            let r1 = body.subrange(spec_coords_prefix().len() as int, body.len() as int);
            let mid = spec_coords_middle(body);
            let sep = spec_coords_infix();
            if !spec_ends_with(r1, spec_coords_suffix()) {
                r matches Err(CoordinatesResponseError::UnexpectedSuffix(t)) && t@ == r1
            } else if !(exists|i: int|
                occurs_at(mid, sep, i) && (forall|j: int| j != i ==> !occurs_at(mid, sep, j))) {
                r matches Err(CoordinatesResponseError::UnexpectedInfix(t)) && t@ == mid
            } else {
                let i = choose|i: int| occurs_at(mid, sep, i);
                let x = mid.subrange(0, i);
                let y = mid.subrange(i + sep.len(), mid.len() as int);
                if spec_parse_unsigned(x, 0xffff) is None {
                    r matches Err(CoordinatesResponseError::X(t, _)) && t@ == x
                } else if spec_parse_unsigned(y, 0xffff) is None {
                    r matches Err(CoordinatesResponseError::Y(t, _)) && t@ == y
                } else {
                    r matches Ok(Some(c)) && c.0 == spec_parse_unsigned(x, 0xffff).unwrap() && c.1
                        == spec_parse_unsigned(y, 0xffff).unwrap()
                }
            }
        })
}

/// Read the answer of the region-name lookup: `Ok(None)` for the answer
/// that no region has the name, otherwise `var coords = {'x' : X, 'y' : Y };`
/// with `X` and `Y` decimal `u16` values
pub fn parse_coordinates_response(body: &str) -> (r: Result<Option<(u16, u16)>, CoordinatesResponseError>)
    ensures
        coords_response_is(body@, r),
{
    let chars = str_to_chars(body);
    let absent = str_to_chars("var coords = {'error' : true };");
    let prefix = str_to_chars("var coords = {'x' : ");
    let suffix = str_to_chars(" };");
    let sep = str_to_chars(", 'y' : ");
    if crate::chars::str_eq(body, "var coords = {'error' : true };") {
        return Ok(None);
    }
    if !starts_with_chars(&chars, &prefix) {
        return Err(CoordinatesResponseError::UnexpectedPrefix(body.to_owned()));
    }
    let r1 = slice_chars(&chars, prefix.len(), chars.len());
    if !ends_with_chars(&r1, &suffix) {
        return Err(CoordinatesResponseError::UnexpectedSuffix(string_from_chars(&r1)));
    }
    let mid = slice_chars(&r1, 0, r1.len() - suffix.len());
    let ghost g_mid = mid@;
    let ghost g_sep = sep@;
    let first = find_chars(&mid, &sep);
    let i = match first {
        Some(i) => i,
        None => {
            return Err(CoordinatesResponseError::UnexpectedInfix(string_from_chars(&mid)));
        },
    };
    let rest = slice_chars(&mid, i + sep.len(), mid.len());
    if find_chars(&rest, &sep).is_some() {
        proof {
            reveal_strlit(", 'y' : ");
            let k = choose|k: int| occurs_at(rest@, g_sep, k);
            assert(occurs_at(g_mid, g_sep, i + g_sep.len() + k)) by {
                assert(g_mid.subrange(i + g_sep.len() + k, i + g_sep.len() + k + g_sep.len())
                    =~= rest@.subrange(k, k + g_sep.len()));
            }
            assert forall|x: int| occurs_at(g_mid, g_sep, x) implies exists|j: int|
                j != x && occurs_at(g_mid, g_sep, j) by {
                if x == i {
                    assert(occurs_at(g_mid, g_sep, i + g_sep.len() + k));
                } else {
                    assert(occurs_at(g_mid, g_sep, i as int));
                }
            }
        }
        return Err(CoordinatesResponseError::UnexpectedInfix(string_from_chars(&mid)));
    }
    proof {
        assert forall|j: int| j != i implies !occurs_at(g_mid, g_sep, j) by {
            if j > i && occurs_at(g_mid, g_sep, j) {
                if j >= i + g_sep.len() {
                    assert(occurs_at(rest@, g_sep, j - i - g_sep.len())) by {
                        assert(rest@.subrange(j - i - g_sep.len(), j - i - g_sep.len() + g_sep.len())
                            =~= g_mid.subrange(j, j + g_sep.len()));
                    }
                } else {
                    reveal_strlit(", 'y' : ");
                    assert(g_mid[j] == g_sep[0]);
                    assert(g_mid[j] == g_sep[j - i]);
                }
            }
        }
        let c = choose|c: int| occurs_at(g_mid, g_sep, c);
        assert(c == i);
    }
    let x = slice_chars(&mid, 0, i);
    let xs = string_from_chars(&x);
    let xv = match parse_u16(xs.as_str()) {
        Ok(v) => v,
        Err(e) => {
            return Err(CoordinatesResponseError::X(xs, e));
        },
    };
    let ys = string_from_chars(&rest);
    let yv = match parse_u16(ys.as_str()) {
        Ok(v) => v,
        Err(e) => {
            return Err(CoordinatesResponseError::Y(ys, e));
        },
    };
    Ok(Some((xv, yv)))
}

/// what the grid-coordinates lookup answers for coordinates without a
/// region
pub open spec fn spec_name_absent() -> Seq<char> {
    "var region = {'error' : true };"@
}

/// the text before the name in a grid-coordinates lookup answer
pub open spec fn spec_name_prefix() -> Seq<char> {
    "var region='"@
}

/// the text after the name in a grid-coordinates lookup answer
pub open spec fn spec_name_suffix() -> Seq<char> {
    "';"@
}

/// why a text is not a region name
#[derive(Debug, Clone, Copy, PartialEq, Eq, Structural)]
pub enum RegionNameProblem {
    /// fewer than 2 characters once trimmed
    TooShort,
    /// more than 35 characters once trimmed
    TooLong,
}

/// why an answer of the grid-coordinates lookup could not be read
#[derive(Debug)]
pub enum RegionNameResponseError {
    /// the answer (given) does not start as expected
    UnexpectedPrefix(String),
    /// the answer after its prefix (given) does not end as expected
    UnexpectedSuffix(String),
    /// the name part (given) is not a region name
    RegionName(String, RegionNameProblem),
}

/// a region name is its text with surrounding whitespace removed, between
/// 2 and 35 characters long (the rule of `sl_types::map::RegionName`)
pub fn validate_region_name(text: &str) -> (r: Result<String, RegionNameProblem>)
    ensures
        spec_trim(text@).len() < 2 ==> r == Err::<String, RegionNameProblem>(
            RegionNameProblem::TooShort,
        ),
        spec_trim(text@).len() > 35 ==> r == Err::<String, RegionNameProblem>(
            RegionNameProblem::TooLong,
        ),
        2 <= spec_trim(text@).len() <= 35 ==> (r matches Ok(n) && n@ == spec_trim(text@)),
{
    let chars = str_to_chars(text);
    let t = trim_chars(&chars);
    if t.len() < 2 {
        return Err(RegionNameProblem::TooShort);
    }
    if t.len() > 35 {
        return Err(RegionNameProblem::TooLong);
    }
    Ok(string_from_chars(&t))
}

/// `r` is the reading of the grid-coordinates lookup answer `body`:
/// `Ok(None)` for the answer that there is no region there, otherwise
/// `var region='NAME';` with `NAME` a valid region name (trimmed), and
/// otherwise the error at the first part that does not fit
pub open spec fn name_response_is(
    body: Seq<char>,
    r: Result<Option<String>, RegionNameResponseError>,
) -> bool {
    &&& (body == spec_name_absent() ==> r matches Ok(None))
    &&& (body != spec_name_absent() && !spec_starts_with(body, spec_name_prefix()) ==> (r matches Err(
            RegionNameResponseError::UnexpectedPrefix(t),
        ) && t@ == body))
    &&& (body != spec_name_absent() && spec_starts_with(body, spec_name_prefix()) ==> {
            let r1 = body.subrange(spec_name_prefix().len() as int, body.len() as int);
            let name = r1.subrange(0, r1.len() - spec_name_suffix().len());
            if !spec_ends_with(r1, spec_name_suffix()) {
                r matches Err(RegionNameResponseError::UnexpectedSuffix(t)) && t@ == r1
            } else if spec_trim(name).len() < 2 {
                r matches Err(RegionNameResponseError::RegionName(t, p)) && t@ == name && p
                    == RegionNameProblem::TooShort
            } else if spec_trim(name).len() > 35 {
                r matches Err(RegionNameResponseError::RegionName(t, p)) && t@ == name && p
                    == RegionNameProblem::TooLong
            } else {
                r matches Ok(Some(n)) && n@ == spec_trim(name)
            }
        })
}

/// Read the answer of the grid-coordinates lookup: `Ok(None)` for the
/// answer that there is no region there, otherwise `var region='NAME';`
/// with `NAME` a valid region name (returned trimmed)
pub fn parse_region_name_response(body: &str) -> (r: Result<Option<String>, RegionNameResponseError>)
    ensures
        name_response_is(body@, r),
{
    let chars = str_to_chars(body);
    let prefix = str_to_chars("var region='");
    let suffix = str_to_chars("';");
    if crate::chars::str_eq(body, "var region = {'error' : true };") {
        return Ok(None);
    }
    if !starts_with_chars(&chars, &prefix) {
        return Err(RegionNameResponseError::UnexpectedPrefix(body.to_owned()));
    }
    let r1 = slice_chars(&chars, prefix.len(), chars.len());
    if !ends_with_chars(&r1, &suffix) {
        return Err(RegionNameResponseError::UnexpectedSuffix(string_from_chars(&r1)));
    }
    let name = slice_chars(&r1, 0, r1.len() - suffix.len());
    let text = string_from_chars(&name);
    match validate_region_name(text.as_str()) {
        Ok(n) => Ok(Some(n)),
        Err(p) => Err(RegionNameResponseError::RegionName(text, p)),
    }
}

/// the smallest grid rectangle holding a set of region coordinates:
/// lower-left and upper-right corners
#[derive(Debug, Clone, Copy, PartialEq, Eq, Structural)]
pub struct GridBounds {
    /// smallest x
    pub lower_left_x: u16,
    /// smallest y
    pub lower_left_y: u16,
    /// largest x
    pub upper_right_x: u16,
    /// largest y
    pub upper_right_y: u16,
}

/// the bounds of the coordinates `cs`, `None` for no coordinates
pub open spec fn spec_bounds(cs: Seq<(u16, u16)>) -> Option<GridBounds>
    decreases cs.len(),
{
    if cs.len() == 0 {
        None
    } else {
        let (x, y) = cs.last();
        match spec_bounds(cs.drop_last()) {
            None => Some(
                GridBounds { lower_left_x: x, lower_left_y: y, upper_right_x: x, upper_right_y: y },
            ),
            Some(b) => Some(
                GridBounds {
                    lower_left_x: if x < b.lower_left_x {
                        x
                    } else {
                        b.lower_left_x
                    },
                    lower_left_y: if y < b.lower_left_y {
                        y
                    } else {
                        b.lower_left_y
                    },
                    upper_right_x: if x > b.upper_right_x {
                        x
                    } else {
                        b.upper_right_x
                    },
                    upper_right_y: if y > b.upper_right_y {
                        y
                    } else {
                        b.upper_right_y
                    },
                },
            ),
        }
    }
}

/// grow the bounds of the coordinates seen so far by the region at
/// `(x, y)`
pub fn extend_bounds(acc: Option<GridBounds>, x: u16, y: u16) -> (r: GridBounds)
    ensures
        forall|cs: Seq<(u16, u16)>| spec_bounds(cs) == acc ==> spec_bounds(cs.push((x, y))) == Some(r),
{
    proof {
        assert forall|cs: Seq<(u16, u16)>| spec_bounds(cs) == acc implies spec_bounds(cs.push((x, y)))
            == Some(
            match acc {
                None => GridBounds {
                    lower_left_x: x,
                    lower_left_y: y,
                    upper_right_x: x,
                    upper_right_y: y,
                },
                Some(b) => GridBounds {
                    lower_left_x: if x < b.lower_left_x {
                        x
                    } else {
                        b.lower_left_x
                    },
                    lower_left_y: if y < b.lower_left_y {
                        y
                    } else {
                        b.lower_left_y
                    },
                    upper_right_x: if x > b.upper_right_x {
                        x
                    } else {
                        b.upper_right_x
                    },
                    upper_right_y: if y > b.upper_right_y {
                        y
                    } else {
                        b.upper_right_y
                    },
                },
            },
        ) by {
            assert(cs.push((x, y)).drop_last() =~= cs);
        }
    }
    match acc {
        None => GridBounds { lower_left_x: x, lower_left_y: y, upper_right_x: x, upper_right_y: y },
        Some(b) => GridBounds {
            lower_left_x: if x < b.lower_left_x {
                x
            } else {
                b.lower_left_x
            },
            lower_left_y: if y < b.lower_left_y {
                y
            } else {
                b.lower_left_y
            },
            upper_right_x: if x > b.upper_right_x {
                x
            } else {
                b.upper_right_x
            },
            upper_right_y: if y > b.upper_right_y {
                y
            } else {
                b.upper_right_y
            },
        },
    }
}

/// the bounds of a list of region coordinates, `None` when it is empty
pub fn grid_bounds(coords: &[(u16, u16)]) -> (r: Option<GridBounds>)
    ensures
        r == spec_bounds(coords@),
{
    let mut acc: Option<GridBounds> = None;
    let mut i: usize = 0;
    while i < coords.len()
        invariant
            i <= coords@.len(),
            acc == spec_bounds(coords@.take(i as int)),
        decreases coords.len() - i,
    {
        let (x, y) = coords[i];
        proof {
            assert(coords@.take(i as int + 1) =~= coords@.take(i as int).push((x, y)));
        }
        acc = Some(extend_bounds(acc, x, y));
        i = i + 1;
    }
    proof {
        assert(coords@.take(coords@.len() as int) =~= coords@);
    }
    acc
}

/// the bounds contain every one of the coordinates and each side touches
/// one of them
pub proof fn lemma_bounds_tight(cs: Seq<(u16, u16)>)
    requires
        cs.len() > 0,
    ensures
        spec_bounds(cs) is Some,
        forall|i: int|
            0 <= i < cs.len() ==> {
                let b = spec_bounds(cs).unwrap();
                b.lower_left_x <= (#[trigger] cs[i]).0 <= b.upper_right_x && b.lower_left_y <= cs[i].1
                    <= b.upper_right_y
            },
        exists|i: int| 0 <= i < cs.len() && cs[i].0 == spec_bounds(cs).unwrap().lower_left_x,
        exists|i: int| 0 <= i < cs.len() && cs[i].1 == spec_bounds(cs).unwrap().lower_left_y,
        exists|i: int| 0 <= i < cs.len() && cs[i].0 == spec_bounds(cs).unwrap().upper_right_x,
        exists|i: int| 0 <= i < cs.len() && cs[i].1 == spec_bounds(cs).unwrap().upper_right_y,
    decreases cs.len(),
{
    let n = cs.len() as int;
    if n == 1 {
        assert(cs.drop_last() =~= Seq::<(u16, u16)>::empty());
        assert(cs[0] == cs.last());
    } else {
        let p = cs.drop_last();
        lemma_bounds_tight(p);
        assert forall|i: int| 0 <= i < n - 1 implies #[trigger] cs[i] == p[i] by {}
        let bp = spec_bounds(p).unwrap();
        let b = spec_bounds(cs).unwrap();
        assert forall|i: int| 0 <= i < cs.len() implies {
            b.lower_left_x <= (#[trigger] cs[i]).0 <= b.upper_right_x && b.lower_left_y <= cs[i].1
                <= b.upper_right_y
        } by {
            if i < n - 1 {
                assert(cs[i] == p[i]);
            }
        }
        let i0 = choose|i: int| 0 <= i < p.len() && p[i].0 == bp.lower_left_x;
        let i1 = choose|i: int| 0 <= i < p.len() && p[i].1 == bp.lower_left_y;
        let i2 = choose|i: int| 0 <= i < p.len() && p[i].0 == bp.upper_right_x;
        let i3 = choose|i: int| 0 <= i < p.len() && p[i].1 == bp.upper_right_y;
        assert(cs[i0] == p[i0]);
        assert(cs[i1] == p[i1]);
        assert(cs[i2] == p[i2]);
        assert(cs[i3] == p[i3]);
        assert(cs[n - 1] == cs.last());
    }
}

/// `t` with every space written as `%20`
pub open spec fn spec_escape_spaces(t: Seq<char>) -> Seq<char>
    decreases t.len(),
{
    if t.len() == 0 {
        Seq::empty()
    } else {
        spec_escape_spaces(t.drop_last()) + if t.last() == ' ' {
            "%20"@
        } else {
            seq![t.last()]
        }
    }
}

/// the address of the lookup of the grid coordinates of a region
pub open spec fn spec_coordinates_lookup_url(region_name: Seq<char>) -> Seq<char> {
    "https://cap.secondlife.com/cap/0/d661249b-2b5a-4436-966a-3d3b8d7a574f?var=coords&sim_name="@
        + spec_escape_spaces(region_name)
}

/// the address of the service that answers the grid coordinates of the
/// region named `region_name` (spaces in the name written as `%20`)
pub fn coordinates_lookup_url(region_name: &str) -> (r: String)
    ensures
        r@ == spec_coordinates_lookup_url(region_name@),
{
    let name = str_to_chars(region_name);
    let mut v: Vec<char> = Vec::new();
    push_str_chars(
        &mut v,
        "https://cap.secondlife.com/cap/0/d661249b-2b5a-4436-966a-3d3b8d7a574f?var=coords&sim_name=",
    );
    let ghost head = v@;
    let mut k: usize = 0;
    while k < name.len()
        invariant
            k <= name@.len(),
            v@ == head + spec_escape_spaces(name@.subrange(0, k as int)),
        decreases name@.len() - k,
    {
        proof {
            assert(name@.subrange(0, k + 1).drop_last() =~= name@.subrange(0, k as int));
        }
        if name[k] == ' ' {
            push_str_chars(&mut v, "%20");
        } else {
            v.push(name[k]);
        }
        proof {
            assert(v@ =~= head + spec_escape_spaces(name@.subrange(0, k + 1)));
        }
        k = k + 1;
    }
    proof {
        assert(name@.subrange(0, name@.len() as int) =~= name@);
    }
    string_from_chars(&v)
}

/// the address of the lookup of the name of the region at grid
/// coordinates (`x`, `y`)
pub open spec fn spec_region_name_lookup_url(x: u32, y: u32) -> Seq<char> {
    "https://cap.secondlife.com/cap/0/b713fe80-283b-4585-af4d-a3b7d9a32492?var=region&grid_x="@
        + spec_decimal(x as nat) + "&grid_y="@ + spec_decimal(y as nat)
}

/// the address of the service that answers the name of the region at grid
/// coordinates (`x`, `y`)
pub fn region_name_lookup_url(x: u32, y: u32) -> (r: String)
    ensures
        r@ == spec_region_name_lookup_url(x, y),
{
    let mut v: Vec<char> = Vec::new();
    push_str_chars(
        &mut v,
        "https://cap.secondlife.com/cap/0/b713fe80-283b-4585-af4d-a3b7d9a32492?var=region&grid_x=",
    );
    push_decimal_chars(&mut v, x as u64);
    push_str_chars(&mut v, "&grid_y=");
    push_decimal_chars(&mut v, y as u64);
    string_from_chars(&v)
}


/// what to do with the caches of a lookup after the service answered
#[derive(Debug, Clone, Copy, PartialEq, Eq, Structural)]
pub enum CacheAction {
    /// remember the value found, with its cache policy
    StoreValue,
    /// remember that nothing was found, with the cache policy
    StoreAbsence,
    /// forget whatever was cached for the key
    Forget,
}

/// the cache update after a lookup answered `found` (a value) or not, with
/// a cache policy that allows storing (`storable`) or not
pub open spec fn spec_cache_action(found: bool, storable: bool) -> CacheAction {
    if !storable {
        CacheAction::Forget
    } else if found {
        CacheAction::StoreValue
    } else {
        CacheAction::StoreAbsence
    }
}

/// the cache update after a lookup answered: a storable answer is
/// remembered (as a value or as an absence), any other answer makes the
/// caches forget the key
pub fn cache_action(found: bool, storable: bool) -> (r: CacheAction)
    ensures
        r == (if !storable {
            CacheAction::Forget
        } else if found {
            CacheAction::StoreValue
        } else {
            CacheAction::StoreAbsence
        }),
{
    if !storable {
        CacheAction::Forget
    } else if found {
        CacheAction::StoreValue
    } else {
        CacheAction::StoreAbsence
    }
}

} // verus!
