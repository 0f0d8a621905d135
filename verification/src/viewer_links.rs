//! The pieces of system messages whose grammar is that of `sl_types`: map
//! links to a location (with a URL-encoded region name), plain region
//! names, and the viewer's links to an object's instant message window.
//! They are read by `sl_types`' own parsers; what is read of a text is
//! named here, and verified code places the pieces in the message.
use vstd::prelude::*;

use chumsky::Parser;
use sl_types::key::OwnerKey as SlOwnerKey;
use sl_types::viewer_uri::ViewerUri;

use crate::chars::str_to_chars;
use crate::scan::text_between;
use crate::system_messages::{Location, UnconstrainedLocation};

verus! {

/// what `sl_types::map::url_unconstrained_location_parser` reads at the
/// start of `text`: the region name, the coordinates and the text it
/// read
pub uninterp spec fn spec_url_location(text: Seq<char>) -> Option<
    (Seq<char>, i16, i16, i32, Seq<char>),
>;

/// `read` is a prefix of `text`
pub open spec fn is_prefix_of(read: Seq<char>, text: Seq<char>) -> bool {
    read.len() <= text.len() && read == text.subrange(0, read.len() as int)
}

/// Reads a map location (`Region%20Name/x/y/z`, the region name
/// URL-encoded, `x` and `y` as `i16`, `z` as `i32`) at the start of `text`
/// with `sl_types::map::url_unconstrained_location_parser`, and returns
/// the region name, the coordinates and the text it read. The
/// contract names the result and states only that the text read is a
/// prefix of `text`.
#[verifier::external_body]
fn url_location_prefix(text: &str) -> (r: Option<(String, i16, i16, i32, String)>)
    ensures
        match spec_url_location(text@) {
            None => r is None,
            Some((n, x, y, z, read)) => r matches Some((n2, x2, y2, z2, read2)) && n2@ == n && x2
                == x && y2 == y && z2 == z && read2@ == read,
        },
        r matches Some((_, _, _, _, read)) ==> is_prefix_of(read@, text@),
{
    let value = sl_types::map::url_unconstrained_location_parser().lazy().parse(text);
    let read = sl_types::map::url_unconstrained_location_parser().to_slice().lazy().parse(text);
    match (value.into_result(), read.into_result()) {
        (Ok(l), Ok(read)) => Some((l.region_name.into_inner(), l.x, l.y, l.z, read.to_owned())),
        _ => None,
    }
}

/// what `sl_types::map::region_name_parser` reads at the start of `text`:
/// the region name and the text it read
pub uninterp spec fn spec_region_name_prefix(text: Seq<char>) -> Option<(Seq<char>, Seq<char>)>;

/// Reads a region name (letters, digits, spaces, `'` and `-`, at least
/// two) at the start of `text` with `sl_types::map::region_name_parser`
/// and returns it (as `sl_types::map::RegionName` keeps it) and the text it
/// read. The contract names the result and states only that the text read
/// is a prefix of `text`.
#[verifier::external_body]
fn region_name_prefix(text: &str) -> (r: Option<(String, String)>)
    ensures
        match spec_region_name_prefix(text@) {
            None => r is None,
            Some((n, read)) => r matches Some((n2, read2)) && n2@ == n && read2@ == read,
        },
        r matches Some((_, read)) ==> is_prefix_of(read@, text@),
{
    let value = sl_types::map::region_name_parser().lazy().parse(text);
    let read = sl_types::map::region_name_parser().to_slice().lazy().parse(text);
    match (value.into_result(), read.into_result()) {
        (Ok(n), Ok(read)) => Some((n.into_inner(), read.to_owned())),
        _ => None,
    }
}

/// what `sl_types::viewer_uri::viewer_app_objectim_uri_parser` reads at the
/// start of `text`: the object's key and name, whether its owner is a
/// group, the owner's key, the object's location (region, x, y, z) and the
/// text it read
pub uninterp spec fn spec_objectim_link(text: Seq<char>) -> Option<
    (Seq<char>, Seq<char>, bool, Seq<char>, Seq<char>, u8, u8, u16, Seq<char>),
>;

/// the fields of an object instant message link
pub type ObjectLinkFields = (String, String, bool, String, String, u8, u8, u16, String);

/// Reads a link to an object's instant message window
/// (`secondlife:///app/objectim/<key>/?name=...&owner=...&slurl=...`) at
/// the start of `text` with
/// `sl_types::viewer_uri::viewer_app_objectim_uri_parser`, and returns the
/// object's key (as its UUID text), its name, whether the owner is a group
/// and the owner's key, the location and the text it read. The
/// contract names the result and states only that the text read is a
/// prefix of `text`.
#[verifier::external_body]
fn objectim_link_prefix(text: &str) -> (r: Option<ObjectLinkFields>)
    ensures
        match spec_objectim_link(text@) {
            None => r is None,
            Some((k, n, g, o, rn, x, y, z, read)) => r matches Some(v) && v.0@ == k && v.1@ == n
                && v.2 == g && v.3@ == o && v.4@ == rn && v.5 == x && v.6 == y && v.7 == z && v.8@
                == read,
        },
        r matches Some(v) ==> is_prefix_of(v.8@, text@),
{
    let value = sl_types::viewer_uri::viewer_app_objectim_uri_parser().lazy().parse(text);
    let read = sl_types::viewer_uri::viewer_app_objectim_uri_parser().to_slice().lazy().parse(text);
    match (value.into_result(), read.into_result()) {
        (Ok(ViewerUri::ObjectInstantMessage { object_key, object_name, owner, location: l }), Ok(read)) => {
            let (g, o) = match owner {
                SlOwnerKey::Agent(k) => (false, k.to_string()),
                SlOwnerKey::Group(k) => (true, k.to_string()),
            };
            Some((object_key.to_string(), object_name, g, o, l.region_name.into_inner(), l.x, l.y, l.z, read.to_owned()))
        },
        _ => None,
    }
}

/// the map location at index `p` of `s`: the region name, the coordinates
/// and the index after it
pub open spec fn spec_location_at(s: Seq<char>, p: int) -> Option<(Seq<char>, i16, i16, i32, int)> {
    if 0 <= p <= s.len() {
        match spec_url_location(s.subrange(p, s.len() as int)) {
            Some((n, x, y, z, read)) => Some((n, x, y, z, p + read.len())),
            None => None,
        }
    } else {
        None
    }
}

/// `l` is the location `spec_location_at` reads at `p`
pub open spec fn location_is(s: Seq<char>, p: int, l: UnconstrainedLocation) -> bool {
    match spec_location_at(s, p) {
        Some((n, x, y, z, _)) => l.region_name@ == n && l.x == x && l.y == y && l.z == z,
        None => false,
    }
}

/// the map location at index `p` of `s` and the index after it
pub fn location_at(s: &Vec<char>, p: usize) -> (r: Option<(UnconstrainedLocation, usize)>)
    ensures
        match spec_location_at(s@, p as int) {
            None => r is None,
            Some((_, _, _, _, e)) => r matches Some((l, e2)) && e2 == e && location_is(
                s@,
                p as int,
                l,
            ) && p <= e <= s@.len(),
        },
{
    let sl = s.len();
    if p > sl {
        return None;
    }
    let text = text_between(s, p, sl);
    match url_location_prefix(text.as_str()) {
        Some((region_name, x, y, z, read)) => {
            let rc = str_to_chars(read.as_str());
            Some((UnconstrainedLocation { region_name, x, y, z }, p + rc.len()))
        },
        None => None,
    }
}

/// the region name at index `p` of `s` and the index after it
pub open spec fn spec_region_name_at(s: Seq<char>, p: int) -> Option<(Seq<char>, int)> {
    if 0 <= p <= s.len() {
        match spec_region_name_prefix(s.subrange(p, s.len() as int)) {
            Some((n, read)) => Some((n, p + read.len())),
            None => None,
        }
    } else {
        None
    }
}

/// the region name at index `p` of `s` and the index after it
pub fn region_name_at(s: &Vec<char>, p: usize) -> (r: Option<(String, usize)>)
    ensures
        match spec_region_name_at(s@, p as int) {
            None => r is None,
            Some((n, e)) => r matches Some((n2, e2)) && n2@ == n && e2 == e && p <= e <= s@.len(),
        },
{
    let sl = s.len();
    if p > sl {
        return None;
    }
    let text = text_between(s, p, sl);
    match region_name_prefix(text.as_str()) {
        Some((name, read)) => {
            let rc = str_to_chars(read.as_str());
            Some((name, p + rc.len()))
        },
        None => None,
    }
}

/// the object instant message link at index `p` of `s`: its fields and the
/// index after it
pub open spec fn spec_objectim_at(s: Seq<char>, p: int) -> Option<
    (Seq<char>, Seq<char>, bool, Seq<char>, Seq<char>, u8, u8, u16, int),
> {
    if 0 <= p <= s.len() {
        match spec_objectim_link(s.subrange(p, s.len() as int)) {
            Some((k, n, g, o, rn, x, y, z, read)) => Some((k, n, g, o, rn, x, y, z, p + read.len())),
            None => None,
        }
    } else {
        None
    }
}

/// the object instant message link at index `p` of `s`: the object's key,
/// its name, whether the owner is a group, the owner's key, the location
/// and the index after it
pub fn objectim_at(s: &Vec<char>, p: usize) -> (r: Option<
    (String, String, bool, String, Location, usize),
>)
    ensures
        match spec_objectim_at(s@, p as int) {
            None => r is None,
            Some((k, n, g, o, rn, x, y, z, e)) => r matches Some(v) && v.0@ == k && v.1@ == n
                && v.2 == g && v.3@ == o && v.4.region_name@ == rn && v.4.x == x && v.4.y == y
                && v.4.z == z && v.5 == e && p <= e <= s@.len(),
        },
{
    let sl = s.len();
    if p > sl {
        return None;
    }
    let text = text_between(s, p, sl);
    match objectim_link_prefix(text.as_str()) {
        Some((k, n, g, o, region_name, x, y, z, read)) => {
            let rc = str_to_chars(read.as_str());
            Some((k, n, g, o, Location { region_name, x, y, z }, p + rc.len()))
        },
        None => None,
    }
}

/// what `sl_types::attachment::attachment_point_parser` reads at the start
/// of `text`: the text it read
pub uninterp spec fn spec_attachment_point_prefix(text: Seq<char>) -> Option<Seq<char>>;

/// Reads the name of an attachment point of an avatar or a HUD (`Chest`,
/// `Bottom Left`, ...) at the start of `text` with
/// `sl_types::attachment::attachment_point_parser` and returns the text it
/// read. The contract names the result and states only that it is a prefix
/// of `text`.
#[verifier::external_body]
fn attachment_point_prefix(text: &str) -> (r: Option<String>)
    ensures
        match spec_attachment_point_prefix(text@) {
            None => r is None,
            Some(t) => r matches Some(x) && x@ == t,
        },
        r matches Some(x) ==> is_prefix_of(x@, text@),
{
    match sl_types::attachment::attachment_point_parser().to_slice().lazy().parse(text).into_result() {
        Ok(read) => Some(read.to_owned()),
        Err(_) => None,
    }
}

/// the attachment point named at index `p` of `s`: its name as written and
/// the index after it
pub open spec fn spec_attachment_point_at(s: Seq<char>, p: int) -> Option<(Seq<char>, int)> {
    if 0 <= p <= s.len() {
        match spec_attachment_point_prefix(s.subrange(p, s.len() as int)) {
            Some(read) => Some((read, p + read.len())),
            None => None,
        }
    } else {
        None
    }
}

/// the attachment point named at index `p` of `s` and the index after it
pub fn attachment_point_at(s: &Vec<char>, p: usize) -> (r: Option<(String, usize)>)
    ensures
        match spec_attachment_point_at(s@, p as int) {
            None => r is None,
            Some((n, e)) => r matches Some((n2, e2)) && n2@ == n && e2 == e && p <= e <= s@.len(),
        },
{
    let sl = s.len();
    if p > sl {
        return None;
    }
    let text = text_between(s, p, sl);
    match attachment_point_prefix(text.as_str()) {
        Some(read) => {
            let rc = str_to_chars(read.as_str());
            Some((read, p + rc.len()))
        },
        None => None,
    }
}

} // verus!
