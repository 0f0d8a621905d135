//! The naming and classification rules of the map tile cache: file names
//! and URLs of map tiles, the state of a cache entry on disk, and how a
//! server answer is read.
use vstd::prelude::*;

use crate::chars::{push_decimal_chars, push_str_chars, spec_decimal, string_from_chars};

verus! {

/// status of a cache entry on disk
#[derive(Debug, Clone, Copy, PartialEq, Eq, Structural)]
pub enum MapTileCacheEntryStatus {
    /// no files at all related to a map tile in the cache
    Missing,
    /// an incomplete set of files related to a map tile in the cache
    Invalid,
    /// a usable set of files related to a map tile in the cache (cache
    /// policy + either a map tile or an absence marker)
    Valid,
}

/// the status of a cache entry from which of its three files exist: the
/// cache policy, the tile image and the marker of an absent tile
pub fn cache_entry_status(policy_file: bool, tile_file: bool, absence_file: bool) -> (r:
    MapTileCacheEntryStatus)
    ensures
        r == (if !policy_file && !tile_file && !absence_file {
            MapTileCacheEntryStatus::Missing
        } else if policy_file && (tile_file != absence_file) {
            MapTileCacheEntryStatus::Valid
        } else {
            MapTileCacheEntryStatus::Invalid
        }),
{
    match (policy_file, tile_file, absence_file) {
        (false, false, false) => MapTileCacheEntryStatus::Missing,
        (true, true, false) => MapTileCacheEntryStatus::Valid,
        (true, false, true) => MapTileCacheEntryStatus::Valid,
        _ => MapTileCacheEntryStatus::Invalid,
    }
}

/// the name of the map tile of zoom level `zoom` whose lower-left region
/// is at `(x, y)`
pub open spec fn spec_tile_file_name(zoom: u8, x: u16, y: u16) -> Seq<char> {
    "map-"@ + spec_decimal(zoom as nat) + "-"@ + spec_decimal(x as nat) + "-"@ + spec_decimal(
        y as nat,
    ) + "-objects.jpg"@
}

/// the file name of a map tile: `map-{zoom}-{x}-{y}-objects.jpg` with the
/// zoom level and the grid coordinates of its lower-left region
pub fn map_tile_file_name(zoom: u8, x: u16, y: u16) -> (r: String)
    ensures
        r@ == spec_tile_file_name(zoom, x, y),
{
    let mut v: Vec<char> = Vec::new();
    push_str_chars(&mut v, "map-");
    push_decimal_chars(&mut v, zoom as u64);
    push_str_chars(&mut v, "-");
    push_decimal_chars(&mut v, x as u64);
    push_str_chars(&mut v, "-");
    push_decimal_chars(&mut v, y as u64);
    push_str_chars(&mut v, "-objects.jpg");
    string_from_chars(&v)
}

/// the name of the file marking that the tile `tile_file_name` does not
/// exist
pub fn absence_marker_file_name(tile_file_name: &str) -> (r: String)
    ensures
        r@ == tile_file_name@ + ".does-not-exist"@,
{
    let mut v: Vec<char> = Vec::new();
    push_str_chars(&mut v, tile_file_name);
    push_str_chars(&mut v, ".does-not-exist");
    string_from_chars(&v)
}

/// the name of the file holding the cache policy of the tile
/// `tile_file_name`
pub fn cache_policy_file_name(tile_file_name: &str) -> (r: String)
    ensures
        r@ == tile_file_name@ + ".cache-policy.json"@,
{
    let mut v: Vec<char> = Vec::new();
    push_str_chars(&mut v, tile_file_name);
    push_str_chars(&mut v, ".cache-policy.json");
    string_from_chars(&v)
}

/// the URL of the tile `tile_file_name` on the Second Life map server
pub fn map_tile_url(tile_file_name: &str) -> (r: String)
    ensures
        r@ == "https://secondlife-maps-cdn.akamaized.net/"@ + tile_file_name@,
{
    let mut v: Vec<char> = Vec::new();
    push_str_chars(&mut v, "https://secondlife-maps-cdn.akamaized.net/");
    push_str_chars(&mut v, tile_file_name);
    string_from_chars(&v)
}

/// how an answer of the map server to a tile request is read
#[derive(Debug, Clone, Copy, PartialEq, Eq, Structural)]
pub enum TileAnswer {
    /// a success: the body is the tile image
    Tile,
    /// 403 FORBIDDEN: there is no tile (no region) at these coordinates
    Absent,
    /// any other status: the request failed
    Failure,
}

/// read the HTTP status of an answer to a tile request
pub fn tile_answer(status: u16) -> (r: TileAnswer)
    ensures
        r == (if 200 <= status <= 299 {
            TileAnswer::Tile
        } else if status == 403 {
            TileAnswer::Absent
        } else {
            TileAnswer::Failure
        }),
{
    if 200 <= status && status <= 299 {
        TileAnswer::Tile
    } else if status == 403 {
        TileAnswer::Absent
    } else {
        TileAnswer::Failure
    }
}

/// the status under which the answer for an absent tile is cached: the
/// server's 403 FORBIDDEN counts as 404 NOT FOUND, so that the answer can
/// be cached; any other status stays as it is
pub fn absence_cache_status(status: u16) -> (r: u16)
    ensures
        r == (if status == 403 {
            404
        } else {
            status
        }),
{
    if status == 403 {
        404
    } else {
        status
    }
}

} // verus!
