use sl_map_tools::map_tiles::MapTileCacheEntryStatus as S;
use sl_map_tools::map_tiles::{
    absence_cache_status, absence_marker_file_name, cache_entry_status, cache_policy_file_name,
    map_tile_file_name, map_tile_url, tile_answer, MapTileCacheEntryStatus, TileAnswer,
};

#[test]
fn tile_file_names_and_url() {
    let name = map_tile_file_name(1, 1136, 1075);
    assert_eq!(name, "map-1-1136-1075-objects.jpg");
    assert_eq!(map_tile_file_name(8, 0, 65535), "map-8-0-65535-objects.jpg");
    assert_eq!(absence_marker_file_name(&name), "map-1-1136-1075-objects.jpg.does-not-exist");
    assert_eq!(cache_policy_file_name(&name), "map-1-1136-1075-objects.jpg.cache-policy.json");
    assert_eq!(
        map_tile_url(&name),
        "https://secondlife-maps-cdn.akamaized.net/map-1-1136-1075-objects.jpg"
    );
}

#[test]
fn cache_entry_states() {
    assert_eq!(cache_entry_status(false, false, false), S::Missing);
    assert_eq!(cache_entry_status(true, true, false), S::Valid);
    assert_eq!(cache_entry_status(true, false, true), S::Valid);
    assert_eq!(cache_entry_status(true, false, false), S::Invalid);
    assert_eq!(cache_entry_status(true, true, true), S::Invalid);
    assert_eq!(cache_entry_status(false, true, false), S::Invalid);
    assert_eq!(cache_entry_status(false, false, true), S::Invalid);
}

#[test]
fn server_answers() {
    assert_eq!(tile_answer(200), TileAnswer::Tile);
    assert_eq!(tile_answer(204), TileAnswer::Tile);
    assert_eq!(tile_answer(403), TileAnswer::Absent);
    assert_eq!(tile_answer(404), TileAnswer::Failure);
    assert_eq!(tile_answer(500), TileAnswer::Failure);
    assert_eq!(absence_cache_status(403), 404);
    assert_eq!(absence_cache_status(200), 200);
}
