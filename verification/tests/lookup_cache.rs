use sl_map_tools::lookup_cache::{
    coordinates_lookup_step, region_name_lookup_step, CachedAnswer, LookupEvent, LookupStep,
};
use sl_map_tools::region::{CacheAction, CoordinatesResponseError};

const COORDS_URL: &str =
    "https://cap.secondlife.com/cap/0/d661249b-2b5a-4436-966a-3d3b8d7a574f?var=coords&sim_name=Da%20Boom";

#[test]
fn lookup_goes_memory_then_disk_then_service() {
    assert!(matches!(coordinates_lookup_step("Da Boom", LookupEvent::Start), LookupStep::ReadMemory));
    assert!(matches!(coordinates_lookup_step("Da Boom", LookupEvent::Memory(None)), LookupStep::ReadDisk));
    match coordinates_lookup_step("Da Boom", LookupEvent::Disk(None)) {
        LookupStep::Fetch(url) => assert_eq!(url, COORDS_URL),
        other => panic!("unexpected {other:?}"),
    }
}

#[test]
fn fresh_entries_answer_and_stale_ones_fetch() {
    let fresh = CachedAnswer { value: Some((1136, 1075)), fresh: true, storable: true };
    assert!(matches!(
        coordinates_lookup_step("Da Boom", LookupEvent::Memory(Some(fresh))),
        LookupStep::Answer(CacheAction::StoreValue, Some((1136, 1075)))
    ));
    let absent = CachedAnswer { value: None, fresh: true, storable: true };
    assert!(matches!(
        coordinates_lookup_step("Da Boom", LookupEvent::Disk(Some(absent))),
        LookupStep::Answer(CacheAction::StoreAbsence, None)
    ));
    let stale = CachedAnswer { value: Some((1, 2)), fresh: false, storable: true };
    match coordinates_lookup_step("Da Boom", LookupEvent::Memory(Some(stale))) {
        LookupStep::Fetch(url) => assert_eq!(url, COORDS_URL),
        other => panic!("unexpected {other:?}"),
    }
}

#[test]
fn service_answers_are_read_and_cached_per_policy() {
    let ev = LookupEvent::Response { body: "var coords = {'x' : 1136, 'y' : 1075 };".to_owned(), storable: true };
    assert!(matches!(
        coordinates_lookup_step("Da Boom", ev),
        LookupStep::Answer(CacheAction::StoreValue, Some((1136, 1075)))
    ));
    let ev = LookupEvent::Response { body: "var coords = {'error' : true };".to_owned(), storable: false };
    assert!(matches!(coordinates_lookup_step("Da Boom", ev), LookupStep::Answer(CacheAction::Forget, None)));
    let ev = LookupEvent::Response { body: "nonsense".to_owned(), storable: true };
    assert!(matches!(
        coordinates_lookup_step("Da Boom", ev),
        LookupStep::Fail(CoordinatesResponseError::UnexpectedPrefix(_))
    ));
}

#[test]
fn two_name_lookups_in_a_row_give_the_service_answer() {
    let ev = LookupEvent::Response { body: "var region='Da Boom';".to_owned(), storable: true };
    let first = region_name_lookup_step(1136, 1075, ev);
    let value = match first {
        LookupStep::Answer(CacheAction::StoreValue, v) => v,
        other => panic!("unexpected {other:?}"),
    };
    assert_eq!(value.as_deref(), Some("Da Boom"));
    let cached = CachedAnswer { value: value.clone(), fresh: true, storable: true };
    match region_name_lookup_step(1136, 1075, LookupEvent::Memory(Some(cached))) {
        LookupStep::Answer(_, v) => assert_eq!(v, value),
        other => panic!("unexpected {other:?}"),
    }
    match region_name_lookup_step(1136, 1075, LookupEvent::Disk(None)) {
        LookupStep::Fetch(url) => assert_eq!(
            url,
            "https://cap.secondlife.com/cap/0/b713fe80-283b-4585-af4d-a3b7d9a32492?var=region&grid_x=1136&grid_y=1075"
        ),
        other => panic!("unexpected {other:?}"),
    }
}
