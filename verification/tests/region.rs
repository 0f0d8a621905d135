use sl_map_tools::region::{
    cache_action, coordinates_lookup_url, grid_bounds, parse_coordinates_response, parse_region_name_response,
    region_name_lookup_url, validate_region_name, CacheAction, CoordinatesResponseError, GridBounds, RegionNameProblem,
    RegionNameResponseError,
};

#[test]
fn coordinates_answer_is_read() {
    assert!(matches!(
        parse_coordinates_response("var coords = {'x' : 1136, 'y' : 1075 };"),
        Ok(Some((1136, 1075)))
    ));
    assert!(matches!(parse_coordinates_response("var coords = {'error' : true };"), Ok(None)));
}

#[test]
fn malformed_coordinates_answers_name_the_part() {
    assert!(matches!(
        parse_coordinates_response("oops"),
        Err(CoordinatesResponseError::UnexpectedPrefix(t)) if t == "oops"
    ));
    assert!(matches!(
        parse_coordinates_response("var coords = {'x' : 1, 'y' : 2 }"),
        Err(CoordinatesResponseError::UnexpectedSuffix(t)) if t == "1, 'y' : 2 }"
    ));
    assert!(matches!(
        parse_coordinates_response("var coords = {'x' : 1 };"),
        Err(CoordinatesResponseError::UnexpectedInfix(t)) if t == "1"
    ));
    assert!(matches!(
        parse_coordinates_response("var coords = {'x' : 1, 'y' : 2, 'y' : 3 };"),
        Err(CoordinatesResponseError::UnexpectedInfix(_))
    ));
    assert!(matches!(
        parse_coordinates_response("var coords = {'x' : abc, 'y' : 2 };"),
        Err(CoordinatesResponseError::X(t, _)) if t == "abc"
    ));
    assert!(matches!(
        parse_coordinates_response("var coords = {'x' : 1, 'y' : 70000 };"),
        Err(CoordinatesResponseError::Y(t, _)) if t == "70000"
    ));
    assert!(matches!(
        parse_coordinates_response("var coords = {'x' : +7, 'y' : 0 };"),
        Ok(Some((7, 0)))
    ));
}

#[test]
fn region_name_answer_is_read() {
    assert!(matches!(
        parse_region_name_response("var region='Da Boom';"),
        Ok(Some(n)) if n == "Da Boom"
    ));
    assert!(matches!(parse_region_name_response("var region = {'error' : true };"), Ok(None)));
    assert!(matches!(
        parse_region_name_response("region='x';"),
        Err(RegionNameResponseError::UnexpectedPrefix(_))
    ));
    assert!(matches!(
        parse_region_name_response("var region='Da Boom'"),
        Err(RegionNameResponseError::UnexpectedSuffix(t)) if t == "Da Boom'"
    ));
    assert!(matches!(
        parse_region_name_response("var region='X';"),
        Err(RegionNameResponseError::RegionName(t, RegionNameProblem::TooShort)) if t == "X"
    ));
}

#[test]
fn region_names_are_trimmed_and_bounded() {
    assert!(matches!(validate_region_name("  Ahab's Haunt "), Ok(n) if n == "Ahab's Haunt"));
    assert!(matches!(validate_region_name(" a "), Err(RegionNameProblem::TooShort)));
    let long = "x".repeat(36);
    assert!(matches!(validate_region_name(&long), Err(RegionNameProblem::TooLong)));
    let max = "y".repeat(35);
    assert!(matches!(validate_region_name(&max), Ok(n) if n == max));
}

#[test]
fn bounds_of_route_regions() {
    assert_eq!(grid_bounds(&[]), None);
    assert_eq!(
        grid_bounds(&[(1000, 1003), (1002, 1000), (1001, 1001)]),
        Some(GridBounds {
            lower_left_x: 1000,
            lower_left_y: 1000,
            upper_right_x: 1002,
            upper_right_y: 1003
        })
    );
}

#[test]
fn cache_updates_after_a_lookup() {
    assert_eq!(cache_action(true, true), CacheAction::StoreValue);
    assert_eq!(cache_action(false, true), CacheAction::StoreAbsence);
    assert_eq!(cache_action(true, false), CacheAction::Forget);
    assert_eq!(cache_action(false, false), CacheAction::Forget);
}

#[test]
fn lookup_urls_escape_spaces_and_write_coordinates() {
    assert_eq!(
        coordinates_lookup_url("Da Boom"),
        "https://cap.secondlife.com/cap/0/d661249b-2b5a-4436-966a-3d3b8d7a574f?var=coords&sim_name=Da%20Boom"
    );
    assert_eq!(
        coordinates_lookup_url("  x "),
        "https://cap.secondlife.com/cap/0/d661249b-2b5a-4436-966a-3d3b8d7a574f?var=coords&sim_name=%20%20x%20"
    );
    assert_eq!(
        region_name_lookup_url(1136, 1075),
        "https://cap.secondlife.com/cap/0/b713fe80-283b-4585-af4d-a3b7d9a32492?var=region&grid_x=1136&grid_y=1075"
    );
}
