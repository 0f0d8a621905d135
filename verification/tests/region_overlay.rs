use sl_map_tools::placement::RegionOverlayOptions;
use sl_map_tools::region::GridBounds;
use sl_map_tools::region_overlay::{
    region_label_lines, region_label_origin, region_overlay_plan, region_text_overlay_allowed,
};

fn bounds(x0: u16, y0: u16, x1: u16, y1: u16) -> GridBounds {
    GridBounds { lower_left_x: x0, lower_left_y: y0, upper_right_x: x1, upper_right_y: y1 }
}

#[test]
fn text_gate_needs_large_regions_and_few_of_them() {
    assert!(region_text_overlay_allowed(64, 1024));
    assert!(!region_text_overlay_allowed(63, 1));
    assert!(!region_text_overlay_allowed(256, 1025));
}

#[test]
fn overlay_plan_keeps_rectangles_and_gates_text() {
    let all = RegionOverlayOptions { rectangles: true, names: true, coordinates: true };
    // zoom 3: 64 pixels per region, 5 x 5 regions
    assert_eq!(region_overlay_plan(all, bounds(1000, 1000, 1004, 1004), 3), (true, true));
    // zoom 4: 32 pixels per region, text skipped, outline kept
    assert_eq!(region_overlay_plan(all, bounds(1000, 1000, 1004, 1004), 4), (true, false));
    // 33 x 32 = 1056 regions: too many for text
    assert_eq!(region_overlay_plan(all, bounds(1000, 1000, 1032, 1031), 1), (true, false));
    let names_only = RegionOverlayOptions { rectangles: false, names: true, coordinates: false };
    assert_eq!(region_overlay_plan(names_only, bounds(1000, 1000, 1000, 1000), 1), (false, true));
    let none = RegionOverlayOptions::default();
    assert_eq!(region_overlay_plan(none, bounds(1000, 1000, 1000, 1000), 1), (false, false));
}

#[test]
fn label_lines_put_coordinates_before_the_name() {
    assert_eq!(
        region_label_lines(1136, 1075, true, Some("Da Boom".to_owned())),
        vec!["(1136, 1075)".to_owned(), "Da Boom".to_owned()]
    );
    assert_eq!(region_label_lines(7, 0, true, None), vec!["(7, 0)".to_owned()]);
    assert_eq!(region_label_lines(7, 0, false, Some("X".to_owned())), vec!["X".to_owned()]);
    assert!(region_label_lines(7, 0, false, None).is_empty());
}

#[test]
fn label_origin_is_padded_from_the_lower_left_corner() {
    assert_eq!(region_label_origin(128, 64, 64, 20), (131, 105));
    assert_eq!(region_label_origin(0, 0, 10, 20), (3, -13));
    assert_eq!(region_label_origin(u32::MAX, u32::MAX, 1, 0), (3, -3));
}
