use sl_map_tools::region::GridBounds;
use sl_map_tools::tile_plan::{
    map_pixel_size, map_zoom_level, plan_map_tiles, region_check_step, region_pixels, region_tile,
    RegionCheck, TilePlacement, ZoomFitProblem, REGION_CHECK_FIRST_ZOOM, waypoint_pixel,
};
use sl_types::map::ZoomLevel;

fn bounds(x0: u16, y0: u16, x1: u16, y1: u16) -> GridBounds {
    GridBounds { lower_left_x: x0, lower_left_y: y0, upper_right_x: x1, upper_right_y: y1 }
}

/// a 4x4 region rectangle
fn test_rectangle() -> GridBounds {
    bounds(1000, 1000, 1003, 1003)
}

#[test]
fn blank_dimensions_match_zoom_times_regions() -> Result<(), Box<dyn std::error::Error>> {
    let zoom = ZoomLevel::try_new(4)?;
    // zoom 4 -> 32 pixels per region, 4 regions per side
    let expected = u32::from(zoom.pixels_per_region()) * 4;
    assert_eq!(map_pixel_size(test_rectangle(), 4), (expected, expected));
    assert_eq!(map_pixel_size(test_rectangle(), 4), (128, 128));
    Ok(())
}

#[test]
fn blank_fit_matches_real_render_sizing() -> Result<(), Box<dyn std::error::Error>> {
    let z = map_zoom_level(test_rectangle(), 200, 200).map_err(|e| format!("{e:?}"))?;
    let zoom = ZoomLevel::max_zoom_level_to_fit_regions_into_output_image(4, 4, 200, 200)?;
    let expected = u32::from(zoom.pixels_per_region()) * 4;
    assert_eq!(map_pixel_size(test_rectangle(), z), (expected, expected));
    Ok(())
}

#[test]
fn zoom_levels_that_fit() {
    // one region into 256 pixels: full detail
    assert_eq!(map_zoom_level(bounds(5, 5, 5, 5), 256, 256), Ok(1));
    // two regions across 256 pixels need level 2
    assert_eq!(map_zoom_level(bounds(5, 5, 6, 5), 256, 256), Ok(2));
    // one pixel per region is too few
    assert_eq!(map_zoom_level(bounds(0, 0, 9, 9), 10, 10), Err(ZoomFitProblem::NoZoomLevel));
    assert_eq!(map_zoom_level(bounds(0, 0, 1, 1), 0, 10), Err(ZoomFitProblem::OutputSizeXZero));
    assert_eq!(map_zoom_level(bounds(0, 0, 1, 1), 10, 0), Err(ZoomFitProblem::OutputSizeYZero));
}

#[test]
fn tiles_of_an_aligned_map() {
    // zoom 2: tiles of 2x2 regions, 128 pixels per region
    let plan = plan_map_tiles(bounds(1000, 1000, 1002, 1001), 2);
    assert_eq!(plan.len(), 2);
    assert_eq!(
        plan[0],
        TilePlacement {
            tile_x: 1000,
            tile_y: 1000,
            overlap: bounds(1000, 1000, 1001, 1001),
            crop_x: 0,
            crop_y: 0,
            width: 256,
            height: 256,
            dest_x: 0,
            dest_y: 0,
        }
    );
    assert_eq!(
        plan[1],
        TilePlacement {
            tile_x: 1002,
            tile_y: 1000,
            overlap: bounds(1002, 1000, 1002, 1001),
            crop_x: 0,
            crop_y: 0,
            width: 128,
            height: 256,
            dest_x: 256,
            dest_y: 0,
        }
    );
}

#[test]
fn tiles_of_an_unaligned_map() {
    let plan = plan_map_tiles(bounds(1001, 1001, 1002, 1002), 2);
    assert_eq!(plan.len(), 4);
    // the lower left region is the upper right quarter of its tile and goes
    // to the lower left of the image
    assert_eq!(
        plan[0],
        TilePlacement {
            tile_x: 1000,
            tile_y: 1000,
            overlap: bounds(1001, 1001, 1001, 1001),
            crop_x: 128,
            crop_y: 0,
            width: 128,
            height: 128,
            dest_x: 0,
            dest_y: 128,
        }
    );
}

#[test]
fn every_region_comes_from_exactly_one_tile() {
    for z in 1..=8u8 {
        let b = bounds(997, 1003, 1013, 1010);
        let plan = plan_map_tiles(b, z);
        let (w, h) = map_pixel_size(b, z);
        for gx in b.lower_left_x..=b.upper_right_x {
            for gy in b.lower_left_y..=b.upper_right_y {
                let holders = plan
                    .iter()
                    .filter(|p| {
                        p.overlap.lower_left_x <= gx
                            && gx <= p.overlap.upper_right_x
                            && p.overlap.lower_left_y <= gy
                            && gy <= p.overlap.upper_right_y
                    })
                    .count();
                assert_eq!(holders, 1, "region ({gx}, {gy}) at zoom {z}");
                let (left, top, right, bottom) = region_pixels(b, z, gx, gy);
                assert!(left < right && right <= w && top < bottom && bottom <= h);
            }
        }
        for p in &plan {
            assert!(p.dest_x + p.width <= w && p.dest_y + p.height <= h);
        }
    }
}

#[test]
fn region_check_walks_down_the_zoom_levels() {
    assert_eq!(REGION_CHECK_FIRST_ZOOM, 8);
    assert_eq!(region_check_step(8, true), RegionCheck::Next(7));
    assert_eq!(region_check_step(2, true), RegionCheck::Next(1));
    assert_eq!(region_check_step(1, true), RegionCheck::Exists);
    assert_eq!(region_check_step(5, false), RegionCheck::Missing);
    assert_eq!(region_tile(1, 1001, 1003), (1001, 1003));
    assert_eq!(region_tile(3, 1001, 1003), (1000, 1000));
    assert_eq!(region_tile(8, 1001, 1003), (896, 896));
}

#[test]
fn waypoints_go_to_their_pixel_in_the_map() {
    let b = bounds(1000, 1000, 1001, 1001);
    assert_eq!(waypoint_pixel(b, 1, 1001, 1000, 128, 64), (384, 448));
    assert_eq!(waypoint_pixel(b, 2, 1001, 1000, 128, 64), (192, 224));
    assert_eq!(waypoint_pixel(b, 1, 1000, 1001, 0, 255), (0, 1));
}
