use sl_map_tools::coverage::PlacementSlot as P;
use sl_map_tools::coverage::{
    HAlign, OccupancyGrid, PixelRect, PlacementSlot, PlacementSlotInfo, VAlign,
};

/// build an occupancy grid directly from a boolean cell layout (row-major,
/// row 0 at the top) with a fixed cell size
fn grid_from_cells(
    cols: u32,
    rows: u32,
    cell_size: u32,
    occupied: Vec<bool>,
) -> Result<OccupancyGrid, String> {
    OccupancyGrid::from_cells(cols, rows, cell_size, occupied)
        .ok_or_else(|| "the cell layout must have one flag per cell".to_owned())
}

fn slot(slots: &[PlacementSlotInfo], anchor: PlacementSlot) -> Result<&PlacementSlotInfo, String> {
    slots
        .iter()
        .find(|s| s.slot == anchor)
        .ok_or_else(|| format!("anchor {anchor:?} should be evaluated"))
}

/// the covered fraction of the slot's third, as the renderer reports it
fn occupied_fraction(info: &PlacementSlotInfo) -> f32 {
    if info.local_cells == 0 {
        0f32
    } else {
        let occ = u16::try_from(info.occupied_cells).unwrap_or(u16::MAX);
        let total = u16::try_from(info.local_cells).unwrap_or(u16::MAX);
        f32::from(occ) / f32::from(total)
    }
}

#[test]
fn empty_grid_confines_each_slot_to_its_third() -> Result<(), Box<dyn std::error::Error>> {
    let grid = grid_from_cells(8, 8, 10, vec![false; 64])?;
    let slots = grid.evaluate_slots();
    assert_eq!(slots.len(), 9);
    for s in &slots {
        assert!(s.available, "{:?} should be available", s.slot);
        assert!(occupied_fraction(s).abs() < f32::EPSILON);
    }
    let size = |a| slot(&slots, a).map(|s| s.free_size);
    assert_eq!(size(PlacementSlot::TopLeft)?, (20, 20));
    assert_eq!(size(PlacementSlot::TopCenter)?, (40, 20));
    assert_eq!(size(PlacementSlot::TopRight)?, (20, 20));
    assert_eq!(size(PlacementSlot::MiddleLeft)?, (20, 40));
    assert_eq!(size(PlacementSlot::Center)?, (40, 40));
    assert_eq!(size(PlacementSlot::BottomRight)?, (20, 20));
    Ok(())
}

#[test]
fn empty_grid_slot_rects_tile_without_overlap() -> Result<(), Box<dyn std::error::Error>> {
    let grid = grid_from_cells(8, 8, 10, vec![false; 64])?;
    let rects: Vec<PixelRect> = grid
        .evaluate_slots()
        .into_iter()
        .filter_map(|s| s.free_rect)
        .collect();
    assert_eq!(rects.len(), 9);
    let overlaps = |a: &PixelRect, b: &PixelRect| {
        a.x < b.x + b.width && b.x < a.x + a.width && a.y < b.y + b.height && b.y < a.y + a.height
    };
    for (i, a) in rects.iter().enumerate() {
        for b in rects.iter().skip(i + 1) {
            assert!(!overlaps(a, b), "{a:?} overlaps {b:?}");
        }
    }
    let total: u32 = rects.iter().map(|r| r.width * r.height).sum();
    assert_eq!(total, 80 * 80, "the nine thirds tile the whole image");
    Ok(())
}

#[test]
fn full_grid_no_slot_available() -> Result<(), Box<dyn std::error::Error>> {
    let grid = grid_from_cells(8, 8, 10, vec![true; 64])?;
    let slots = grid.evaluate_slots();
    for s in &slots {
        assert!(!s.available, "{:?} should not be available", s.slot);
        assert_eq!(s.free_rect, None);
        assert_eq!(s.free_size, (0, 0));
        assert!(s.connected_neighbours.is_empty());
    }
    Ok(())
}

#[test]
fn central_vertical_stripe_frees_the_sides() -> Result<(), Box<dyn std::error::Error>> {
    let occupied: Vec<bool> = (0..64u32).map(|i| matches!(i % 8, 3 | 4)).collect();
    let grid = grid_from_cells(8, 8, 10, occupied)?;
    let slots = grid.evaluate_slots();
    assert!(slot(&slots, PlacementSlot::MiddleLeft)?.available);
    assert!(slot(&slots, PlacementSlot::MiddleRight)?.available);
    assert!(!slot(&slots, PlacementSlot::Center)?.available);
    assert_eq!(slot(&slots, PlacementSlot::MiddleLeft)?.free_size.0, 20);
    assert_eq!(slot(&slots, PlacementSlot::MiddleRight)?.free_size.0, 20);
    Ok(())
}

#[test]
fn horizontal_mirror_swaps_left_and_right() -> Result<(), Box<dyn std::error::Error>> {
    let occupied: Vec<bool> = (0..64u32).map(|i| i == 9).collect();
    let grid = grid_from_cells(8, 8, 10, occupied)?;
    let slots = grid.evaluate_slots();
    let top_left = slot(&slots, PlacementSlot::TopLeft)?.free_size;
    assert_ne!(top_left, (0, 0), "the top-left third still has free space");
    let mirrored: Vec<bool> = (0..64u32).map(|i| i == 14).collect();
    let mirrored_grid = grid_from_cells(8, 8, 10, mirrored)?;
    let mirrored_slots = mirrored_grid.evaluate_slots();
    let top_right = slot(&mirrored_slots, PlacementSlot::TopRight)?.free_size;
    assert_eq!(top_left, top_right);
    Ok(())
}

#[test]
fn adjacency_links_free_neighbours_across_free_band() -> Result<(), Box<dyn std::error::Error>> {
    let grid = grid_from_cells(9, 9, 10, vec![false; 81])?;
    let slots = grid.evaluate_slots();
    let center = slot(&slots, PlacementSlot::Center)?;
    let mut neighbours = center.connected_neighbours.clone();
    neighbours.sort_by_key(|a| format!("{a:?}"));
    let mut expected = PlacementSlot::Center.neighbours();
    expected.sort_by_key(|a| format!("{a:?}"));
    assert_eq!(neighbours, expected);
    Ok(())
}

#[test]
fn adjacency_broken_by_occupied_band() -> Result<(), Box<dyn std::error::Error>> {
    let occupied: Vec<bool> = (0..81u32).map(|i| i % 9 == 4).collect();
    let grid = grid_from_cells(9, 9, 10, occupied)?;
    let slots = grid.evaluate_slots();
    let top_left = slot(&slots, PlacementSlot::TopLeft)?;
    assert!(!top_left.connected_neighbours.contains(&PlacementSlot::TopCenter));
    assert!(top_left.connected_neighbours.contains(&PlacementSlot::MiddleLeft));
    Ok(())
}

#[test]
fn neighbours_are_orthogonal_only() {
    assert_eq!(
        PlacementSlot::TopLeft.neighbours(),
        vec![PlacementSlot::TopCenter, PlacementSlot::MiddleLeft]
    );
    let center = PlacementSlot::Center.neighbours();
    assert_eq!(center.len(), 4);
    assert!(!center.contains(&PlacementSlot::TopLeft));
}

#[test]
fn as_str_and_from_str_round_trip() {
    for slot in PlacementSlot::all() {
        assert_eq!(slot.as_str().parse::<PlacementSlot>().ok(), Some(slot));
        assert_eq!(slot.as_str().to_owned(), slot.as_str());
    }
    assert_eq!("nonsense".parse::<PlacementSlot>().ok(), None);
}

#[test]
fn default_alignment_matches_slot_outward() {
    assert_eq!(PlacementSlot::TopLeft.default_alignment(), (HAlign::Left, VAlign::Top));
    assert_eq!(PlacementSlot::TopCenter.default_alignment(), (HAlign::Center, VAlign::Top));
    assert_eq!(PlacementSlot::MiddleRight.default_alignment(), (HAlign::Right, VAlign::Center));
    assert_eq!(PlacementSlot::Center.default_alignment(), (HAlign::Center, VAlign::Center));
    assert_eq!(PlacementSlot::BottomRight.default_alignment(), (HAlign::Right, VAlign::Bottom));
}

#[test]
fn align_offset_clamps_and_centres() {
    assert_eq!(HAlign::Left.offset(20, 100), 0);
    assert_eq!(HAlign::Center.offset(20, 100), 40);
    assert_eq!(HAlign::Right.offset(20, 100), 80);
    assert_eq!(VAlign::Bottom.offset(30, 100), 70);
    assert_eq!(HAlign::Right.offset(120, 100), 0);
    assert_eq!(VAlign::Center.offset(120, 100), 0);
}

#[test]
fn anchored_origin_hugs_edges_and_centres() {
    assert_eq!(PlacementSlot::TopLeft.anchored_origin(40, 20, 200, 100, 8), (8, 8));
    assert_eq!(PlacementSlot::TopRight.anchored_origin(40, 20, 200, 100, 8), (200 - 40 - 8, 8));
    assert_eq!(
        PlacementSlot::BottomRight.anchored_origin(40, 20, 200, 100, 8),
        (200 - 40 - 8, 100 - 20 - 8)
    );
    assert_eq!(
        PlacementSlot::Center.anchored_origin(40, 20, 200, 100, 8),
        ((200 - 40) / 2, (100 - 20) / 2)
    );
    assert_eq!(PlacementSlot::TopCenter.anchored_origin(40, 20, 200, 100, 8), ((200 - 40) / 2, 8));
    assert_eq!(PlacementSlot::BottomRight.anchored_origin(400, 200, 200, 100, 8), (0, 0));
}

#[test]
fn spanned_region_covers_whole_free_bottom_edge() -> Result<(), Box<dyn std::error::Error>> {
    let occupied: Vec<bool> = (0..27u32).map(|i| i / 9 != 2).collect();
    let grid = grid_from_cells(9, 3, 10, occupied)?;
    let (mut slots, rect) = grid
        .spanned_region(PlacementSlot::BottomCenter)
        .ok_or("bottom_center anchor is free, must span")?;
    slots.sort_by_key(|a| format!("{a:?}"));
    let mut expected = vec![
        PlacementSlot::BottomLeft,
        PlacementSlot::BottomCenter,
        PlacementSlot::BottomRight,
    ];
    expected.sort_by_key(|a| format!("{a:?}"));
    assert_eq!(slots, expected, "all three bottom slots are reserved");
    assert_eq!(rect.width, 90);
    assert_eq!(rect.height, 10);
    Ok(())
}

#[test]
fn spanned_region_none_when_anchor_covered() -> Result<(), Box<dyn std::error::Error>> {
    let occupied: Vec<bool> = (0..27u32).map(|i| i / 9 == 2).collect();
    let grid = grid_from_cells(9, 3, 10, occupied)?;
    assert_eq!(grid.spanned_region(PlacementSlot::BottomCenter), None);
    Ok(())
}

#[test]
fn spanned_region_stops_at_occupied_band() -> Result<(), Box<dyn std::error::Error>> {
    let occupied: Vec<bool> = (0..27u32)
        .map(|i| {
            let (row, col) = (i / 9, i % 9);
            !(row == 2 && col < 2)
        })
        .collect();
    let grid = grid_from_cells(9, 3, 10, occupied)?;
    let (slots, _rect) = grid
        .spanned_region(PlacementSlot::BottomLeft)
        .ok_or("bottom_left anchor is free")?;
    assert!(slots.contains(&PlacementSlot::BottomLeft));
    assert!(!slots.contains(&PlacementSlot::BottomRight));
    Ok(())
}

#[test]
fn centre_third_absorbs_remainder_keeping_edges_equal() -> Result<(), Box<dyn std::error::Error>> {
    let grid = grid_from_cells(11, 11, 10, vec![false; 121])?;
    let slots = grid.evaluate_slots();
    let size = |a| slot(&slots, a).map(|s| s.free_size);
    assert_eq!(size(PlacementSlot::TopLeft)?, (30, 30));
    assert_eq!(size(PlacementSlot::TopRight)?, (30, 30));
    assert_eq!(size(PlacementSlot::BottomLeft)?, (30, 30));
    assert_eq!(size(PlacementSlot::BottomRight)?, (30, 30));
    assert_eq!(size(PlacementSlot::Center)?, (50, 50));
    Ok(())
}

#[test]
fn spanned_region_uses_minimum_perpendicular_extent() -> Result<(), Box<dyn std::error::Error>> {
    let occupied: Vec<bool> = (0..54u32)
        .map(|i| {
            let (row, col) = (i / 9, i % 9);
            let free = if col < 3 { row < 4 } else { row < 2 };
            !free
        })
        .collect();
    let grid = grid_from_cells(9, 6, 10, occupied)?;
    let (_slots, rect) = grid
        .spanned_region(PlacementSlot::TopLeft)
        .ok_or("top_left anchor is free")?;
    assert_eq!(rect.width, 90, "the span grows across the full width");
    assert_eq!(rect.height, 20, "the span is clipped to the shallower thirds");
    Ok(())
}

#[test]
fn stamped_rectangle_blocks_its_corner() -> Result<(), Box<dyn std::error::Error>> {
    // a 128 x 128 overlay with an opaque 40 x 40 block in the top-left corner
    let mut alpha = vec![0u8; 128 * 128];
    for y in 0..40usize {
        for x in 0..40usize {
            alpha[y * 128 + x] = 255;
        }
    }
    let grid = OccupancyGrid::from_alpha(128, 128, &alpha, sl_map_tools::coverage::DEFAULT_COVERAGE_GRID);
    let slots = grid.evaluate_slots();
    assert!(!slot(&slots, PlacementSlot::TopLeft)?.available);
    assert!(occupied_fraction(slot(&slots, PlacementSlot::TopLeft)?) > 0f32);
    let bottom_right = slot(&slots, PlacementSlot::BottomRight)?;
    assert!(bottom_right.available);
    assert!(bottom_right.free_size.0 >= 40);
    assert!(bottom_right.free_size.1 >= 40);
    Ok(())
}

#[test]
fn grid_params_follow_the_longer_side() {
    assert_eq!(OccupancyGrid::grid_params(128, 128, 64), (64, 64, 2));
    assert_eq!(OccupancyGrid::grid_params(200, 100, 64), (50, 25, 4));
    assert_eq!(OccupancyGrid::grid_params(0, 100, 64), (0, 0, 1));
    assert_eq!(OccupancyGrid::grid_params(10, 10, 0), (1, 1, 10));
}

#[test]
fn a_single_covered_pixel_occupies_its_cell() -> Result<(), Box<dyn std::error::Error>> {
    // 20 x 10 image with 2 x 1 cells of 10 pixels; a pixel in the right cell
    let mut alpha = vec![0u8; 200];
    alpha[5 * 20 + 15] = 1;
    let grid = OccupancyGrid::from_alpha(20, 10, &alpha, 2);
    assert_eq!((grid.cols(), grid.rows(), grid.cell_size()), (2, 1, 10));
    let reference = grid_from_cells(2, 1, 10, vec![false, true])?;
    assert_eq!(grid.evaluate_slots(), reference.evaluate_slots());
    Ok(())
}

#[test]
fn from_cells_rejects_a_wrong_layout() {
    assert!(OccupancyGrid::from_cells(2, 2, 10, vec![false; 3]).is_none());
    assert!(OccupancyGrid::from_cells(2, 2, 0, vec![false; 4]).is_none());
    assert!(OccupancyGrid::from_cells(2, 2, 10, vec![false; 4]).is_some());
}

#[test]
fn subset_rect_spans_the_combined_thirds() -> Result<(), Box<dyn std::error::Error>> {
    let grid = grid_from_cells(9, 9, 10, vec![false; 81])?;
    let rect = grid
        .subset_rect(&[PlacementSlot::TopLeft, PlacementSlot::TopCenter])
        .ok_or("the top row is free")?;
    assert_eq!(rect, PixelRect { x: 0, y: 0, width: 60, height: 30 });
    assert_eq!(grid.subset_rect(&[]), None);
    let covered = grid_from_cells(9, 9, 10, vec![true; 81])?;
    assert_eq!(covered.subset_rect(&[PlacementSlot::TopLeft, PlacementSlot::TopCenter]), None);
    Ok(())
}

#[test]
fn slot_groups_must_fill_their_bounding_box() {
    assert!(P::slots_form_rectangle(&[P::TopLeft]));
    assert!(P::slots_form_rectangle(&[P::TopLeft, P::TopCenter]));
    assert!(P::slots_form_rectangle(&[P::TopLeft, P::TopCenter, P::MiddleLeft, P::Center]));
    assert!(!P::slots_form_rectangle(&[P::TopLeft, P::BottomRight]));
    assert!(!P::slots_form_rectangle(&[P::TopLeft, P::BottomCenter]));
    assert!(!P::slots_form_rectangle(&[]));
}

#[test]
fn from_name_reads_every_slot_name() {
    for slot in PlacementSlot::all() {
        assert_eq!(PlacementSlot::from_name(slot.as_str()), Some(slot));
    }
    assert_eq!(PlacementSlot::from_name("Top_Left"), None);
    assert_eq!(PlacementSlot::from_name(" top_left"), None);
    let err = "elsewhere".parse::<PlacementSlot>().err();
    assert_eq!(err.map(|e| e.input().to_owned()), Some("elsewhere".to_owned()));
}

#[test]
fn available_means_the_anchor_cell_is_free() -> Result<(), Box<dyn std::error::Error>> {
    // only column 4 occupied: the centre anchor cell (row 4, col 4) is covered,
    // although the centre third still has free cells beside it
    let occupied: Vec<bool> = (0..64u32).map(|i| i % 8 == 4).collect();
    let grid = grid_from_cells(8, 8, 10, occupied)?;
    let slots = grid.evaluate_slots();
    let centre = slot(&slots, PlacementSlot::Center)?;
    assert!(!centre.available);
    assert!(centre.connected_neighbours.is_empty());
    assert!(slot(&slots, PlacementSlot::MiddleLeft)?.available);
    Ok(())
}

#[test]
fn free_component_ids_follow_first_cells() -> Result<(), Box<dyn std::error::Error>> {
    // the two free cells touch only diagonally: two regions, numbered in
    // row-major order of their first cells
    let grid = grid_from_cells(2, 2, 1, vec![false, true, true, false])?;
    assert_eq!(grid.free_components(), vec![Some(0), None, None, Some(1)]);
    // an occupied column splits the grid; the right-hand region starts at
    // position 2 and the left-hand one at 0
    let grid = grid_from_cells(3, 2, 1, vec![false, true, false, false, true, false])?;
    assert_eq!(grid.free_components(), vec![Some(0), None, Some(1), Some(0), None, Some(1)]);
    Ok(())
}

#[test]
fn diagonal_route_blocks_centre_but_not_off_diagonal_corner() -> Result<(), Box<dyn std::error::Error>> {
    // a 128 x 128 overlay with a route from (10, 10) through (64, 64) to
    // (118, 118): a 3 pixel wide diagonal line and a 20 x 20 square at each
    // waypoint
    let mut alpha = vec![0u8; 128 * 128];
    for t in 0..=108usize {
        for d in 0..3usize {
            let x = 9 + t + d;
            let y = 10 + t;
            if x < 128 {
                alpha[y * 128 + x] = 255;
            }
        }
    }
    for (cx, cy) in [(10usize, 10usize), (64, 64), (118, 118)] {
        for y in cy.saturating_sub(10)..(cy + 10).min(128) {
            for x in cx.saturating_sub(10)..(cx + 10).min(128) {
                alpha[y * 128 + x] = 255;
            }
        }
    }
    let grid = OccupancyGrid::from_alpha(128, 128, &alpha, sl_map_tools::coverage::DEFAULT_COVERAGE_GRID);
    let slots = grid.evaluate_slots();
    // the route runs through the middle of the map
    assert!(!slot(&slots, PlacementSlot::Center)?.available);
    // the top-right corner is far from the descending diagonal
    assert!(slot(&slots, PlacementSlot::TopRight)?.available);
    Ok(())
}
