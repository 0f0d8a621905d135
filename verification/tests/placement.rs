use sl_map_tools::coverage::PlacementSlot as P;
use sl_map_tools::coverage::{HAlign, OccupancyGrid, PixelRect, PlacementSlot, VAlign};
use sl_map_tools::placement::{
    default_label_color, default_logo_scale, fit_content, legend_position_from_slot,
    parse_h_align, parse_slot_group, parse_v_align, reserve, resolve_placement,
    valid_logo_scale, validate_dimensions, DimensionError, OutputFormat, PlacementError,
    RegionOverlayOptions, MAX_OUTPUT_DIMENSION,
};

fn debug<E: std::fmt::Debug>(e: E) -> String {
    format!("{e:?}")
}

#[test]
fn output_format_default_is_png() {
    assert_eq!(OutputFormat::default(), OutputFormat::Png);
}

#[test]
fn parse_slot_group_single_combined_and_rectangle_rule() -> Result<(), Box<dyn std::error::Error>> {
    assert_eq!(parse_slot_group("bottom_right").map_err(debug)?, vec![P::BottomRight]);
    assert_eq!(
        parse_slot_group("top_left+top_center+top_left").map_err(debug)?,
        vec![P::TopLeft, P::TopCenter]
    );
    assert!(matches!(parse_slot_group("top_left+bottom_right"), Err(_)));
    assert!(matches!(parse_slot_group("top_left+bottom_center"), Err(_)));
    assert!(matches!(parse_slot_group("nowhere"), Err(_)));
    Ok(())
}

#[test]
fn legend_position_from_slot_cases() -> Result<(), Box<dyn std::error::Error>> {
    assert_eq!(legend_position_from_slot(None).map_err(debug)?, Some(P::TopLeft));
    assert_eq!(legend_position_from_slot(Some("")).map_err(debug)?, Some(P::TopLeft));
    assert_eq!(legend_position_from_slot(Some("none")).map_err(debug)?, None);
    assert_eq!(legend_position_from_slot(Some("center")).map_err(debug)?, Some(P::Center));
    assert!(matches!(legend_position_from_slot(Some("nonsense")), Err(_)));
    Ok(())
}

#[test]
fn reserve_rejects_legend_and_double_use() -> Result<(), Box<dyn std::error::Error>> {
    let mut used = Vec::new();
    assert!(matches!(reserve(&[P::TopLeft], &mut used, &[], Some(P::TopLeft), "label"), Err(_)));
    let mut used = Vec::new();
    assert!(matches!(reserve(&[P::TopLeft], &mut used, &[P::TopLeft], None, "logo"), Err(_)));
    let mut used = Vec::new();
    reserve(&[P::TopRight], &mut used, &[], None, "label").map_err(debug)?;
    assert_eq!(used, vec![P::TopRight]);
    Ok(())
}

#[test]
fn validate_dimensions_bounds() -> Result<(), Box<dyn std::error::Error>> {
    assert!(matches!(validate_dimensions(0, 100), Err(_)));
    assert!(matches!(validate_dimensions(100, 0), Err(_)));
    assert!(matches!(validate_dimensions(MAX_OUTPUT_DIMENSION + 1, 1), Err(_)));
    validate_dimensions(2048, 2048).map_err(debug)?;
    Ok(())
}

#[test]
fn dimension_errors_name_the_broken_bound() {
    assert_eq!(validate_dimensions(0, 0), Err(DimensionError::Zero));
    assert_eq!(validate_dimensions(0x8001, 10), Err(DimensionError::SideTooLarge));
    assert_eq!(validate_dimensions(0x8000, 0x8000), Err(DimensionError::AreaTooLarge));
    assert_eq!(validate_dimensions(0x8000, 0x2000), Ok(()));
    assert_eq!(validate_dimensions(0x8000, 0x2001), Err(DimensionError::AreaTooLarge));
}

#[test]
fn slot_group_names_are_trimmed_and_errors_name_the_culprit() {
    assert!(matches!(
        parse_slot_group(" bottom_left + bottom_center "),
        Ok(g) if g == vec![P::BottomLeft, P::BottomCenter]
    ));
    match parse_slot_group("top_left+middle") {
        Err(PlacementError::UnknownSlot(name)) => assert_eq!(name, "middle"),
        other => panic!("expected an unknown slot, got {other:?}"),
    }
    match parse_slot_group("top_left+bottom_right") {
        Err(PlacementError::NotRectangle(text)) => assert_eq!(text, "top_left+bottom_right"),
        other => panic!("expected a non-rectangle, got {other:?}"),
    }
    assert!(matches!(parse_slot_group(""), Err(PlacementError::UnknownSlot(n)) if n.is_empty()));
    assert!(matches!(parse_slot_group("top_left+"), Err(PlacementError::UnknownSlot(_))));
}

#[test]
fn alignment_names() {
    assert!(matches!(parse_h_align(None), Ok(None)));
    assert!(matches!(parse_h_align(Some("  ")), Ok(None)));
    assert!(matches!(parse_h_align(Some(" left ")), Ok(Some(HAlign::Left))));
    assert!(matches!(parse_h_align(Some("center")), Ok(Some(HAlign::Center))));
    assert!(matches!(parse_h_align(Some("right")), Ok(Some(HAlign::Right))));
    assert!(matches!(parse_h_align(Some("top")), Err(PlacementError::InvalidHAlign(t)) if t == "top"));
    assert!(matches!(parse_v_align(Some("top")), Ok(Some(VAlign::Top))));
    assert!(matches!(parse_v_align(Some("center")), Ok(Some(VAlign::Center))));
    assert!(matches!(parse_v_align(Some("bottom\t")), Ok(Some(VAlign::Bottom))));
    assert!(matches!(parse_v_align(None), Ok(None)));
    assert!(matches!(parse_v_align(Some("left")), Err(PlacementError::InvalidVAlign(t)) if t == "left"));
}

#[test]
fn reserve_records_slots_up_to_the_clash() {
    let mut used = vec![P::Center];
    let r = reserve(&[P::TopLeft, P::TopCenter, P::Center], &mut used, &[], None, "logo");
    assert!(matches!(r, Err(PlacementError::SlotClash(P::Center))));
    assert_eq!(used, vec![P::Center, P::TopLeft, P::TopCenter]);
    let mut used = Vec::new();
    let r = reserve(&[P::TopLeft, P::TopLeft], &mut used, &[], None, "logo");
    assert!(matches!(r, Err(PlacementError::SlotClash(P::TopLeft))));
    let mut used = Vec::new();
    match reserve(&[P::BottomRight], &mut used, &[], Some(P::BottomRight), "label") {
        Err(PlacementError::LegendClash { what, slot }) => {
            assert_eq!(what, "label");
            assert_eq!(slot, P::BottomRight);
        }
        other => panic!("expected a legend clash, got {other:?}"),
    }
    assert!(used.is_empty());
}

#[test]
fn resolve_placement_single_and_combined() -> Result<(), Box<dyn std::error::Error>> {
    let grid = OccupancyGrid::from_cells(9, 9, 10, vec![false; 81]).ok_or("layout")?;
    let slots = grid.evaluate_slots();
    let (reserved, rect) = resolve_placement(&[P::BottomRight], &slots, &grid).map_err(debug)?;
    assert_eq!(reserved, vec![P::BottomRight]);
    assert_eq!(rect, PixelRect { x: 60, y: 60, width: 30, height: 30 });
    let (reserved, rect) =
        resolve_placement(&[P::MiddleLeft, P::BottomLeft], &slots, &grid).map_err(debug)?;
    assert_eq!(reserved, vec![P::MiddleLeft, P::BottomLeft]);
    assert_eq!(rect, PixelRect { x: 0, y: 30, width: 30, height: 60 });
    assert!(matches!(resolve_placement(&[], &slots, &grid), Err(PlacementError::EmptyGroup)));
    assert!(matches!(
        resolve_placement(&[P::Center], &[], &grid),
        Err(PlacementError::SlotNotFound(P::Center))
    ));
    let full = OccupancyGrid::from_cells(9, 9, 10, vec![true; 81]).ok_or("layout")?;
    let full_slots = full.evaluate_slots();
    assert!(matches!(
        resolve_placement(&[P::Center], &full_slots, &full),
        Err(PlacementError::SlotCovered(P::Center))
    ));
    assert!(matches!(
        resolve_placement(&[P::TopLeft, P::TopCenter], &full_slots, &full),
        Err(PlacementError::CombinedCovered(P::TopLeft))
    ));
    Ok(())
}

#[test]
fn content_is_aligned_or_rejected() -> Result<(), Box<dyn std::error::Error>> {
    let rect = PixelRect { x: 60, y: 60, width: 30, height: 30 };
    // outward default of the bottom-right slot: right and bottom
    assert_eq!(fit_content(P::BottomRight, rect, 10, 20, None, None).map_err(debug)?, (80, 70));
    assert_eq!(
        fit_content(P::BottomRight, rect, 10, 20, Some(HAlign::Left), Some(VAlign::Top))
            .map_err(debug)?,
        (60, 60)
    );
    assert_eq!(
        fit_content(P::BottomRight, rect, 10, 20, Some(HAlign::Center), None).map_err(debug)?,
        (70, 70)
    );
    match fit_content(P::TopLeft, rect, 31, 5, None, None) {
        Err(PlacementError::DoesNotFit { width, height, slot, available }) => {
            assert_eq!((width, height, slot, available), (31, 5, P::TopLeft, rect));
        }
        other => panic!("expected the content not to fit, got {other:?}"),
    }
    Ok(())
}

#[test]
fn defaults_and_small_rules() {
    assert_eq!(default_logo_scale(), 1);
    assert_eq!(default_label_color(), "#ffffff");
    assert!(valid_logo_scale(1) && valid_logo_scale(2) && valid_logo_scale(4));
    assert!(!valid_logo_scale(0) && !valid_logo_scale(3) && !valid_logo_scale(8));
    let none = RegionOverlayOptions::default();
    assert!(!none.any() && !none.any_text());
    let rect_only = RegionOverlayOptions { rectangles: true, names: false, coordinates: false };
    assert!(rect_only.any() && !rect_only.any_text());
    let coords = RegionOverlayOptions { rectangles: false, names: false, coordinates: true };
    assert!(coords.any() && coords.any_text());
}
