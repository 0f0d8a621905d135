use sl_map_tools::route_style::{
    base_section_index, effective_sources_per_waypoint, RouteLineStyle, SectionFields,
    StyleSources,
};

fn change(from_waypoint: usize) -> SectionFields {
    SectionFields {
        from_waypoint,
        color: false,
        thickness: false,
        offset: false,
        line_style: None,
        dash_length: false,
        gap_length: false,
        arrow_placement: false,
        arrow_scale: false,
    }
}

const DEFAULTS: StyleSources = StyleSources {
    color: None,
    thickness: None,
    offset: None,
    line_style: RouteLineStyle::Dotted,
    dash_length: None,
    gap_length: None,
    arrow_placement: None,
    arrow_scale: None,
};

#[test]
fn empty_style_gives_defaults_everywhere() {
    assert_eq!(effective_sources_per_waypoint(&[], 3), vec![DEFAULTS; 3]);
    assert!(effective_sources_per_waypoint(&[change(0)], 0).is_empty());
    assert_eq!(RouteLineStyle::default(), RouteLineStyle::Dotted);
}

#[test]
fn a_change_applies_from_its_waypoint_to_the_end() {
    let secs = [SectionFields { color: true, ..change(2) }];
    let r = effective_sources_per_waypoint(&secs, 4);
    assert_eq!(r[0].color, None);
    assert_eq!(r[1].color, None);
    assert_eq!(r[2].color, Some(0));
    assert_eq!(r[3].color, Some(0));
}

#[test]
fn unset_fields_are_inherited_from_earlier_changes() {
    let secs = [
        SectionFields { color: true, thickness: true, ..change(0) },
        SectionFields { color: true, ..change(2) },
    ];
    let r = effective_sources_per_waypoint(&secs, 3);
    assert_eq!((r[1].color, r[1].thickness), (Some(0), Some(0)));
    assert_eq!((r[2].color, r[2].thickness), (Some(1), Some(0)));
}

#[test]
fn changes_added_out_of_order_resolve_by_waypoint_then_by_order() {
    let secs = [
        SectionFields { color: true, ..change(3) },
        SectionFields { color: true, ..change(1) },
        SectionFields { color: true, ..change(3) },
    ];
    let r = effective_sources_per_waypoint(&secs, 5);
    assert_eq!(r[0].color, None);
    assert_eq!(r[1].color, Some(1));
    assert_eq!(r[2].color, Some(1));
    // the later-added of the two changes at waypoint 3 wins
    assert_eq!(r[3].color, Some(2));
    assert_eq!(r[4].color, Some(2));
}

#[test]
fn changes_past_the_last_waypoint_are_never_reached() {
    let secs = [SectionFields { arrow_scale: true, ..change(10) }];
    let r = effective_sources_per_waypoint(&secs, 3);
    assert!(r.iter().all(|s| s.arrow_scale.is_none()));
}

#[test]
fn a_new_line_style_drops_inherited_explicit_lengths() {
    let secs = [
        SectionFields { dash_length: true, gap_length: true, ..change(0) },
        SectionFields { line_style: Some(RouteLineStyle::Dashed), ..change(2) },
        SectionFields {
            line_style: Some(RouteLineStyle::Solid),
            dash_length: true,
            ..change(4)
        },
    ];
    let r = effective_sources_per_waypoint(&secs, 5);
    assert_eq!((r[1].dash_length, r[1].gap_length), (Some(0), Some(0)));
    assert_eq!(r[1].line_style, RouteLineStyle::Dotted);
    assert_eq!((r[2].dash_length, r[2].gap_length), (None, None));
    assert_eq!(r[2].line_style, RouteLineStyle::Dashed);
    // a change setting both keeps its own explicit length
    assert_eq!((r[4].dash_length, r[4].gap_length), (Some(2), None));
    assert_eq!(r[4].line_style, RouteLineStyle::Solid);
}

#[test]
fn base_section_reuses_or_inserts_the_waypoint_zero_entry() {
    let mut secs = vec![change(3), SectionFields { color: true, ..change(0) }, change(0)];
    assert_eq!(base_section_index(&mut secs), 1);
    assert_eq!(secs.len(), 3);
    let mut secs = vec![change(3)];
    assert_eq!(base_section_index(&mut secs), 0);
    assert_eq!(secs, vec![change(0), change(3)]);
}
