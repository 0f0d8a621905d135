use sl_map_tools::glw::{
    degrees_to_compass8, sort_pair, EventId, GlwEventKey, GustsPercent, MarginMeters, Overlap,
    ParseError, PercentVariance, Period, ShiftsDegrees, WaveEffects, WindDirection,
};

#[test]
fn wind_direction_rejects_out_of_range() {
    assert!(WindDirection::try_new(0).is_ok(), "0 is in range");
    assert!(WindDirection::try_new(359).is_ok(), "359 is in range");
    assert!(WindDirection::try_new(360).is_err(), "360 is out of range");
    assert!(WindDirection::try_new(999).is_err(), "999 is out of range");
}

#[test]
fn gusts_rejects_out_of_range() {
    assert!(GustsPercent::try_new(0).is_ok(), "0 is in range");
    assert!(GustsPercent::try_new(100).is_ok(), "100 is in range");
    assert!(GustsPercent::try_new(101).is_err(), "101 is out of range");
}

#[test]
fn shifts_rejects_out_of_range() {
    assert!(ShiftsDegrees::try_new(180).is_ok(), "180 is in range");
    assert!(ShiftsDegrees::try_new(181).is_err(), "181 is out of range");
}

#[test]
fn margin_clamps_at_100() {
    assert_eq!(MarginMeters::new_clamped(0).meters(), 0);
    assert_eq!(MarginMeters::new_clamped(100).meters(), 100);
    assert_eq!(MarginMeters::new_clamped(150).meters(), 100);
}

#[test]
fn wave_effects_from_object() {
    let we = WaveEffects::from_flags(1, 0);
    assert!(we.speed, "speed=1 turns on");
    assert!(!we.steer, "steer=0 stays off");
}

#[test]
fn wave_effects_from_bitmask() {
    let we = WaveEffects::from_bitmask(3);
    assert!(we.speed && we.steer, "bitmask 3 = both on");
    let we = WaveEffects::from_bitmask(2);
    assert!(we.speed && !we.steer, "bitmask 2 = speed only");
    let we = WaveEffects::from_bitmask(1);
    assert!(!we.speed && we.steer, "bitmask 1 = steer only");
    let we = WaveEffects::from_bitmask(0);
    assert!(!we.speed && !we.steer, "bitmask 0 = neither");
}

#[test]
fn compass8_buckets() -> Result<(), Box<dyn std::error::Error>> {
    let c = |d: u16| -> Result<&'static str, String> {
        WindDirection::try_new(d)
            .map(degrees_to_compass8)
            .map_err(|e| format!("{e:?}"))
    };
    assert_eq!(c(0)?, "N");
    assert_eq!(c(22)?, "N");
    assert_eq!(c(23)?, "NE");
    assert_eq!(c(45)?, "NE");
    assert_eq!(c(90)?, "E");
    assert_eq!(c(135)?, "SE");
    assert_eq!(c(180)?, "S");
    assert_eq!(c(225)?, "SW");
    assert_eq!(c(270)?, "W");
    assert_eq!(c(315)?, "NW");
    assert_eq!(c(359)?, "N");
    Ok(())
}

#[test]
fn out_of_range_error_names_field_value_and_domain() {
    match WindDirection::try_new(360) {
        Err(ParseError::OutOfRange { field, value, allowed }) => {
            assert_eq!(field, "wind_direction");
            assert_eq!(value, "360");
            assert_eq!(allowed, "0..=359");
        }
        other => panic!("expected an out-of-range error, got {other:?}"),
    }
    match PercentVariance::try_new(250) {
        Err(ParseError::OutOfRange { field, value, allowed }) => {
            assert_eq!(field, "percent_variance");
            assert_eq!(value, "250");
            assert_eq!(allowed, "0..=100");
        }
        other => panic!("expected an out-of-range error, got {other:?}"),
    }
    match GustsPercent::try_new(101) {
        Err(ParseError::OutOfRange { value, .. }) => assert_eq!(value, "101"),
        other => panic!("expected an out-of-range error, got {other:?}"),
    }
    match ShiftsDegrees::try_new(1000) {
        Err(ParseError::OutOfRange { value, .. }) => assert_eq!(value, "1000"),
        other => panic!("expected an out-of-range error, got {other:?}"),
    }
}

#[test]
fn newtypes_keep_their_values() -> Result<(), Box<dyn std::error::Error>> {
    assert_eq!(EventId::new(4711).get(), 4711);
    assert_eq!(GlwEventKey::new("race-7".to_owned()).as_str(), "race-7");
    assert_eq!(Period::new(30).seconds(), 30);
    assert!(Overlap::new(true).get());
    assert!(!Overlap::new(false).get());
    let d = WindDirection::try_new(270).map_err(|e| format!("{e:?}"))?;
    assert_eq!(d.degrees(), 270);
    let p = PercentVariance::try_new(100).map_err(|e| format!("{e:?}"))?;
    assert_eq!(p.percent(), 100);
    Ok(())
}

#[test]
fn effects_label_names_the_active_effects() {
    assert_eq!(WaveEffects { speed: true, steer: true }.label(), "spd+steer");
    assert_eq!(WaveEffects { speed: true, steer: false }.label(), "spd");
    assert_eq!(WaveEffects { speed: false, steer: true }.label(), "steer");
    assert_eq!(WaveEffects { speed: false, steer: false }.label(), "");
}

#[test]
fn sort_pair_puts_the_lower_first() {
    assert_eq!(sort_pair(3, 7), (3, 7));
    assert_eq!(sort_pair(7, 3), (3, 7));
    assert_eq!(sort_pair(5, 5), (5, 5));
}
