//! GlobalWind (GLW) value types: identifiers and validating newtypes for
//! the integer-valued fields of a GLW event, the validation error, and the
//! compass naming of directions.
//!
//! Direction conventions: 0° = North, increasing clockwise; a wind
//! direction is the direction the wind blows **from**.
use vstd::prelude::*;

use crate::chars::{decimal_string, spec_decimal};

verus! {

/// Errors that arise from validating GLW JSON values against their
/// documented domains (e.g. wind direction must be `0..=359`).
#[derive(Debug)]
pub enum ParseError {
    /// a numeric field fell outside its allowed range
    OutOfRange {
        /// the name of the offending field
        field: &'static str,
        /// the value rendered as a string
        value: String,
        /// human-readable description of the allowed domain
        allowed: &'static str,
    },
    /// a required field was missing from the JSON document
    MissingField(&'static str),
    /// a `areas` / `circles` key did not match the expected `area<N>` /
    /// `circle<N>` pattern
    InvalidKey(String),
}

/// Errors that arise while rendering GLW data onto a map.
#[derive(Debug)]
pub enum RenderError {
    /// the font for labels could not be loaded
    FontLoad(String),
}

/// `e` reports that `field` got the value `value`, outside `allowed`
pub open spec fn is_out_of_range(e: ParseError, field: Seq<char>, value: nat, allowed: Seq<char>) -> bool {
    e matches ParseError::OutOfRange { field: f, value: v, allowed: a } && f@ == field && v@
        == spec_decimal(value) && a@ == allowed
}

/// Numeric event identifier assigned by the GLW server.
#[derive(Debug, Clone, Copy, PartialEq, Eq, Hash, PartialOrd, Ord, Structural)]
pub struct EventId(u32);

impl EventId {
    /// the underlying numeric id
    pub closed spec fn spec_get(self) -> u32 {
        self.0
    }

    /// wrap a raw numeric id
    pub fn new(id: u32) -> (r: Self)
        ensures
            r.spec_get() == id,
    {
        EventId(id)
    }

    /// the underlying numeric id
    pub fn get(self) -> (r: u32)
        ensures
            r == self.spec_get(),
    {
        self.0
    }
}

/// String event key (the `eventKey` field of the JSON document), treated
/// by the GLW server as opaque text.
#[derive(Debug, Clone)]
pub struct GlwEventKey(String);

impl GlwEventKey {
    /// the characters of the key
    pub closed spec fn spec_key(&self) -> Seq<char> {
        self.0@
    }

    /// wrap a raw event-key string
    pub fn new(key: String) -> (r: Self)
        ensures
            r.spec_key() == key@,
    {
        GlwEventKey(key)
    }

    /// borrow the underlying string
    pub fn as_str(&self) -> (r: &str)
        ensures
            r@ == self.spec_key(),
    {
        self.0.as_str()
    }
}

/// Wind or current direction in degrees from North, increasing clockwise,
/// in `0..=359`; `180` means the wind comes **from** the south.
#[derive(Debug, Clone, Copy, PartialEq, Eq, Hash, Structural)]
pub struct WindDirection(u16);

impl WindDirection {
    /// the direction in degrees
    pub closed spec fn spec_degrees(self) -> u16 {
        self.0
    }

    #[verifier::type_invariant]
    spec fn inv(self) -> bool {
        self.0 <= 359
    }

    /// construct after range validation: `degrees` must be in `0..=359`
    pub fn try_new(degrees: u16) -> (r: Result<Self, ParseError>)
        ensures
            r is Ok <==> degrees <= 359,
            r matches Ok(d) ==> d.spec_degrees() == degrees,
            r matches Err(e) ==> is_out_of_range(
                e,
                "wind_direction"@,
                degrees as nat,
                "0..=359"@,
            ),
    {
        if degrees > 359 {
            return Err(
                ParseError::OutOfRange {
                    field: "wind_direction",
                    value: decimal_string(degrees as u64),
                    allowed: "0..=359",
                },
            );
        }
        Ok(WindDirection(degrees))
    }

    /// raw integer degrees in `0..=359`
    pub fn degrees(self) -> (r: u16)
        ensures
            r == self.spec_degrees(),
            r <= 359,
    {
        proof {
            use_type_invariant(self);
        }
        self.0
    }
}

/// Gust strength as a percentage of the base wind speed, in `0..=100`.
#[derive(Debug, Clone, Copy, PartialEq, Eq, Hash, Structural)]
pub struct GustsPercent(u8);

impl GustsPercent {
    /// the percentage
    pub closed spec fn spec_percent(self) -> u8 {
        self.0
    }

    #[verifier::type_invariant]
    spec fn inv(self) -> bool {
        self.0 <= 100
    }

    /// construct after range validation: `percent` must be at most `100`
    pub fn try_new(percent: u8) -> (r: Result<Self, ParseError>)
        ensures
            r is Ok <==> percent <= 100,
            r matches Ok(g) ==> g.spec_percent() == percent,
            r matches Err(e) ==> is_out_of_range(e, "gusts_percent"@, percent as nat, "0..=100"@),
    {
        if percent > 100 {
            return Err(
                ParseError::OutOfRange {
                    field: "gusts_percent",
                    value: decimal_string(percent as u64),
                    allowed: "0..=100",
                },
            );
        }
        Ok(GustsPercent(percent))
    }

    /// raw percentage in `0..=100`
    pub fn percent(self) -> (r: u8)
        ensures
            r == self.spec_percent(),
            r <= 100,
    {
        proof {
            use_type_invariant(self);
        }
        self.0
    }
}

/// Maximum wind shift in degrees per period, in `0..=180`.
#[derive(Debug, Clone, Copy, PartialEq, Eq, Hash, Structural)]
pub struct ShiftsDegrees(u16);

impl ShiftsDegrees {
    /// the shift in degrees
    pub closed spec fn spec_degrees(self) -> u16 {
        self.0
    }

    #[verifier::type_invariant]
    spec fn inv(self) -> bool {
        self.0 <= 180
    }

    /// construct after range validation: `degrees` must be at most `180`
    pub fn try_new(degrees: u16) -> (r: Result<Self, ParseError>)
        ensures
            r is Ok <==> degrees <= 180,
            r matches Ok(s) ==> s.spec_degrees() == degrees,
            r matches Err(e) ==> is_out_of_range(e, "shifts_degrees"@, degrees as nat, "0..=180"@),
    {
        if degrees > 180 {
            return Err(
                ParseError::OutOfRange {
                    field: "shifts_degrees",
                    value: decimal_string(degrees as u64),
                    allowed: "0..=180",
                },
            );
        }
        Ok(ShiftsDegrees(degrees))
    }

    /// raw degrees in `0..=180`
    pub fn degrees(self) -> (r: u16)
        ensures
            r == self.spec_degrees(),
            r <= 180,
    {
        proof {
            use_type_invariant(self);
        }
        self.0
    }
}

/// Wind shift and gust period in seconds.
#[derive(Debug, Clone, Copy, PartialEq, Eq, Hash, Structural)]
pub struct Period(u32);

impl Period {
    /// the period in seconds
    pub closed spec fn spec_seconds(self) -> u32 {
        self.0
    }

    /// wrap a number of seconds
    pub fn new(seconds: u32) -> (r: Self)
        ensures
            r.spec_seconds() == seconds,
    {
        Period(seconds)
    }

    /// raw seconds
    pub fn seconds(self) -> (r: u32)
        ensures
            r == self.spec_seconds(),
    {
        self.0
    }
}

/// Percentage variance of a wave parameter, in `0..=100`.
#[derive(Debug, Clone, Copy, PartialEq, Eq, Hash, Structural)]
pub struct PercentVariance(u8);

impl PercentVariance {
    /// the percentage
    pub closed spec fn spec_percent(self) -> u8 {
        self.0
    }

    #[verifier::type_invariant]
    spec fn inv(self) -> bool {
        self.0 <= 100
    }

    /// construct after range validation: `percent` must be at most `100`
    pub fn try_new(percent: u8) -> (r: Result<Self, ParseError>)
        ensures
            r is Ok <==> percent <= 100,
            r matches Ok(p) ==> p.spec_percent() == percent,
            r matches Err(e) ==> is_out_of_range(e, "percent_variance"@, percent as nat, "0..=100"@),
    {
        if percent > 100 {
            return Err(
                ParseError::OutOfRange {
                    field: "percent_variance",
                    value: decimal_string(percent as u64),
                    allowed: "0..=100",
                },
            );
        }
        Ok(PercentVariance(percent))
    }

    /// raw percent in `0..=100`
    pub fn percent(self) -> (r: u8)
        ensures
            r == self.spec_percent(),
            r <= 100,
    {
        proof {
            use_type_invariant(self);
        }
        self.0
    }
}

/// Two boolean toggles describing how waves affect a boat: whether they
/// modulate its speed and whether they perturb its heading.
///
/// In GLW JSON the field appears either as an object
/// `{"speed": 0|1, "steer": 0|1}` or as an integer bitmask
/// (`0 = none`, `1 = steer`, `2 = speed`, `3 = both`).
#[derive(Debug, Clone, Copy, PartialEq, Eq, Structural)]
pub struct WaveEffects {
    /// whether waves modulate the boat's forward speed
    pub speed: bool,
    /// whether waves perturb the boat's heading
    pub steer: bool,
}

impl WaveEffects {
    /// the effects of the integer bitmask form: bit 0 is steer, bit 1 is
    /// speed
    pub fn from_bitmask(n: u8) -> (r: Self)
        ensures
            r.speed == (n & 2u8 != 0),
            r.steer == (n & 1u8 != 0),
    {
        WaveEffects { speed: (n & 2u8) != 0, steer: (n & 1u8) != 0 }
    }

    /// the effects of the object form: a non-zero flag switches an effect
    /// on
    pub fn from_flags(speed: u8, steer: u8) -> (r: Self)
        ensures
            r.speed == (speed != 0),
            r.steer == (steer != 0),
    {
        WaveEffects { speed: speed != 0, steer: steer != 0 }
    }

    /// the short label naming the active effects, empty when none is
    pub fn label(self) -> (r: &'static str)
        ensures
            r@ == (if self.speed && self.steer {
                "spd+steer"@
            } else if self.speed {
                "spd"@
            } else if self.steer {
                "steer"@
            } else {
                ""@
            }),
    {
        match (self.speed, self.steer) {
            (true, true) => "spd+steer",
            (true, false) => "spd",
            (false, true) => "steer",
            (false, false) => "",
        }
    }
}

/// Per-area or per-circle margin in meters, clamped to `0..=100`.
#[derive(Debug, Clone, Copy, PartialEq, Eq, Hash, Structural)]
pub struct MarginMeters(u8);

impl MarginMeters {
    /// the margin in meters
    pub closed spec fn spec_meters(self) -> u8 {
        self.0
    }

    #[verifier::type_invariant]
    spec fn inv(self) -> bool {
        self.0 <= 100
    }

    /// construct, clamping values above the documented maximum of 100
    pub fn new_clamped(meters: u16) -> (r: Self)
        ensures
            r.spec_meters() == (if meters > 100 {
                100
            } else {
                meters
            }),
    {
        if meters > 100 {
            MarginMeters(100)
        } else {
            MarginMeters(meters as u8)
        }
    }

    /// raw margin in meters (`0..=100`)
    pub fn meters(self) -> (r: u8)
        ensures
            r == self.spec_meters(),
            r <= 100,
    {
        proof {
            use_type_invariant(self);
        }
        self.0
    }
}

/// Whether an area or circle is a nested override on top of another one
/// (`overlap = 1`) rather than directly modifying the base wind.
#[derive(Debug, Clone, Copy, PartialEq, Eq, Hash, Structural)]
pub struct Overlap(bool);

impl Overlap {
    /// the flag
    pub closed spec fn spec_get(self) -> bool {
        self.0
    }

    /// wrap a raw bool
    pub fn new(v: bool) -> (r: Self)
        ensures
            r.spec_get() == v,
    {
        Overlap(v)
    }

    /// the raw bool value
    pub fn get(self) -> (r: bool)
        ensures
            r == self.spec_get(),
    {
        self.0
    }
}

/// the 45° sector (`0` = North, counting clockwise) nearest to a direction
/// of `d` degrees
pub open spec fn spec_compass_sector(d: int) -> int {
    ((d + 22) % 360) / 45
}

/// the 8-point compass name of a sector
pub open spec fn spec_compass_name(sector: int) -> Seq<char> {
    if sector == 1 {
        "NE"@
    } else if sector == 2 {
        "E"@
    } else if sector == 3 {
        "SE"@
    } else if sector == 4 {
        "S"@
    } else if sector == 5 {
        "SW"@
    } else if sector == 6 {
        "W"@
    } else if sector == 7 {
        "NW"@
    } else {
        "N"@
    }
}

/// 8-point compass label for a [`WindDirection`]: one of `"N"`, `"NE"`,
/// `"E"`, `"SE"`, `"S"`, `"SW"`, `"W"`, `"NW"`, the nearest
/// cardinal/intercardinal direction
pub fn degrees_to_compass8(dir: WindDirection) -> (r: &'static str)
    ensures
        r@ == spec_compass_name(spec_compass_sector(dir.spec_degrees() as int)),
{
    let bucket = ((dir.degrees() as u32 + 22) % 360) / 45;
    match bucket {
        1 => "NE",
        2 => "E",
        3 => "SE",
        4 => "S",
        5 => "SW",
        6 => "W",
        7 => "NW",
        _ => "N",
    }
}

/// the compass sector of a direction is the nearest one: the direction is
/// within 22° of the sector's centre line, going round the circle
pub proof fn lemma_compass_nearest(d: int)
    requires
        0 <= d < 360,
    ensures
        0 <= spec_compass_sector(d) < 8,
        ({
            let diff = (d + 360 - 45 * spec_compass_sector(d)) % 360;
            diff <= 22 || diff >= 338
        }),
{
}

/// Sort two unsigned pixel coordinates so the lower value comes first.
pub fn sort_pair(a: u32, b: u32) -> (r: (u32, u32))
    ensures
        r.0 <= r.1,
        (r.0 == a && r.1 == b) || (r.0 == b && r.1 == a),
{
    if a <= b {
        (a, b)
    } else {
        (b, a)
    }
}

} // verus!
