//! Pieces of the grammar of a Second Life chat log line: the timestamp that
//! opens a line, the ISO 8601 timestamps found in messages, the messages of
//! an avatar (chat, emotes, coming online, entering an area, ...), and the
//! classification of the system messages that no more specific rule reads.
//!
//! Every parser reads a prefix of its input (the characters of the line as
//! a `Vec<char>`) starting at a given position and reports where it stopped.
use vstd::prelude::*;

use crate::chars::{spec_digits_value, spec_is_digit, spec_is_whitespace, string_from_chars};
use crate::system_messages::{system_message_at, system_message_is, SystemMessage};

verus! {

/// the characters `lit` occur in `s` at index `i`
pub open spec fn lit_at(s: Seq<char>, i: int, lit: Seq<char>) -> bool {
    0 <= i && i + lit.len() <= s.len() && s.subrange(i, i + lit.len()) == lit
}

/// the `n` characters of `s` from index `i` are ASCII digits
pub open spec fn digits_at(s: Seq<char>, i: int, n: int) -> bool {
    0 <= i && 0 <= n && i + n <= s.len() && forall|k: int| i <= k < i + n ==> spec_is_digit(#[trigger] s[k])
}

/// the value of the `n` digits of `s` from index `i`
pub open spec fn num_at(s: Seq<char>, i: int, n: int) -> int {
    spec_digits_value(s.subrange(i, i + n))
}

/// the first index from `p` on that does not hold whitespace
pub open spec fn spec_skip_ws(s: Seq<char>, p: int) -> int
    decreases s.len() - p,
{
    if 0 <= p < s.len() && spec_is_whitespace(s[p]) {
        spec_skip_ws(s, p + 1)
    } else {
        p
    }
}

/// the end of the run of digits starting at `p` (`p` itself when there is
/// none)
pub open spec fn spec_digit_run(s: Seq<char>, p: int) -> int
    decreases s.len() - p,
{
    if 0 <= p < s.len() && spec_is_digit(s[p]) {
        spec_digit_run(s, p + 1)
    } else {
        p
    }
}

/// whether `lit` occurs in `s` at index `i`
pub(crate) fn lit_at_exec(s: &Vec<char>, i: usize, lit: &str) -> (r: bool)
    ensures
        r == lit_at(s@, i as int, lit@),
{
    let l = crate::chars::str_to_chars(lit);
    crate::chars::matches_at(s, &l, i)
}

/// the value of the `n` (at most 6) digits of `s` from `i`, if they are all
/// digits
fn num_at_exec(s: &Vec<char>, i: usize, n: usize) -> (r: Option<u32>)
    requires
        n <= 6,
    ensures
        r is Some <==> digits_at(s@, i as int, n as int),
        r matches Some(v) ==> v == num_at(s@, i as int, n as int),
{
    if i > s.len() || n > s.len() - i {
        return None;
    }
    let sl = s.len();
    let mut v: u32 = 0;
    let mut k: usize = 0;
    while k < n
        invariant
            sl == s@.len(),
            n <= 6,
            i + n <= s@.len(),
            k <= n,
            forall|j: int| i <= j < i + k ==> spec_is_digit(#[trigger] s@[j]),
            v == spec_digits_value(s@.subrange(i as int, i + k)),
            v < pow10(k as nat),
        decreases n - k,
    {
        let c = s[i + k];
        if !('0' <= c && c <= '9') {
            return None;
        }
        proof {
            assert(s@.subrange(i as int, i + k + 1).drop_last() =~= s@.subrange(i as int, i + k));
            assert(pow10((k + 1) as nat) == pow10(k as nat) * 10);
            lemma_pow10_bound(k as nat);
        }
        v = v * 10 + (c as u32 - '0' as u32);
        k = k + 1;
    }
    Some(v)
}

/// `10` to the power `k`
pub open spec fn pow10(k: nat) -> int
    decreases k,
{
    if k == 0 {
        1
    } else {
        10 * pow10((k - 1) as nat)
    }
}

/// the powers of ten up to the fifth are at most `100000`
proof fn lemma_pow10_bound(k: nat)
    requires
        k <= 6,
    ensures
        1 <= pow10(k) <= 1000000,
        k <= 5 ==> pow10(k) <= 100000,
        k == 2 ==> pow10(k) == 100,
        k == 4 ==> pow10(k) == 10000,
        k == 6 ==> pow10(k) == 1000000,
{
    reveal_with_fuel(pow10, 7);
    if k == 0 {
    } else if k == 1 {
    } else if k == 2 {
    } else if k == 3 {
    } else if k == 4 {
    } else if k == 5 {
    } else {
    }
}

/// the first index from `p` on that does not hold whitespace
pub(crate) fn skip_ws(s: &Vec<char>, p: usize) -> (r: usize)
    requires
        p <= s@.len(),
    ensures
        r == spec_skip_ws(s@, p as int),
        p <= r <= s@.len(),
{
    let mut q = p;
    while q < s.len() && crate::chars::is_whitespace(s[q])
        invariant
            p <= q <= s@.len(),
            spec_skip_ws(s@, p as int) == spec_skip_ws(s@, q as int),
        decreases s@.len() - q,
    {
        q = q + 1;
    }
    q
}

/// a calendar date and wall-clock time to the second, as written at the
/// start of a chat log line
#[derive(Debug, Clone, Copy, PartialEq, Eq, Structural)]
pub struct Timestamp {
    /// the year
    pub year: u16,
    /// the month, `1..=12`
    pub month: u8,
    /// the day of the month
    pub day: u8,
    /// the hour, `0..=23`
    pub hour: u8,
    /// the minute, `0..=59`
    pub minute: u8,
    /// the second, `0..=59`
    pub second: u8,
}

/// a UTC date and time to the microsecond
#[derive(Debug, Clone, Copy, PartialEq, Eq, Structural)]
pub struct UtcTimestamp {
    /// the date and time to the second
    pub time: Timestamp,
    /// the microsecond, `0..=999999`
    pub microsecond: u32,
}

/// `y` is a leap year of the Gregorian calendar
pub open spec fn spec_is_leap_year(y: int) -> bool {
    y % 4 == 0 && (y % 100 != 0 || y % 400 == 0)
}

/// the number of days of month `m` of year `y`
pub open spec fn spec_days_in_month(y: int, m: int) -> int {
    if m == 2 {
        if spec_is_leap_year(y) {
            29
        } else {
            28
        }
    } else if m == 4 || m == 6 || m == 9 || m == 11 {
        30
    } else {
        31
    }
}

/// the date and time exist (the year being `0..=9999`)
pub open spec fn spec_valid_datetime(y: int, mo: int, d: int, h: int, mi: int, s: int) -> bool {
    &&& 1 <= mo <= 12
    &&& 1 <= d <= spec_days_in_month(y, mo)
    &&& 0 <= h < 24
    &&& 0 <= mi < 60
    &&& 0 <= s < 60
}

/// whether the `time` crate accepts the date and time: this calls
/// `time::Month::try_from`, `time::Date::from_calendar_date` and
/// `time::Time::from_hms_micro`, which accept a month `1..=12`, a day that
/// exists in that month of that year (Gregorian leap years), an hour below
/// 24, a minute and a second below 60 and a microsecond below a million
#[verifier::external_body]
fn time_accepts(year: u16, month: u8, day: u8, hour: u8, minute: u8, second: u8, micro: u32) -> (r:
    bool)
    requires
        year <= 9999,
        micro < 1_000_000,
    ensures
        r == spec_valid_datetime(
            year as int,
            month as int,
            day as int,
            hour as int,
            minute as int,
            second as int,
        ),
{
    let Ok(m) = time::Month::try_from(month) else {
        return false;
    };
    time::Date::from_calendar_date(i32::from(year), m, day).is_ok() && time::Time::from_hms_micro(
        hour,
        minute,
        second,
        micro,
    ).is_ok()
}

/// the fields of a line timestamp up to the minute are well formed:
/// `[YYYY/MM/DD hh:mm`
pub open spec fn spec_stamp_fields(s: Seq<char>) -> bool {
    &&& s.len() >= 17
    &&& s[0] == '['
    &&& digits_at(s, 1, 4)
    &&& s[5] == '/'
    &&& digits_at(s, 6, 2)
    &&& s[8] == '/'
    &&& digits_at(s, 9, 2)
    &&& s[11] == ' '
    &&& digits_at(s, 12, 2)
    &&& s[14] == ':'
    &&& digits_at(s, 15, 2)
}

/// the line timestamp carries seconds (`:ss` after the minute)
pub open spec fn spec_stamp_seconds(s: Seq<char>) -> bool {
    s.len() >= 18 && s[17] == ':' && digits_at(s, 18, 2)
}

/// the index after the closing `]` of a line timestamp
pub open spec fn spec_stamp_end(s: Seq<char>) -> int {
    if spec_stamp_seconds(s) {
        21
    } else {
        18
    }
}

/// the timestamp at the start of `s`, when well formed and valid
pub open spec fn spec_line_stamp(s: Seq<char>) -> Option<Timestamp> {
    if spec_stamp_fields(s) && s.len() >= spec_stamp_end(s) && s[spec_stamp_end(s) - 1] == ']'
        && spec_valid_datetime(
        num_at(s, 1, 4),
        num_at(s, 6, 2),
        num_at(s, 9, 2),
        num_at(s, 12, 2),
        num_at(s, 15, 2),
        if spec_stamp_seconds(s) {
            num_at(s, 18, 2)
        } else {
            0
        },
    ) {
        Some(
            Timestamp {
                year: num_at(s, 1, 4) as u16,
                month: num_at(s, 6, 2) as u8,
                day: num_at(s, 9, 2) as u8,
                hour: num_at(s, 12, 2) as u8,
                minute: num_at(s, 15, 2) as u8,
                second: if spec_stamp_seconds(s) {
                    num_at(s, 18, 2) as u8
                } else {
                    0
                },
            },
        )
    } else {
        None
    }
}

/// the placeholder some viewers wrote instead of a timestamp
pub open spec fn spec_placeholder() -> Seq<char> {
    "[[year,datetime,slt]/[mthnum,datetime,slt]/[day,datetime,slt] [hour,datetime,slt]:[min,datetime,slt]]"@
}

/// the timestamp opening a chat log line (`None` for the placeholder) and
/// the index after it and the whitespace following it, or `None` when the
/// line opens with neither a valid timestamp nor the placeholder
pub open spec fn spec_line_header(s: Seq<char>) -> Option<(Option<Timestamp>, int)> {
    match spec_line_stamp(s) {
        Some(t) => Some((Some(t), spec_skip_ws(s, spec_stamp_end(s)))),
        None => if lit_at(s, 0, spec_placeholder()) {
            Some((None, spec_skip_ws(s, spec_placeholder().len() as int)))
        } else {
            None
        },
    }
}

/// `n` digits are below `10^n`
proof fn lemma_digits_bound(s: Seq<char>, i: int, n: int)
    requires
        digits_at(s, i, n),
    ensures
        0 <= num_at(s, i, n) < pow10(n as nat),
{
    let t = s.subrange(i, i + n);
    assert forall|j: int| 0 <= j < t.len() implies spec_is_digit(#[trigger] t[j]) by {
        assert(t[j] == s[i + j]);
    }
    lemma_prefix_value(t, n);
    assert(t.subrange(0, n) =~= t);
}

/// two digits are at most 99
proof fn lemma_two_digits(s: Seq<char>, i: int)
    requires
        digits_at(s, i, 2),
    ensures
        0 <= num_at(s, i, 2) <= 99,
{
    lemma_digits_bound(s, i, 2);
    lemma_pow10_bound(2);
}

/// four digits are at most 9999
proof fn lemma_four_digits(s: Seq<char>, i: int)
    requires
        digits_at(s, i, 4),
    ensures
        0 <= num_at(s, i, 4) <= 9999,
{
    lemma_digits_bound(s, i, 4);
    lemma_pow10_bound(4);
}

/// read the timestamp that opens a chat log line (`[YYYY/MM/DD hh:mm]` or
/// `[YYYY/MM/DD hh:mm:ss]`, seconds `0` when absent, or the placeholder
/// some viewers wrote, read as no timestamp) and the whitespace after it;
/// gives the timestamp and the index where the rest of the line starts
pub fn parse_line_header(s: &Vec<char>) -> (r: Option<(Option<Timestamp>, usize)>)
    ensures
        match spec_line_header(s@) {
            None => r is None,
            Some((t, e)) => r matches Some(v) && v.0 == t && v.1 == e,
        },
{
    let stamp = parse_line_stamp(s);
    match stamp {
        Some((t, end)) => {
            let e = skip_ws(s, end);
            Some((Some(t), e))
        },
        None => {
            if lit_at_exec(
                s,
                0,
                "[[year,datetime,slt]/[mthnum,datetime,slt]/[day,datetime,slt] [hour,datetime,slt]:[min,datetime,slt]]",
            ) {
                let l = crate::chars::str_to_chars(
                    "[[year,datetime,slt]/[mthnum,datetime,slt]/[day,datetime,slt] [hour,datetime,slt]:[min,datetime,slt]]",
                );
                let e = skip_ws(s, l.len());
                Some((None, e))
            } else {
                None
            }
        },
    }
}

/// the timestamp at the start of `s` and the index after its `]`
fn parse_line_stamp(s: &Vec<char>) -> (r: Option<(Timestamp, usize)>)
    ensures
        match spec_line_stamp(s@) {
            None => r is None,
            Some(t) => r matches Some(v) && v.0 == t && v.1 == spec_stamp_end(s@) && v.1 <= s@.len(),
        },
{
    if s.len() < 17 || s[0] != '[' || s[5] != '/' || s[8] != '/' || s[11] != ' ' || s[14] != ':' {
        return None;
    }
    let y = num_at_exec(s, 1, 4);
    let mo = num_at_exec(s, 6, 2);
    let d = num_at_exec(s, 9, 2);
    let h = num_at_exec(s, 12, 2);
    let mi = num_at_exec(s, 15, 2);
    let (y, mo, d, h, mi) = match (y, mo, d, h, mi) {
        (Some(y), Some(mo), Some(d), Some(h), Some(mi)) => (y, mo, d, h, mi),
        _ => {
            return None;
        },
    };
    proof {
        lemma_four_digits(s@, 1);
        lemma_two_digits(s@, 6);
        lemma_two_digits(s@, 9);
        lemma_two_digits(s@, 12);
        lemma_two_digits(s@, 15);
    }
    let sec = if s.len() >= 18 && s[17] == ':' {
        num_at_exec(s, 18, 2)
    } else {
        None
    };
    let (second, end) = match sec {
        Some(v) => {
            proof {
                lemma_two_digits(s@, 18);
            }
            (v, 21usize)
        },
        None => (0u32, 18usize),
    };
    if s.len() < end || s[end - 1] != ']' {
        return None;
    }
    if !time_accepts(y as u16, mo as u8, d as u8, h as u8, mi as u8, second as u8, 0) {
        return None;
    }
    Some(
        (
            Timestamp {
                year: y as u16,
                month: mo as u8,
                day: d as u8,
                hour: h as u8,
                minute: mi as u8,
                second: second as u8,
            },
            end,
        ),
    )
}

/// an ISO 8601 UTC timestamp with microseconds at index `i` of `s`:
/// `YYYY-MM-DDThh:mm:ss.ffffffZ`, when well formed and valid
pub open spec fn spec_iso_stamp(s: Seq<char>, i: int) -> Option<UtcTimestamp> {
    if digits_at(s, i, 4) && lit_at(s, i + 4, "-"@) && digits_at(s, i + 5, 2) && lit_at(
        s,
        i + 7,
        "-"@,
    ) && digits_at(s, i + 8, 2) && lit_at(s, i + 10, "T"@) && digits_at(s, i + 11, 2) && lit_at(
        s,
        i + 13,
        ":"@,
    ) && digits_at(s, i + 14, 2) && lit_at(s, i + 16, ":"@) && digits_at(s, i + 17, 2) && lit_at(
        s,
        i + 19,
        "."@,
    ) && digits_at(s, i + 20, 6) && lit_at(s, i + 26, "Z"@) && spec_valid_datetime(
        num_at(s, i, 4),
        num_at(s, i + 5, 2),
        num_at(s, i + 8, 2),
        num_at(s, i + 11, 2),
        num_at(s, i + 14, 2),
        num_at(s, i + 17, 2),
    ) {
        Some(
            UtcTimestamp {
                time: Timestamp {
                    year: num_at(s, i, 4) as u16,
                    month: num_at(s, i + 5, 2) as u8,
                    day: num_at(s, i + 8, 2) as u8,
                    hour: num_at(s, i + 11, 2) as u8,
                    minute: num_at(s, i + 14, 2) as u8,
                    second: num_at(s, i + 17, 2) as u8,
                },
                microsecond: num_at(s, i + 20, 6) as u32,
            },
        )
    } else {
        None
    }
}

/// six digits are below a million
proof fn lemma_six_digits(s: Seq<char>, i: int)
    requires
        digits_at(s, i, 6),
    ensures
        0 <= num_at(s, i, 6) < 1_000_000,
{
    lemma_digits_bound(s, i, 6);
    lemma_pow10_bound(6);
}

/// a prefix of `k` digits is below `10^k`
proof fn lemma_prefix_value(t: Seq<char>, k: int)
    requires
        0 <= k <= t.len(),
        forall|j: int| 0 <= j < t.len() ==> spec_is_digit(#[trigger] t[j]),
    ensures
        0 <= spec_digits_value(t.subrange(0, k)) < pow10(k as nat),
    decreases k,
{
    if k > 0 {
        lemma_prefix_value(t, k - 1);
        assert(t.subrange(0, k).drop_last() =~= t.subrange(0, k - 1));
        assert(spec_is_digit(t[k - 1]));
    }
}

/// read an ISO 8601 UTC timestamp with microseconds
/// (`YYYY-MM-DDThh:mm:ss.ffffffZ`) at index `i` of `s`, giving it and the
/// index after its `Z`
pub fn offset_datetime_parser(s: &Vec<char>, i: usize) -> (r: Option<(UtcTimestamp, usize)>)
    ensures
        match spec_iso_stamp(s@, i as int) {
            None => r is None,
            Some(t) => r matches Some(v) && v.0 == t && v.1 == i + 27,
        },
{
    if i > s.len() || s.len() - i < 27 {
        proof {
            reveal_strlit("Z");
            assert(!lit_at(s@, i as int + 26, "Z"@));
        }
        return None;
    }
    let y = num_at_exec(s, i, 4);
    let mo = num_at_exec(s, i + 5, 2);
    let d = num_at_exec(s, i + 8, 2);
    let h = num_at_exec(s, i + 11, 2);
    let mi = num_at_exec(s, i + 14, 2);
    let se = num_at_exec(s, i + 17, 2);
    let us = num_at_exec(s, i + 20, 6);
    let seps = lit_at_exec(s, i + 4, "-") && lit_at_exec(s, i + 7, "-") && lit_at_exec(s, i + 10, "T")
        && lit_at_exec(s, i + 13, ":") && lit_at_exec(s, i + 16, ":") && lit_at_exec(s, i + 19, ".")
        && lit_at_exec(s, i + 26, "Z");
    if !seps {
        return None;
    }
    let (y, mo, d, h, mi, se, us) = match (y, mo, d, h, mi, se, us) {
        (Some(y), Some(mo), Some(d), Some(h), Some(mi), Some(se), Some(us)) => (
            y,
            mo,
            d,
            h,
            mi,
            se,
            us,
        ),
        _ => {
            return None;
        },
    };
    proof {
        lemma_four_digits(s@, i as int);
        lemma_two_digits(s@, i + 5);
        lemma_two_digits(s@, i + 8);
        lemma_two_digits(s@, i + 11);
        lemma_two_digits(s@, i + 14);
        lemma_two_digits(s@, i + 17);
        lemma_six_digits(s@, i + 20);
    }
    if !time_accepts(y as u16, mo as u8, d as u8, h as u8, mi as u8, se as u8, us) {
        return None;
    }
    Some(
        (
            UtcTimestamp {
                time: Timestamp {
                    year: y as u16,
                    month: mo as u8,
                    day: d as u8,
                    hour: h as u8,
                    minute: mi as u8,
                    second: se as u8,
                },
                microsecond: us,
            },
            i + 27,
        ),
    )
}

/// how "loud" a chat message was
#[derive(Debug, Clone, Copy, PartialEq, Eq, Structural)]
pub enum ChatVolume {
    /// whisper (10m)
    Whisper,
    /// say (20m, the default chat range)
    Say,
    /// shout (100m)
    Shout,
    /// region say (the whole region)
    RegionSay,
}

/// an area of significance an avatar can enter or leave
#[derive(Debug, Clone, Copy, PartialEq, Eq, Structural)]
pub enum Area {
    /// chat range
    ChatRange,
    /// draw distance
    DrawDistance,
    /// the region
    Region,
}

/// a distance in meters as written in the log: the digits before the
/// decimal point and, if written, those after it
#[derive(Debug, Clone)]
pub struct DistanceText {
    /// the digits of the whole meters
    pub whole: String,
    /// the digits after the decimal point
    pub fraction: Option<String>,
}

/// a Second Life avatar related message
#[derive(Debug, Clone)]
pub enum AvatarMessage {
    /// an avatar whispering, saying or shouting something
    Chat {
        /// how loud the message was
        volume: ChatVolume,
        /// the chat message
        message: String,
    },
    /// an emote (a chat message starting with `/me` in the log)
    Emote {
        /// how loud the message was
        volume: ChatVolume,
        /// the message without the `/me`
        message: String,
    },
    /// an avatar coming online
    CameOnline,
    /// an avatar going offline
    WentOffline,
    /// an avatar entering an area of significance
    EnteredArea {
        /// the area
        area: Area,
        /// the distance at which the avatar entered it
        distance: Option<DistanceText>,
    },
    /// an avatar leaving an area of significance
    LeftArea {
        /// the area
        area: Area,
    },
}

/// the volume of a chat text and the text without its volume marker:
/// `whispers: ` and `shouts: ` in front mark a whisper and a shout, any
/// other text is said
pub open spec fn spec_volume_and_message(t: Seq<char>) -> (ChatVolume, Seq<char>) {
    if lit_at(t, 0, "whispers: "@) {
        (ChatVolume::Whisper, t.subrange("whispers: "@.len() as int, t.len() as int))
    } else if lit_at(t, 0, "shouts: "@) {
        (ChatVolume::Shout, t.subrange("shouts: "@.len() as int, t.len() as int))
    } else {
        (ChatVolume::Say, t)
    }
}

/// the volume and message of a chat text; this calls
/// `sl_types::chat::ChatVolume::volume_and_message`, which strips a
/// `whispers: ` or `shouts: ` prefix and reports the matching volume, and
/// reports `Say` with the text unchanged otherwise
#[verifier::external_body]
fn volume_and_message(t: String) -> (r: (ChatVolume, String))
    ensures
        r.0 == spec_volume_and_message(t@).0,
        r.1@ == spec_volume_and_message(t@).1,
{
    let (v, m) = sl_types::chat::ChatVolume::volume_and_message(t);
    let volume = match v {
        sl_types::chat::ChatVolume::Whisper => ChatVolume::Whisper,
        sl_types::chat::ChatVolume::Say => ChatVolume::Say,
        sl_types::chat::ChatVolume::Shout => ChatVolume::Shout,
        sl_types::chat::ChatVolume::RegionSay => ChatVolume::RegionSay,
    };
    (volume, m)
}

/// the area named at index `i` and the index after its name
pub open spec fn spec_area_at(s: Seq<char>, i: int) -> Option<(Area, int)> {
    if lit_at(s, i, "chat range"@) {
        Some((Area::ChatRange, i + "chat range"@.len()))
    } else if lit_at(s, i, "draw distance"@) {
        Some((Area::DrawDistance, i + "draw distance"@.len()))
    } else if lit_at(s, i, "region"@) {
        Some((Area::Region, i + "region"@.len()))
    } else if lit_at(s, i, "the region"@) {
        Some((Area::Region, i + "the region"@.len()))
    } else {
        None
    }
}

/// the area named at index `i` (`chat range`, `draw distance`, `region` or
/// `the region`) and the index after its name
fn area_at(s: &Vec<char>, i: usize) -> (r: Option<(Area, usize)>)
    ensures
        match spec_area_at(s@, i as int) {
            None => r is None,
            Some((a, e)) => r matches Some(v) && v.0 == a && v.1 == e && e <= s@.len(),
        },
{
    let sl = s.len();
    proof {
        reveal_strlit("chat range");
        reveal_strlit("draw distance");
        reveal_strlit("region");
        reveal_strlit("the region");
    }
    if lit_at_exec(s, i, "chat range") {
        Some((Area::ChatRange, i + 10))
    } else if lit_at_exec(s, i, "draw distance") {
        Some((Area::DrawDistance, i + 13))
    } else if lit_at_exec(s, i, "region") {
        Some((Area::Region, i + 6))
    } else if lit_at_exec(s, i, "the region") {
        Some((Area::Region, i + 10))
    } else {
        None
    }
}

/// the end of the run of digits starting at `p`
pub(crate) fn digit_run(s: &Vec<char>, p: usize) -> (r: usize)
    requires
        p <= s@.len(),
    ensures
        r == spec_digit_run(s@, p as int),
        p <= r <= s@.len(),
        forall|k: int| p <= k < r ==> spec_is_digit(#[trigger] s@[k]),
{
    let mut q = p;
    while q < s.len() && '0' <= s[q] && s[q] <= '9'
        invariant
            p <= q <= s@.len(),
            spec_digit_run(s@, p as int) == spec_digit_run(s@, q as int),
            forall|k: int| p <= k < q ==> spec_is_digit(#[trigger] s@[k]),
        decreases s@.len() - q,
    {
        q = q + 1;
    }
    q
}

/// a distance at index `p`: digits, optionally `.` and more digits, then
/// optional whitespace and `m`; as `(whole digits end, fraction digits
/// range, index after the m)`
pub open spec fn spec_distance_at(s: Seq<char>, p: int) -> Option<(int, Option<(int, int)>, int)> {
    let w = spec_digit_run(s, p);
    if w == p {
        None
    } else {
        let frac = if 0 <= w < s.len() && s[w] == '.' && spec_digit_run(s, w + 1) > w + 1 {
            Some((w + 1, spec_digit_run(s, w + 1)))
        } else {
            None
        };
        let q = match frac {
            Some((_, f)) => f,
            None => w,
        };
        let q2 = spec_skip_ws(s, q);
        if 0 <= q2 < s.len() && s[q2] == 'm' {
            Some((w, frac, q2 + 1))
        } else {
            None
        }
    }
}

/// the distance written at index `p` of `s` and the index after it
pub(crate) fn distance_at(s: &Vec<char>, p: usize) -> (r: Option<(DistanceText, usize)>)
    requires
        p <= s@.len(),
    ensures
        match spec_distance_at(s@, p as int) {
            None => r is None,
            Some((w, frac, e)) => r matches Some(v) && v.0.whole@ == s@.subrange(p as int, w) && v.1
                == e && e <= s@.len() && match frac {
                None => v.0.fraction is None,
                Some((f0, f1)) => v.0.fraction matches Some(t) && t@ == s@.subrange(f0, f1),
            },
        },
{
    let w = digit_run(s, p);
    if w == p {
        return None;
    }
    let frac = if w < s.len() && s[w] == '.' {
        let f = digit_run(s, w + 1);
        if f > w + 1 {
            Some((w + 1, f))
        } else {
            None
        }
    } else {
        None
    };
    let q = match frac {
        Some((_, f)) => f,
        None => w,
    };
    let q2 = skip_ws(s, q);
    if q2 < s.len() && s[q2] == 'm' {
        let whole = string_from_chars(&crate::chars::slice_chars(s, p, w));
        let fraction = match frac {
            Some((f0, f1)) => Some(string_from_chars(&crate::chars::slice_chars(s, f0, f1))),
            None => None,
        };
        Some((DistanceText { whole, fraction }, q2 + 1))
    } else {
        None
    }
}

/// the tail of an `entered` message at index `j` (just after `entered `):
/// the area, an optional ` (distance)` and the closing `.`; as `(area,
/// index after the area name, distance, index after the .)`
pub open spec fn spec_entered_tail(s: Seq<char>, j: int) -> Option<
    (Area, int, Option<(int, Option<(int, int)>, int)>, int),
> {
    match spec_area_at(s, j) {
        None => None,
        Some((a, j2)) => {
            let dist = if lit_at(s, j2, " ("@) {
                match spec_distance_at(s, j2 + 2) {
                    Some(d) => if lit_at(s, d.2, ")"@) {
                        Some(d)
                    } else {
                        None
                    },
                    None => None,
                }
            } else {
                None
            };
            let k = match dist {
                Some(d) => d.2 + 1,
                None => j2,
            };
            if lit_at(s, k, "."@) {
                Some((a, j2, dist, k + 1))
            } else {
                None
            }
        },
    }
}

/// the kind of avatar status message (`0` online, `1` offline, `2`
/// entered, `3` left) read at index `i` and the index after it
pub open spec fn spec_status_at(s: Seq<char>, i: int) -> Option<(int, int)> {
    if lit_at(s, i, "is online."@) {
        Some((0, i + "is online."@.len()))
    } else if lit_at(s, i, "is offline."@) {
        Some((1, i + "is offline."@.len()))
    } else if lit_at(s, i, "entered "@) && spec_entered_tail(s, i + "entered "@.len()) is Some {
        Some((2, spec_entered_tail(s, i + "entered "@.len()).unwrap().3))
    } else if lit_at(s, i, "left "@) && spec_area_at(s, i + "left "@.len()) is Some && lit_at(
        s,
        spec_area_at(s, i + "left "@.len()).unwrap().1,
        "."@,
    ) {
        Some((3, spec_area_at(s, i + "left "@.len()).unwrap().1 + 1))
    } else {
        None
    }
}

/// `m` is the message an `entered` tail read at index `j` describes: the
/// area and, when written, the distance
pub open spec fn entered_message_is(s: Seq<char>, j: int, m: AvatarMessage) -> bool {
    match spec_entered_tail(s, j) {
        None => false,
        Some(t) => m matches AvatarMessage::EnteredArea { area, distance } && area == t.0 && match t.2 {
            None => distance is None,
            Some((w, frac, _)) => distance matches Some(d) && d.whole@ == s.subrange(t.1 + 2, w)
                && match frac {
                None => d.fraction is None,
                Some((f0, f1)) => d.fraction matches Some(x) && x@ == s.subrange(f0, f1),
            },
        },
    }
}

/// `m` is the status message read at index `i` of `s`
pub open spec fn status_message_is(s: Seq<char>, i: int, m: AvatarMessage) -> bool {
    match spec_status_at(s, i) {
        None => false,
        Some((k, _)) => if k == 0 {
            m is CameOnline
        } else if k == 1 {
            m is WentOffline
        } else if k == 2 {
            entered_message_is(s, i + "entered "@.len(), m)
        } else {
            m matches AvatarMessage::LeftArea { area } && area == spec_area_at(
                s,
                i + "left "@.len(),
            ).unwrap().0
        },
    }
}

/// the character of `s` at index `i` is the first of `lit`, where `lit`
/// occurs there
proof fn lemma_lit_first(s: Seq<char>, i: int, lit: Seq<char>)
    requires
        lit_at(s, i, lit),
        lit.len() > 0,
    ensures
        s[i] == lit[0],
{
    assert(s.subrange(i, i + lit.len())[0] == s[i]);
}

/// each area name reads as its own area: `chat range` as the chat range,
/// `draw distance` as the draw distance, and `region` and `the region` as
/// the region, the reading ending after the name; text that starts with
/// none of the names is no area
pub proof fn lemma_area_names(s: Seq<char>, i: int)
    ensures
        lit_at(s, i, "chat range"@) ==> spec_area_at(s, i) == Some((Area::ChatRange, i + 10)),
        lit_at(s, i, "draw distance"@) ==> spec_area_at(s, i) == Some(
            (Area::DrawDistance, i + 13),
        ),
        lit_at(s, i, "region"@) ==> spec_area_at(s, i) == Some((Area::Region, i + 6)),
        lit_at(s, i, "the region"@) ==> spec_area_at(s, i) == Some((Area::Region, i + 10)),
        !lit_at(s, i, "chat range"@) && !lit_at(s, i, "draw distance"@) && !lit_at(
            s,
            i,
            "region"@,
        ) && !lit_at(s, i, "the region"@) ==> spec_area_at(s, i) is None,
{
    reveal_strlit("chat range");
    reveal_strlit("draw distance");
    reveal_strlit("region");
    reveal_strlit("the region");
    if lit_at(s, i, "draw distance"@) {
        lemma_lit_first(s, i, "draw distance"@);
        if lit_at(s, i, "chat range"@) {
            lemma_lit_first(s, i, "chat range"@);
        }
    }
    if lit_at(s, i, "region"@) {
        lemma_lit_first(s, i, "region"@);
        if lit_at(s, i, "chat range"@) {
            lemma_lit_first(s, i, "chat range"@);
        }
        if lit_at(s, i, "draw distance"@) {
            lemma_lit_first(s, i, "draw distance"@);
        }
    }
    if lit_at(s, i, "the region"@) {
        lemma_lit_first(s, i, "the region"@);
        if lit_at(s, i, "chat range"@) {
            lemma_lit_first(s, i, "chat range"@);
        }
        if lit_at(s, i, "draw distance"@) {
            lemma_lit_first(s, i, "draw distance"@);
        }
        if lit_at(s, i, "region"@) {
            lemma_lit_first(s, i, "region"@);
        }
    }
}

/// an avatar entering or leaving an area is read with the area its name
/// gives: `entered draw distance` is the draw distance, `left chat range`
/// the chat range, and so on
pub proof fn lemma_status_areas(s: Seq<char>, i: int, m: AvatarMessage)
    requires
        status_message_is(s, i, m),
    ensures
        m matches AvatarMessage::EnteredArea { area, .. } ==> lit_at(s, i, "entered "@) && ((
        area == Area::ChatRange) == lit_at(s, i + 8, "chat range"@)) && ((area == Area::DrawDistance)
            == lit_at(s, i + 8, "draw distance"@)) && ((area == Area::Region) == (lit_at(
            s,
            i + 8,
            "region"@,
        ) || lit_at(s, i + 8, "the region"@))),
        m matches AvatarMessage::LeftArea { area } ==> lit_at(s, i, "left "@) && ((area
            == Area::ChatRange) == lit_at(s, i + 5, "chat range"@)) && ((area == Area::DrawDistance)
            == lit_at(s, i + 5, "draw distance"@)) && ((area == Area::Region) == (lit_at(
            s,
            i + 5,
            "region"@,
        ) || lit_at(s, i + 5, "the region"@))),
{
    reveal_strlit("is online.");
    reveal_strlit("is offline.");
    reveal_strlit("entered ");
    reveal_strlit("left ");
    lemma_area_names(s, i + 8);
    lemma_area_names(s, i + 5);
    reveal_strlit("chat range");
    reveal_strlit("draw distance");
    reveal_strlit("region");
    reveal_strlit("the region");
    if lit_at(s, i + 8, "chat range"@) && lit_at(s, i + 8, "draw distance"@) {
        lemma_lit_first(s, i + 8, "chat range"@);
        lemma_lit_first(s, i + 8, "draw distance"@);
    }
    if lit_at(s, i + 5, "chat range"@) && lit_at(s, i + 5, "draw distance"@) {
        lemma_lit_first(s, i + 5, "chat range"@);
        lemma_lit_first(s, i + 5, "draw distance"@);
    }
    if lit_at(s, i + 8, "region"@) {
        lemma_lit_first(s, i + 8, "region"@);
        if lit_at(s, i + 8, "chat range"@) {
            lemma_lit_first(s, i + 8, "chat range"@);
        }
        if lit_at(s, i + 8, "draw distance"@) {
            lemma_lit_first(s, i + 8, "draw distance"@);
        }
    }
    if lit_at(s, i + 8, "the region"@) {
        lemma_lit_first(s, i + 8, "the region"@);
        if lit_at(s, i + 8, "chat range"@) {
            lemma_lit_first(s, i + 8, "chat range"@);
        }
        if lit_at(s, i + 8, "draw distance"@) {
            lemma_lit_first(s, i + 8, "draw distance"@);
        }
    }
    if lit_at(s, i + 5, "region"@) {
        lemma_lit_first(s, i + 5, "region"@);
        if lit_at(s, i + 5, "chat range"@) {
            lemma_lit_first(s, i + 5, "chat range"@);
        }
        if lit_at(s, i + 5, "draw distance"@) {
            lemma_lit_first(s, i + 5, "draw distance"@);
        }
    }
    if lit_at(s, i + 5, "the region"@) {
        lemma_lit_first(s, i + 5, "the region"@);
        if lit_at(s, i + 5, "chat range"@) {
            lemma_lit_first(s, i + 5, "chat range"@);
        }
        if lit_at(s, i + 5, "draw distance"@) {
            lemma_lit_first(s, i + 5, "draw distance"@);
        }
    }
}

/// read the tail of an `entered` message at index `j`
fn entered_tail(s: &Vec<char>, j: usize) -> (r: Option<(Area, Option<DistanceText>, usize)>)
    ensures
        match spec_entered_tail(s@, j as int) {
            None => r is None,
            Some(t) => r matches Some(v) && v.0 == t.0 && v.2 == t.3 && v.2 <= s@.len() && match t.2 {
                None => v.1 is None,
                Some((w, frac, _)) => v.1 matches Some(d) && d.whole@ == s@.subrange(t.1 + 2, w)
                    && match frac {
                    None => d.fraction is None,
                    Some((f0, f1)) => d.fraction matches Some(x) && x@ == s@.subrange(f0, f1),
                },
            },
        },
{
    let sl = s.len();
    proof {
        reveal_strlit(" (");
        reveal_strlit(")");
        reveal_strlit(".");
    }
    let (area, j2) = match area_at(s, j) {
        Some(v) => v,
        None => {
            return None;
        },
    };
    let mut dist: Option<DistanceText> = None;
    let mut k = j2;
    if lit_at_exec(s, j2, " (") {
        match distance_at(s, j2 + 2) {
            Some((d, e)) => {
                if lit_at_exec(s, e, ")") {
                    dist = Some(d);
                    k = e + 1;
                }
            },
            None => {},
        }
    }
    if lit_at_exec(s, k, ".") {
        Some((area, dist, k + 1))
    } else {
        None
    }
}

/// read the message that an avatar came online (`is online.`) at index
/// `i`, giving it and the index after it
pub fn avatar_came_online_message_parser(s: &Vec<char>, i: usize) -> (r: Option<(AvatarMessage, usize)>)
    ensures
        r is Some <==> lit_at(s@, i as int, "is online."@),
        r is Some ==> r.unwrap().0 is CameOnline && r.unwrap().1 == i + "is online."@.len(),
{
    let sl = s.len();
    proof {
        reveal_strlit("is online.");
    }
    if lit_at_exec(s, i, "is online.") {
        Some((AvatarMessage::CameOnline, i + 10))
    } else {
        None
    }
}

/// read the message that an avatar went offline (`is offline.`) at index
/// `i`, giving it and the index after it
pub fn avatar_went_offline_message_parser(s: &Vec<char>, i: usize) -> (r: Option<(AvatarMessage, usize)>)
    ensures
        r is Some <==> lit_at(s@, i as int, "is offline."@),
        r is Some ==> r.unwrap().0 is WentOffline && r.unwrap().1 == i + "is offline."@.len(),
{
    let sl = s.len();
    proof {
        reveal_strlit("is offline.");
    }
    if lit_at_exec(s, i, "is offline.") {
        Some((AvatarMessage::WentOffline, i + 11))
    } else {
        None
    }
}

/// read the message that an avatar entered an area (`entered AREA.`, or
/// `entered AREA (DISTANCE).`) at index `i`, giving it and the index after
/// it
pub fn avatar_entered_area_message_parser(s: &Vec<char>, i: usize) -> (r: Option<(AvatarMessage, usize)>)
    ensures
        r is Some <==> (lit_at(s@, i as int, "entered "@) && spec_entered_tail(
            s@,
            i + "entered "@.len(),
        ) is Some),
        r is Some ==> entered_message_is(s@, i + "entered "@.len(), r.unwrap().0) && r.unwrap().1
            == spec_entered_tail(s@, i + "entered "@.len()).unwrap().3 && r.unwrap().1 <= s@.len(),
{
    let sl = s.len();
    proof {
        reveal_strlit("entered ");
    }
    if lit_at_exec(s, i, "entered ") {
        match entered_tail(s, i + 8) {
            Some((area, distance, e)) => Some((AvatarMessage::EnteredArea { area, distance }, e)),
            None => None,
        }
    } else {
        None
    }
}

/// read the message that an avatar left an area (`left AREA.`) at index
/// `i`, giving it and the index after it
pub fn avatar_left_area_message_parser(s: &Vec<char>, i: usize) -> (r: Option<(AvatarMessage, usize)>)
    ensures
        r is Some <==> (lit_at(s@, i as int, "left "@) && spec_area_at(s@, i + "left "@.len()) is Some
            && lit_at(s@, spec_area_at(s@, i + "left "@.len()).unwrap().1, "."@)),
        r is Some ==> (r.unwrap().0 matches AvatarMessage::LeftArea { area } && area == spec_area_at(
            s@,
            i + "left "@.len(),
        ).unwrap().0) && r.unwrap().1 == spec_area_at(s@, i + "left "@.len()).unwrap().1 + 1
            && r.unwrap().1 <= s@.len(),
{
    let sl = s.len();
    proof {
        reveal_strlit("left ");
        reveal_strlit(".");
    }
    if lit_at_exec(s, i, "left ") {
        match area_at(s, i + 5) {
            Some((area, e)) => {
                if lit_at_exec(s, e, ".") {
                    Some((AvatarMessage::LeftArea { area }, e + 1))
                } else {
                    None
                }
            },
            None => None,
        }
    } else {
        None
    }
}

/// read an avatar status message (`is online.`, `is offline.`, `entered
/// AREA[ (DISTANCE)].` or `left AREA.`) at index `i`, giving it and the
/// index after it: the first of the four that can be read there
fn status_at(s: &Vec<char>, i: usize) -> (r: Option<(AvatarMessage, usize)>)
    ensures
        match spec_status_at(s@, i as int) {
            None => r is None,
            Some((_, e)) => r matches Some(v) && v.1 == e && v.1 <= s@.len() && status_message_is(
                s@,
                i as int,
                v.0,
            ),
        },
{
    let sl = s.len();
    proof {
        reveal_strlit("is online.");
        reveal_strlit("is offline.");
    }
    match avatar_came_online_message_parser(s, i) {
        Some(v) => {
            return Some(v);
        },
        None => {},
    }
    match avatar_went_offline_message_parser(s, i) {
        Some(v) => {
            return Some(v);
        },
        None => {},
    }
    match avatar_entered_area_message_parser(s, i) {
        Some(v) => {
            return Some(v);
        },
        None => {},
    }
    avatar_left_area_message_parser(s, i)
}

/// `m` is the avatar message read from index `i` of `s` to its end: a
/// status message, else `/me ` and an emote, else a chat message (both
/// with their volume marker read off)
pub open spec fn avatar_message_is(s: Seq<char>, i: int, m: AvatarMessage) -> bool {
    if spec_status_at(s, i) is Some {
        status_message_is(s, i, m)
    } else if lit_at(s, i, "/me "@) {
        let vm = spec_volume_and_message(s.subrange(i + "/me "@.len(), s.len() as int));
        m matches AvatarMessage::Emote { volume, message } && volume == vm.0 && message@ == vm.1
    } else {
        let vm = spec_volume_and_message(s.subrange(i, s.len() as int));
        m matches AvatarMessage::Chat { volume, message } && volume == vm.0 && message@ == vm.1
    }
}

/// read the message of an avatar from index `i` of `s` to its end
pub fn avatar_message_parser(s: &Vec<char>, i: usize) -> (m: AvatarMessage)
    requires
        i <= s@.len(),
    ensures
        avatar_message_is(s@, i as int, m),
{
    let sl = s.len();
    proof {
        reveal_strlit("/me ");
    }
    match status_at(s, i) {
        Some((m, _)) => m,
        None => {
            if lit_at_exec(s, i, "/me ") {
                let rest = string_from_chars(&crate::chars::slice_chars(s, i + 4, s.len()));
                let (volume, message) = volume_and_message(rest);
                AvatarMessage::Emote { volume, message }
            } else {
                let rest = string_from_chars(&crate::chars::slice_chars(s, i, s.len()));
                let (volume, message) = volume_and_message(rest);
                AvatarMessage::Chat { volume, message }
            }
        },
    }
}

/// the index of the first `:` at or after `i`, if any
pub open spec fn spec_first_colon(s: Seq<char>, i: int) -> Option<int> {
    if exists|c: int| i <= c < s.len() && s[c] == ':' {
        Some(choose|c: int| i <= c < s.len() && s[c] == ':' && forall|k: int| i <= k < c ==> s[k] != ':')
    } else {
        None
    }
}

/// read an avatar's name as written before its message, from index `i`:
/// everything up to the first `:`, or up to the end when there is none;
/// gives the index where the name ends
pub fn avatar_name_parser(s: &Vec<char>, i: usize) -> (r: usize)
    requires
        i <= s@.len(),
    ensures
        i <= r <= s@.len(),
        match spec_first_colon(s@, i as int) {
            None => r == s@.len(),
            Some(c) => r == c,
        },
        r < s@.len() ==> s@[r as int] == ':',
        r == s@.len() ==> forall|k: int| i <= k < s@.len() ==> s@[k] != ':',
{
    let mut c = i;
    while c < s.len() && s[c] != ':'
        invariant
            i <= c <= s@.len(),
            forall|k: int| i <= k < c ==> s@[k] != ':',
        decreases s@.len() - c,
    {
        c = c + 1;
    }
    if c == s.len() {
        proof {
            assert forall|x: int| i <= x < s@.len() implies s@[x] != ':' by {}
        }
    } else {
        proof {
            let f = choose|x: int|
                i <= x < s@.len() && s@[x] == ':' && forall|k: int| i <= k < x ==> s@[k] != ':';
            if f < c {
                assert(s@[f] != ':');
            } else if f > c {
                assert(s@[c as int] != ':');
            }
        }
    }
    c
}

/// read the line of an avatar that starts at index `i`: the avatar's name
/// up to the first `:`, then the `:`, whitespace and the avatar's message
/// up to the end; `None` when the rest of the line has no `:`
pub fn avatar_line_at(s: &Vec<char>, i: usize) -> (r: Option<(String, AvatarMessage)>)
    requires
        i <= s@.len(),
    ensures
        match spec_first_colon(s@, i as int) {
            None => r is None,
            Some(c) => r matches Some(v) && v.0@ == s@.subrange(i as int, c) && avatar_message_is(
                s@,
                spec_skip_ws(s@, c + 1),
                v.1,
            ),
        },
{
    let c = avatar_name_parser(s, i);
    if c == s.len() {
        return None;
    }
    let name = string_from_chars(&crate::chars::slice_chars(s, i, c));
    let j = skip_ws(s, c + 1);
    let m = avatar_message_parser(s, j);
    Some((name, m))
}

/// the first index `p` at or after `i` at which an avatar status message
/// can be read, if any
pub open spec fn spec_first_status(s: Seq<char>, i: int) -> Option<int> {
    if exists|p: int| i <= p <= s.len() && spec_status_at(s, p) is Some {
        Some(
            choose|p: int|
                i <= p <= s.len() && spec_status_at(s, p) is Some && forall|k: int|
                    i <= k < p ==> spec_status_at(s, k) is None,
        )
    } else {
        None
    }
}

/// `t` without one trailing space
pub open spec fn spec_strip_space(t: Seq<char>) -> Seq<char> {
    if t.len() > 0 && t.last() == ' ' {
        t.drop_last()
    } else {
        t
    }
}

/// read the status line of an avatar that starts at index `i` (after
/// `Second Life: `): the avatar's name (without one trailing space) up to
/// the first place where a status message (`is online.`, `is offline.`,
/// `entered ...`, `left ...`) can be read, and that message; `None` when no
/// such place exists
#[verifier::rlimit(40)]
pub fn avatar_status_line_at(s: &Vec<char>, i: usize) -> (r: Option<(String, AvatarMessage)>)
    requires
        i <= s@.len(),
    ensures
        match spec_first_status(s@, i as int) {
            None => r is None,
            Some(p) => r matches Some(v) && v.0@ == spec_strip_space(s@.subrange(i as int, p))
                && status_message_is(s@, p, v.1),
        },
{
    let mut p = i;
    while p <= s.len()
        invariant
            i <= p <= s@.len() + 1,
            forall|k: int| i <= k < p ==> spec_status_at(s@, k) is None,
        decreases s@.len() + 1 - p,
    {
        match status_at(s, p) {
            Some((m, _)) => {
                proof {
                    let f = choose|x: int|
                        i <= x <= s@.len() && spec_status_at(s@, x) is Some && forall|k: int|
                            i <= k < x ==> spec_status_at(s@, k) is None;
                    if f < p {
                        assert(spec_status_at(s@, f) is None);
                    } else if f > p {
                        assert(spec_status_at(s@, p as int) is None);
                    }
                }
                let mut name = crate::chars::slice_chars(s, i, p);
                let ghost full = name@;
                if name.len() > 0 && name[name.len() - 1] == ' ' {
                    name.pop();
                    proof {
                        assert(name@ =~= full.drop_last());
                    }
                }
                return Some((string_from_chars(&name), m));
            },
            None => {},
        }
        if p == s.len() {
            proof {
                assert forall|x: int| i <= x <= s@.len() implies spec_status_at(s@, x) is None by {}
            }
            return None;
        }
        p = p + 1;
    }
    None
}

/// an event recorded in the Second Life chat log
#[derive(Debug, Clone)]
pub enum ChatLogEvent {
    /// a line about an avatar (or an object doing things indistinguishable
    /// from an avatar in the chat log)
    AvatarLine {
        /// name of the avatar or object
        name: String,
        /// the message
        message: Box<AvatarMessage>,
    },
    /// a message by the Second Life viewer or server itself
    SystemMessage {
        /// the system message
        message: Box<SystemMessage>,
    },
    /// a message without a colon, most likely an unnamed object like a
    /// translator
    OtherMessage {
        /// the message
        message: String,
    },
}

/// a Second Life chat log line
#[derive(Debug, Clone)]
pub struct ChatLogLine {
    /// when the line was written; `None` for the placeholder some viewers
    /// wrote instead of a timestamp
    pub timestamp: Option<Timestamp>,
    /// the event written at that time
    pub event: ChatLogEvent,
}

/// `ev` is the event read from index `i` of `s` to its end: after
/// `Second Life: ` an avatar's status line, else a system message; else the
/// line of a named avatar (up to the first `:`); else any other message
pub open spec fn event_is(s: Seq<char>, i: int, ev: ChatLogEvent) -> bool {
    if lit_at(s, i, "Second Life: "@) {
        let j = i + "Second Life: "@.len();
        match spec_first_status(s, j) {
            Some(p) => ev matches ChatLogEvent::AvatarLine { name, message } && name@ == spec_strip_space(
                s.subrange(j, p),
            ) && status_message_is(s, p, *message),
            None => ev matches ChatLogEvent::SystemMessage { message } && system_message_is(
                s,
                j,
                *message,
            ),
        }
    } else {
        match spec_first_colon(s, i) {
            Some(c) => ev matches ChatLogEvent::AvatarLine { name, message } && name@ == s.subrange(
                i,
                c,
            ) && avatar_message_is(s, spec_skip_ws(s, c + 1), *message),
            None => ev matches ChatLogEvent::OtherMessage { message } && message@ == s.subrange(
                i,
                s.len() as int,
            ),
        }
    }
}

/// read the event from index `i` of `s` to its end
pub fn chat_log_event_at(s: &Vec<char>, i: usize) -> (r: ChatLogEvent)
    requires
        i <= s@.len(),
    ensures
        event_is(s@, i as int, r),
{
    let sl = s.len();
    proof {
        reveal_strlit("Second Life: ");
    }
    if lit_at_exec(s, i, "Second Life: ") {
        let j = i + 13;
        match avatar_status_line_at(s, j) {
            Some((name, m)) => ChatLogEvent::AvatarLine { name, message: Box::new(m) },
            None => ChatLogEvent::SystemMessage { message: Box::new(system_message_at(s, j)) },
        }
    } else {
        match avatar_line_at(s, i) {
            Some((name, m)) => ChatLogEvent::AvatarLine { name, message: Box::new(m) },
            None => ChatLogEvent::OtherMessage {
                message: string_from_chars(&crate::chars::slice_chars(s, i, s.len())),
            },
        }
    }
}

/// Read a Second Life chat log line: its timestamp (see
/// [`parse_line_header`]) and the event after it (see
/// [`chat_log_event_at`]); `None` when the line does not open with a valid
/// timestamp or the placeholder
pub fn chat_log_line_parser(line: &str) -> (r: Option<ChatLogLine>)
    ensures
        match spec_line_header(line@) {
            None => r is None,
            Some((t, e)) => r matches Some(l) && l.timestamp == t && event_is(line@, e, l.event),
        },
{
    let s = crate::chars::str_to_chars(line);
    match parse_line_header(&s) {
        None => None,
        Some((timestamp, e)) => {
            proof {
                assert(e <= s@.len()) by {
                    lemma_skip_ws_bound(s@, if spec_line_stamp(s@) is Some {
                        spec_stamp_end(s@)
                    } else {
                        spec_placeholder().len() as int
                    });
                }
            }
            Some(ChatLogLine { timestamp, event: chat_log_event_at(&s, e) })
        },
    }
}

/// skipping whitespace stays within the text
proof fn lemma_skip_ws_bound(s: Seq<char>, p: int)
    requires
        0 <= p <= s.len(),
    ensures
        p <= spec_skip_ws(s, p) <= s.len(),
    decreases s.len() - p,
{
    if p < s.len() && spec_is_whitespace(s[p]) {
        lemma_skip_ws_bound(s, p + 1);
    }
}

} // verus!
