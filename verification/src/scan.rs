//! Scanning a text (its characters as a `Vec<char>`) for the pieces the
//! system messages of a chat log are made of: the first occurrence of a
//! literal, line breaks, runs of digits read as bounded integers, decimal
//! numbers kept as their digits, and the keys of avatars, groups and
//! objects as the viewer writes them in its links.
use vstd::prelude::*;

use crate::chars::{spec_digits_value, spec_is_digit, string_from_chars};
use crate::chat_log::{lit_at, lit_at_exec, spec_digit_run, spec_skip_ws};

verus! {

/// the first index at or after `i` where `lit` occurs in `s`
pub open spec fn spec_find(s: Seq<char>, i: int, lit: Seq<char>) -> Option<int>
    decreases s.len() - i,
{
    if i < 0 || i > s.len() {
        None
    } else if lit_at(s, i, lit) {
        Some(i)
    } else if i == s.len() {
        None
    } else {
        spec_find(s, i + 1, lit)
    }
}

/// what the first occurrence of a literal is: an occurrence, with none
/// before it
pub proof fn lemma_find(s: Seq<char>, i: int, lit: Seq<char>)
    requires
        0 <= i <= s.len(),
    ensures
        spec_find(s, i, lit) matches Some(p) ==> i <= p && p + lit.len() <= s.len() && lit_at(
            s,
            p,
            lit,
        ) && forall|k: int| i <= k < p ==> !lit_at(s, k, lit),
        spec_find(s, i, lit) is None ==> forall|k: int| i <= k <= s.len() ==> !lit_at(s, k, lit),
    decreases s.len() - i,
{
    if !lit_at(s, i, lit) && i < s.len() {
        lemma_find(s, i + 1, lit);
    }
}

/// `o` as an index
pub open spec fn opt_int(o: Option<usize>) -> Option<int> {
    match o {
        Some(i) => Some(i as int),
        None => None,
    }
}

/// the first index at or after `i` where `lit` occurs in `s`
pub fn find_lit(s: &Vec<char>, i: usize, lit: &str) -> (r: Option<usize>)
    requires
        i <= s@.len(),
    ensures
        opt_int(r) == spec_find(s@, i as int, lit@),
        r matches Some(p) ==> i <= p && p + lit@.len() <= s@.len() && lit_at(s@, p as int, lit@),
{
    let l = crate::chars::str_to_chars(lit);
    let mut p = i;
    proof {
        lemma_find(s@, i as int, lit@);
    }
    loop
        invariant
            i <= p <= s@.len(),
            l@ == lit@,
            spec_find(s@, i as int, lit@) == spec_find(s@, p as int, lit@),
        decreases s@.len() - p,
    {
        if crate::chars::matches_at(s, &l, p) {
            return Some(p);
        }
        if p == s.len() {
            return None;
        }
        p = p + 1;
    }
}

/// the characters of `s` from `a` to `b` as a `String`
pub fn text_between(s: &Vec<char>, a: usize, b: usize) -> (r: String)
    requires
        a <= b <= s@.len(),
    ensures
        r@ == s@.subrange(a as int, b as int),
{
    string_from_chars(&crate::chars::slice_chars(s, a, b))
}

/// `c` ends a line
pub open spec fn spec_is_newline(c: char) -> bool {
    c == '\n' || c == '\r' || c == '\u{0B}' || c == '\u{0C}' || c == '\u{85}' || c == '\u{2028}'
        || c == '\u{2029}'
}

/// the index after the line break at `p` (`\r\n` counting as one), if one
/// is there
pub open spec fn spec_newline_end(s: Seq<char>, p: int) -> Option<int> {
    if 0 <= p < s.len() {
        if s[p] == '\r' && p + 1 < s.len() && s[p + 1] == '\n' {
            Some(p + 2)
        } else if spec_is_newline(s[p]) {
            Some(p + 1)
        } else {
            None
        }
    } else {
        None
    }
}

/// the index after the line break at `p`, if one is there
pub fn newline_end(s: &Vec<char>, p: usize) -> (r: Option<usize>)
    ensures
        opt_int(r) == spec_newline_end(s@, p as int),
        r matches Some(e) ==> e <= s@.len(),
{
    if p < s.len() {
        let c = s[p];
        if c == '\r' && p + 1 < s.len() && s[p + 1] == '\n' {
            Some(p + 2)
        } else if c == '\n' || c == '\r' || c == '\u{0B}' || c == '\u{0C}' || c == '\u{85}' || c
            == '\u{2028}' || c == '\u{2029}' {
            Some(p + 1)
        } else {
            None
        }
    } else {
        None
    }
}

/// the first index at or after `p` where a line ends, or the end of `s`
pub open spec fn spec_line_end(s: Seq<char>, p: int) -> int
    decreases s.len() - p,
{
    if 0 <= p < s.len() && !spec_is_newline(s[p]) {
        spec_line_end(s, p + 1)
    } else {
        p
    }
}

/// the first index at or after `p` where a line ends, or the end of `s`
pub fn line_end(s: &Vec<char>, p: usize) -> (r: usize)
    requires
        p <= s@.len(),
    ensures
        r == spec_line_end(s@, p as int),
        p <= r <= s@.len(),
{
    let mut q = p;
    while q < s.len() && !(s[q] == '\n' || s[q] == '\r' || s[q] == '\u{0B}' || s[q] == '\u{0C}'
        || s[q] == '\u{85}' || s[q] == '\u{2028}' || s[q] == '\u{2029}')
        invariant
            p <= q <= s@.len(),
            spec_line_end(s@, p as int) == spec_line_end(s@, q as int),
        decreases s@.len() - q,
    {
        q = q + 1;
    }
    q
}

/// the value of the digits of `s` from `p` to `e`
pub open spec fn spec_number(s: Seq<char>, p: int, e: int) -> int {
    spec_digits_value(s.subrange(p, e))
}

/// a longer run of digits is worth at least as much
proof fn lemma_number_grows(s: Seq<char>, p: int, k: int, e: int)
    requires
        0 <= p <= k <= e <= s.len(),
        forall|j: int| p <= j < e ==> spec_is_digit(#[trigger] s[j]),
    ensures
        spec_number(s, p, k) <= spec_number(s, p, e),
        spec_number(s, p, e) >= 0,
    decreases e - k,
{
    if e > p {
        assert(s.subrange(p, e).drop_last() =~= s.subrange(p, e - 1));
    }
    if k < e {
        lemma_number_grows(s, p, k, e - 1);
    } else {
        lemma_number_nonneg(s, p, e);
    }
}

/// the digits of a run are worth nothing negative
proof fn lemma_number_nonneg(s: Seq<char>, p: int, e: int)
    requires
        0 <= p <= e <= s.len(),
        forall|j: int| p <= j < e ==> spec_is_digit(#[trigger] s[j]),
    ensures
        spec_number(s, p, e) >= 0,
    decreases e - p,
{
    if e > p {
        assert(s.subrange(p, e).drop_last() =~= s.subrange(p, e - 1));
        lemma_number_nonneg(s, p, e - 1);
    }
}

/// the value of the digits of `s` from `p` to `e` when it fits in a `u64`
fn number_value(s: &Vec<char>, p: usize, e: usize) -> (r: Option<u64>)
    requires
        p <= e <= s@.len(),
        forall|j: int| p <= j < e ==> spec_is_digit(#[trigger] s@[j]),
    ensures
        r is Some <==> spec_number(s@, p as int, e as int) <= u64::MAX,
        r matches Some(v) ==> v == spec_number(s@, p as int, e as int),
{
    let mut v: u64 = 0;
    let mut k = p;
    while k < e
        invariant
            p <= k <= e <= s@.len(),
            forall|j: int| p <= j < e ==> spec_is_digit(#[trigger] s@[j]),
            v == spec_number(s@, p as int, k as int),
        decreases e - k,
    {
        let d = (s[k] as u32 - '0' as u32) as u64;
        proof {
            assert(s@.subrange(p as int, k + 1).drop_last() =~= s@.subrange(p as int, k as int));
            assert(spec_number(s@, p as int, k + 1) == v * 10 + d);
        }
        if v > (u64::MAX - d) / 10 {
            proof {
                assert(v * 10 + d > u64::MAX) by (nonlinear_arith)
                    requires
                        v > (u64::MAX - d) / 10,
                        d <= 9,
                ;
                lemma_number_grows(s@, p as int, k + 1, e as int);
            }
            return None;
        }
        proof {
            assert(v * 10 + d <= u64::MAX) by (nonlinear_arith)
                requires
                    v <= (u64::MAX - d) / 10,
                    d <= 9,
            ;
        }
        v = v * 10 + d;
        k = k + 1;
    }
    Some(v)
}

/// an unsigned integer read as Rust's `from_str` reads a run of digits:
/// the end of the (nonempty) run of digits at `p`, if its value is at most
/// `max`
pub open spec fn spec_unsigned_end(s: Seq<char>, p: int, max: int) -> Option<int> {
    let e = spec_digit_run(s, p);
    if e > p && spec_number(s, p, e) <= max {
        Some(e)
    } else {
        None
    }
}

/// the run of digits at `p` read as an unsigned integer of at most `max`:
/// its value and the index after it
pub fn unsigned_at(s: &Vec<char>, p: usize, max: u64) -> (r: Option<(u64, usize)>)
    requires
        p <= s@.len(),
    ensures
        match spec_unsigned_end(s@, p as int, max as int) {
            None => r is None,
            Some(e) => r matches Some((v, e2)) && e2 == e && v == spec_number(s@, p as int, e)
                && p < e <= s@.len(),
        },
{
    let e = crate::chat_log::digit_run(s, p);
    if e == p {
        return None;
    }
    match number_value(s, p, e) {
        None => None,
        Some(v) => {
            if v <= max {
                Some((v, e))
            } else {
                None
            }
        },
    }
}

/// a signed integer read as Rust's `from_str` reads an optional `+` or `-`
/// followed by a run of digits: its value and the index after it, if the
/// value lies between `min` and `max`
pub open spec fn spec_signed_at(s: Seq<char>, p: int, min: int, max: int) -> Option<(int, int)> {
    let neg = 0 <= p < s.len() && s[p] == '-';
    let d = if 0 <= p < s.len() && (s[p] == '-' || s[p] == '+') {
        p + 1
    } else {
        p
    };
    let e = spec_digit_run(s, d);
    let v = if neg {
        -spec_number(s, d, e)
    } else {
        spec_number(s, d, e)
    };
    if e > d && min <= v <= max {
        Some((v, e))
    } else {
        None
    }
}

/// the signed integer at `p` if it lies between `min` and `max`: its value
/// and the index after it
pub fn signed_at(s: &Vec<char>, p: usize, min: i64, max: i64) -> (r: Option<(i64, usize)>)
    requires
        p <= s@.len(),
        min <= 0 <= max,
    ensures
        match spec_signed_at(s@, p as int, min as int, max as int) {
            None => r is None,
            Some((v, e)) => r matches Some((v2, e2)) && v2 == v && e2 == e && p < e <= s@.len(),
        },
{
    let neg = p < s.len() && s[p] == '-';
    let d = if p < s.len() && (s[p] == '-' || s[p] == '+') {
        p + 1
    } else {
        p
    };
    let e = crate::chat_log::digit_run(s, d);
    if e == d {
        return None;
    }
    proof {
        lemma_number_nonneg(s@, d as int, e as int);
    }
    match number_value(s, d, e) {
        None => None,
        Some(m) => {
            if neg {
                if (m as i128) <= 0i128 - (min as i128) {
                    let v: i64 = if m == 9223372036854775808u64 {
                        i64::MIN
                    } else {
                        0 - (m as i64)
                    };
                    Some((v, e))
                } else {
                    None
                }
            } else {
                if m <= max as u64 {
                    Some((m as i64, e))
                } else {
                    None
                }
            }
        },
    }
}

/// a decimal number as written: an optional sign, the digits before the
/// decimal point and, if written, those after it
#[derive(Debug, Clone)]
pub struct Decimal {
    /// whether a `-` came first
    pub negative: bool,
    /// the digits before the decimal point
    pub whole: String,
    /// the digits after the decimal point
    pub fraction: Option<String>,
}

/// an unsigned decimal number at `p` (a run of digits, then a `.` and more
/// digits if any follow): `(end of the whole digits, range of the fraction
/// digits, index after the number)`
pub open spec fn spec_unsigned_decimal_at(s: Seq<char>, p: int) -> Option<
    (int, Option<(int, int)>, int),
> {
    let w = spec_digit_run(s, p);
    if w == p || p < 0 || p > s.len() {
        None
    } else if 0 <= w < s.len() && s[w] == '.' && spec_digit_run(s, w + 1) > w + 1 {
        Some((w, Some((w + 1, spec_digit_run(s, w + 1))), spec_digit_run(s, w + 1)))
    } else {
        Some((w, None, w))
    }
}

/// a decimal number with an optional `+` or `-` at `p`: `(negative, start
/// of the digits, end of the whole digits, range of the fraction digits,
/// index after the number)`
pub open spec fn spec_decimal_at(s: Seq<char>, p: int) -> Option<
    (bool, int, int, Option<(int, int)>, int),
> {
    let neg = 0 <= p < s.len() && s[p] == '-';
    let d = if 0 <= p < s.len() && (s[p] == '-' || s[p] == '+') {
        p + 1
    } else {
        p
    };
    match spec_unsigned_decimal_at(s, d) {
        Some((w, f, e)) => Some((neg, d, w, f, e)),
        None => None,
    }
}

/// `v` is the decimal number that `spec_decimal_at` reads at `p`, ending at `e`
pub open spec fn decimal_is(s: Seq<char>, p: int, v: Decimal, e: int) -> bool {
    match spec_decimal_at(s, p) {
        Some((neg, d, w, f, e2)) => e == e2 && v.negative == neg && v.whole@ == s.subrange(d, w)
            && match f {
            None => v.fraction is None,
            Some((f0, f1)) => v.fraction matches Some(t) && t@ == s.subrange(f0, f1),
        },
        None => false,
    }
}

/// the decimal number (with an optional sign) at `p` and the index after it
pub fn decimal_at(s: &Vec<char>, p: usize, signed: bool) -> (r: Option<(Decimal, usize)>)
    requires
        p <= s@.len(),
    ensures
        signed ==> match spec_decimal_at(s@, p as int) {
            None => r is None,
            Some((_, _, _, _, e)) => r matches Some((v, e2)) && decimal_is(s@, p as int, v, e2 as int)
                && e2 == e && p < e2 <= s@.len(),
        },
        !signed ==> match spec_unsigned_decimal_at(s@, p as int) {
            None => r is None,
            Some((_, _, e)) => r matches Some((v, e2)) && decimal_is(s@, p as int, v, e2 as int) && e2
                == e && p < e2 <= s@.len() && !v.negative,
        },
{
    let neg = signed && p < s.len() && s[p] == '-';
    let d = if signed && p < s.len() && (s[p] == '-' || s[p] == '+') {
        p + 1
    } else {
        p
    };
    let w = crate::chat_log::digit_run(s, d);
    if w == d {
        return None;
    }
    let frac = if w < s.len() && s[w] == '.' {
        let f = crate::chat_log::digit_run(s, w + 1);
        if f > w + 1 {
            Some((w + 1, f))
        } else {
            None
        }
    } else {
        None
    };
    let e = match frac {
        Some((_, f)) => f,
        None => w,
    };
    let whole = string_from_chars(&crate::chars::slice_chars(s, d, w));
    let fraction = match frac {
        Some((f0, f1)) => Some(string_from_chars(&crate::chars::slice_chars(s, f0, f1))),
        None => None,
    };
    proof {
        if !signed && p < s@.len() && (s@[p as int] == '-' || s@[p as int] == '+') {
            assert(!spec_is_digit(s@[p as int]));
        }
    }
    Some((Decimal { negative: neg, whole, fraction }, e))
}

/// `c` is a lower-case hexadecimal digit
pub open spec fn spec_is_hex(c: char) -> bool {
    ('0' <= c <= '9') || ('a' <= c <= 'f')
}

/// a UUID in its hyphenated lower-case form (8, 4, 4, 4 and 12 hexadecimal
/// digits) occupies the 36 characters of `s` from `p`
pub open spec fn spec_uuid_at(s: Seq<char>, p: int) -> bool {
    0 <= p && p + 36 <= s.len() && forall|k: int|
        0 <= k < 36 ==> if k == 8 || k == 13 || k == 18 || k == 23 {
            #[trigger] s[p + k] == '-'
        } else {
            spec_is_hex(s[p + k])
        }
}

/// whether a UUID occupies the 36 characters of `s` from `p`
pub fn uuid_text_at(s: &Vec<char>, p: usize) -> (r: bool)
    ensures
        r == spec_uuid_at(s@, p as int),
{
    let sl = s.len();
    if p > sl || sl - p < 36 {
        return false;
    }
    let mut k: usize = 0;
    while k < 36
        invariant
            k <= 36,
            sl == s@.len(),
            p + 36 <= s@.len(),
            forall|j: int|
                0 <= j < k ==> if j == 8 || j == 13 || j == 18 || j == 23 {
                    #[trigger] s@[p + j] == '-'
                } else {
                    spec_is_hex(s@[p + j])
                },
        decreases 36 - k,
    {
        let c = s[p + k];
        let ok = if k == 8 || k == 13 || k == 18 || k == 23 {
            c == '-'
        } else {
            ('0' <= c && c <= '9') || ('a' <= c && c <= 'f')
        };
        if !ok {
            proof {
                assert(!(if k == 8 || k == 13 || k == 18 || k == 23 {
                    s@[p + k as int] == '-'
                } else {
                    spec_is_hex(s@[p + k as int])
                }));
            }
            return false;
        }
        k = k + 1;
    }
    true
}

/// the key of an avatar (a UUID in its hyphenated lower-case form)
#[derive(Debug, Clone)]
pub struct AgentKey(pub String);

/// the key of a group
#[derive(Debug, Clone)]
pub struct GroupKey(pub String);

/// the key of an object
#[derive(Debug, Clone)]
pub struct ObjectKey(pub String);

/// the owner of something: an avatar or a group
#[derive(Debug, Clone)]
pub enum OwnerKey {
    /// an avatar
    Agent(AgentKey),
    /// a group
    Group(GroupKey),
}

/// `o` is the owner of kind `group` with the key `k`
pub open spec fn owner_is(o: OwnerKey, group: bool, k: Seq<char>) -> bool {
    if group {
        o matches OwnerKey::Group(g) && g.0@ == k
    } else {
        o matches OwnerKey::Agent(a) && a.0@ == k
    }
}

/// a viewer link to the profile of an avatar (`about`) or to its inspector
/// (`inspect`) at `p`, as `secondlife:///app/agent/<uuid>/about`: the
/// index after it
pub open spec fn spec_agent_uri_at(s: Seq<char>, p: int) -> Option<int> {
    spec_key_uri_at(s, p, "secondlife:///app/agent/"@)
}

/// the same kind of link to a group, `secondlife:///app/group/<uuid>/about`
pub open spec fn spec_group_uri_at(s: Seq<char>, p: int) -> Option<int> {
    spec_key_uri_at(s, p, "secondlife:///app/group/"@)
}

/// a link made of `head` (24 characters), a UUID and `/about` or
/// `/inspect`, at `p`: the index after it
pub open spec fn spec_key_uri_at(s: Seq<char>, p: int, head: Seq<char>) -> Option<int> {
    if lit_at(s, p, head) && spec_uuid_at(s, p + 24) {
        if lit_at(s, p + 60, "/about"@) {
            Some(p + 66)
        } else if lit_at(s, p + 60, "/inspect"@) {
            Some(p + 68)
        } else {
            None
        }
    } else {
        None
    }
}

/// a link to an avatar or, failing that, to a group at `p`: whether it is
/// a group and the index after it; the key is at `p + 24 .. p + 60`
pub open spec fn spec_owner_uri_at(s: Seq<char>, p: int) -> Option<(bool, int)> {
    match spec_agent_uri_at(s, p) {
        Some(e) => Some((false, e)),
        None => match spec_group_uri_at(s, p) {
            Some(e) => Some((true, e)),
            None => None,
        },
    }
}

/// the link made of `head`, a UUID and `/about` or `/inspect` at `p`: the
/// key and the index after it
fn key_uri_at(s: &Vec<char>, p: usize, head: &str) -> (r: Option<(String, usize)>)
    requires
        head@.len() == 24,
    ensures
        match spec_key_uri_at(s@, p as int, head@) {
            None => r is None,
            Some(e) => r matches Some((k, e2)) && e2 == e && k@ == s@.subrange(p + 24, p + 60)
                && e <= s@.len(),
        },
{
    proof {
        reveal_strlit("/about");
        reveal_strlit("/inspect");
    }
    let sl = s.len();
    if !lit_at_exec(s, p, head) || !uuid_text_at(s, p + 24) {
        return None;
    }
    let e = if lit_at_exec(s, p + 60, "/about") {
        p + 66
    } else if lit_at_exec(s, p + 60, "/inspect") {
        p + 68
    } else {
        return None;
    };
    let k = string_from_chars(&crate::chars::slice_chars(s, p + 24, p + 60));
    Some((k, e))
}

/// the avatar link at `p`: the avatar's key and the index after it
pub fn agent_uri_at(s: &Vec<char>, p: usize) -> (r: Option<(AgentKey, usize)>)
    ensures
        match spec_agent_uri_at(s@, p as int) {
            None => r is None,
            Some(e) => r matches Some((k, e2)) && e2 == e && k.0@ == s@.subrange(p + 24, p + 60)
                && e <= s@.len(),
        },
{
    proof {
        reveal_strlit("secondlife:///app/agent/");
    }
    match key_uri_at(s, p, "secondlife:///app/agent/") {
        Some((k, e)) => Some((AgentKey(k), e)),
        None => None,
    }
}

/// the group link at `p`: the group's key and the index after it
pub fn group_uri_at(s: &Vec<char>, p: usize) -> (r: Option<(GroupKey, usize)>)
    ensures
        match spec_group_uri_at(s@, p as int) {
            None => r is None,
            Some(e) => r matches Some((k, e2)) && e2 == e && k.0@ == s@.subrange(p + 24, p + 60)
                && e <= s@.len(),
        },
{
    proof {
        reveal_strlit("secondlife:///app/group/");
    }
    match key_uri_at(s, p, "secondlife:///app/group/") {
        Some((k, e)) => Some((GroupKey(k), e)),
        None => None,
    }
}

/// the avatar or group link at `p`: the owner and the index after it
pub fn owner_uri_at(s: &Vec<char>, p: usize) -> (r: Option<(OwnerKey, usize)>)
    ensures
        match spec_owner_uri_at(s@, p as int) {
            None => r is None,
            Some((g, e)) => r matches Some((o, e2)) && e2 == e && owner_is(
                o,
                g,
                s@.subrange(p + 24, p + 60),
            ) && e <= s@.len(),
        },
{
    match agent_uri_at(s, p) {
        Some((k, e)) => Some((OwnerKey::Agent(k), e)),
        None => match group_uri_at(s, p) {
            Some((k, e)) => Some((OwnerKey::Group(k), e)),
            None => None,
        },
    }
}

/// an amount of Linden dollars
#[derive(Debug, Clone, Copy, PartialEq, Eq, Structural)]
pub struct LindenAmount(pub u64);

/// an amount of Linden dollars at `p`, `L$` and a run of digits whose value
/// fits in a `u64`: the index after it
pub open spec fn spec_amount_at(s: Seq<char>, p: int) -> Option<int> {
    if lit_at(s, p, "L$"@) {
        spec_unsigned_end(s, p + 2, u64::MAX as int)
    } else {
        None
    }
}

/// the amount of Linden dollars at `p` and the index after it
pub fn amount_at(s: &Vec<char>, p: usize) -> (r: Option<(LindenAmount, usize)>)
    ensures
        match spec_amount_at(s@, p as int) {
            None => r is None,
            Some(e) => r matches Some((a, e2)) && e2 == e && a.0 == spec_number(s@, p + 2, e) && e
                <= s@.len(),
        },
{
    proof {
        reveal_strlit("L$");
    }
    let sl = s.len();
    if !lit_at_exec(s, p, "L$") {
        return None;
    }
    match unsigned_at(s, p + 2, u64::MAX) {
        Some((v, e)) => Some((LindenAmount(v), e)),
        None => None,
    }
}

} // verus!
