//! Firestorm's extended script info: the report on an inspected object,
//! twenty-one lines (`Object ID: ...`, ` Description: ...`, ...,
//! ` Your current position: ...`), each line after the first starting with
//! a space. Each line has its own rule; the report is read when every line
//! is.
use vstd::prelude::*;

use crate::chat_log::{
    distance_at, lit_at, lit_at_exec, offset_datetime_parser, skip_ws, spec_iso_stamp, spec_skip_ws,
    UtcTimestamp,
};
use crate::message_rules::{
    distance_is, rotation_at, rotation_is, spec_rotation_at, spec_vector_at, vector_at, vector_is,
};
use crate::scan::{
    agent_uri_at, group_uri_at, line_end, newline_end, owner_is, owner_uri_at, signed_at,
    spec_agent_uri_at, spec_group_uri_at, spec_line_end, spec_newline_end, spec_number,
    spec_owner_uri_at, spec_signed_at, spec_unsigned_end, spec_uuid_at, text_between,
    unsigned_at, AgentKey, GroupKey, ObjectKey, OwnerKey,
};
use crate::system_messages::{ExtendedScriptInfo, PathfindingType, SystemMessage};
use crate::viewer_links::{attachment_point_at, spec_attachment_point_at};

verus! {

/// `label`, a UUID and a line break at `p`: the start of the next line
pub open spec fn spec_key_line(s: Seq<char>, p: int, label: Seq<char>) -> Option<int> {
    if lit_at(s, p, label) && spec_uuid_at(s, p + label.len()) {
        spec_newline_end(s, p + label.len() + 36)
    } else {
        None
    }
}

/// the line of `label`, a UUID and a line break at `p`: the UUID and the
/// start of the next line
fn key_line(s: &Vec<char>, p: usize, label: &str, n: usize) -> (r: Option<(String, usize)>)
    requires
        label@.len() == n,
    ensures
        match spec_key_line(s@, p as int, label@) {
            None => r is None,
            Some(e) => r matches Some((k, e2)) && e2 == e && k@ == s@.subrange(p + n, p + n + 36),
        },
{
    let sl = s.len();
    if !lit_at_exec(s, p, label) || !crate::scan::uuid_text_at(s, p + n) {
        return None;
    }
    match newline_end(s, p + n + 36) {
        Some(e) => Some((text_between(s, p + n, p + n + 36), e)),
        None => None,
    }
}

/// `label`, a count and a line break at `p`: the start of the next line
pub open spec fn spec_count_line(s: Seq<char>, p: int, label: Seq<char>) -> Option<int> {
    if lit_at(s, p, label) {
        match spec_unsigned_end(s, p + label.len(), usize::MAX as int) {
            Some(e) => spec_newline_end(s, e),
            None => None,
        }
    } else {
        None
    }
}

/// the line of `label`, a count and a line break at `p`: the count and the
/// start of the next line
fn count_line(s: &Vec<char>, p: usize, label: &str, n: usize) -> (r: Option<(usize, usize)>)
    requires
        label@.len() == n,
    ensures
        match spec_count_line(s@, p as int, label@) {
            None => r is None,
            Some(e) => r matches Some((c, e2)) && e2 == e && c == spec_number(
                s@,
                p + n,
                crate::chat_log::spec_digit_run(s@, p + n),
            ),
        },
{
    let sl = s.len();
    if !lit_at_exec(s, p, label) {
        return None;
    }
    let (c, e) = match unsigned_at(s, p + n, usize::MAX as u64) {
        Some(x) => x,
        None => {
            return None;
        },
    };
    match newline_end(s, e) {
        Some(e2) => Some((c as usize, e2)),
        None => None,
    }
}

/// `label`, a vector and a line break at `p`: the start of the next line
pub open spec fn spec_vector_line(s: Seq<char>, p: int, label: Seq<char>) -> Option<int> {
    if lit_at(s, p, label) {
        match spec_vector_at(s, p + label.len()) {
            Some((_, _, _, e)) => spec_newline_end(s, e),
            None => None,
        }
    } else {
        None
    }
}

/// the line of `label`, a vector and a line break at `p`
fn vector_line(s: &Vec<char>, p: usize, label: &str, n: usize) -> (r: Option<
    (crate::system_messages::Vector, usize),
>)
    requires
        label@.len() == n,
    ensures
        match spec_vector_line(s@, p as int, label@) {
            None => r is None,
            Some(e) => r matches Some((v, e2)) && e2 == e && vector_is(s@, p + n, v),
        },
{
    let sl = s.len();
    if !lit_at_exec(s, p, label) {
        return None;
    }
    let (v, e) = match vector_at(s, p + n) {
        Some(x) => x,
        None => {
            return None;
        },
    };
    match newline_end(s, e) {
        Some(e2) => Some((v, e2)),
        None => None,
    }
}

/// `label`, an optional link to an avatar or group (or `---`) and a line
/// break at `p`: whether a link is there (and to a group), and the start of
/// the next line
pub open spec fn spec_opt_owner_line(s: Seq<char>, p: int, label: Seq<char>) -> Option<
    (Option<bool>, int),
> {
    if lit_at(s, p, label) {
        let q = p + label.len();
        let (v, e) = match spec_owner_uri_at(s, q) {
            Some((g, e)) => (Some(Some(g)), e),
            None => if lit_at(s, q, "---"@) {
                (Some(None), q + 3)
            } else {
                (None, q)
            },
        };
        match v {
            Some(o) => match spec_newline_end(s, e) {
                Some(n) => Some((o, n)),
                None => None,
            },
            None => None,
        }
    } else {
        None
    }
}

/// `o` is the owner `spec_opt_owner_line` reads, whose key starts at `k`
pub open spec fn opt_owner_is(s: Seq<char>, k: int, v: Option<bool>, o: Option<OwnerKey>) -> bool {
    match v {
        Some(g) => o matches Some(x) && owner_is(x, g, s.subrange(k, k + 36)),
        None => o is None,
    }
}

/// the line of `label`, an optional owner link and a line break at `p`
fn opt_owner_line(s: &Vec<char>, p: usize, label: &str, n: usize) -> (r: Option<
    (Option<OwnerKey>, usize),
>)
    requires
        label@.len() == n,
    ensures
        match spec_opt_owner_line(s@, p as int, label@) {
            None => r is None,
            Some((v, e)) => r matches Some((o, e2)) && e2 == e && opt_owner_is(s@, p + n + 24, v, o),
        },
{
    let sl = s.len();
    proof {
        reveal_strlit("---");
    }
    if !lit_at_exec(s, p, label) {
        return None;
    }
    let q = p + n;
    let (o, e) = match owner_uri_at(s, q) {
        Some((o, e)) => (Some(o), e),
        None => if lit_at_exec(s, q, "---") {
            (None, q + 3)
        } else {
            return None;
        },
    };
    match newline_end(s, e) {
        Some(e2) => Some((o, e2)),
        None => None,
    }
}

/// `label`, an optional link to a group (or `---`) and a line break at `p`:
/// whether a link is there, and the start of the next line
pub open spec fn spec_opt_group_line(s: Seq<char>, p: int, label: Seq<char>) -> Option<(bool, int)> {
    if lit_at(s, p, label) {
        let q = p + label.len();
        let (ok, g, e) = match spec_group_uri_at(s, q) {
            Some(e) => (true, true, e),
            None => if lit_at(s, q, "---"@) {
                (true, false, q + 3)
            } else {
                (false, false, q)
            },
        };
        if ok {
            match spec_newline_end(s, e) {
                Some(n) => Some((g, n)),
                None => None,
            }
        } else {
            None
        }
    } else {
        None
    }
}

/// the line of `label`, an optional group link and a line break at `p`
fn opt_group_line(s: &Vec<char>, p: usize, label: &str, n: usize) -> (r: Option<
    (Option<GroupKey>, usize),
>)
    requires
        label@.len() == n,
    ensures
        match spec_opt_group_line(s@, p as int, label@) {
            None => r is None,
            Some((g, e)) => r matches Some((o, e2)) && e2 == e && (if g {
                o matches Some(k) && k.0@ == s@.subrange(p + n + 24, p + n + 60)
            } else {
                o is None
            }),
        },
{
    let sl = s.len();
    proof {
        reveal_strlit("---");
    }
    if !lit_at_exec(s, p, label) {
        return None;
    }
    let q = p + n;
    let (o, e) = match group_uri_at(s, q) {
        Some((k, e)) => (Some(k), e),
        None => if lit_at_exec(s, q, "---") {
            (None, q + 3)
        } else {
            return None;
        },
    };
    match newline_end(s, e) {
        Some(e2) => Some((o, e2)),
        None => None,
    }
}

/// where the timestamp of a time line starts, after `label` and an
/// optional space at `p`
pub open spec fn spec_time_start(s: Seq<char>, p: int, label: Seq<char>) -> int {
    if lit_at(s, p + label.len(), " "@) {
        p + label.len() + 1
    } else {
        p + label.len()
    }
}

/// `label`, an optional space, an optional timestamp and a line break at
/// `p`: the start of the next line
pub open spec fn spec_time_line(s: Seq<char>, p: int, label: Seq<char>) -> Option<int> {
    let d = spec_time_start(s, p, label);
    if lit_at(s, p, label) {
        spec_newline_end(
            s,
            if spec_iso_stamp(s, d) is Some {
                d + 27
            } else {
                d
            },
        )
    } else {
        None
    }
}

/// the line of `label` and an optional timestamp at `p`
fn time_line(s: &Vec<char>, p: usize, label: &str, n: usize) -> (r: Option<
    (Option<UtcTimestamp>, usize),
>)
    requires
        label@.len() == n,
    ensures
        match spec_time_line(s@, p as int, label@) {
            None => r is None,
            Some(e) => r matches Some((t, e2)) && e2 == e && t == spec_iso_stamp(
                s@,
                spec_time_start(s@, p as int, label@),
            ),
        },
{
    let sl = s.len();
    proof {
        reveal_strlit(" ");
    }
    if !lit_at_exec(s, p, label) {
        return None;
    }
    let d = if lit_at_exec(s, p + n, " ") {
        p + n + 1
    } else {
        p + n
    };
    let (t, e) = match offset_datetime_parser(s, d) {
        Some((t, e)) => (Some(t), e),
        None => (None, d),
    };
    match newline_end(s, e) {
        Some(e2) => Some((t, e2)),
        None => None,
    }
}

/// the pathfinding type written as the LSL constant `v`
pub open spec fn spec_pathfinding(v: int) -> Option<PathfindingType> {
    if v == -1 {
        Some(PathfindingType::Other)
    } else if v == 0 {
        Some(PathfindingType::LegacyLinkset)
    } else if v == 1 {
        Some(PathfindingType::Avatar)
    } else if v == 2 {
        Some(PathfindingType::Character)
    } else if v == 3 {
        Some(PathfindingType::Walkable)
    } else if v == 4 {
        Some(PathfindingType::StaticObstacle)
    } else if v == 5 {
        Some(PathfindingType::MaterialVolume)
    } else if v == 6 {
        Some(PathfindingType::ExclusionVolume)
    } else {
        None
    }
}

/// the pathfinding type written as the LSL constant `v`
fn pathfinding(v: i64) -> (r: Option<PathfindingType>)
    ensures
        r == spec_pathfinding(v as int),
{
    match v {
        -1 => Some(PathfindingType::Other),
        0 => Some(PathfindingType::LegacyLinkset),
        1 => Some(PathfindingType::Avatar),
        2 => Some(PathfindingType::Character),
        3 => Some(PathfindingType::Walkable),
        4 => Some(PathfindingType::StaticObstacle),
        5 => Some(PathfindingType::MaterialVolume),
        6 => Some(PathfindingType::ExclusionVolume),
        _ => None,
    }
}

/// where the description starts on a description line at `p`
pub open spec fn spec_desc_start(s: Seq<char>, p: int) -> int {
    if lit_at(s, p + 13, " "@) {
        p + 14
    } else {
        p + 13
    }
}

/// the description line at `p` reads `(No Description)`
pub open spec fn spec_no_desc(s: Seq<char>, p: int) -> bool {
    lit_at(s, spec_desc_start(s, p), "(No Description)"@) && spec_newline_end(
        s,
        spec_desc_start(s, p) + 16,
    ) is Some
}

/// the second position of the inspected object's position line at `p`:
/// where its distance starts and the index after the closing `)`
pub open spec fn spec_distance_part(s: Seq<char>, p: int) -> Option<(int, int)> {
    match spec_vector_at(s, p + 11) {
        Some((_, _, _, e)) => {
            let w = spec_skip_ws(s, e);
            if lit_at(s, w, "("@) {
                match crate::chat_log::spec_distance_at(s, w + 1) {
                    Some((_, _, e2)) => if lit_at(s, e2, ")"@) {
                        Some((w + 1, e2 + 1))
                    } else {
                        None
                    },
                    None => None,
                }
            } else {
                None
            }
        },
        None => None,
    }
}

/// where the angles of the rotation line at `p` start and the index after
/// the closing `)`
pub open spec fn spec_degrees_part(s: Seq<char>, p: int) -> Option<(int, int)> {
    match spec_rotation_at(s, p + 11) {
        Some((_, _, _, _, e)) => {
            let w = spec_skip_ws(s, e);
            if lit_at(s, w, "("@) {
                match spec_vector_at(s, w + 1) {
                    Some((_, _, _, e2)) => if lit_at(s, e2, ")"@) {
                        Some((w + 1, e2 + 1))
                    } else {
                        None
                    },
                    None => None,
                }
            } else {
                None
            }
        },
        None => None,
    }
}

/// the attachment point part of its line at `p`: the name if written (not
/// `---`) and the index after it
pub open spec fn spec_attachment_part(s: Seq<char>, p: int) -> Option<(Option<Seq<char>>, int)> {
    match spec_attachment_point_at(s, p + 19) {
        Some((n, e)) => Some((Some(n), e)),
        None => if lit_at(s, p + 19, "---"@) {
            Some((None, p + 22))
        } else {
            None
        },
    }
}

/// line `k` (0 to 20) of an extended script info starting at `p`: where
/// the next line starts (for the last line, the index after it)
#[verifier::opaque]
pub open spec fn spec_ext_line(s: Seq<char>, p: int, k: int) -> Option<int> {
    if k == 0 {
        spec_key_line(s, p, "Object ID: "@)
    } else if k == 1 {
        if lit_at(s, p, " Description:"@) {
            if spec_no_desc(s, p) {
                spec_newline_end(s, spec_desc_start(s, p) + 16)
            } else {
                spec_newline_end(s, spec_line_end(s, spec_desc_start(s, p)))
            }
        } else {
            None
        }
    } else if k == 2 {
        spec_key_line(s, p, " Root prim: "@)
    } else if k == 3 {
        spec_count_line(s, p, " Prim count: "@)
    } else if k == 4 {
        spec_count_line(s, p, " Land impact: "@)
    } else if k == 5 {
        spec_count_line(s, p, " Inventory items: "@)
    } else if k == 6 {
        spec_vector_line(s, p, " Velocity: "@)
    } else if k == 7 {
        if lit_at(s, p, " Position: "@) {
            match spec_distance_part(s, p) {
                Some((_, e)) => spec_newline_end(s, e),
                None => None,
            }
        } else {
            None
        }
    } else if k == 8 {
        if lit_at(s, p, " Rotation: "@) {
            match spec_degrees_part(s, p) {
                Some((_, e)) => spec_newline_end(s, e),
                None => None,
            }
        } else {
            None
        }
    } else if k == 9 {
        if lit_at(s, p, " Angular velocity: "@) {
            match spec_vector_at(s, p + 19) {
                Some((_, _, _, e)) => {
                    let w = spec_skip_ws(s, e);
                    if lit_at(s, w, "(radians per second)"@) {
                        spec_newline_end(s, w + 20)
                    } else {
                        None
                    }
                },
                None => None,
            }
        } else {
            None
        }
    } else if k == 10 {
        if lit_at(s, p, " Creator: "@) {
            match spec_agent_uri_at(s, p + 10) {
                Some(e) => spec_newline_end(s, e),
                None => None,
            }
        } else {
            None
        }
    } else if k == 11 {
        if lit_at(s, p, " Owner: "@) {
            match spec_owner_uri_at(s, p + 8) {
                Some((_, e)) => spec_newline_end(s, e),
                None => None,
            }
        } else {
            None
        }
    } else if k == 12 {
        match spec_opt_owner_line(s, p, " Previous owner: "@) {
            Some((_, n)) => Some(n),
            None => None,
        }
    } else if k == 13 {
        spec_key_line(s, p, " Rezzed by: "@)
    } else if k == 14 {
        match spec_opt_group_line(s, p, " Group: "@) {
            Some((_, n)) => Some(n),
            None => None,
        }
    } else if k == 15 {
        spec_time_line(s, p, " Creation time:"@)
    } else if k == 16 {
        spec_time_line(s, p, " Rez time:"@)
    } else if k == 17 {
        if lit_at(s, p, " Pathfinding type: "@) {
            match spec_signed_at(s, p + 19, -128, 127) {
                Some((v, e)) => if spec_pathfinding(v) is Some {
                    spec_newline_end(s, e)
                } else {
                    None
                },
                None => None,
            }
        } else {
            None
        }
    } else if k == 18 {
        if lit_at(s, p, " Attachment point: "@) {
            match spec_attachment_part(s, p) {
                Some((_, e)) => spec_newline_end(s, e),
                None => None,
            }
        } else {
            None
        }
    } else if k == 19 {
        if lit_at(s, p, " Temporarily attached: "@) {
            if lit_at(s, p + 23, "Yes"@) {
                spec_newline_end(s, p + 26)
            } else if lit_at(s, p + 23, "No"@) {
                spec_newline_end(s, p + 25)
            } else {
                None
            }
        } else {
            None
        }
    } else if k == 20 {
        if lit_at(s, p, " Your current position: "@) {
            match spec_vector_at(s, p + 24) {
                Some((_, _, _, e)) => Some(e),
                None => None,
            }
        } else {
            None
        }
    } else {
        None
    }
}

/// where line `k` of an extended script info read from `i` starts (`k ==
/// 21`: the index after the report), when the lines before it are read
#[verifier::opaque]
pub open spec fn spec_ext_pos(s: Seq<char>, i: int, k: nat) -> Option<int>
    decreases k,
{
    if k == 0 {
        Some(i)
    } else {
        match spec_ext_pos(s, i, (k - 1) as nat) {
            Some(p) => spec_ext_line(s, p, k - 1),
            None => None,
        }
    }
}

/// once a line is not read, no later line is
proof fn lemma_ext_pos_none(s: Seq<char>, i: int, k: nat, j: nat)
    requires
        k <= j,
        spec_ext_pos(s, i, k) is None,
    ensures
        spec_ext_pos(s, i, j) is None,
    decreases j - k,
{
    reveal(spec_ext_pos);
    if k < j {
        lemma_ext_pos_none(s, i, k, (j - 1) as nat);
    }
}

/// the line after a read line starts where the line's rule says
proof fn lemma_ext_step(s: Seq<char>, i: int, k: nat, p: int)
    requires
        spec_ext_pos(s, i, k) == Some(p),
    ensures
        spec_ext_pos(s, i, k + 1) == spec_ext_line(s, p, k as int),
{
    reveal(spec_ext_pos);
    assert(spec_ext_pos(s, i, k + 1) == match spec_ext_pos(s, i, k) {
        Some(q) => spec_ext_line(s, q, k as int),
        None => None,
    });
}

/// the first line starts where the report does
proof fn lemma_ext_start(s: Seq<char>, i: int)
    ensures
        spec_ext_pos(s, i, 0) == Some(i),
{
    reveal(spec_ext_pos);
}

/// the extended script info report at `i`, all twenty-one lines
pub open spec fn extended_script_info_matches(s: Seq<char>, i: int) -> bool {
    spec_ext_pos(s, i, 21) is Some
}

/// the start of line `k` of the report at `i`
pub open spec fn line(s: Seq<char>, i: int, k: nat) -> int {
    spec_ext_pos(s, i, k).unwrap()
}

/// `info` holds what the lines of the report at `i` say
pub open spec fn ext_info_is(s: Seq<char>, i: int, info: ExtendedScriptInfo) -> bool {
    let p1 = line(s, i, 1);
    let p7 = line(s, i, 7);
    let p8 = line(s, i, 8);
    let p11 = line(s, i, 11);
    let p12 = line(s, i, 12);
    let p14 = line(s, i, 14);
    let p17 = line(s, i, 17);
    let p18 = line(s, i, 18);
    &&& info.object_key.0@ == s.subrange(i + 11, i + 47)
    &&& if spec_no_desc(s, p1) {
        info.description is None
    } else {
        info.description matches Some(d) && d@ == s.subrange(
            spec_desc_start(s, p1),
            spec_line_end(s, spec_desc_start(s, p1)),
        )
    }
    &&& info.root_prim.0@ == s.subrange(line(s, i, 2) + 12, line(s, i, 2) + 48)
    &&& info.prim_count == spec_number(
        s,
        line(s, i, 3) + 13,
        crate::chat_log::spec_digit_run(s, line(s, i, 3) + 13),
    )
    &&& info.land_impact == spec_number(
        s,
        line(s, i, 4) + 14,
        crate::chat_log::spec_digit_run(s, line(s, i, 4) + 14),
    )
    &&& info.inventory_items == spec_number(
        s,
        line(s, i, 5) + 18,
        crate::chat_log::spec_digit_run(s, line(s, i, 5) + 18),
    )
    &&& vector_is(s, line(s, i, 6) + 11, info.velocity)
    &&& vector_is(s, p7 + 11, info.position)
    &&& distance_is(s, spec_distance_part(s, p7).unwrap().0, info.position_distance)
    &&& rotation_is(s, p8 + 11, info.rotation)
    &&& vector_is(s, spec_degrees_part(s, p8).unwrap().0, info.rotation_vector_degrees)
    &&& vector_is(s, line(s, i, 9) + 19, info.angular_velocity)
    &&& info.creator.0@ == s.subrange(line(s, i, 10) + 34, line(s, i, 10) + 70)
    &&& owner_is(info.owner, spec_owner_uri_at(s, p11 + 8).unwrap().0, s.subrange(p11 + 32, p11 + 68))
    &&& opt_owner_is(
        s,
        p12 + 41,
        spec_opt_owner_line(s, p12, " Previous owner: "@).unwrap().0,
        info.previous_owner,
    )
    &&& info.rezzed_by.0@ == s.subrange(line(s, i, 13) + 12, line(s, i, 13) + 48)
    &&& if spec_opt_group_line(s, p14, " Group: "@).unwrap().0 {
        info.group matches Some(k) && k.0@ == s.subrange(p14 + 32, p14 + 68)
    } else {
        info.group is None
    }
    &&& info.creation_time == spec_iso_stamp(
        s,
        spec_time_start(s, line(s, i, 15), " Creation time:"@),
    )
    &&& info.rez_time == spec_iso_stamp(s, spec_time_start(s, line(s, i, 16), " Rez time:"@))
    &&& Some(info.pathfinding_type) == spec_pathfinding(
        spec_signed_at(s, p17 + 19, -128, 127).unwrap().0,
    )
    &&& match spec_attachment_part(s, p18).unwrap().0 {
        Some(n) => info.attachment_point matches Some(a) && a@ == n,
        None => info.attachment_point is None,
    }
    &&& info.temporarily_attached == lit_at(s, line(s, i, 19) + 23, "Yes"@)
    &&& vector_is(s, line(s, i, 20) + 24, info.inspecting_avatar_position)
}

/// the message read by [`extended_script_info_message_parser`]
pub open spec fn extended_script_info_is(s: Seq<char>, i: int, m: SystemMessage) -> bool {
    extended_script_info_matches(s, i) && (m matches SystemMessage::ExtendedScriptInfo { info }
        && ext_info_is(s, i, *info))
}

/// the position line at `p`: the object's position, its distance and the
/// start of the next line
fn position_line(s: &Vec<char>, p: usize) -> (r: Option<
    (crate::system_messages::Vector, crate::chat_log::DistanceText, usize),
>)
    ensures
        match spec_ext_line(s@, p as int, 7) {
            None => r is None,
            Some(n) => r matches Some((v, d, n2)) && n2 == n && vector_is(s@, p + 11, v)
                && distance_is(s@, spec_distance_part(s@, p as int).unwrap().0, d),
        },
{
    proof {
        reveal(spec_ext_line);
    }
    let sl = s.len();
    proof {
        reveal_strlit(" Position: ");
        reveal_strlit("(");
        reveal_strlit(")");
    }
    if !lit_at_exec(s, p, " Position: ") {
        return None;
    }
    let (v, e) = match vector_at(s, p + 11) {
        Some(x) => x,
        None => {
            return None;
        },
    };
    let w = skip_ws(s, e);
    if !lit_at_exec(s, w, "(") {
        return None;
    }
    let (d, e2) = match distance_at(s, w + 1) {
        Some(x) => x,
        None => {
            return None;
        },
    };
    if !lit_at_exec(s, e2, ")") {
        return None;
    }
    match newline_end(s, e2 + 1) {
        Some(n) => Some((v, d, n)),
        None => None,
    }
}

/// the rotation line at `p`: the rotation, its angles and the start of the
/// next line
fn rotation_line(s: &Vec<char>, p: usize) -> (r: Option<
    (crate::system_messages::Rotation, crate::system_messages::Vector, usize),
>)
    ensures
        match spec_ext_line(s@, p as int, 8) {
            None => r is None,
            Some(n) => r matches Some((q, v, n2)) && n2 == n && rotation_is(s@, p + 11, q)
                && vector_is(s@, spec_degrees_part(s@, p as int).unwrap().0, v),
        },
{
    proof {
        reveal(spec_ext_line);
    }
    let sl = s.len();
    proof {
        reveal_strlit(" Rotation: ");
        reveal_strlit("(");
        reveal_strlit(")");
    }
    if !lit_at_exec(s, p, " Rotation: ") {
        return None;
    }
    let (q, e) = match rotation_at(s, p + 11) {
        Some(x) => x,
        None => {
            return None;
        },
    };
    let w = skip_ws(s, e);
    if !lit_at_exec(s, w, "(") {
        return None;
    }
    let (v, e2) = match vector_at(s, w + 1) {
        Some(x) => x,
        None => {
            return None;
        },
    };
    if !lit_at_exec(s, e2, ")") {
        return None;
    }
    match newline_end(s, e2 + 1) {
        Some(n) => Some((q, v, n)),
        None => None,
    }
}

/// the angular velocity line at `p`: the angular velocity and the start of
/// the next line
fn angular_line(s: &Vec<char>, p: usize) -> (r: Option<(crate::system_messages::Vector, usize)>)
    ensures
        match spec_ext_line(s@, p as int, 9) {
            None => r is None,
            Some(n) => r matches Some((v, n2)) && n2 == n && vector_is(s@, p + 19, v),
        },
{
    proof {
        reveal(spec_ext_line);
    }
    let sl = s.len();
    proof {
        reveal_strlit(" Angular velocity: ");
        reveal_strlit("(radians per second)");
    }
    if !lit_at_exec(s, p, " Angular velocity: ") {
        return None;
    }
    let (v, e) = match vector_at(s, p + 19) {
        Some(x) => x,
        None => {
            return None;
        },
    };
    let w = skip_ws(s, e);
    if !lit_at_exec(s, w, "(radians per second)") {
        return None;
    }
    match newline_end(s, w + 20) {
        Some(n) => Some((v, n)),
        None => None,
    }
}

/// line `k` (0, 2 or 13) of `label` and a UUID at `p`
fn key_line_k(s: &Vec<char>, p: usize, k: u8, label: &str, n: usize) -> (r: Option<(String, usize)>)
    requires
        (k == 0 && label@ == "Object ID: "@ && n == 11) || (k == 2 && label@ == " Root prim: "@ && n
            == 12) || (k == 13 && label@ == " Rezzed by: "@ && n == 12),
    ensures
        match spec_ext_line(s@, p as int, k as int) {
            None => r is None,
            Some(e) => r matches Some((x, e2)) && e2 == e && x@ == s@.subrange(p + n, p + n + 36),
        },
{
    proof {
        reveal(spec_ext_line);
        reveal_strlit("Object ID: ");
        reveal_strlit(" Root prim: ");
        reveal_strlit(" Rezzed by: ");
    }
    key_line(s, p, label, n)
}

/// line `k` (3, 4 or 5) of `label` and a count at `p`
fn count_line_k(s: &Vec<char>, p: usize, k: u8, label: &str, n: usize) -> (r: Option<(usize, usize)>)
    requires
        (k == 3 && label@ == " Prim count: "@ && n == 13) || (k == 4 && label@ == " Land impact: "@
            && n == 14) || (k == 5 && label@ == " Inventory items: "@ && n == 18),
    ensures
        match spec_ext_line(s@, p as int, k as int) {
            None => r is None,
            Some(e) => r matches Some((c, e2)) && e2 == e && c == spec_number(
                s@,
                p + n,
                crate::chat_log::spec_digit_run(s@, p + n),
            ),
        },
{
    proof {
        reveal(spec_ext_line);
        reveal_strlit(" Prim count: ");
        reveal_strlit(" Land impact: ");
        reveal_strlit(" Inventory items: ");
    }
    count_line(s, p, label, n)
}

/// line 6, the velocity, at `p`
fn velocity_line(s: &Vec<char>, p: usize) -> (r: Option<(crate::system_messages::Vector, usize)>)
    ensures
        match spec_ext_line(s@, p as int, 6) {
            None => r is None,
            Some(e) => r matches Some((v, e2)) && e2 == e && vector_is(s@, p + 11, v),
        },
{
    proof {
        reveal(spec_ext_line);
        reveal_strlit(" Velocity: ");
    }
    vector_line(s, p, " Velocity: ", 11)
}

/// line 12, the previous owner, at `p`
fn previous_owner_line(s: &Vec<char>, p: usize) -> (r: Option<(Option<OwnerKey>, usize)>)
    ensures
        match spec_ext_line(s@, p as int, 12) {
            None => r is None,
            Some(e) => r matches Some((o, e2)) && e2 == e && opt_owner_is(
                s@,
                p + 41,
                spec_opt_owner_line(s@, p as int, " Previous owner: "@).unwrap().0,
                o,
            ),
        },
{
    proof {
        reveal(spec_ext_line);
        reveal_strlit(" Previous owner: ");
    }
    opt_owner_line(s, p, " Previous owner: ", 17)
}

/// line 14, the group, at `p`
fn group_line(s: &Vec<char>, p: usize) -> (r: Option<(Option<GroupKey>, usize)>)
    ensures
        match spec_ext_line(s@, p as int, 14) {
            None => r is None,
            Some(e) => r matches Some((o, e2)) && e2 == e && (if spec_opt_group_line(
                s@,
                p as int,
                " Group: "@,
            ).unwrap().0 {
                o matches Some(k) && k.0@ == s@.subrange(p + 32, p + 68)
            } else {
                o is None
            }),
        },
{
    proof {
        reveal(spec_ext_line);
        reveal_strlit(" Group: ");
    }
    opt_group_line(s, p, " Group: ", 8)
}

/// line 15 (creation time) or 16 (rez time) at `p`
fn time_line_k(s: &Vec<char>, p: usize, k: u8, label: &str, n: usize) -> (r: Option<
    (Option<UtcTimestamp>, usize),
>)
    requires
        (k == 15 && label@ == " Creation time:"@ && n == 15) || (k == 16 && label@ == " Rez time:"@
            && n == 10),
    ensures
        match spec_ext_line(s@, p as int, k as int) {
            None => r is None,
            Some(e) => r matches Some((x, e2)) && e2 == e && x == spec_iso_stamp(
                s@,
                spec_time_start(s@, p as int, label@),
            ),
        },
{
    proof {
        reveal(spec_ext_line);
        reveal_strlit(" Creation time:");
        reveal_strlit(" Rez time:");
    }
    time_line(s, p, label, n)
}

/// line 1, the description, at `p`
fn description_line(s: &Vec<char>, p: usize) -> (r: Option<(Option<String>, usize)>)
    ensures
        match spec_ext_line(s@, p as int, 1) {
            None => r is None,
            Some(e) => r matches Some((d, e2)) && e2 == e && if spec_no_desc(s@, p as int) {
                d is None
            } else {
                d matches Some(x) && x@ == s@.subrange(
                    spec_desc_start(s@, p as int),
                    spec_line_end(s@, spec_desc_start(s@, p as int)),
                )
            },
        },
{
    let sl = s.len();
    proof {
        reveal(spec_ext_line);
        reveal_strlit(" Description:");
        reveal_strlit(" ");
        reveal_strlit("(No Description)");
    }
    if !lit_at_exec(s, p, " Description:") {
        return None;
    }
    let d = if lit_at_exec(s, p + 13, " ") {
        p + 14
    } else {
        p + 13
    };
    if lit_at_exec(s, d, "(No Description)") {
        if let Some(n) = newline_end(s, d + 16) {
            return Some((None, n));
        }
    }
    let t = line_end(s, d);
    match newline_end(s, t) {
        Some(n) => Some((Some(text_between(s, d, t)), n)),
        None => None,
    }
}

/// what the lines from the creator on say
struct ExtTail {
    creator: AgentKey,
    owner: OwnerKey,
    previous_owner: Option<OwnerKey>,
    rezzed_by: AgentKey,
    group: Option<GroupKey>,
    creation_time: Option<UtcTimestamp>,
    rez_time: Option<UtcTimestamp>,
    pathfinding_type: PathfindingType,
    attachment_point: Option<String>,
    temporarily_attached: bool,
    inspecting_avatar_position: crate::system_messages::Vector,
}

/// `t` holds what the lines from the creator on of the report at `i` say
spec fn tail_is(s: Seq<char>, i: int, t: ExtTail) -> bool {
    let p11 = line(s, i, 11);
    let p12 = line(s, i, 12);
    let p14 = line(s, i, 14);
    let p17 = line(s, i, 17);
    let p18 = line(s, i, 18);
    &&& t.creator.0@ == s.subrange(line(s, i, 10) + 34, line(s, i, 10) + 70)
    &&& owner_is(t.owner, spec_owner_uri_at(s, p11 + 8).unwrap().0, s.subrange(p11 + 32, p11 + 68))
    &&& opt_owner_is(
        s,
        p12 + 41,
        spec_opt_owner_line(s, p12, " Previous owner: "@).unwrap().0,
        t.previous_owner,
    )
    &&& t.rezzed_by.0@ == s.subrange(line(s, i, 13) + 12, line(s, i, 13) + 48)
    &&& if spec_opt_group_line(s, p14, " Group: "@).unwrap().0 {
        t.group matches Some(k) && k.0@ == s.subrange(p14 + 32, p14 + 68)
    } else {
        t.group is None
    }
    &&& t.creation_time == spec_iso_stamp(s, spec_time_start(s, line(s, i, 15), " Creation time:"@))
    &&& t.rez_time == spec_iso_stamp(s, spec_time_start(s, line(s, i, 16), " Rez time:"@))
    &&& Some(t.pathfinding_type) == spec_pathfinding(
        spec_signed_at(s, p17 + 19, -128, 127).unwrap().0,
    )
    &&& match spec_attachment_part(s, p18).unwrap().0 {
        Some(n) => t.attachment_point matches Some(a) && a@ == n,
        None => t.attachment_point is None,
    }
    &&& t.temporarily_attached == lit_at(s, line(s, i, 19) + 23, "Yes"@)
    &&& vector_is(s, line(s, i, 20) + 24, t.inspecting_avatar_position)
}

/// the creator line at `p`: the creator and the start of the next line
fn creator_line(s: &Vec<char>, p: usize) -> (r: Option<(AgentKey, usize)>)
    ensures
        match spec_ext_line(s@, p as int, 10) {
            None => r is None,
            Some(n) => r matches Some((k, n2)) && n2 == n && k.0@ == s@.subrange(p + 34, p + 70),
        },
{
    proof {
        reveal(spec_ext_line);
    }
    let sl = s.len();
    proof {
        reveal_strlit(" Creator: ");
    }
    if !lit_at_exec(s, p, " Creator: ") {
        return None;
    }
    match agent_uri_at(s, p + 10) {
        Some((k, e)) => match newline_end(s, e) {
            Some(n) => Some((k, n)),
            None => None,
        },
        None => None,
    }
}

/// the owner line at `p`: the owner and the start of the next line
fn owner_line(s: &Vec<char>, p: usize) -> (r: Option<(OwnerKey, usize)>)
    ensures
        match spec_ext_line(s@, p as int, 11) {
            None => r is None,
            Some(n) => r matches Some((o, n2)) && n2 == n && owner_is(
                o,
                spec_owner_uri_at(s@, p + 8).unwrap().0,
                s@.subrange(p + 32, p + 68),
            ),
        },
{
    proof {
        reveal(spec_ext_line);
    }
    let sl = s.len();
    proof {
        reveal_strlit(" Owner: ");
    }
    if !lit_at_exec(s, p, " Owner: ") {
        return None;
    }
    match owner_uri_at(s, p + 8) {
        Some((o, e)) => match newline_end(s, e) {
            Some(n) => Some((o, n)),
            None => None,
        },
        None => None,
    }
}

/// the pathfinding line at `p`: the pathfinding type and the start of the
/// next line
fn pathfinding_line(s: &Vec<char>, p: usize) -> (r: Option<(PathfindingType, usize)>)
    ensures
        match spec_ext_line(s@, p as int, 17) {
            None => r is None,
            Some(n) => r matches Some((t, n2)) && n2 == n && Some(t) == spec_pathfinding(
                spec_signed_at(s@, p + 19, -128, 127).unwrap().0,
            ),
        },
{
    proof {
        reveal(spec_ext_line);
    }
    let sl = s.len();
    proof {
        reveal_strlit(" Pathfinding type: ");
    }
    if !lit_at_exec(s, p, " Pathfinding type: ") {
        return None;
    }
    match signed_at(s, p + 19, -128, 127) {
        Some((v, e)) => match pathfinding(v) {
            Some(t) => match newline_end(s, e) {
                Some(n) => Some((t, n)),
                None => None,
            },
            None => None,
        },
        None => None,
    }
}

/// the attachment line at `p`: the attachment point if any and the start
/// of the next line
fn attachment_line(s: &Vec<char>, p: usize) -> (r: Option<(Option<String>, usize)>)
    ensures
        match spec_ext_line(s@, p as int, 18) {
            None => r is None,
            Some(n) => r matches Some((a, n2)) && n2 == n && match spec_attachment_part(
                s@,
                p as int,
            ).unwrap().0 {
                Some(x) => a matches Some(y) && y@ == x,
                None => a is None,
            },
        },
{
    proof {
        reveal(spec_ext_line);
    }
    let sl = s.len();
    proof {
        reveal_strlit(" Attachment point: ");
        reveal_strlit("---");
    }
    if !lit_at_exec(s, p, " Attachment point: ") {
        return None;
    }
    let (a, e) = match attachment_point_at(s, p + 19) {
        Some((x, e)) => (Some(x), e),
        None => if lit_at_exec(s, p + 19, "---") {
            (None, p + 22)
        } else {
            return None;
        },
    };
    match newline_end(s, e) {
        Some(n) => Some((a, n)),
        None => None,
    }
}

/// the temporarily attached line at `p`: whether it says `Yes` and the
/// start of the next line
fn temporarily_attached_line(s: &Vec<char>, p: usize) -> (r: Option<(bool, usize)>)
    ensures
        match spec_ext_line(s@, p as int, 19) {
            None => r is None,
            Some(n) => r matches Some((y, n2)) && n2 == n && y == lit_at(s@, p + 23, "Yes"@),
        },
{
    proof {
        reveal(spec_ext_line);
    }
    let sl = s.len();
    proof {
        reveal_strlit(" Temporarily attached: ");
        reveal_strlit("Yes");
        reveal_strlit("No");
    }
    if !lit_at_exec(s, p, " Temporarily attached: ") {
        return None;
    }
    if lit_at_exec(s, p + 23, "Yes") {
        match newline_end(s, p + 26) {
            Some(n) => Some((true, n)),
            None => None,
        }
    } else if lit_at_exec(s, p + 23, "No") {
        match newline_end(s, p + 25) {
            Some(n) => Some((false, n)),
            None => None,
        }
    } else {
        None
    }
}

/// the last line at `p`: the inspecting avatar's position
fn current_position_line(s: &Vec<char>, p: usize) -> (r: Option<crate::system_messages::Vector>)
    ensures
        spec_ext_line(s@, p as int, 20) is None ==> r is None,
        spec_ext_line(s@, p as int, 20) is Some ==> (r matches Some(v) && vector_is(s@, p + 24, v)),
{
    proof {
        reveal(spec_ext_line);
    }
    let sl = s.len();
    proof {
        reveal_strlit(" Your current position: ");
    }
    if !lit_at_exec(s, p, " Your current position: ") {
        return None;
    }
    match vector_at(s, p + 24) {
        Some((v, _)) => Some(v),
        None => None,
    }
}

/// the lines from the creator on of the report at `i`, the creator's line
/// starting at `p10`
fn ext_tail(s: &Vec<char>, i: usize, p10: usize) -> (r: Option<ExtTail>)
    requires
        spec_ext_pos(s@, i as int, 10) == Some(p10 as int),
    ensures
        r is Some <==> spec_ext_pos(s@, i as int, 21) is Some,
        r matches Some(t) ==> tail_is(s@, i as int, t),
{
    let ghost g = s@;
    proof {
        reveal_strlit(" Rezzed by: ");
        reveal_strlit(" Creation time:");
        reveal_strlit(" Rez time:");
    }
    let (creator, p11) = match creator_line(s, p10) {
        Some(x) => x,
        None => {
            proof {
                lemma_ext_step(g, i as int, 10, p10 as int);
                lemma_ext_pos_none(g, i as int, 11, 21);
            }
            return None;
        },
    };
    proof {
        lemma_ext_step(g, i as int, 10, p10 as int);
    }
    let (owner, p12) = match owner_line(s, p11) {
        Some(x) => x,
        None => {
            proof {
                lemma_ext_step(g, i as int, 11, p11 as int);
                lemma_ext_pos_none(g, i as int, 12, 21);
            }
            return None;
        },
    };
    proof {
        lemma_ext_step(g, i as int, 11, p11 as int);
    }
    let (previous_owner, p13) = match previous_owner_line(s, p12) {
        Some(x) => x,
        None => {
            proof {
                lemma_ext_step(g, i as int, 12, p12 as int);
                lemma_ext_pos_none(g, i as int, 13, 21);
            }
            return None;
        },
    };
    proof {
        lemma_ext_step(g, i as int, 12, p12 as int);
    }
    let (rezzed_by, p14) = match key_line_k(s, p13, 13, " Rezzed by: ", 12) {
        Some(x) => x,
        None => {
            proof {
                lemma_ext_step(g, i as int, 13, p13 as int);
                lemma_ext_pos_none(g, i as int, 14, 21);
            }
            return None;
        },
    };
    proof {
        lemma_ext_step(g, i as int, 13, p13 as int);
    }
    let (group, p15) = match group_line(s, p14) {
        Some(x) => x,
        None => {
            proof {
                lemma_ext_step(g, i as int, 14, p14 as int);
                lemma_ext_pos_none(g, i as int, 15, 21);
            }
            return None;
        },
    };
    proof {
        lemma_ext_step(g, i as int, 14, p14 as int);
    }
    let (creation_time, p16) = match time_line_k(s, p15, 15, " Creation time:", 15) {
        Some(x) => x,
        None => {
            proof {
                lemma_ext_step(g, i as int, 15, p15 as int);
                lemma_ext_pos_none(g, i as int, 16, 21);
            }
            return None;
        },
    };
    proof {
        lemma_ext_step(g, i as int, 15, p15 as int);
    }
    let (rez_time, p17) = match time_line_k(s, p16, 16, " Rez time:", 10) {
        Some(x) => x,
        None => {
            proof {
                lemma_ext_step(g, i as int, 16, p16 as int);
                lemma_ext_pos_none(g, i as int, 17, 21);
            }
            return None;
        },
    };
    proof {
        lemma_ext_step(g, i as int, 16, p16 as int);
    }
    let (pathfinding_type, p18) = match pathfinding_line(s, p17) {
        Some(x) => x,
        None => {
            proof {
                lemma_ext_step(g, i as int, 17, p17 as int);
                lemma_ext_pos_none(g, i as int, 18, 21);
            }
            return None;
        },
    };
    proof {
        lemma_ext_step(g, i as int, 17, p17 as int);
    }
    let (attachment_point, p19) = match attachment_line(s, p18) {
        Some(x) => x,
        None => {
            proof {
                lemma_ext_step(g, i as int, 18, p18 as int);
                lemma_ext_pos_none(g, i as int, 19, 21);
            }
            return None;
        },
    };
    proof {
        lemma_ext_step(g, i as int, 18, p18 as int);
    }
    let (temporarily_attached, p20) = match temporarily_attached_line(s, p19) {
        Some(x) => x,
        None => {
            proof {
                lemma_ext_step(g, i as int, 19, p19 as int);
                lemma_ext_pos_none(g, i as int, 20, 21);
            }
            return None;
        },
    };
    proof {
        lemma_ext_step(g, i as int, 19, p19 as int);
    }
    let inspecting_avatar_position = match current_position_line(s, p20) {
        Some(v) => v,
        None => {
            proof {
                lemma_ext_step(g, i as int, 20, p20 as int);
            }
            return None;
        },
    };
    proof {
        lemma_ext_step(g, i as int, 20, p20 as int);
    }
    Some(
        ExtTail {
            creator,
            owner,
            previous_owner,
            rezzed_by: AgentKey(rezzed_by),
            group,
            creation_time,
            rez_time,
            pathfinding_type,
            attachment_point,
            temporarily_attached,
            inspecting_avatar_position,
        },
    )
}

/// Firestorm's extended script info on an inspected object: its key,
/// description, root prim, counts, motion, creator, owners, group, times,
/// pathfinding type, attachment and the inspecting avatar's position, one
/// line each
#[verifier::rlimit(40)]
pub fn extended_script_info_message_parser(s: &Vec<char>, i: usize) -> (r: Option<SystemMessage>)
    ensures
        r is Some <==> extended_script_info_matches(s@, i as int),
        r matches Some(m) ==> extended_script_info_is(s@, i as int, m),
{
    let ghost g = s@;
    proof {
        reveal_strlit("Object ID: ");
        reveal_strlit(" Root prim: ");
        reveal_strlit(" Prim count: ");
        reveal_strlit(" Land impact: ");
        reveal_strlit(" Inventory items: ");
        lemma_ext_start(g, i as int);
    }
    let (object_key, p1) = match key_line_k(s, i, 0, "Object ID: ", 11) {
        Some(x) => x,
        None => {
            proof {
                lemma_ext_step(g, i as int, 0, i as int);
                lemma_ext_pos_none(g, i as int, 1, 21);
            }
            return None;
        },
    };
    proof {
        lemma_ext_step(g, i as int, 0, i as int);
    }
    let (description, p2) = match description_line(s, p1) {
        Some(x) => x,
        None => {
            proof {
                lemma_ext_step(g, i as int, 1, p1 as int);
                lemma_ext_pos_none(g, i as int, 2, 21);
            }
            return None;
        },
    };
    proof {
        lemma_ext_step(g, i as int, 1, p1 as int);
    }
    let (root_prim, p3) = match key_line_k(s, p2, 2, " Root prim: ", 12) {
        Some(x) => x,
        None => {
            proof {
                lemma_ext_step(g, i as int, 2, p2 as int);
                lemma_ext_pos_none(g, i as int, 3, 21);
            }
            return None;
        },
    };
    proof {
        lemma_ext_step(g, i as int, 2, p2 as int);
    }
    let (prim_count, p4) = match count_line_k(s, p3, 3, " Prim count: ", 13) {
        Some(x) => x,
        None => {
            proof {
                lemma_ext_step(g, i as int, 3, p3 as int);
                lemma_ext_pos_none(g, i as int, 4, 21);
            }
            return None;
        },
    };
    proof {
        lemma_ext_step(g, i as int, 3, p3 as int);
    }
    let (land_impact, p5) = match count_line_k(s, p4, 4, " Land impact: ", 14) {
        Some(x) => x,
        None => {
            proof {
                lemma_ext_step(g, i as int, 4, p4 as int);
                lemma_ext_pos_none(g, i as int, 5, 21);
            }
            return None;
        },
    };
    proof {
        lemma_ext_step(g, i as int, 4, p4 as int);
    }
    let (inventory_items, p6) = match count_line_k(s, p5, 5, " Inventory items: ", 18) {
        Some(x) => x,
        None => {
            proof {
                lemma_ext_step(g, i as int, 5, p5 as int);
                lemma_ext_pos_none(g, i as int, 6, 21);
            }
            return None;
        },
    };
    proof {
        lemma_ext_step(g, i as int, 5, p5 as int);
    }
    let (velocity, p7) = match velocity_line(s, p6) {
        Some(x) => x,
        None => {
            proof {
                lemma_ext_step(g, i as int, 6, p6 as int);
                lemma_ext_pos_none(g, i as int, 7, 21);
            }
            return None;
        },
    };
    proof {
        lemma_ext_step(g, i as int, 6, p6 as int);
    }
    let (position, position_distance, p8) = match position_line(s, p7) {
        Some(x) => x,
        None => {
            proof {
                lemma_ext_step(g, i as int, 7, p7 as int);
                lemma_ext_pos_none(g, i as int, 8, 21);
            }
            return None;
        },
    };
    proof {
        lemma_ext_step(g, i as int, 7, p7 as int);
    }
    let (rotation, rotation_vector_degrees, p9) = match rotation_line(s, p8) {
        Some(x) => x,
        None => {
            proof {
                lemma_ext_step(g, i as int, 8, p8 as int);
                lemma_ext_pos_none(g, i as int, 9, 21);
            }
            return None;
        },
    };
    proof {
        lemma_ext_step(g, i as int, 8, p8 as int);
    }
    let (angular_velocity, p10) = match angular_line(s, p9) {
        Some(x) => x,
        None => {
            proof {
                lemma_ext_step(g, i as int, 9, p9 as int);
                lemma_ext_pos_none(g, i as int, 10, 21);
            }
            return None;
        },
    };
    proof {
        lemma_ext_step(g, i as int, 9, p9 as int);
    }
    let rest = match ext_tail(s, i, p10) {
        Some(x) => x,
        None => {
            return None;
        },
    };
    let info = ExtendedScriptInfo {
        object_key: ObjectKey(object_key),
        description,
        root_prim: ObjectKey(root_prim),
        prim_count,
        land_impact,
        inventory_items,
        velocity,
        position,
        position_distance,
        rotation,
        rotation_vector_degrees,
        angular_velocity,
        creator: rest.creator,
        owner: rest.owner,
        previous_owner: rest.previous_owner,
        rezzed_by: rest.rezzed_by,
        group: rest.group,
        creation_time: rest.creation_time,
        rez_time: rest.rez_time,
        pathfinding_type: rest.pathfinding_type,
        attachment_point: rest.attachment_point,
        temporarily_attached: rest.temporarily_attached,
        inspecting_avatar_position: rest.inspecting_avatar_position,
    };
    Some(SystemMessage::ExtendedScriptInfo { info: Box::new(info) })
}

} // verus!
