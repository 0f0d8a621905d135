//! The rules that read the system messages carrying values: names, amounts,
//! keys, counts, coordinates and locations. Each rule reads a prefix of the
//! text from index `i`; `..._matches` says when it reads one and `..._is`
//! what it reads. A field that runs "up to" a marker ends at the first
//! occurrence of the marker.
use vstd::prelude::*;

use crate::chars::spec_trim;
use crate::chat_log::{distance_at, lit_at, lit_at_exec, skip_ws, spec_distance_at, spec_skip_ws, DistanceText};
use crate::scan::{
    decimal_at, decimal_is, find_lit, newline_end, signed_at, spec_find, spec_newline_end,
    spec_decimal_at, spec_number, spec_signed_at, Decimal, spec_unsigned_decimal_at, spec_unsigned_end, text_between,
    unsigned_at,
};
use crate::scan::{
    agent_uri_at, amount_at, group_uri_at, owner_is, owner_uri_at, spec_agent_uri_at,
    spec_amount_at, spec_group_uri_at, spec_owner_uri_at, AgentKey, GroupKey, LindenAmount,
    OwnerKey,
};
use crate::viewer_links::{
    location_at, location_is, objectim_at, region_name_at, spec_location_at, spec_objectim_at,
    spec_region_name_at,
};
use crate::system_messages::{
    literal_is, literal_range_at, spec_literal_first, RegionCoordinates, Rotation, SystemMessage,
    UnconstrainedLocation, Vector,
};

verus! {

/// `You have offered a calling card to <name>.`
pub open spec fn offered_calling_card_matches(s: Seq<char>, i: int) -> bool {
    lit_at(s, i, "You have offered a calling card to "@) && spec_find(s, i + 35, "."@) is Some
}

/// the message read by [`offered_calling_card_message_parser`]
pub open spec fn offered_calling_card_is(s: Seq<char>, i: int, m: SystemMessage) -> bool {
    offered_calling_card_matches(s, i) && (m matches SystemMessage::OfferedCallingCard {
        recipient_avatar_name,
    } && recipient_avatar_name@ == s.subrange(i + 35, spec_find(s, i + 35, "."@).unwrap()))
}

/// a calling card offered to an avatar: the name runs up to the first `.`
pub fn offered_calling_card_message_parser(s: &Vec<char>, i: usize) -> (r: Option<SystemMessage>)
    ensures
        r is Some <==> offered_calling_card_matches(s@, i as int),
        r matches Some(m) ==> offered_calling_card_is(s@, i as int, m),
{
    let sl = s.len();
    proof {
        reveal_strlit("You have offered a calling card to ");
    }
    if !lit_at_exec(s, i, "You have offered a calling card to ") {
        return None;
    }
    match find_lit(s, i + 35, ".") {
        Some(p) => Some(
            SystemMessage::OfferedCallingCard { recipient_avatar_name: text_between(s, i + 35, p) },
        ),
        None => None,
    }
}

/// `Unable to load gesture <name>.` where the `.` ends the text
pub open spec fn unable_to_load_gesture_matches(s: Seq<char>, i: int) -> bool {
    lit_at(s, i, "Unable to load gesture "@) && s.len() >= i + 24 && s.last() == '.'
}

/// the message read by [`unable_to_load_gesture_message_parser`]
pub open spec fn unable_to_load_gesture_is(s: Seq<char>, i: int, m: SystemMessage) -> bool {
    unable_to_load_gesture_matches(s, i) && (m matches SystemMessage::UnableToLoadGesture {
        gesture_name,
    } && gesture_name@ == s.subrange(i + 23, s.len() - 1))
}

/// a gesture that could not be loaded: the name runs up to the `.` that
/// ends the text
pub fn unable_to_load_gesture_message_parser(s: &Vec<char>, i: usize) -> (r: Option<
    SystemMessage,
>)
    ensures
        r is Some <==> unable_to_load_gesture_matches(s@, i as int),
        r matches Some(m) ==> unable_to_load_gesture_is(s@, i as int, m),
{
    let sl = s.len();
    proof {
        reveal_strlit("Unable to load gesture ");
    }
    if !lit_at_exec(s, i, "Unable to load gesture ") || sl - i < 24 || s[sl - 1] != '.' {
        return None;
    }
    Some(SystemMessage::UnableToLoadGesture { gesture_name: text_between(s, i + 23, sl - 1) })
}

/// `Now playing: <song>`
pub open spec fn now_playing_matches(s: Seq<char>, i: int) -> bool {
    lit_at(s, i, "Now playing: "@)
}

/// the message read by [`now_playing_message_parser`]
pub open spec fn now_playing_is(s: Seq<char>, i: int, m: SystemMessage) -> bool {
    now_playing_matches(s, i) && (m matches SystemMessage::NowPlaying { song_name } && song_name@
        == s.subrange(i + 13, s.len() as int))
}

/// the song now playing: the rest of the text
pub fn now_playing_message_parser(s: &Vec<char>, i: usize) -> (r: Option<SystemMessage>)
    ensures
        r is Some <==> now_playing_matches(s@, i as int),
        r matches Some(m) ==> now_playing_is(s@, i as int, m),
{
    let sl = s.len();
    proof {
        reveal_strlit("Now playing: ");
    }
    if !lit_at_exec(s, i, "Now playing: ") {
        return None;
    }
    Some(SystemMessage::NowPlaying { song_name: text_between(s, i + 13, sl) })
}

/// where the query starts in a modified search query message at `i`
pub open spec fn spec_search_query_start(s: Seq<char>, i: int) -> Option<int> {
    let a = spec_skip_ws(s, i + 78);
    if lit_at(
        s,
        i,
        "Your search query was modified and the words that were too short were removed."@,
    ) && lit_at(s, a, "Searched for:"@) {
        Some(spec_skip_ws(s, a + 13))
    } else {
        None
    }
}

/// the notice that a search query was shortened, `Searched for:` and the
/// query
pub open spec fn modified_search_query_matches(s: Seq<char>, i: int) -> bool {
    spec_search_query_start(s, i) is Some
}

/// the message read by [`modified_search_query_message_parser`]
pub open spec fn modified_search_query_is(s: Seq<char>, i: int, m: SystemMessage) -> bool {
    modified_search_query_matches(s, i) && (m matches SystemMessage::ModifiedSearchQuery { query }
        && query@ == s.subrange(spec_search_query_start(s, i).unwrap(), s.len() as int))
}

/// a shortened search query: the query is the rest of the text after
/// `Searched for:` and whitespace
pub fn modified_search_query_message_parser(s: &Vec<char>, i: usize) -> (r: Option<
    SystemMessage,
>)
    ensures
        r is Some <==> modified_search_query_matches(s@, i as int),
        r matches Some(m) ==> modified_search_query_is(s@, i as int, m),
{
    let sl = s.len();
    proof {
        reveal_strlit(
            "Your search query was modified and the words that were too short were removed.",
        );
        reveal_strlit("Searched for:");
    }
    if !lit_at_exec(
        s,
        i,
        "Your search query was modified and the words that were too short were removed.",
    ) {
        return None;
    }
    let a = skip_ws(s, i + 78);
    if !lit_at_exec(s, a, "Searched for:") {
        return None;
    }
    let q = skip_ws(s, a + 13);
    Some(SystemMessage::ModifiedSearchQuery { query: text_between(s, q, sl) })
}

/// the pieces of a simulator version message at `i`: where the current
/// version starts, where it ends (the first line feed after it) and where
/// the previous version starts
pub open spec fn spec_simulator_versions(s: Seq<char>, i: int) -> Option<(int, int, int)> {
    let a = spec_skip_ws(s, i + 69);
    let b = spec_skip_ws(s, a + 18);
    if lit_at(s, i, "The region you have entered is running a different simulator version."@)
        && lit_at(s, a, "Current simulator:"@) {
        match spec_find(s, b, "\n"@) {
            Some(p) => {
                let c = spec_skip_ws(s, p + 1);
                if lit_at(s, c, "Previous simulator:"@) {
                    Some((b, p, spec_skip_ws(s, c + 19)))
                } else {
                    None
                }
            },
            None => None,
        }
    } else {
        None
    }
}

/// the notice that the region runs another simulator version, with the
/// current and the previous version
pub open spec fn simulator_version_matches(s: Seq<char>, i: int) -> bool {
    spec_simulator_versions(s, i) is Some
}

/// the message read by [`simulator_version_message_parser`]
pub open spec fn simulator_version_is(s: Seq<char>, i: int, m: SystemMessage) -> bool {
    match spec_simulator_versions(s, i) {
        Some((b, p, c)) => m matches SystemMessage::SimulatorVersion {
            previous_region_simulator_version,
            current_region_simulator_version,
        } && current_region_simulator_version@ == s.subrange(b, p)
            && previous_region_simulator_version@ == s.subrange(c, s.len() as int),
        None => false,
    }
}

/// the simulator versions of this region (up to the first line feed) and
/// of the previous one (the rest of the text)
pub fn simulator_version_message_parser(s: &Vec<char>, i: usize) -> (r: Option<SystemMessage>)
    ensures
        r is Some <==> simulator_version_matches(s@, i as int),
        r matches Some(m) ==> simulator_version_is(s@, i as int, m),
{
    let sl = s.len();
    proof {
        reveal_strlit("The region you have entered is running a different simulator version.");
        reveal_strlit("Current simulator:");
        reveal_strlit("Previous simulator:");
        reveal_strlit("\n");
    }
    if !lit_at_exec(
        s,
        i,
        "The region you have entered is running a different simulator version.",
    ) {
        return None;
    }
    let a = skip_ws(s, i + 69);
    if !lit_at_exec(s, a, "Current simulator:") {
        return None;
    }
    let b = skip_ws(s, a + 18);
    let p = match find_lit(s, b, "\n") {
        Some(p) => p,
        None => {
            return None;
        },
    };
    let c = skip_ws(s, p + 1);
    if !lit_at_exec(s, c, "Previous simulator:") {
        return None;
    }
    let d = skip_ws(s, c + 19);
    Some(
        SystemMessage::SimulatorVersion {
            previous_region_simulator_version: text_between(s, d, sl),
            current_region_simulator_version: text_between(s, b, p),
        },
    )
}

/// the pieces of a renaming message at `i`: the end of the old name and the
/// start and end of the new name
pub open spec fn spec_renamed(s: Seq<char>, i: int) -> Option<(int, int, int)> {
    match spec_find(s, i, " is now known as"@) {
        Some(p) => {
            let b = spec_skip_ws(s, p + 16);
            match spec_find(s, b, "."@) {
                Some(q) => Some((p, b, q)),
                None => None,
            }
        },
        None => None,
    }
}

/// `<old name> is now known as <new name>.`
pub open spec fn renamed_avatar_matches(s: Seq<char>, i: int) -> bool {
    0 <= i <= s.len() && spec_renamed(s, i) is Some
}

/// the message read by [`renamed_avatar_message_parser`]
pub open spec fn renamed_avatar_is(s: Seq<char>, i: int, m: SystemMessage) -> bool {
    renamed_avatar_matches(s, i) && match spec_renamed(s, i) {
        Some((p, b, q)) => m matches SystemMessage::RenamedAvatar { old_name, new_name }
            && old_name@ == s.subrange(i, p) && new_name@ == s.subrange(b, q),
        None => false,
    }
}

/// a renamed avatar: the old name runs up to ` is now known as`, the new
/// one up to the next `.`
pub fn renamed_avatar_message_parser(s: &Vec<char>, i: usize) -> (r: Option<SystemMessage>)
    ensures
        r is Some <==> renamed_avatar_matches(s@, i as int),
        r matches Some(m) ==> renamed_avatar_is(s@, i as int, m),
{
    let sl = s.len();
    proof {
        reveal_strlit(" is now known as");
        reveal_strlit(".");
    }
    if i > sl {
        return None;
    }
    let p = match find_lit(s, i, " is now known as") {
        Some(p) => p,
        None => {
            return None;
        },
    };
    let b = skip_ws(s, p + 16);
    match find_lit(s, b, ".") {
        Some(q) => Some(
            SystemMessage::RenamedAvatar {
                old_name: text_between(s, i, p),
                new_name: text_between(s, b, q),
            },
        ),
        None => None,
    }
}

/// `<name>has declined your call.  You will now be reconnected to Nearby
/// Voice Chat.`
pub open spec fn avatar_declined_voice_call_matches(s: Seq<char>, i: int) -> bool {
    0 <= i <= s.len() && spec_find(
        s,
        i,
        "has declined your call.  You will now be reconnected to Nearby Voice Chat."@,
    ) is Some
}

/// the message read by [`avatar_declined_voice_call_message_parser`]
pub open spec fn avatar_declined_voice_call_is(s: Seq<char>, i: int, m: SystemMessage) -> bool {
    avatar_declined_voice_call_matches(s, i) && (m matches SystemMessage::AvatarDeclinedVoice {
        avatar_name,
    } && avatar_name@ == s.subrange(
        i,
        spec_find(
            s,
            i,
            "has declined your call.  You will now be reconnected to Nearby Voice Chat."@,
        ).unwrap(),
    ))
}

/// an avatar declined a voice call: the name is what comes before the
/// notice
pub fn avatar_declined_voice_call_message_parser(s: &Vec<char>, i: usize) -> (r: Option<
    SystemMessage,
>)
    ensures
        r is Some <==> avatar_declined_voice_call_matches(s@, i as int),
        r matches Some(m) ==> avatar_declined_voice_call_is(s@, i as int, m),
{
    if i > s.len() {
        return None;
    }
    match find_lit(
        s,
        i,
        "has declined your call.  You will now be reconnected to Nearby Voice Chat.",
    ) {
        Some(p) => Some(SystemMessage::AvatarDeclinedVoice { avatar_name: text_between(s, i, p) }),
        None => None,
    }
}

/// `<name>is not available to take your call.  You will now be reconnected
/// to Nearby Voice Chat.`
pub open spec fn avatar_unavailable_for_voice_call_matches(s: Seq<char>, i: int) -> bool {
    0 <= i <= s.len() && spec_find(
        s,
        i,
        "is not available to take your call.  You will now be reconnected to Nearby Voice Chat."@,
    ) is Some
}

/// the message read by [`avatar_unavailable_for_voice_call_message_parser`]
pub open spec fn avatar_unavailable_for_voice_call_is(
    s: Seq<char>,
    i: int,
    m: SystemMessage,
) -> bool {
    avatar_unavailable_for_voice_call_matches(s, i)
        && (m matches SystemMessage::AvatarUnavailableForVoice { avatar_name } && avatar_name@
        == s.subrange(
        i,
        spec_find(
            s,
            i,
            "is not available to take your call.  You will now be reconnected to Nearby Voice Chat."@,
        ).unwrap(),
    ))
}

/// an avatar could not take a voice call: the name is what comes before
/// the notice
pub fn avatar_unavailable_for_voice_call_message_parser(s: &Vec<char>, i: usize) -> (r: Option<
    SystemMessage,
>)
    ensures
        r is Some <==> avatar_unavailable_for_voice_call_matches(s@, i as int),
        r matches Some(m) ==> avatar_unavailable_for_voice_call_is(s@, i as int, m),
{
    if i > s.len() {
        return None;
    }
    match find_lit(
        s,
        i,
        "is not available to take your call.  You will now be reconnected to Nearby Voice Chat.",
    ) {
        Some(p) => Some(
            SystemMessage::AvatarUnavailableForVoice { avatar_name: text_between(s, i, p) },
        ),
        None => None,
    }
}

/// `Audio from the domain <domain> will always be played.`
pub open spec fn audio_from_domain_matches(s: Seq<char>, i: int) -> bool {
    lit_at(s, i, "Audio from the domain "@) && spec_find(s, i + 22, " will always be played."@) is Some
}

/// the message read by
/// [`audio_from_domain_will_always_be_played_message_parser`]
pub open spec fn audio_from_domain_is(s: Seq<char>, i: int, m: SystemMessage) -> bool {
    audio_from_domain_matches(s, i) && (m matches SystemMessage::AudioFromDomainWillAlwaysBePlayed {
        domain,
    } && domain@ == s.subrange(i + 22, spec_find(s, i + 22, " will always be played."@).unwrap()))
}

/// a domain whose audio will always be played
pub fn audio_from_domain_will_always_be_played_message_parser(s: &Vec<char>, i: usize) -> (r:
    Option<SystemMessage>)
    ensures
        r is Some <==> audio_from_domain_matches(s@, i as int),
        r matches Some(m) ==> audio_from_domain_is(s@, i as int, m),
{
    let sl = s.len();
    proof {
        reveal_strlit("Audio from the domain ");
    }
    if !lit_at_exec(s, i, "Audio from the domain ") {
        return None;
    }
    match find_lit(s, i + 22, " will always be played.") {
        Some(p) => Some(
            SystemMessage::AudioFromDomainWillAlwaysBePlayed { domain: text_between(s, i + 22, p) },
        ),
        None => None,
    }
}

/// `You have been added to the group.` (entry 3 of the fixed texts) or
/// `You have left the group '<name>'.`
pub open spec fn group_membership_matches(s: Seq<char>, i: int) -> bool {
    spec_literal_first(s, i, 3, 4) is Some || (lit_at(s, i, "You have left the group '"@)
        && spec_find(s, i + 25, "'."@) is Some)
}

/// the message read by [`group_membership_message_parser`]
pub open spec fn group_membership_is(s: Seq<char>, i: int, m: SystemMessage) -> bool {
    if spec_literal_first(s, i, 3, 4) is Some {
        literal_is(s, i, 3, 4, m)
    } else {
        group_membership_matches(s, i) && (m matches SystemMessage::LeftGroup { group_name }
            && group_name@ == s.subrange(i + 25, spec_find(s, i + 25, "'."@).unwrap()))
    }
}

/// being added to a group, or leaving one (the name runs up to `'.`)
pub fn group_membership_message_parser(s: &Vec<char>, i: usize) -> (r: Option<SystemMessage>)
    ensures
        r is Some <==> group_membership_matches(s@, i as int),
        r matches Some(m) ==> group_membership_is(s@, i as int, m),
{
    if let Some(m) = literal_range_at(s, i, 3, 4) {
        return Some(m);
    }
    let sl = s.len();
    proof {
        reveal_strlit("You have left the group '");
    }
    if !lit_at_exec(s, i, "You have left the group '") {
        return None;
    }
    match find_lit(s, i + 25, "'.") {
        Some(p) => Some(SystemMessage::LeftGroup { group_name: text_between(s, i + 25, p) }),
        None => None,
    }
}

/// `Firestorm <type>!<message>`
pub open spec fn firestorm_matches(s: Seq<char>, i: int) -> bool {
    lit_at(s, i, "Firestorm "@) && spec_find(s, i + 10, "!"@) is Some
}

/// the message read by [`firestorm_message_parser`]
pub open spec fn firestorm_is(s: Seq<char>, i: int, m: SystemMessage) -> bool {
    firestorm_matches(s, i) && {
        let p = spec_find(s, i + 10, "!"@).unwrap();
        m matches SystemMessage::FirestormMessage { message_type, message } && message_type@
            == s.subrange(i + 10, p) && message@ == s.subrange(p + 1, s.len() as int)
    }
}

/// a message of the Firestorm team: its kind runs up to the first `!`, the
/// message is the rest
pub fn firestorm_message_parser(s: &Vec<char>, i: usize) -> (r: Option<SystemMessage>)
    ensures
        r is Some <==> firestorm_matches(s@, i as int),
        r matches Some(m) ==> firestorm_is(s@, i as int, m),
{
    let sl = s.len();
    proof {
        reveal_strlit("Firestorm ");
        reveal_strlit("!");
    }
    if !lit_at_exec(s, i, "Firestorm ") {
        return None;
    }
    match find_lit(s, i + 10, "!") {
        Some(p) => Some(
            SystemMessage::FirestormMessage {
                message_type: text_between(s, i + 10, p),
                message: text_between(s, p + 1, sl),
            },
        ),
        None => None,
    }
}

/// the pieces of a given object message at `i`: where the avatar name
/// starts, where it ends and where the object name ends
pub open spec fn spec_avatar_gave(s: Seq<char>, i: int) -> Option<(int, int, int)> {
    let a = if lit_at(s, i, "A group member named "@) {
        i + 21
    } else {
        i
    };
    match spec_find(s, a, " gave you "@) {
        Some(p) => match spec_find(s, p + 10, "."@) {
            Some(q) => Some((a, p, q)),
            None => None,
        },
        None => None,
    }
}

/// `[A group member named ]<name> gave you <object>.`
pub open spec fn avatar_gave_object_matches(s: Seq<char>, i: int) -> bool {
    0 <= i <= s.len() && spec_avatar_gave(s, i) is Some
}

/// the message read by [`avatar_gave_object_message_parser`]
pub open spec fn avatar_gave_object_is(s: Seq<char>, i: int, m: SystemMessage) -> bool {
    avatar_gave_object_matches(s, i) && match spec_avatar_gave(s, i) {
        Some((a, p, q)) => m matches SystemMessage::AvatarGaveObject {
            is_group_member,
            giving_avatar_name,
            given_object_name,
        } && is_group_member == lit_at(s, i, "A group member named "@) && giving_avatar_name@
            == s.subrange(a, p) && given_object_name@ == s.subrange(p + 10, q),
        None => false,
    }
}

/// an avatar (perhaps named as a group member) gave you an object: the
/// name runs up to ` gave you `, the object up to the next `.`
pub fn avatar_gave_object_message_parser(s: &Vec<char>, i: usize) -> (r: Option<SystemMessage>)
    ensures
        r is Some <==> avatar_gave_object_matches(s@, i as int),
        r matches Some(m) ==> avatar_gave_object_is(s@, i as int, m),
{
    let sl = s.len();
    proof {
        reveal_strlit("A group member named ");
        reveal_strlit(" gave you ");
    }
    if i > sl {
        return None;
    }
    let member = lit_at_exec(s, i, "A group member named ");
    let a = if member {
        i + 21
    } else {
        i
    };
    let p = match find_lit(s, a, " gave you ") {
        Some(p) => p,
        None => {
            return None;
        },
    };
    match find_lit(s, p + 10, ".") {
        Some(q) => Some(
            SystemMessage::AvatarGaveObject {
                is_group_member: member,
                giving_avatar_name: text_between(s, a, p),
                given_object_name: text_between(s, p + 10, q),
            },
        ),
        None => None,
    }
}

/// `Selected land is not all in the same region.`, a line break and ` Try
/// selecting a smaller piece of land.`
pub open spec fn failed_to_join_land_matches(s: Seq<char>, i: int) -> bool {
    lit_at(s, i, "Selected land is not all in the same region."@) && match spec_newline_end(
        s,
        i + 44,
    ) {
        Some(e) => lit_at(s, e, " Try selecting a smaller piece of land."@),
        None => false,
    }
}

/// land that spans regions could not be joined
pub fn failed_to_join_land_due_to_region_boundary_message_parser(s: &Vec<char>, i: usize) -> (r:
    Option<SystemMessage>)
    ensures
        r is Some <==> failed_to_join_land_matches(s@, i as int),
        r matches Some(m) ==> m is FailedToJoinLandDueToRegionBoundary,
{
    let sl = s.len();
    proof {
        reveal_strlit("Selected land is not all in the same region.");
    }
    if !lit_at_exec(s, i, "Selected land is not all in the same region.") {
        return None;
    }
    match newline_end(s, i + 44) {
        Some(e) => if lit_at_exec(s, e, " Try selecting a smaller piece of land.") {
            Some(SystemMessage::FailedToJoinLandDueToRegionBoundary)
        } else {
            None
        },
        None => None,
    }
}

/// `Unable to invite users because at least one user is in a different`, a
/// line break and ` limited estate than the group.`
pub open spec fn differing_limited_estate_matches(s: Seq<char>, i: int) -> bool {
    lit_at(s, i, "Unable to invite users because at least one user is in a different"@)
        && match spec_newline_end(s, i + 66) {
        Some(e) => lit_at(s, e, " limited estate than the group."@),
        None => false,
    }
}

/// users of another limited estate than the group's cannot be invited
pub fn unable_to_invite_user_due_to_differing_limited_estate_message_parser(
    s: &Vec<char>,
    i: usize,
) -> (r: Option<SystemMessage>)
    ensures
        r is Some <==> differing_limited_estate_matches(s@, i as int),
        r matches Some(m) ==> m is UnableToInviteUserToGroupDueToDifferingLimitedEstate,
{
    let sl = s.len();
    proof {
        reveal_strlit("Unable to invite users because at least one user is in a different");
    }
    if !lit_at_exec(s, i, "Unable to invite users because at least one user is in a different") {
        return None;
    }
    match newline_end(s, i + 66) {
        Some(e) => if lit_at_exec(s, e, " limited estate than the group.") {
            Some(SystemMessage::UnableToInviteUserToGroupDueToDifferingLimitedEstate)
        } else {
            None
        },
        None => None,
    }
}

/// `Unable to load the notecard.`, a line break, whitespace and `Please try
/// again.`
pub open spec fn unable_to_load_notecard_matches(s: Seq<char>, i: int) -> bool {
    lit_at(s, i, "Unable to load the notecard."@) && match spec_newline_end(s, i + 28) {
        Some(e) => lit_at(s, spec_skip_ws(s, e), "Please try again."@),
        None => false,
    }
}

/// a notecard could not be loaded
pub fn unable_to_load_notecard_message_parser(s: &Vec<char>, i: usize) -> (r: Option<
    SystemMessage,
>)
    ensures
        r is Some <==> unable_to_load_notecard_matches(s@, i as int),
        r matches Some(m) ==> m is UnableToLoadNotecard,
{
    let sl = s.len();
    proof {
        reveal_strlit("Unable to load the notecard.");
    }
    if !lit_at_exec(s, i, "Unable to load the notecard.") {
        return None;
    }
    match newline_end(s, i + 28) {
        Some(e) => if lit_at_exec(s, skip_ws(s, e), "Please try again.") {
            Some(SystemMessage::UnableToLoadNotecard)
        } else {
            None
        },
        None => None,
    }
}

/// which kind of chat a message still being processed went to, read at
/// `j` (just after `The message sent to `): `(kind, start of the name, end
/// of the name, index after the notice)`, the kinds being 0 for a
/// multi-person chat, 1 for an ended IM session, 2 for a conference and 3
/// for a group chat
pub open spec fn spec_still_processed(s: Seq<char>, j: int) -> Option<(int, int, int, int)> {
    if lit_at(s, j, "Multi-person chat is still being processed."@) {
        Some((0, j, j, j + 43))
    } else if lit_at(s, j, "(IM Session Doesn't Exist) is still being processed."@) {
        Some((1, j, j, j + 52))
    } else if lit_at(s, j, "Conference with "@) && spec_find(
        s,
        j + 16,
        " is still being processed."@,
    ) is Some {
        let p = spec_find(s, j + 16, " is still being processed."@).unwrap();
        Some((2, j + 16, p, p + 26))
    } else {
        match spec_find(s, j, " is still being processed."@) {
            Some(p) => Some((3, j, p, p + 26)),
            None => None,
        }
    }
}

/// `The message sent to <chat> is still being processed.`, a line break,
/// whitespace and the notice that the message may have been dropped
pub open spec fn chat_message_still_being_processed_matches(s: Seq<char>, i: int) -> bool {
    lit_at(s, i, "The message sent to "@) && match spec_still_processed(s, i + 20) {
        Some((_, _, _, e)) => match spec_newline_end(s, e) {
            Some(n) => lit_at(
                s,
                spec_skip_ws(s, n),
                "If the message does not appear in the next few minutes, it may have been dropped by the server."@,
            ),
            None => false,
        },
        None => false,
    }
}

/// the message read by [`chat_message_still_being_processed_message_parser`]
pub open spec fn chat_message_still_being_processed_is(
    s: Seq<char>,
    i: int,
    m: SystemMessage,
) -> bool {
    chat_message_still_being_processed_matches(s, i) && {
        let (k, a, b, e) = spec_still_processed(s, i + 20).unwrap();
        if k == 0 {
            m is MultiPersonChatMessageStillBeingProcessed
        } else if k == 1 {
            m is ChatMessageToNoLongerExistingImSessionStillBeingProcessed
        } else if k == 2 {
            (m matches SystemMessage::ConferenceChatMessageStillBeingProcessed { avatar_name }
                && avatar_name@ == s.subrange(a, b))
        } else {
            (m matches SystemMessage::GroupChatMessageStillBeingProcessed { group_name }
                && group_name@ == s.subrange(a, b))
        }
    }
}

/// which kind of chat a message still being processed went to
fn still_processed(s: &Vec<char>, j: usize) -> (r: Option<(u8, usize, usize, usize)>)
    requires
        j <= s@.len(),
    ensures
        match spec_still_processed(s@, j as int) {
            None => r is None,
            Some((k, a, b, e)) => r matches Some((k2, a2, b2, e2)) && k2 == k && a2 == a && b2 == b
                && e2 == e && j <= a <= b <= s@.len(),
        },
{
    let sl = s.len();
    proof {
        reveal_strlit("Multi-person chat is still being processed.");
        reveal_strlit("(IM Session Doesn't Exist) is still being processed.");
        reveal_strlit("Conference with ");
        reveal_strlit(" is still being processed.");
    }
    if lit_at_exec(s, j, "Multi-person chat is still being processed.") {
        return Some((0, j, j, j + 43));
    }
    if lit_at_exec(s, j, "(IM Session Doesn't Exist) is still being processed.") {
        return Some((1, j, j, j + 52));
    }
    if lit_at_exec(s, j, "Conference with ") {
        if let Some(p) = find_lit(s, j + 16, " is still being processed.") {
            return Some((2, j + 16, p, p + 26));
        }
    }
    match find_lit(s, j, " is still being processed.") {
        Some(p) => Some((3, j, p, p + 26)),
        None => None,
    }
}

/// a chat message that is still being processed, by the kind of chat it
/// went to
pub fn chat_message_still_being_processed_message_parser(s: &Vec<char>, i: usize) -> (r: Option<
    SystemMessage,
>)
    ensures
        r is Some <==> chat_message_still_being_processed_matches(s@, i as int),
        r matches Some(m) ==> chat_message_still_being_processed_is(s@, i as int, m),
{
    let sl = s.len();
    proof {
        reveal_strlit("The message sent to ");
    }
    if !lit_at_exec(s, i, "The message sent to ") {
        return None;
    }
    let (k, a, b, e) = match still_processed(s, i + 20) {
        Some(x) => x,
        None => {
            return None;
        },
    };
    let n = match newline_end(s, e) {
        Some(n) => n,
        None => {
            return None;
        },
    };
    if !lit_at_exec(
        s,
        skip_ws(s, n),
        "If the message does not appear in the next few minutes, it may have been dropped by the server.",
    ) {
        return None;
    }
    if k == 0 {
        Some(SystemMessage::MultiPersonChatMessageStillBeingProcessed)
    } else if k == 1 {
        Some(SystemMessage::ChatMessageToNoLongerExistingImSessionStillBeingProcessed)
    } else if k == 2 {
        Some(
            SystemMessage::ConferenceChatMessageStillBeingProcessed {
                avatar_name: text_between(s, a, b),
            },
        )
    } else {
        Some(SystemMessage::GroupChatMessageStillBeingProcessed { group_name: text_between(s, a, b) })
    }
}

/// the pieces of a grid status event at `i`: the end of the title, whether
/// it is scheduled, where the body starts and ends, and where the incident
/// number starts and ends
pub open spec fn spec_grid_status(s: Seq<char>, i: int) -> Option<(int, bool, int, int, int, int)> {
    if lit_at(s, i, "[ "@) {
        match spec_find(s, i + 2, " ] "@) {
            Some(p) => {
                let scheduled = lit_at(s, p + 3, "THIS IS A SCHEDULED EVENT "@);
                let b = if scheduled {
                    p + 29
                } else {
                    p + 3
                };
                match spec_find(s, b, " [ https://status.secondlifegrid.net/incidents/"@) {
                    Some(q) => match spec_find(s, q + 47, " "@) {
                        Some(v) => if lit_at(s, v + 1, "]"@) {
                            Some((p, scheduled, b, q, q + 47, v))
                        } else {
                            None
                        },
                        None => None,
                    },
                    None => None,
                }
            },
            None => None,
        }
    } else {
        None
    }
}

/// `[ <title> ] [THIS IS A SCHEDULED EVENT ]<body> [
/// https://status.secondlifegrid.net/incidents/<incident> ]`
pub open spec fn grid_status_event_matches(s: Seq<char>, i: int) -> bool {
    spec_grid_status(s, i) is Some
}

/// the message read by [`grid_status_event_message_parser`]; the link to
/// the incident is written with the host `status.secondlifegird.net`
pub open spec fn grid_status_event_is(s: Seq<char>, i: int, m: SystemMessage) -> bool {
    match spec_grid_status(s, i) {
        Some((p, scheduled, b, q, u, v)) => (m matches SystemMessage::GridStatusEvent {
            title,
            scheduled: sch,
            body,
            incident_url,
        } && title@ == s.subrange(i + 2, p) && sch == scheduled && body@ == s.subrange(b, q)
            && incident_url@ == "https://status.secondlifegird.net/incidents/"@ + s.subrange(
            u,
            v,
        )),
        None => false,
    }
}

/// an event reported by the grid status page: its title, whether it is
/// scheduled, its body and the link to the incident
pub fn grid_status_event_message_parser(s: &Vec<char>, i: usize) -> (r: Option<SystemMessage>)
    ensures
        r is Some <==> grid_status_event_matches(s@, i as int),
        r matches Some(m) ==> grid_status_event_is(s@, i as int, m),
{
    let sl = s.len();
    proof {
        reveal_strlit("[ ");
        reveal_strlit(" ] ");
        reveal_strlit("THIS IS A SCHEDULED EVENT ");
        reveal_strlit(" [ https://status.secondlifegrid.net/incidents/");
        reveal_strlit(" ");
        reveal_strlit("]");
    }
    if !lit_at_exec(s, i, "[ ") {
        return None;
    }
    let p = match find_lit(s, i + 2, " ] ") {
        Some(p) => p,
        None => {
            return None;
        },
    };
    let scheduled = lit_at_exec(s, p + 3, "THIS IS A SCHEDULED EVENT ");
    let b = if scheduled {
        p + 29
    } else {
        p + 3
    };
    let q = match find_lit(s, b, " [ https://status.secondlifegrid.net/incidents/") {
        Some(q) => q,
        None => {
            return None;
        },
    };
    let v = match find_lit(s, q + 47, " ") {
        Some(v) => v,
        None => {
            return None;
        },
    };
    if !lit_at_exec(s, v + 1, "]") {
        return None;
    }
    let mut url: Vec<char> = Vec::new();
    crate::chars::push_str_chars(&mut url, "https://status.secondlifegird.net/incidents/");
    let fragment = crate::chars::slice_chars(s, q + 47, v);
    let mut k: usize = 0;
    let ghost base = url@;
    while k < fragment.len()
        invariant
            k <= fragment@.len(),
            url@ == base + fragment@.take(k as int),
        decreases fragment@.len() - k,
    {
        url.push(fragment[k]);
        proof {
            assert(fragment@.take(k as int + 1) =~= fragment@.take(k as int).push(
                fragment@[k as int],
            ));
        }
        k = k + 1;
    }
    proof {
        assert(fragment@.take(fragment@.len() as int) =~= fragment@);
    }
    Some(
        SystemMessage::GridStatusEvent {
            title: text_between(s, i + 2, p),
            scheduled,
            body: text_between(s, b, q),
            incident_url: crate::chars::string_from_chars(&url),
        },
    )
}

/// the pieces of a snapshot failure for lack of disk space, read from the
/// start `j` of the folder: `(end of the folder, end of the space required,
/// end of the free space)`
pub open spec fn spec_disk_full(s: Seq<char>, j: int) -> Option<(int, int, int)> {
    match spec_find(s, j, ": Disk is full. "@) {
        Some(p) => match spec_unsigned_end(s, p + 16, u64::MAX as int) {
            Some(e1) => if lit_at(s, e1, "KB is required but only "@) {
                match spec_unsigned_end(s, e1 + 24, u64::MAX as int) {
                    Some(e2) => if lit_at(s, e2, "KB is free."@) {
                        Some((p, e1, e2))
                    } else {
                        None
                    },
                    None => None,
                }
            } else {
                None
            },
            None => None,
        },
        None => None,
    }
}

/// `Snapshot saved: <file>`, or `Failed to save snapshot to <folder>`
/// followed by `: Directory does not exist.` or by `: Disk is full. <n>KB
/// is required but only <n>KB is free.`
pub open spec fn snapshot_saved_matches(s: Seq<char>, i: int) -> bool {
    lit_at(s, i, "Snapshot saved: "@) || (lit_at(s, i, "Failed to save snapshot to "@) && (
    spec_find(s, i + 27, ": Directory does not exist."@) is Some || spec_disk_full(s, i + 27) is Some))
}

/// the message read by [`snapshot_saved_message_parser`]
pub open spec fn snapshot_saved_is(s: Seq<char>, i: int, m: SystemMessage) -> bool {
    if lit_at(s, i, "Snapshot saved: "@) {
        (m matches SystemMessage::SavedSnapshot { filename } && filename@ == s.subrange(
            i + 16,
            s.len() as int,
        ))
    } else if snapshot_saved_matches(s, i) {
        match spec_find(s, i + 27, ": Directory does not exist."@) {
            Some(p) => (m matches SystemMessage::FailedToSaveSnapshotDueToMissingDestinationFolder {
                folder,
            } && folder@ == s.subrange(i + 27, p)),
            None => match spec_disk_full(s, i + 27) {
                Some((p, e1, e2)) => (m matches SystemMessage::FailedToSaveSnapshotDueToDiskSpace {
                    folder,
                    required_disk_space_kib,
                    free_disk_space_kib,
                } && folder@ == s.subrange(i + 27, p) && required_disk_space_kib == spec_number(
                    s,
                    p + 16,
                    e1,
                ) && free_disk_space_kib == spec_number(s, e1 + 24, e2)),
                None => false,
            },
        }
    } else {
        false
    }
}

/// a saved snapshot (the file is the rest of the text), or a snapshot that
/// could not be saved because its folder is missing or the disk is full
pub fn snapshot_saved_message_parser(s: &Vec<char>, i: usize) -> (r: Option<SystemMessage>)
    ensures
        r is Some <==> snapshot_saved_matches(s@, i as int),
        r matches Some(m) ==> snapshot_saved_is(s@, i as int, m),
{
    let sl = s.len();
    proof {
        reveal_strlit("Snapshot saved: ");
        reveal_strlit("Failed to save snapshot to ");
        reveal_strlit(": Disk is full. ");
        reveal_strlit("KB is required but only ");
    }
    if lit_at_exec(s, i, "Snapshot saved: ") {
        return Some(SystemMessage::SavedSnapshot { filename: text_between(s, i + 16, sl) });
    }
    if !lit_at_exec(s, i, "Failed to save snapshot to ") {
        return None;
    }
    if let Some(p) = find_lit(s, i + 27, ": Directory does not exist.") {
        return Some(
            SystemMessage::FailedToSaveSnapshotDueToMissingDestinationFolder {
                folder: text_between(s, i + 27, p),
            },
        );
    }
    let p = match find_lit(s, i + 27, ": Disk is full. ") {
        Some(p) => p,
        None => {
            return None;
        },
    };
    let (required, e1) = match unsigned_at(s, p + 16, u64::MAX) {
        Some(x) => x,
        None => {
            return None;
        },
    };
    if !lit_at_exec(s, e1, "KB is required but only ") {
        return None;
    }
    let (free, e2) = match unsigned_at(s, e1 + 24, u64::MAX) {
        Some(x) => x,
        None => {
            return None;
        },
    };
    if !lit_at_exec(s, e2, "KB is free.") {
        return None;
    }
    Some(
        SystemMessage::FailedToSaveSnapshotDueToDiskSpace {
            folder: text_between(s, i + 27, p),
            required_disk_space_kib: required,
            free_disk_space_kib: free,
        },
    )
}

/// the pieces of a script count change at `i`: `(start and end of the
/// previous count, end of the current count, whether it dropped, end of the
/// change)`; each count must fit in a `u32` and the change in an `i32`
pub open spec fn spec_script_count(s: Seq<char>, i: int) -> Option<(int, int, int, bool, int)> {
    let j = if lit_at(s, i + 24, "jumped from "@) {
        i + 36
    } else {
        i + 37
    };
    if lit_at(s, i, "Total scripts in region "@) && (lit_at(s, i + 24, "jumped from "@) || lit_at(
        s,
        i + 24,
        "dropped from "@,
    )) {
        match spec_unsigned_end(s, j, u32::MAX as int) {
            Some(a) => if lit_at(s, a, " to "@) {
                match spec_unsigned_end(s, a + 4, u32::MAX as int) {
                    Some(b) => if lit_at(s, b, " ("@) && b + 2 < s.len() && (s[b + 2] == '+' || s[b
                        + 2] == '-') {
                        match spec_unsigned_end(s, b + 3, i32::MAX as int) {
                            Some(c) => if lit_at(s, c, ")."@) {
                                Some((j, a, b, s[b + 2] == '-', c))
                            } else {
                                None
                            },
                            None => None,
                        }
                    } else {
                        None
                    },
                    None => None,
                }
            } else {
                None
            },
            None => None,
        }
    } else {
        None
    }
}

/// `Total scripts in region jumped from <n> to <n> (+<n>).` (or `dropped
/// from` and `-`)
pub open spec fn region_script_count_change_matches(s: Seq<char>, i: int) -> bool {
    spec_script_count(s, i) is Some
}

/// the message read by [`region_script_count_change_message_parser`]: the
/// change carries the sign written before it
pub open spec fn region_script_count_change_is(s: Seq<char>, i: int, m: SystemMessage) -> bool {
    match spec_script_count(s, i) {
        Some((j, a, b, dropped, c)) => (m matches SystemMessage::ScriptCountChanged {
            previous_script_count,
            current_script_count,
            change,
        } && previous_script_count == spec_number(s, j, a) && current_script_count == spec_number(
            s,
            a + 4,
            b,
        ) && change == (if dropped {
            -spec_number(s, b + 3, c)
        } else {
            spec_number(s, b + 3, c)
        })),
        None => false,
    }
}

/// a change of the number of scripts in the region
pub fn region_script_count_change_message_parser(s: &Vec<char>, i: usize) -> (r: Option<
    SystemMessage,
>)
    ensures
        r is Some <==> region_script_count_change_matches(s@, i as int),
        r matches Some(m) ==> region_script_count_change_is(s@, i as int, m),
{
    let sl = s.len();
    proof {
        reveal_strlit("Total scripts in region ");
        reveal_strlit("jumped from ");
        reveal_strlit("dropped from ");
        reveal_strlit(" to ");
        reveal_strlit(" (");
    }
    if !lit_at_exec(s, i, "Total scripts in region ") {
        return None;
    }
    let j = if lit_at_exec(s, i + 24, "jumped from ") {
        i + 36
    } else if lit_at_exec(s, i + 24, "dropped from ") {
        i + 37
    } else {
        return None;
    };
    let (previous, a) = match unsigned_at(s, j, u32::MAX as u64) {
        Some(x) => x,
        None => {
            return None;
        },
    };
    if !lit_at_exec(s, a, " to ") {
        return None;
    }
    let (current, b) = match unsigned_at(s, a + 4, u32::MAX as u64) {
        Some(x) => x,
        None => {
            return None;
        },
    };
    if !lit_at_exec(s, b, " (") || b + 2 >= sl || !(s[b + 2] == '+' || s[b + 2] == '-') {
        return None;
    }
    let dropped = s[b + 2] == '-';
    let (d, c) = match unsigned_at(s, b + 3, i32::MAX as u64) {
        Some(x) => x,
        None => {
            return None;
        },
    };
    if !lit_at_exec(s, c, ").") {
        return None;
    }
    let change: i32 = if dropped {
        0 - (d as i32)
    } else {
        d as i32
    };
    Some(
        SystemMessage::ScriptCountChanged {
            previous_script_count: previous as u32,
            current_script_count: current as u32,
            change,
        },
    )
}

/// the pieces of a failed link of some pieces at `i`: `(end of the failed
/// count, end of the selected count)`
pub open spec fn spec_link_failed(s: Seq<char>, i: int) -> Option<(int, int)> {
    if lit_at(s, i, "Link failed -- Unable to link "@) {
        match spec_unsigned_end(s, i + 30, usize::MAX as int) {
            Some(a) => if lit_at(s, a, " of the "@) {
                match spec_unsigned_end(s, a + 8, usize::MAX as int) {
                    Some(b) => if lit_at(s, b, " selected pieces - pieces are too far apart."@) {
                        Some((a, b))
                    } else {
                        None
                    },
                    None => None,
                }
            } else {
                None
            },
            None => None,
        }
    } else {
        None
    }
}

/// the fixed text of entry 26 (no piece linked), or `Link failed -- Unable
/// to link <n> of the <n> selected pieces - pieces are too far apart.`
pub open spec fn link_failed_matches(s: Seq<char>, i: int) -> bool {
    spec_literal_first(s, i, 26, 27) is Some || spec_link_failed(s, i) is Some
}

/// the message read by [`link_failed_due_to_piece_distance_message_parser`]
pub open spec fn link_failed_is(s: Seq<char>, i: int, m: SystemMessage) -> bool {
    if spec_literal_first(s, i, 26, 27) is Some {
        literal_is(s, i, 26, 27, m)
    } else {
        match spec_link_failed(s, i) {
            Some((a, b)) => (m matches SystemMessage::LinkFailedDueToPieceDistance {
                link_failed_pieces: Some(f),
                total_selected_pieces: Some(t),
            } && f == spec_number(s, i + 30, a) && t == spec_number(s, a + 8, b)),
            None => false,
        }
    }
}

/// a link that failed because the pieces are too far apart, with the
/// numbers of pieces when written
pub fn link_failed_due_to_piece_distance_message_parser(s: &Vec<char>, i: usize) -> (r: Option<
    SystemMessage,
>)
    ensures
        r is Some <==> link_failed_matches(s@, i as int),
        r matches Some(m) ==> link_failed_is(s@, i as int, m),
{
    if let Some(m) = literal_range_at(s, i, 26, 27) {
        return Some(m);
    }
    let sl = s.len();
    proof {
        reveal_strlit("Link failed -- Unable to link ");
        reveal_strlit(" of the ");
    }
    if !lit_at_exec(s, i, "Link failed -- Unable to link ") {
        return None;
    }
    let (failed, a) = match unsigned_at(s, i + 30, usize::MAX as u64) {
        Some(x) => x,
        None => {
            return None;
        },
    };
    if !lit_at_exec(s, a, " of the ") {
        return None;
    }
    let (total, b) = match unsigned_at(s, a + 8, usize::MAX as u64) {
        Some(x) => x,
        None => {
            return None;
        },
    };
    if !lit_at_exec(s, b, " selected pieces - pieces are too far apart.") {
        return None;
    }
    Some(
        SystemMessage::LinkFailedDueToPieceDistance {
            link_failed_pieces: Some(failed as usize),
            total_selected_pieces: Some(total as usize),
        },
    )
}

/// the fixed text of entry 41 (banned indefinitely), or `You have been
/// banned for <n> minutes`
pub open spec fn banned_from_parcel_matches(s: Seq<char>, i: int) -> bool {
    spec_literal_first(s, i, 41, 42) is Some || (lit_at(s, i, "You have been banned for "@)
        && match spec_signed_at(s, i + 25, i64::MIN as int, i64::MAX as int) {
        Some((_, e)) => lit_at(s, e, " minutes"@),
        None => false,
    })
}

/// the message read by [`banned_from_parcel_message_parser`]
pub open spec fn banned_from_parcel_is(s: Seq<char>, i: int, m: SystemMessage) -> bool {
    if spec_literal_first(s, i, 41, 42) is Some {
        literal_is(s, i, 41, 42, m)
    } else {
        banned_from_parcel_matches(s, i) && (m matches SystemMessage::BannedFromParcelTemporarily {
            ban_duration_minutes,
        } && ban_duration_minutes == spec_signed_at(
            s,
            i + 25,
            i64::MIN as int,
            i64::MAX as int,
        ).unwrap().0)
    }
}

/// a ban from a parcel, without end or for a number of minutes
pub fn banned_from_parcel_message_parser(s: &Vec<char>, i: usize) -> (r: Option<SystemMessage>)
    ensures
        r is Some <==> banned_from_parcel_matches(s@, i as int),
        r matches Some(m) ==> banned_from_parcel_is(s@, i as int, m),
{
    if let Some(m) = literal_range_at(s, i, 41, 42) {
        return Some(m);
    }
    let sl = s.len();
    proof {
        reveal_strlit("You have been banned for ");
    }
    if !lit_at_exec(s, i, "You have been banned for ") {
        return None;
    }
    match signed_at(s, i + 25, i64::MIN, i64::MAX) {
        Some((v, e)) => if lit_at_exec(s, e, " minutes") {
            Some(SystemMessage::BannedFromParcelTemporarily { ban_duration_minutes: v })
        } else {
            None
        },
        None => None,
    }
}

/// the pieces of a script info message at `i`: `(end of the name, end of
/// the running count, end of the total count, end of the memory limit, end
/// of the CPU time)`
pub open spec fn spec_script_info(s: Seq<char>, i: int) -> Option<(int, int, int, int, int)> {
    if lit_at(s, i, "Script info: '"@) {
        match spec_find(s, i + 14, "': ["@) {
            Some(p) => match spec_unsigned_end(s, p + 4, usize::MAX as int) {
                Some(e1) => if lit_at(s, e1, "/"@) {
                    match spec_unsigned_end(s, e1 + 1, usize::MAX as int) {
                        Some(e2) => if lit_at(s, e2, "] running scripts, "@) {
                            match spec_unsigned_end(s, e2 + 19, u64::MAX as int) {
                                Some(e3) => if lit_at(s, e3, " KB allowed memory size limit, "@) {
                                    match spec_unsigned_decimal_at(s, e3 + 31) {
                                        Some((_, _, e4)) => if lit_at(
                                            s,
                                            e4,
                                            " ms of CPU time consumed."@,
                                        ) {
                                            Some((p, e1, e2, e3, e4))
                                        } else {
                                            None
                                        },
                                        None => None,
                                    }
                                } else {
                                    None
                                },
                                None => None,
                            }
                        } else {
                            None
                        },
                        None => None,
                    }
                } else {
                    None
                },
                None => None,
            },
            None => None,
        }
    } else {
        None
    }
}

/// `Script info: '<name>': [<n>/<n>] running scripts, <n> KB allowed memory
/// size limit, <t> ms of CPU time consumed.`
pub open spec fn script_info_matches(s: Seq<char>, i: int) -> bool {
    spec_script_info(s, i) is Some
}

/// the message read by [`script_info_message_parser`]
pub open spec fn script_info_is(s: Seq<char>, i: int, m: SystemMessage) -> bool {
    match spec_script_info(s, i) {
        Some((p, e1, e2, e3, e4)) => (m matches SystemMessage::ScriptInfo {
            name,
            running_scripts,
            total_scripts,
            allowed_memory_size_limit_kb,
            cpu_time_consumed_ms,
        } && name@ == s.subrange(i + 14, p) && running_scripts == spec_number(s, p + 4, e1)
            && total_scripts == spec_number(s, e1 + 1, e2) && allowed_memory_size_limit_kb
            == spec_number(s, e2 + 19, e3) && decimal_is(s, e3 + 31, cpu_time_consumed_ms, e4)),
        None => false,
    }
}

/// the scripts of an object or avatar: how many run, how many there are,
/// the memory limit and the CPU time used
pub fn script_info_message_parser(s: &Vec<char>, i: usize) -> (r: Option<SystemMessage>)
    ensures
        r is Some <==> script_info_matches(s@, i as int),
        r matches Some(m) ==> script_info_is(s@, i as int, m),
{
    let sl = s.len();
    proof {
        reveal_strlit("Script info: '");
        reveal_strlit("': [");
        reveal_strlit("/");
        reveal_strlit("] running scripts, ");
        reveal_strlit(" KB allowed memory size limit, ");
    }
    if !lit_at_exec(s, i, "Script info: '") {
        return None;
    }
    let p = match find_lit(s, i + 14, "': [") {
        Some(p) => p,
        None => {
            return None;
        },
    };
    let (running, e1) = match unsigned_at(s, p + 4, usize::MAX as u64) {
        Some(x) => x,
        None => {
            return None;
        },
    };
    if !lit_at_exec(s, e1, "/") {
        return None;
    }
    let (total, e2) = match unsigned_at(s, e1 + 1, usize::MAX as u64) {
        Some(x) => x,
        None => {
            return None;
        },
    };
    if !lit_at_exec(s, e2, "] running scripts, ") {
        return None;
    }
    let (memory, e3) = match unsigned_at(s, e2 + 19, u64::MAX) {
        Some(x) => x,
        None => {
            return None;
        },
    };
    if !lit_at_exec(s, e3, " KB allowed memory size limit, ") {
        return None;
    }
    let (cpu, e4) = match decimal_at(s, e3 + 31, false) {
        Some(x) => x,
        None => {
            return None;
        },
    };
    if !lit_at_exec(s, e4, " ms of CPU time consumed.") {
        return None;
    }
    Some(
        SystemMessage::ScriptInfo {
            name: text_between(s, i + 14, p),
            running_scripts: running as usize,
            total_scripts: total as usize,
            allowed_memory_size_limit_kb: memory,
            cpu_time_consumed_ms: cpu,
        },
    )
}

/// the three numbers of a dice roll result read from `p`: the first, then
/// whitespace and `1d` (one roll, `one_roll`) or just `d` (a sum), the
/// second, `:`, whitespace and the third, then `.`; as `(end of the first,
/// start and end of the second, start and end of the third)`
pub open spec fn spec_dice_numbers(s: Seq<char>, p: int, one_roll: bool) -> Option<
    (int, int, int, int, int),
> {
    match spec_unsigned_end(s, p, usize::MAX as int) {
        Some(a) => {
            let (ok, b0) = if one_roll {
                (lit_at(s, spec_skip_ws(s, a), "1d"@), spec_skip_ws(s, a) + 2)
            } else {
                (lit_at(s, a, "d"@), a + 1)
            };
            if ok {
                match spec_unsigned_end(s, b0, usize::MAX as int) {
                    Some(b) => if lit_at(s, b, ":"@) {
                        let c0 = spec_skip_ws(s, b + 1);
                        match spec_unsigned_end(s, c0, usize::MAX as int) {
                            Some(c) => if lit_at(s, c, "."@) {
                                Some((a, b0, b, c0, c))
                            } else {
                                None
                            },
                            None => None,
                        }
                    } else {
                        None
                    },
                    None => None,
                }
            } else {
                None
            }
        },
        None => None,
    }
}

/// the three numbers of a dice roll result from `p`
fn dice_numbers(s: &Vec<char>, p: usize, one_roll: bool) -> (r: Option<(usize, usize, usize)>)
    requires
        p <= s@.len(),
    ensures
        match spec_dice_numbers(s@, p as int, one_roll) {
            None => r is None,
            Some((a, b0, b, c0, c)) => r matches Some((x, y, z)) && x == spec_number(
                s@,
                p as int,
                a,
            ) && y == spec_number(s@, b0, b) && z == spec_number(s@, c0, c),
        },
{
    let sl = s.len();
    proof {
        reveal_strlit("1d");
        reveal_strlit("d");
        reveal_strlit(":");
        reveal_strlit(".");
    }
    let (x, a) = match unsigned_at(s, p, usize::MAX as u64) {
        Some(v) => v,
        None => {
            return None;
        },
    };
    let b0 = if one_roll {
        let w = skip_ws(s, a);
        if !lit_at_exec(s, w, "1d") {
            return None;
        }
        w + 2
    } else {
        if !lit_at_exec(s, a, "d") {
            return None;
        }
        a + 1
    };
    let (y, b) = match unsigned_at(s, b0, usize::MAX as u64) {
        Some(v) => v,
        None => {
            return None;
        },
    };
    if !lit_at_exec(s, b, ":") {
        return None;
    }
    let c0 = skip_ws(s, b + 1);
    let (z, c) = match unsigned_at(s, c0, usize::MAX as u64) {
        Some(v) => v,
        None => {
            return None;
        },
    };
    if !lit_at_exec(s, c, ".") {
        return None;
    }
    Some((x as usize, y as usize, z as usize))
}

/// the fixed text of entry 49 (how to use the command), `#<n> 1d<n>:
/// <n>.` (one roll) or `Total result for <n>d<n>: <n>.` (the sum)
pub open spec fn dice_roll_matches(s: Seq<char>, i: int) -> bool {
    ||| spec_literal_first(s, i, 49, 50) is Some
    ||| lit_at(s, i, "#"@) && spec_dice_numbers(s, i + 1, true) is Some
    ||| lit_at(s, i, "Total result for "@) && spec_dice_numbers(s, i + 17, false) is Some
}

/// the message read by [`dice_roll_message_parser`]
pub open spec fn dice_roll_is(s: Seq<char>, i: int, m: SystemMessage) -> bool {
    if spec_literal_first(s, i, 49, 50) is Some {
        literal_is(s, i, 49, 50, m)
    } else if lit_at(s, i, "#"@) && spec_dice_numbers(s, i + 1, true) is Some {
        let (a, b0, b, c0, c) = spec_dice_numbers(s, i + 1, true).unwrap();
        (m matches SystemMessage::DiceRollResult { roll_number, dice_faces, roll_result }
            && roll_number == spec_number(s, i + 1, a) && dice_faces == spec_number(s, b0, b)
            && roll_result == spec_number(s, c0, c))
    } else if lit_at(s, i, "Total result for "@) && spec_dice_numbers(s, i + 17, false) is Some {
        let (a, b0, b, c0, c) = spec_dice_numbers(s, i + 17, false).unwrap();
        (m matches SystemMessage::DiceRollResultSum { roll_count, dice_faces, result_sum }
            && roll_count == spec_number(s, i + 17, a) && dice_faces == spec_number(s, b0, b)
            && result_sum == spec_number(s, c0, c))
    } else {
        false
    }
}

/// how to use the dice command, the result of one roll, or the sum of
/// several rolls
pub fn dice_roll_message_parser(s: &Vec<char>, i: usize) -> (r: Option<SystemMessage>)
    ensures
        r is Some <==> dice_roll_matches(s@, i as int),
        r matches Some(m) ==> dice_roll_is(s@, i as int, m),
{
    if let Some(m) = literal_range_at(s, i, 49, 50) {
        return Some(m);
    }
    let sl = s.len();
    proof {
        reveal_strlit("#");
        reveal_strlit("Total result for ");
        reveal_strlit("1d");
        reveal_strlit("d");
    }
    if lit_at_exec(s, i, "#") {
        if let Some((roll_number, dice_faces, roll_result)) = dice_numbers(s, i + 1, true) {
            return Some(SystemMessage::DiceRollResult { roll_number, dice_faces, roll_result });
        }
    }
    if lit_at_exec(s, i, "Total result for ") {
        if let Some((roll_count, dice_faces, result_sum)) = dice_numbers(s, i + 17, false) {
            return Some(SystemMessage::DiceRollResultSum { roll_count, dice_faces, result_sum });
        }
    }
    None
}

/// the pieces of a face's texture info at `i`: `(end of the width, end of
/// the height, whether the texture is opaque, end of the face number)`
pub open spec fn spec_texture_face(s: Seq<char>, i: int) -> Option<(int, int, bool, int)> {
    match spec_unsigned_end(s, i, u16::MAX as int) {
        Some(a) => if lit_at(s, a, "x"@) {
            match spec_unsigned_end(s, a + 1, u16::MAX as int) {
                Some(b) => {
                    let w = spec_skip_ws(s, b);
                    let (opaque, t) = if lit_at(s, w, "opaque"@) {
                        (true, w + 6)
                    } else {
                        (false, w + 5)
                    };
                    if (lit_at(s, w, "opaque"@) || lit_at(s, w, "alpha"@)) && lit_at(
                        s,
                        t,
                        " on face "@,
                    ) {
                        match spec_unsigned_end(s, t + 9, usize::MAX as int) {
                            Some(e) => Some((a, b, opaque, e)),
                            None => None,
                        }
                    } else {
                        None
                    }
                },
                None => None,
            }
        } else {
            None
        },
        None => None,
    }
}

/// `Texture info for: <object>` or `<width>x<height> opaque on face <n>`
/// (or `alpha`)
pub open spec fn texture_info_matches(s: Seq<char>, i: int) -> bool {
    lit_at(s, i, "Texture info for: "@) || spec_texture_face(s, i) is Some
}

/// the message read by [`texture_info_message_parser`]: the object's name
/// runs to the end of the line
pub open spec fn texture_info_is(s: Seq<char>, i: int, m: SystemMessage) -> bool {
    if lit_at(s, i, "Texture info for: "@) {
        (m matches SystemMessage::TextureInfoForObject { object_name } && object_name@
            == s.subrange(i + 18, crate::scan::spec_line_end(s, i + 18)))
    } else {
        match spec_texture_face(s, i) {
            Some((a, b, opaque, e)) => (m matches SystemMessage::TextureInfoForFace {
                face_number,
                texture_width,
                texture_height,
                texture_type,
            } && texture_width == spec_number(s, i, a) && texture_height == spec_number(
                s,
                a + 1,
                b,
            ) && texture_type@ == (if opaque {
                "opaque"@
            } else {
                "alpha"@
            }) && face_number == spec_number(
                s,
                (if opaque {
                    spec_skip_ws(s, b) + 6
                } else {
                    spec_skip_ws(s, b) + 5
                }) + 9,
                e,
            )),
            None => false,
        }
    }
}

/// the object whose texture info follows, or the size and kind of the
/// texture on one face
pub fn texture_info_message_parser(s: &Vec<char>, i: usize) -> (r: Option<SystemMessage>)
    ensures
        r is Some <==> texture_info_matches(s@, i as int),
        r matches Some(m) ==> texture_info_is(s@, i as int, m),
{
    let sl = s.len();
    proof {
        reveal_strlit("Texture info for: ");
        reveal_strlit("x");
        reveal_strlit("opaque");
        reveal_strlit("alpha");
        reveal_strlit(" on face ");
    }
    if lit_at_exec(s, i, "Texture info for: ") {
        let e = crate::scan::line_end(s, i + 18);
        return Some(SystemMessage::TextureInfoForObject { object_name: text_between(s, i + 18, e) });
    }
    if i > sl {
        return None;
    }
    let (width, a) = match unsigned_at(s, i, u16::MAX as u64) {
        Some(x) => x,
        None => {
            return None;
        },
    };
    if !lit_at_exec(s, a, "x") {
        return None;
    }
    let (height, b) = match unsigned_at(s, a + 1, u16::MAX as u64) {
        Some(x) => x,
        None => {
            return None;
        },
    };
    let w = skip_ws(s, b);
    let (opaque, t) = if lit_at_exec(s, w, "opaque") {
        (true, w + 6)
    } else if lit_at_exec(s, w, "alpha") {
        (false, w + 5)
    } else {
        return None;
    };
    if !lit_at_exec(s, t, " on face ") {
        return None;
    }
    let (face, e) = match unsigned_at(s, t + 9, usize::MAX as u64) {
        Some(x) => x,
        None => {
            return None;
        },
    };
    let texture_type = if opaque {
        "opaque".to_owned()
    } else {
        "alpha".to_owned()
    };
    Some(
        SystemMessage::TextureInfoForFace {
            face_number: face as usize,
            texture_width: width as u16,
            texture_height: height as u16,
            texture_type,
        },
    )
}

/// a link to an avatar or group at `p`, whitespace and an amount of Linden
/// dollars: `(whether the owner is a group, start of the amount, index
/// after it)`
pub open spec fn spec_owner_amount(s: Seq<char>, p: int) -> Option<(bool, int, int)> {
    match spec_owner_uri_at(s, p) {
        Some((g, e)) => {
            let w = spec_skip_ws(s, e);
            match spec_amount_at(s, w) {
                Some(a) => Some((g, w, a)),
                None => None,
            }
        },
        None => None,
    }
}

/// the owner and amount at `p` and the index after them
fn owner_amount(s: &Vec<char>, p: usize) -> (r: Option<(OwnerKey, LindenAmount, usize)>)
    ensures
        match spec_owner_amount(s@, p as int) {
            None => r is None,
            Some((g, w, a)) => r matches Some((o, v, e)) && owner_is(
                o,
                g,
                s@.subrange(p + 24, p + 60),
            ) && v.0 == spec_number(s@, w + 2, a) && e == a && a <= s@.len(),
        },
{
    let (o, e) = match owner_uri_at(s, p) {
        Some(x) => x,
        None => {
            return None;
        },
    };
    let w = skip_ws(s, e);
    match amount_at(s, w) {
        Some((v, a)) => Some((o, v, a)),
        None => None,
    }
}

/// `You paid <owner link> L$<n> for <object>.`
pub open spec fn you_paid_for_object_matches(s: Seq<char>, i: int) -> bool {
    lit_at(s, i, "You paid "@) && match spec_owner_amount(s, i + 9) {
        Some((_, _, a)) => lit_at(s, a, " for "@) && spec_find(s, a + 5, "."@) is Some,
        None => false,
    }
}

/// the message read by [`you_paid_for_object_message_parser`]
pub open spec fn you_paid_for_object_is(s: Seq<char>, i: int, m: SystemMessage) -> bool {
    you_paid_for_object_matches(s, i) && {
        let (g, w, a) = spec_owner_amount(s, i + 9).unwrap();
        (m matches SystemMessage::YouPaidForObject { seller, amount, object_name } && owner_is(
            seller,
            g,
            s.subrange(i + 33, i + 69),
        ) && amount.0 == spec_number(s, w + 2, a) && object_name@ == s.subrange(
            a + 5,
            spec_find(s, a + 5, "."@).unwrap(),
        ))
    }
}

/// a payment for an object: the seller, the amount and the object (up to
/// the next `.`)
pub fn you_paid_for_object_message_parser(s: &Vec<char>, i: usize) -> (r: Option<SystemMessage>)
    ensures
        r is Some <==> you_paid_for_object_matches(s@, i as int),
        r matches Some(m) ==> you_paid_for_object_is(s@, i as int, m),
{
    let sl = s.len();
    proof {
        reveal_strlit("You paid ");
        reveal_strlit(" for ");
    }
    if !lit_at_exec(s, i, "You paid ") {
        return None;
    }
    let (seller, amount, a) = match owner_amount(s, i + 9) {
        Some(x) => x,
        None => {
            return None;
        },
    };
    if !lit_at_exec(s, a, " for ") {
        return None;
    }
    match find_lit(s, a + 5, ".") {
        Some(p) => Some(
            SystemMessage::YouPaidForObject {
                seller,
                amount,
                object_name: text_between(s, a + 5, p),
            },
        ),
        None => None,
    }
}

/// `You paid <avatar link> L$<n> to create a group.`
pub open spec fn you_paid_to_create_a_group_matches(s: Seq<char>, i: int) -> bool {
    lit_at(s, i, "You paid "@) && match spec_agent_uri_at(s, i + 9) {
        Some(e) => match spec_amount_at(s, spec_skip_ws(s, e)) {
            Some(a) => lit_at(s, a, " to create a group."@),
            None => false,
        },
        None => false,
    }
}

/// the message read by [`you_paid_to_create_a_group_message_parser`]
pub open spec fn you_paid_to_create_a_group_is(s: Seq<char>, i: int, m: SystemMessage) -> bool {
    you_paid_to_create_a_group_matches(s, i) && {
        let w = spec_skip_ws(s, spec_agent_uri_at(s, i + 9).unwrap());
        (m matches SystemMessage::YouPaidToCreateGroup { payment_recipient, amount }
            && payment_recipient.0@ == s.subrange(i + 33, i + 69) && amount.0 == spec_number(
            s,
            w + 2,
            spec_amount_at(s, w).unwrap(),
        ))
    }
}

/// a payment to an avatar for creating a group
pub fn you_paid_to_create_a_group_message_parser(s: &Vec<char>, i: usize) -> (r: Option<
    SystemMessage,
>)
    ensures
        r is Some <==> you_paid_to_create_a_group_matches(s@, i as int),
        r matches Some(m) ==> you_paid_to_create_a_group_is(s@, i as int, m),
{
    let sl = s.len();
    proof {
        reveal_strlit("You paid ");
    }
    if !lit_at_exec(s, i, "You paid ") {
        return None;
    }
    let (payment_recipient, e) = match agent_uri_at(s, i + 9) {
        Some(x) => x,
        None => {
            return None;
        },
    };
    let w = skip_ws(s, e);
    match amount_at(s, w) {
        Some((amount, a)) => if lit_at_exec(s, a, " to create a group.") {
            Some(SystemMessage::YouPaidToCreateGroup { payment_recipient, amount })
        } else {
            None
        },
        None => None,
    }
}

/// `You paid <group link> L$<n> to join a group.`
pub open spec fn you_paid_to_join_group_matches(s: Seq<char>, i: int) -> bool {
    lit_at(s, i, "You paid "@) && match spec_group_uri_at(s, i + 9) {
        Some(e) => match spec_amount_at(s, spec_skip_ws(s, e)) {
            Some(a) => lit_at(s, a, " to join a group."@),
            None => false,
        },
        None => false,
    }
}

/// the message read by [`you_paid_to_join_group_message_parser`]
pub open spec fn you_paid_to_join_group_is(s: Seq<char>, i: int, m: SystemMessage) -> bool {
    you_paid_to_join_group_matches(s, i) && {
        let w = spec_skip_ws(s, spec_group_uri_at(s, i + 9).unwrap());
        (m matches SystemMessage::YouPaidToJoinGroup { joined_group, join_fee }
            && joined_group.0@ == s.subrange(i + 33, i + 69) && join_fee.0 == spec_number(
            s,
            w + 2,
            spec_amount_at(s, w).unwrap(),
        ))
    }
}

/// a fee paid to join a group
pub fn you_paid_to_join_group_message_parser(s: &Vec<char>, i: usize) -> (r: Option<SystemMessage>)
    ensures
        r is Some <==> you_paid_to_join_group_matches(s@, i as int),
        r matches Some(m) ==> you_paid_to_join_group_is(s@, i as int, m),
{
    let sl = s.len();
    proof {
        reveal_strlit("You paid ");
    }
    if !lit_at_exec(s, i, "You paid ") {
        return None;
    }
    let (joined_group, e) = match group_uri_at(s, i + 9) {
        Some(x) => x,
        None => {
            return None;
        },
    };
    let w = skip_ws(s, e);
    match amount_at(s, w) {
        Some((join_fee, a)) => if lit_at_exec(s, a, " to join a group.") {
            Some(SystemMessage::YouPaidToJoinGroup { joined_group, join_fee })
        } else {
            None
        },
        None => None,
    }
}

/// `You paid <owner link> L$<n> for a parcel of land.`
pub open spec fn you_paid_for_land_matches(s: Seq<char>, i: int) -> bool {
    lit_at(s, i, "You paid "@) && match spec_owner_amount(s, i + 9) {
        Some((_, _, a)) => lit_at(s, a, " for a parcel of land."@),
        None => false,
    }
}

/// the message read by [`you_paid_for_land_message_parser`]
pub open spec fn you_paid_for_land_is(s: Seq<char>, i: int, m: SystemMessage) -> bool {
    you_paid_for_land_matches(s, i) && {
        let (g, w, a) = spec_owner_amount(s, i + 9).unwrap();
        (m matches SystemMessage::YouPaidForLand { previous_land_owner, amount } && owner_is(
            previous_land_owner,
            g,
            s.subrange(i + 33, i + 69),
        ) && amount.0 == spec_number(s, w + 2, a))
    }
}

/// a payment for a parcel of land
pub fn you_paid_for_land_message_parser(s: &Vec<char>, i: usize) -> (r: Option<SystemMessage>)
    ensures
        r is Some <==> you_paid_for_land_matches(s@, i as int),
        r matches Some(m) ==> you_paid_for_land_is(s@, i as int, m),
{
    let sl = s.len();
    proof {
        reveal_strlit("You paid ");
    }
    if !lit_at_exec(s, i, "You paid ") {
        return None;
    }
    match owner_amount(s, i + 9) {
        Some((previous_land_owner, amount, a)) => if lit_at_exec(s, a, " for a parcel of land.") {
            Some(SystemMessage::YouPaidForLand { previous_land_owner, amount })
        } else {
            None
        },
        None => None,
    }
}

/// `You failed to pay <owner link> L$<n>.`
pub open spec fn failed_to_pay_matches(s: Seq<char>, i: int) -> bool {
    lit_at(s, i, "You failed to pay "@) && match spec_owner_amount(s, i + 18) {
        Some((_, _, a)) => lit_at(s, a, "."@),
        None => false,
    }
}

/// the message read by [`failed_to_pay_message_parser`]
pub open spec fn failed_to_pay_is(s: Seq<char>, i: int, m: SystemMessage) -> bool {
    failed_to_pay_matches(s, i) && {
        let (g, w, a) = spec_owner_amount(s, i + 18).unwrap();
        (m matches SystemMessage::FailedToPay { payment_recipient, amount } && owner_is(
            payment_recipient,
            g,
            s.subrange(i + 42, i + 78),
        ) && amount.0 == spec_number(s, w + 2, a))
    }
}

/// a payment that failed
pub fn failed_to_pay_message_parser(s: &Vec<char>, i: usize) -> (r: Option<SystemMessage>)
    ensures
        r is Some <==> failed_to_pay_matches(s@, i as int),
        r matches Some(m) ==> failed_to_pay_is(s@, i as int, m),
{
    let sl = s.len();
    proof {
        reveal_strlit("You failed to pay ");
        reveal_strlit(".");
    }
    if !lit_at_exec(s, i, "You failed to pay ") {
        return None;
    }
    match owner_amount(s, i + 18) {
        Some((payment_recipient, amount, a)) => if lit_at_exec(s, a, ".") {
            Some(SystemMessage::FailedToPay { payment_recipient, amount })
        } else {
            None
        },
        None => None,
    }
}

/// the message after an amount at `a`: `: ` and the rest of the text, or
/// `.` and none; `None` when neither follows
pub open spec fn spec_payment_note(s: Seq<char>, a: int) -> Option<Option<Seq<char>>> {
    if lit_at(s, a, ": "@) {
        Some(Some(s.subrange(a + 2, s.len() as int)))
    } else if lit_at(s, a, "."@) {
        Some(None)
    } else {
        None
    }
}

/// `n` is the message `spec_payment_note` reads
pub open spec fn note_is(n: Option<String>, v: Option<Seq<char>>) -> bool {
    match v {
        Some(t) => n matches Some(x) && x@ == t,
        None => n is None,
    }
}

/// the message after an amount at `a`
fn payment_note(s: &Vec<char>, a: usize) -> (r: Option<Option<String>>)
    ensures
        match spec_payment_note(s@, a as int) {
            None => r is None,
            Some(v) => r matches Some(n) && note_is(n, v),
        },
{
    let sl = s.len();
    proof {
        reveal_strlit(": ");
        reveal_strlit(".");
    }
    if lit_at_exec(s, a, ": ") {
        Some(Some(text_between(s, a + 2, sl)))
    } else if lit_at_exec(s, a, ".") {
        Some(None)
    } else {
        None
    }
}

/// `You paid <owner link> L$<n>` and then `: <message>` or `.`
pub open spec fn sent_payment_matches(s: Seq<char>, i: int) -> bool {
    lit_at(s, i, "You paid "@) && match spec_owner_amount(s, i + 9) {
        Some((_, _, a)) => spec_payment_note(s, a) is Some,
        None => false,
    }
}

/// the message read by [`sent_payment_message_parser`]
pub open spec fn sent_payment_is(s: Seq<char>, i: int, m: SystemMessage) -> bool {
    sent_payment_matches(s, i) && {
        let (g, w, a) = spec_owner_amount(s, i + 9).unwrap();
        (m matches SystemMessage::SentPayment { recipient_key, amount, message } && owner_is(
            recipient_key,
            g,
            s.subrange(i + 33, i + 69),
        ) && amount.0 == spec_number(s, w + 2, a) && note_is(
            message,
            spec_payment_note(s, a).unwrap(),
        ))
    }
}

/// a payment you sent, with the message that went with it
pub fn sent_payment_message_parser(s: &Vec<char>, i: usize) -> (r: Option<SystemMessage>)
    ensures
        r is Some <==> sent_payment_matches(s@, i as int),
        r matches Some(m) ==> sent_payment_is(s@, i as int, m),
{
    let sl = s.len();
    proof {
        reveal_strlit("You paid ");
    }
    if !lit_at_exec(s, i, "You paid ") {
        return None;
    }
    let (recipient_key, amount, a) = match owner_amount(s, i + 9) {
        Some(x) => x,
        None => {
            return None;
        },
    };
    match payment_note(s, a) {
        Some(message) => Some(SystemMessage::SentPayment { recipient_key, amount, message }),
        None => None,
    }
}

/// `<owner link> paid you L$<n>` and then `: <message>` or `.`
pub open spec fn received_payment_matches(s: Seq<char>, i: int) -> bool {
    match spec_owner_uri_at(s, i) {
        Some((_, e)) => lit_at(s, e, " paid you "@) && match spec_amount_at(s, e + 10) {
            Some(a) => spec_payment_note(s, a) is Some,
            None => false,
        },
        None => false,
    }
}

/// the message read by [`received_payment_message_parser`]
pub open spec fn received_payment_is(s: Seq<char>, i: int, m: SystemMessage) -> bool {
    received_payment_matches(s, i) && {
        let (g, e) = spec_owner_uri_at(s, i).unwrap();
        let a = spec_amount_at(s, e + 10).unwrap();
        (m matches SystemMessage::ReceivedPayment { sender_key, amount, message } && owner_is(
            sender_key,
            g,
            s.subrange(i + 24, i + 60),
        ) && amount.0 == spec_number(s, e + 12, a) && note_is(
            message,
            spec_payment_note(s, a).unwrap(),
        ))
    }
}

/// a payment you received, with the message that went with it
pub fn received_payment_message_parser(s: &Vec<char>, i: usize) -> (r: Option<SystemMessage>)
    ensures
        r is Some <==> received_payment_matches(s@, i as int),
        r matches Some(m) ==> received_payment_is(s@, i as int, m),
{
    let sl = s.len();
    proof {
        reveal_strlit(" paid you ");
    }
    let (sender_key, e) = match owner_uri_at(s, i) {
        Some(x) => x,
        None => {
            return None;
        },
    };
    if !lit_at_exec(s, e, " paid you ") {
        return None;
    }
    let (amount, a) = match amount_at(s, e + 10) {
        Some(x) => x,
        None => {
            return None;
        },
    };
    match payment_note(s, a) {
        Some(message) => Some(SystemMessage::ReceivedPayment { sender_key, amount, message }),
        None => None,
    }
}

/// `d` is the distance `spec_distance_at` reads at `p`
pub open spec fn distance_is(s: Seq<char>, p: int, d: DistanceText) -> bool {
    match spec_distance_at(s, p) {
        Some((w, frac, _)) => d.whole@ == s.subrange(p, w) && match frac {
            None => d.fraction is None,
            Some((f0, f1)) => d.fraction matches Some(t) && t@ == s.subrange(f0, f1),
        },
        None => false,
    }
}

/// `Draw Distance set to <distance>.`
pub open spec fn draw_distance_set_matches(s: Seq<char>, i: int) -> bool {
    lit_at(s, i, "Draw Distance set to "@) && match spec_distance_at(s, i + 21) {
        Some((_, _, e)) => lit_at(s, e, "."@),
        None => false,
    }
}

/// the message read by [`draw_distance_set_message_parser`]
pub open spec fn draw_distance_set_is(s: Seq<char>, i: int, m: SystemMessage) -> bool {
    draw_distance_set_matches(s, i) && (m matches SystemMessage::DrawDistanceSet { distance }
        && distance_is(s, i + 21, distance))
}

/// the draw distance was set
pub fn draw_distance_set_message_parser(s: &Vec<char>, i: usize) -> (r: Option<SystemMessage>)
    ensures
        r is Some <==> draw_distance_set_matches(s@, i as int),
        r matches Some(m) ==> draw_distance_set_is(s@, i as int, m),
{
    let sl = s.len();
    proof {
        reveal_strlit("Draw Distance set to ");
    }
    if !lit_at_exec(s, i, "Draw Distance set to ") {
        return None;
    }
    match distance_at(s, i + 21) {
        Some((distance, e)) => if lit_at_exec(s, e, ".") {
            Some(SystemMessage::DrawDistanceSet { distance })
        } else {
            None
        },
        None => None,
    }
}

/// one component of a list of numbers read from `p`: the first one after
/// whitespace, a later one after a `,` (with whitespace before the `,`
/// when `ws_before`) and whitespace; as the start and end of its number
pub open spec fn spec_component(s: Seq<char>, p: int, first: bool, ws_before: bool) -> Option<
    (int, int),
> {
    let c = if ws_before {
        spec_skip_ws(s, p)
    } else {
        p
    };
    let start = if first {
        Some(spec_skip_ws(s, p))
    } else if 0 <= c < s.len() && s[c] == ',' {
        Some(spec_skip_ws(s, c + 1))
    } else {
        None
    };
    match start {
        Some(a) => match spec_decimal_at(s, a) {
            Some((_, _, _, _, e)) => Some((a, e)),
            None => None,
        },
        None => None,
    }
}

/// one component of a list of numbers from `p`
fn component(s: &Vec<char>, p: usize, first: bool, ws_before: bool) -> (r: Option<
    (Decimal, usize),
>)
    requires
        p <= s@.len(),
    ensures
        match spec_component(s@, p as int, first, ws_before) {
            None => r is None,
            Some((a, e)) => r matches Some((d, e2)) && e2 == e && decimal_is(s@, a, d, e) && e
                <= s@.len(),
        },
{
    let c = if ws_before {
        skip_ws(s, p)
    } else {
        p
    };
    let a = if first {
        skip_ws(s, p)
    } else if c < s.len() && s[c] == ',' {
        skip_ws(s, c + 1)
    } else {
        return None;
    };
    decimal_at(s, a, true)
}

/// a vector `<x, y, z>` at `p` (whitespace allowed around the numbers):
/// the starts of its three numbers and the index after it
pub open spec fn spec_vector_at(s: Seq<char>, p: int) -> Option<(int, int, int, int)> {
    if lit_at(s, p, "<"@) {
        match spec_component(s, p + 1, true, true) {
            Some((a, e1)) => match spec_component(s, e1, false, true) {
                Some((b, e2)) => match spec_component(s, e2, false, true) {
                    Some((c, e3)) => {
                        let w = spec_skip_ws(s, e3);
                        if lit_at(s, w, ">"@) {
                            Some((a, b, c, w + 1))
                        } else {
                            None
                        }
                    },
                    None => None,
                },
                None => None,
            },
            None => None,
        }
    } else {
        None
    }
}

/// the number of `s` starting at `a` is `d`
pub open spec fn number_at_is(s: Seq<char>, a: int, d: Decimal) -> bool {
    match spec_decimal_at(s, a) {
        Some((_, _, _, _, e)) => decimal_is(s, a, d, e),
        None => false,
    }
}

/// `v` is the vector `spec_vector_at` reads at `p`
pub open spec fn vector_is(s: Seq<char>, p: int, v: Vector) -> bool {
    match spec_vector_at(s, p) {
        Some((a, b, c, _)) => number_at_is(s, a, v.x) && number_at_is(s, b, v.y) && number_at_is(
            s,
            c,
            v.z,
        ),
        None => false,
    }
}

/// the vector at `p` and the index after it
pub fn vector_at(s: &Vec<char>, p: usize) -> (r: Option<(Vector, usize)>)
    ensures
        match spec_vector_at(s@, p as int) {
            None => r is None,
            Some((_, _, _, e)) => r matches Some((v, e2)) && e2 == e && vector_is(s@, p as int, v)
                && e <= s@.len(),
        },
{
    let sl = s.len();
    proof {
        reveal_strlit("<");
        reveal_strlit(">");
    }
    if !lit_at_exec(s, p, "<") {
        return None;
    }
    let (x, e1) = match component(s, p + 1, true, true) {
        Some(v) => v,
        None => {
            return None;
        },
    };
    let (y, e2) = match component(s, e1, false, true) {
        Some(v) => v,
        None => {
            return None;
        },
    };
    let (z, e3) = match component(s, e2, false, true) {
        Some(v) => v,
        None => {
            return None;
        },
    };
    let w = skip_ws(s, e3);
    if !lit_at_exec(s, w, ">") {
        return None;
    }
    Some((Vector { x, y, z }, w + 1))
}

/// a rotation `<x, y, z, s>` at `p`: the starts of its four numbers and the
/// index after it
pub open spec fn spec_rotation_at(s: Seq<char>, p: int) -> Option<(int, int, int, int, int)> {
    if lit_at(s, p, "<"@) {
        match spec_component(s, p + 1, true, true) {
            Some((a, e1)) => match spec_component(s, e1, false, true) {
                Some((b, e2)) => match spec_component(s, e2, false, true) {
                    Some((c, e3)) => match spec_component(s, e3, false, true) {
                        Some((d, e4)) => {
                            let w = spec_skip_ws(s, e4);
                            if lit_at(s, w, ">"@) {
                                Some((a, b, c, d, w + 1))
                            } else {
                                None
                            }
                        },
                        None => None,
                    },
                    None => None,
                },
                None => None,
            },
            None => None,
        }
    } else {
        None
    }
}

/// `q` is the rotation `spec_rotation_at` reads at `p`
pub open spec fn rotation_is(s: Seq<char>, p: int, q: Rotation) -> bool {
    match spec_rotation_at(s, p) {
        Some((a, b, c, d, _)) => number_at_is(s, a, q.x) && number_at_is(s, b, q.y) && number_at_is(
            s,
            c,
            q.z,
        ) && number_at_is(s, d, q.s),
        None => false,
    }
}

/// the rotation at `p` and the index after it
pub fn rotation_at(s: &Vec<char>, p: usize) -> (r: Option<(Rotation, usize)>)
    ensures
        match spec_rotation_at(s@, p as int) {
            None => r is None,
            Some((_, _, _, _, e)) => r matches Some((q, e2)) && e2 == e && rotation_is(
                s@,
                p as int,
                q,
            ) && e <= s@.len(),
        },
{
    let sl = s.len();
    proof {
        reveal_strlit("<");
        reveal_strlit(">");
    }
    if !lit_at_exec(s, p, "<") {
        return None;
    }
    let (x, e1) = match component(s, p + 1, true, true) {
        Some(v) => v,
        None => {
            return None;
        },
    };
    let (y, e2) = match component(s, e1, false, true) {
        Some(v) => v,
        None => {
            return None;
        },
    };
    let (z, e3) = match component(s, e2, false, true) {
        Some(v) => v,
        None => {
            return None;
        },
    };
    let (w4, e4) = match component(s, e3, false, true) {
        Some(v) => v,
        None => {
            return None;
        },
    };
    let w = skip_ws(s, e4);
    if !lit_at_exec(s, w, ">") {
        return None;
    }
    Some((Rotation { x, y, z, s: w4 }, w + 1))
}

/// region coordinates `{ x, y, z }` at `p` (whitespace allowed after the
/// brace and the commas and before the closing brace): the starts of the
/// three numbers and the index after them
pub open spec fn spec_region_coordinates_at(s: Seq<char>, p: int) -> Option<(int, int, int, int)> {
    if lit_at(s, p, "{"@) {
        match spec_component(s, p + 1, true, false) {
            Some((a, e1)) => match spec_component(s, e1, false, false) {
                Some((b, e2)) => match spec_component(s, e2, false, false) {
                    Some((c, e3)) => {
                        let w = spec_skip_ws(s, e3);
                        if lit_at(s, w, "}"@) {
                            Some((a, b, c, w + 1))
                        } else {
                            None
                        }
                    },
                    None => None,
                },
                None => None,
            },
            None => None,
        }
    } else {
        None
    }
}

/// `c` is the coordinates `spec_region_coordinates_at` reads at `p`
pub open spec fn region_coordinates_is(s: Seq<char>, p: int, c: RegionCoordinates) -> bool {
    match spec_region_coordinates_at(s, p) {
        Some((a, b, d, _)) => number_at_is(s, a, c.x) && number_at_is(s, b, c.y) && number_at_is(
            s,
            d,
            c.z,
        ),
        None => false,
    }
}

/// the region coordinates at `p` and the index after them
pub fn region_coordinates_at(s: &Vec<char>, p: usize) -> (r: Option<(RegionCoordinates, usize)>)
    ensures
        match spec_region_coordinates_at(s@, p as int) {
            None => r is None,
            Some((_, _, _, e)) => r matches Some((c, e2)) && e2 == e && region_coordinates_is(
                s@,
                p as int,
                c,
            ) && e <= s@.len(),
        },
{
    let sl = s.len();
    proof {
        reveal_strlit("{");
        reveal_strlit("}");
    }
    if !lit_at_exec(s, p, "{") {
        return None;
    }
    let (x, e1) = match component(s, p + 1, true, false) {
        Some(v) => v,
        None => {
            return None;
        },
    };
    let (y, e2) = match component(s, e1, false, false) {
        Some(v) => v,
        None => {
            return None;
        },
    };
    let (z, e3) = match component(s, e2, false, false) {
        Some(v) => v,
        None => {
            return None;
        },
    };
    let w = skip_ws(s, e3);
    if !lit_at_exec(s, w, "}") {
        return None;
    }
    Some((RegionCoordinates { x, y, z }, w + 1))
}

/// the text of `s` from `a` to `b` is a region name: 2 to 35 characters
/// once trimmed
pub open spec fn spec_region_name_ok(s: Seq<char>, a: int, b: int) -> bool {
    2 <= spec_trim(s.subrange(a, b)).len() <= 35
}

/// the region name written from `a` to `b`, trimmed, if it is one
fn region_name_between(s: &Vec<char>, a: usize, b: usize) -> (r: Option<String>)
    requires
        a <= b <= s@.len(),
    ensures
        r is Some <==> spec_region_name_ok(s@, a as int, b as int),
        r matches Some(n) ==> n@ == spec_trim(s@.subrange(a as int, b as int)),
{
    let t = text_between(s, a, b);
    match crate::region::validate_region_name(t.as_str()) {
        Ok(n) => Some(n),
        Err(_) => None,
    }
}

/// the pieces of a refused rez at `i`, whose reason is `reason`: `(end of
/// the object name, end of the coordinates, end of the parcel name, end of
/// the region name)`
pub open spec fn spec_rez_refused(s: Seq<char>, i: int, reason: Seq<char>) -> Option<
    (int, int, int, int),
> {
    if lit_at(s, i, "Can't rez object '"@) {
        match spec_find(s, i + 18, "' at "@) {
            Some(p) => match spec_region_coordinates_at(s, p + 5) {
                Some((_, _, _, e)) => if lit_at(s, e, " on parcel '"@) {
                    match spec_find(s, e + 12, "' in region "@) {
                        Some(q) => match spec_find(s, q + 12, reason) {
                            Some(r) => if spec_region_name_ok(s, q + 12, r) {
                                Some((p, e, q, r))
                            } else {
                                None
                            },
                            None => None,
                        },
                        None => None,
                    }
                } else {
                    None
                },
                None => None,
            },
            None => None,
        }
    } else {
        None
    }
}

/// `m` is the message of a refused rez read by `spec_rez_refused`, built by
/// `full` (the parcel is full) or not (the owner does not allow it)
pub open spec fn rez_refused_is(s: Seq<char>, i: int, reason: Seq<char>, full: bool, m: SystemMessage) -> bool {
    match spec_rez_refused(s, i, reason) {
        Some((p, e, q, r)) => {
            if full {
                (m matches SystemMessage::RezObjectFailedDueToFullParcel {
                    object_name,
                    parcel_name,
                    attempted_rez_location,
                    region_name,
                } && object_name@ == s.subrange(i + 18, p) && region_coordinates_is(
                    s,
                    p + 5,
                    attempted_rez_location,
                ) && parcel_name@ == s.subrange(e + 12, q) && region_name@ == spec_trim(
                    s.subrange(q + 12, r),
                ))
            } else {
                (m matches SystemMessage::PermissionToRezObjectDenied {
                    object_name,
                    parcel_name,
                    attempted_rez_location,
                    region_name,
                } && object_name@ == s.subrange(i + 18, p) && region_coordinates_is(
                    s,
                    p + 5,
                    attempted_rez_location,
                ) && parcel_name@ == s.subrange(e + 12, q) && region_name@ == spec_trim(
                    s.subrange(q + 12, r),
                ))
            }
        },
        None => false,
    }
}

/// a refused rez: the object (up to `' at `), the coordinates, the parcel
/// (up to `' in region `) and the region (up to `reason`)
fn rez_refused(s: &Vec<char>, i: usize, reason: &str, full: bool) -> (r: Option<SystemMessage>)
    ensures
        r is Some <==> spec_rez_refused(s@, i as int, reason@) is Some,
        r matches Some(m) ==> rez_refused_is(s@, i as int, reason@, full, m),
{
    let sl = s.len();
    proof {
        reveal_strlit("Can't rez object '");
        reveal_strlit("' at ");
        reveal_strlit(" on parcel '");
        reveal_strlit("' in region ");
    }
    if !lit_at_exec(s, i, "Can't rez object '") {
        return None;
    }
    let p = match find_lit(s, i + 18, "' at ") {
        Some(p) => p,
        None => {
            return None;
        },
    };
    let (location, e) = match region_coordinates_at(s, p + 5) {
        Some(x) => x,
        None => {
            return None;
        },
    };
    if !lit_at_exec(s, e, " on parcel '") {
        return None;
    }
    let q = match find_lit(s, e + 12, "' in region ") {
        Some(q) => q,
        None => {
            return None;
        },
    };
    let r = match find_lit(s, q + 12, reason) {
        Some(r) => r,
        None => {
            return None;
        },
    };
    let region_name = match region_name_between(s, q + 12, r) {
        Some(n) => n,
        None => {
            return None;
        },
    };
    let object_name = text_between(s, i + 18, p);
    let parcel_name = text_between(s, e + 12, q);
    if full {
        Some(
            SystemMessage::RezObjectFailedDueToFullParcel {
                object_name,
                parcel_name,
                attempted_rez_location: location,
                region_name,
            },
        )
    } else {
        Some(
            SystemMessage::PermissionToRezObjectDenied {
                object_name,
                parcel_name,
                attempted_rez_location: location,
                region_name,
            },
        )
    }
}

/// `Can't rez object '<object>' at <coordinates> on parcel '<parcel>' in
/// region <region> because the parcel is too full`
pub open spec fn rezzing_object_failed_matches(s: Seq<char>, i: int) -> bool {
    spec_rez_refused(s, i, " because the parcel is too full"@) is Some
}

/// the message read by
/// [`rezzing_object_failed_due_to_full_parcel_message_parser`]
pub open spec fn rezzing_object_failed_is(s: Seq<char>, i: int, m: SystemMessage) -> bool {
    rez_refused_is(s, i, " because the parcel is too full"@, true, m)
}

/// an object that could not be rezzed because the parcel is full
pub fn rezzing_object_failed_due_to_full_parcel_message_parser(s: &Vec<char>, i: usize) -> (r:
    Option<SystemMessage>)
    ensures
        r is Some <==> rezzing_object_failed_matches(s@, i as int),
        r matches Some(m) ==> rezzing_object_failed_is(s@, i as int, m),
{
    rez_refused(s, i, " because the parcel is too full", true)
}

/// `Can't rez object '<object>' at <coordinates> on parcel '<parcel>' in
/// region <region> because the owner of this land does not allow it.  Use
/// the land tool to see land ownership.`
pub open spec fn permission_to_rez_object_denied_matches(s: Seq<char>, i: int) -> bool {
    spec_rez_refused(
        s,
        i,
        " because the owner of this land does not allow it.  Use the land tool to see land ownership."@,
    ) is Some
}

/// the message read by [`permission_to_rez_object_denied_message_parser`]
pub open spec fn permission_to_rez_object_denied_is(s: Seq<char>, i: int, m: SystemMessage) -> bool {
    rez_refused_is(
        s,
        i,
        " because the owner of this land does not allow it.  Use the land tool to see land ownership."@,
        false,
        m,
    )
}

/// an object that you may not rez here
pub fn permission_to_rez_object_denied_message_parser(s: &Vec<char>, i: usize) -> (r: Option<
    SystemMessage,
>)
    ensures
        r is Some <==> permission_to_rez_object_denied_matches(s@, i as int),
        r matches Some(m) ==> permission_to_rez_object_denied_is(s@, i as int, m),
{
    rez_refused(
        s,
        i,
        " because the owner of this land does not allow it.  Use the land tool to see land ownership.",
        false,
    )
}

/// the region part of a permission to take money at `r0`: `(the region
/// name's range if known, index after ` at `)`
pub open spec fn spec_money_region(s: Seq<char>, r0: int) -> Option<(Option<(int, int)>, int)> {
    if lit_at(s, r0, "(unknown region) at "@) {
        Some((None, r0 + 20))
    } else {
        match spec_find(s, r0, " at "@) {
            Some(t) => if spec_region_name_ok(s, r0, t) {
                Some((Some((r0, t)), t + 4))
            } else {
                None
            },
            None => None,
        }
    }
}

/// the position part of a permission to take money at `r1`: the starts of
/// the three numbers if known (written `x, y,z`), and the index after it
pub open spec fn spec_money_position(s: Seq<char>, r1: int) -> Option<(Option<(int, int, int)>, int)> {
    if lit_at(s, r1, "(unknown position)"@) {
        Some((None, r1 + 18))
    } else {
        match spec_decimal_at(s, r1) {
            Some((_, _, _, _, ex)) => if lit_at(s, ex, ", "@) {
                match spec_decimal_at(s, ex + 2) {
                    Some((_, _, _, _, ey)) => if lit_at(s, ey, ","@) {
                        match spec_decimal_at(s, ey + 1) {
                            Some((_, _, _, _, ez)) => Some((Some((r1, ex + 2, ey + 1)), ez)),
                            None => None,
                        }
                    } else {
                        None
                    },
                    None => None,
                }
            } else {
                None
            },
            None => None,
        }
    }
}

/// the pieces of a permission to take money at `i`: `(end of the object
/// name, end of the owner name, region, position)`
pub open spec fn spec_take_money(s: Seq<char>, i: int) -> Option<
    (int, int, Option<(int, int)>, Option<(int, int, int)>),
> {
    if lit_at(s, i, "'"@) {
        match spec_find(s, i + 1, "', an object owned by '"@) {
            Some(p) => match spec_find(s, p + 23, "', located in "@) {
                Some(q) => match spec_money_region(s, q + 14) {
                    Some((region, r1)) => match spec_money_position(s, r1) {
                        Some((position, r2)) => if lit_at(
                            s,
                            r2,
                            ", has been granted permission to: Take Linden dollars (L$) from you."@,
                        ) {
                            Some((p, q, region, position))
                        } else {
                            None
                        },
                        None => None,
                    },
                    None => None,
                },
                None => None,
            },
            None => None,
        }
    } else {
        None
    }
}

/// `'<object>', an object owned by '<owner>', located in <region or
/// (unknown region)> at <x, y,z or (unknown position)>, has been granted
/// permission to: Take Linden dollars (L$) from you.`
pub open spec fn object_granted_permission_to_take_money_matches(s: Seq<char>, i: int) -> bool {
    spec_take_money(s, i) is Some
}

/// the message read by [`object_granted_permission_to_take_money_parser`]
pub open spec fn object_granted_permission_to_take_money_is(
    s: Seq<char>,
    i: int,
    m: SystemMessage,
) -> bool {
    match spec_take_money(s, i) {
        Some((p, q, region, position)) => (m matches SystemMessage::ObjectGrantedPermissionToTakeMoney {
            object_name,
            owner_name,
            object_region,
            object_location,
        } && object_name@ == s.subrange(i + 1, p) && owner_name@ == s.subrange(p + 23, q)
            && match region {
            None => object_region is None,
            Some((a, b)) => object_region matches Some(n) && n@ == spec_trim(s.subrange(a, b)),
        } && match position {
            None => object_location is None,
            Some((x, y, z)) => object_location matches Some(c) && number_at_is(s, x, c.x)
                && number_at_is(s, y, c.y) && number_at_is(s, z, c.z),
        }),
        None => false,
    }
}

/// an object was allowed to take Linden dollars from you: the object, its
/// owner, its region and position when known
pub fn object_granted_permission_to_take_money_parser(s: &Vec<char>, i: usize) -> (r: Option<
    SystemMessage,
>)
    ensures
        r is Some <==> object_granted_permission_to_take_money_matches(s@, i as int),
        r matches Some(m) ==> object_granted_permission_to_take_money_is(s@, i as int, m),
{
    let sl = s.len();
    proof {
        reveal_strlit("'");
        reveal_strlit("', an object owned by '");
        reveal_strlit("', located in ");
        reveal_strlit("(unknown region) at ");
        reveal_strlit(" at ");
        reveal_strlit("(unknown position)");
        reveal_strlit(", ");
        reveal_strlit(",");
    }
    if !lit_at_exec(s, i, "'") {
        return None;
    }
    let p = match find_lit(s, i + 1, "', an object owned by '") {
        Some(p) => p,
        None => {
            return None;
        },
    };
    let q = match find_lit(s, p + 23, "', located in ") {
        Some(q) => q,
        None => {
            return None;
        },
    };
    let r0 = q + 14;
    let (object_region, r1) = if lit_at_exec(s, r0, "(unknown region) at ") {
        (None, r0 + 20)
    } else {
        let t = match find_lit(s, r0, " at ") {
            Some(t) => t,
            None => {
                return None;
            },
        };
        match region_name_between(s, r0, t) {
            Some(n) => (Some(n), t + 4),
            None => {
                return None;
            },
        }
    };
    let (object_location, r2) = if lit_at_exec(s, r1, "(unknown position)") {
        (None, r1 + 18)
    } else {
        let (x, ex) = match decimal_at(s, r1, true) {
            Some(v) => v,
            None => {
                return None;
            },
        };
        if !lit_at_exec(s, ex, ", ") {
            return None;
        }
        let (y, ey) = match decimal_at(s, ex + 2, true) {
            Some(v) => v,
            None => {
                return None;
            },
        };
        if !lit_at_exec(s, ey, ",") {
            return None;
        }
        let (z, ez) = match decimal_at(s, ey + 1, true) {
            Some(v) => v,
            None => {
                return None;
            },
        };
        (Some(RegionCoordinates { x, y, z }), ez)
    };
    if !lit_at_exec(s, r2, ", has been granted permission to: Take Linden dollars (L$) from you.") {
        return None;
    }
    Some(
        SystemMessage::ObjectGrantedPermissionToTakeMoney {
            object_name: text_between(s, i + 1, p),
            owner_name: text_between(s, p + 23, q),
            object_region,
            object_location,
        },
    )
}

/// `Teleport completed from http://maps.secondlife.com/secondlife/` and the
/// location the teleport started at
pub open spec fn teleport_completed_matches(s: Seq<char>, i: int) -> bool {
    lit_at(s, i, "Teleport completed from http://maps.secondlife.com/secondlife/"@)
        && spec_location_at(s, i + 62) is Some
}

/// the message read by [`teleport_completed_message_parser`]
pub open spec fn teleport_completed_is(s: Seq<char>, i: int, m: SystemMessage) -> bool {
    teleport_completed_matches(s, i) && (m matches SystemMessage::TeleportCompleted { origin }
        && location_is(s, i + 62, origin))
}

/// a completed teleport and where it started
pub fn teleport_completed_message_parser(s: &Vec<char>, i: usize) -> (r: Option<SystemMessage>)
    ensures
        r is Some <==> teleport_completed_matches(s@, i as int),
        r matches Some(m) ==> teleport_completed_is(s@, i as int, m),
{
    let sl = s.len();
    proof {
        reveal_strlit("Teleport completed from http://maps.secondlife.com/secondlife/");
    }
    if !lit_at_exec(s, i, "Teleport completed from http://maps.secondlife.com/secondlife/") {
        return None;
    }
    match location_at(s, i + 62) {
        Some((origin, _)) => Some(SystemMessage::TeleportCompleted { origin }),
        None => None,
    }
}

/// the marker that ends the name of a given object at `t`: an optional
/// `</nolink>'`, whitespace and `( http://slurl.com/secondlife/`; the
/// index after it
pub open spec fn spec_give_marker(s: Seq<char>, t: int) -> Option<int> {
    let t1 = if lit_at(s, t, "</nolink>'"@) {
        t + 10
    } else {
        t
    };
    let t2 = spec_skip_ws(s, t1);
    if lit_at(s, t2, "( http://slurl.com/secondlife/"@) {
        Some(t2 + 30)
    } else {
        None
    }
}

/// the first index at or after `t` where the marker ending a given object's
/// name starts
pub open spec fn spec_first_give_marker(s: Seq<char>, t: int) -> Option<int>
    decreases s.len() - t,
{
    if t < 0 || t > s.len() {
        None
    } else if spec_give_marker(s, t) is Some {
        Some(t)
    } else if t == s.len() {
        None
    } else {
        spec_first_give_marker(s, t + 1)
    }
}

/// the marker ending a given object's name at `t`
fn give_marker(s: &Vec<char>, t: usize) -> (r: Option<usize>)
    requires
        t <= s@.len(),
    ensures
        crate::scan::opt_int(r) == spec_give_marker(s@, t as int),
        r matches Some(e) ==> e <= s@.len(),
{
    let sl = s.len();
    proof {
        reveal_strlit("</nolink>'");
        reveal_strlit("( http://slurl.com/secondlife/");
    }
    let t1 = if lit_at_exec(s, t, "</nolink>'") {
        t + 10
    } else {
        t
    };
    let t2 = skip_ws(s, t1);
    if lit_at_exec(s, t2, "( http://slurl.com/secondlife/") {
        Some(t2 + 30)
    } else {
        None
    }
}

/// the first index at or after `t` where the marker ending a given object's
/// name starts
fn first_give_marker(s: &Vec<char>, t: usize) -> (r: Option<usize>)
    requires
        t <= s@.len(),
    ensures
        crate::scan::opt_int(r) == spec_first_give_marker(s@, t as int),
        r matches Some(p) ==> t <= p <= s@.len() && spec_give_marker(s@, p as int) is Some,
{
    let mut p = t;
    loop
        invariant
            t <= p <= s@.len(),
            spec_first_give_marker(s@, t as int) == spec_first_give_marker(s@, p as int),
        decreases s@.len() - p,
    {
        if give_marker(s, p).is_some() {
            return Some(p);
        }
        if p == s.len() {
            return None;
        }
        p = p + 1;
    }
}

/// the pieces of an object giving an object at `i`: `(end of the giving
/// object's name, whether the owner is a group, start of the given
/// object's name, its end, start of the location)`
pub open spec fn spec_object_gave(s: Seq<char>, i: int) -> Option<(int, bool, int, int, int)> {
    match spec_find(s, i, " owned by "@) {
        Some(p) => match crate::scan::spec_owner_uri_at(s, p + 10) {
            Some((g, e)) => {
                let w = spec_skip_ws(s, e);
                let g2 = if lit_at(s, w + 9, "<nolink>'"@) {
                    w + 18
                } else {
                    w + 9
                };
                if lit_at(s, w, "gave you "@) {
                    match spec_first_give_marker(s, g2) {
                        Some(t) => match spec_location_at(s, spec_give_marker(s, t).unwrap()) {
                            Some((_, _, _, _, q)) => if lit_at(s, q, " )."@) {
                                Some((p, g, g2, t, spec_give_marker(s, t).unwrap()))
                            } else {
                                None
                            },
                            None => None,
                        },
                        None => None,
                    }
                } else {
                    None
                }
            },
            None => None,
        },
        None => None,
    }
}

/// `<object> owned by <owner link> gave you <object> ( http://slurl.com/secondlife/<location> ).`
/// (the given object's name may be wrapped in `<nolink>'` and `</nolink>'`)
pub open spec fn object_gave_object_matches(s: Seq<char>, i: int) -> bool {
    0 <= i <= s.len() && spec_object_gave(s, i) is Some
}

/// the message read by [`object_gave_object_message_parser`]
pub open spec fn object_gave_object_is(s: Seq<char>, i: int, m: SystemMessage) -> bool {
    object_gave_object_matches(s, i) && {
        let (p, g, a, b, l) = spec_object_gave(s, i).unwrap();
        (m matches SystemMessage::ObjectGaveObject {
            giving_object_name,
            giving_object_location,
            giving_object_owner,
            given_object_name,
        } && giving_object_name@ == s.subrange(i, p) && owner_is(
            giving_object_owner,
            g,
            s.subrange(p + 34, p + 70),
        ) && given_object_name@ == s.subrange(a, b) && location_is(s, l, giving_object_location))
    }
}

/// an object gave you an object: the giving object (up to ` owned by `),
/// its owner, the given object and where the giving object is
pub fn object_gave_object_message_parser(s: &Vec<char>, i: usize) -> (r: Option<SystemMessage>)
    ensures
        r is Some <==> object_gave_object_matches(s@, i as int),
        r matches Some(m) ==> object_gave_object_is(s@, i as int, m),
{
    let sl = s.len();
    proof {
        reveal_strlit(" owned by ");
        reveal_strlit("gave you ");
        reveal_strlit("<nolink>'");
        reveal_strlit(" ).");
    }
    if i > sl {
        return None;
    }
    let p = match find_lit(s, i, " owned by ") {
        Some(p) => p,
        None => {
            return None;
        },
    };
    let (giving_object_owner, e) = match owner_uri_at(s, p + 10) {
        Some(x) => x,
        None => {
            return None;
        },
    };
    let w = skip_ws(s, e);
    if !lit_at_exec(s, w, "gave you ") {
        return None;
    }
    let g2 = if lit_at_exec(s, w + 9, "<nolink>'") {
        w + 18
    } else {
        w + 9
    };
    let t = match first_give_marker(s, g2) {
        Some(t) => t,
        None => {
            return None;
        },
    };
    let l = match give_marker(s, t) {
        Some(l) => l,
        None => {
            return None;
        },
    };
    let (giving_object_location, q) = match location_at(s, l) {
        Some(x) => x,
        None => {
            return None;
        },
    };
    if !lit_at_exec(s, q, " ).") {
        return None;
    }
    Some(
        SystemMessage::ObjectGaveObject {
            giving_object_name: text_between(s, i, p),
            giving_object_location,
            giving_object_owner,
            given_object_name: text_between(s, g2, t),
        },
    )
}

/// the pieces of an object giving a folder at `i`: `(end of the link,
/// start of the label, end of the label, end of the folder name)`
pub open spec fn spec_object_gave_folder(s: Seq<char>, i: int) -> Option<(int, int, int, int)> {
    if lit_at(s, i, "An object named ["@) {
        match spec_objectim_at(s, i + 17) {
            Some((_, _, _, _, _, _, _, _, u)) => {
                let w = spec_skip_ws(s, u);
                match spec_find(s, w, "] gave you this folder: '"@) {
                    Some(p) => match spec_find(s, p + 25, "'"@) {
                        Some(q) => Some((u, w, p, q)),
                        None => None,
                    },
                    None => None,
                }
            },
            None => None,
        }
    } else {
        None
    }
}

/// `An object named [<object link> <label>] gave you this folder: '<folder>'`
pub open spec fn object_gave_folder_matches(s: Seq<char>, i: int) -> bool {
    spec_object_gave_folder(s, i) is Some
}

/// the message read by [`object_gave_folder_message_parser`]
pub open spec fn object_gave_folder_is(s: Seq<char>, i: int, m: SystemMessage) -> bool {
    match spec_object_gave_folder(s, i) {
        Some((u, w, p, q)) => {
            let (k, n, g, o, rn, x, y, z, _) = spec_objectim_at(s, i + 17).unwrap();
            (m matches SystemMessage::ObjectGaveFolder {
                giving_object_key,
                giving_object_name,
                giving_object_owner,
                giving_object_location,
                giving_object_link_label,
                folder_name,
            } && giving_object_key.0@ == k && giving_object_name@ == n && owner_is(
                giving_object_owner,
                g,
                o,
            ) && giving_object_location.region_name@ == rn && giving_object_location.x == x
                && giving_object_location.y == y && giving_object_location.z == z
                && giving_object_link_label@ == s.subrange(w, p) && folder_name@ == s.subrange(
                p + 25,
                q,
            ))
        },
        None => false,
    }
}

/// an object gave you a folder: the object's link, the link's label and
/// the folder's name
pub fn object_gave_folder_message_parser(s: &Vec<char>, i: usize) -> (r: Option<SystemMessage>)
    ensures
        r is Some <==> object_gave_folder_matches(s@, i as int),
        r matches Some(m) ==> object_gave_folder_is(s@, i as int, m),
{
    let sl = s.len();
    proof {
        reveal_strlit("An object named [");
        reveal_strlit("] gave you this folder: '");
    }
    if !lit_at_exec(s, i, "An object named [") {
        return None;
    }
    let (key, name, group, owner, location, u) = match objectim_at(s, i + 17) {
        Some(x) => x,
        None => {
            return None;
        },
    };
    let w = skip_ws(s, u);
    let p = match find_lit(s, w, "] gave you this folder: '") {
        Some(p) => p,
        None => {
            return None;
        },
    };
    let q = match find_lit(s, p + 25, "'") {
        Some(q) => q,
        None => {
            return None;
        },
    };
    let giving_object_owner = if group {
        OwnerKey::Group(GroupKey(owner))
    } else {
        OwnerKey::Agent(AgentKey(owner))
    };
    Some(
        SystemMessage::ObjectGaveFolder {
            giving_object_key: crate::scan::ObjectKey(key),
            giving_object_name: name,
            giving_object_owner,
            giving_object_location: location,
            giving_object_link_label: text_between(s, w, p),
            folder_name: text_between(s, p + 25, q),
        },
    )
}

/// the pieces of a declined object at `i`: `(end of the object name, end of
/// the location)`
pub open spec fn spec_declined(s: Seq<char>, i: int) -> Option<(int, int)> {
    if lit_at(s, i, "You decline '"@) {
        match spec_find(s, i + 13, "'  ( http://slurl.com/secondlife/"@) {
            Some(p) => match spec_location_at(s, p + 33) {
                Some((_, _, _, _, q)) => if lit_at(s, q, " ) from "@) {
                    Some((p, q))
                } else {
                    None
                },
                None => None,
            },
            None => None,
        }
    } else {
        None
    }
}

/// `t` without one `.` at its end
pub open spec fn spec_strip_dot(t: Seq<char>) -> Seq<char> {
    if t.len() > 0 && t.last() == '.' {
        t.drop_last()
    } else {
        t
    }
}

/// `You decline '<object>'  ( http://slurl.com/secondlife/<location> )
/// from <giver>`
pub open spec fn declined_given_object_matches(s: Seq<char>, i: int) -> bool {
    spec_declined(s, i) is Some
}

/// the message read by [`declined_given_object_message_parser`]: the
/// giver's name is the rest of the text without a final `.`
pub open spec fn declined_given_object_is(s: Seq<char>, i: int, m: SystemMessage) -> bool {
    match spec_declined(s, i) {
        Some((p, q)) => (m matches SystemMessage::DeclinedGivenObject {
            object_name,
            giver_location,
            giver_name,
        } && object_name@ == s.subrange(i + 13, p) && location_is(s, p + 33, giver_location)
            && giver_name@ == spec_strip_dot(s.subrange(q + 8, s.len() as int))),
        None => false,
    }
}

/// you declined an object: its name, where the giver is and the giver's
/// name
pub fn declined_given_object_message_parser(s: &Vec<char>, i: usize) -> (r: Option<SystemMessage>)
    ensures
        r is Some <==> declined_given_object_matches(s@, i as int),
        r matches Some(m) ==> declined_given_object_is(s@, i as int, m),
{
    let sl = s.len();
    proof {
        reveal_strlit("You decline '");
        reveal_strlit("'  ( http://slurl.com/secondlife/");
        reveal_strlit(" ) from ");
    }
    if !lit_at_exec(s, i, "You decline '") {
        return None;
    }
    let p = match find_lit(s, i + 13, "'  ( http://slurl.com/secondlife/") {
        Some(p) => p,
        None => {
            return None;
        },
    };
    let (giver_location, q) = match location_at(s, p + 33) {
        Some(x) => x,
        None => {
            return None;
        },
    };
    if !lit_at_exec(s, q, " ) from ") {
        return None;
    }
    let end = if sl > q + 8 && s[sl - 1] == '.' {
        sl - 1
    } else {
        sl
    };
    proof {
        let t = s@.subrange(q + 8, sl as int);
        if t.len() > 0 && t.last() == '.' {
            assert(t.drop_last() =~= s@.subrange(q + 8, sl - 1));
        }
    }
    Some(
        SystemMessage::DeclinedGivenObject {
            object_name: text_between(s, i + 13, p),
            giver_location,
            giver_name: text_between(s, q + 8, end),
        },
    )
}

/// the pieces of a returned object at `i`: `(end of the object name, end of
/// the parcel name, end of the region name, x, end of x, y, end of y,
/// whether the parcel returned it automatically)`
pub open spec fn spec_returned(s: Seq<char>, i: int) -> Option<(int, int, int, int, int, int, int, bool)> {
    if lit_at(s, i, "Your object '"@) {
        match spec_find(
            s,
            i + 13,
            "' has been returned to your inventory Lost and Found folder from parcel '"@,
        ) {
            Some(p) => match spec_find(s, p + 73, "' at "@) {
                Some(q) => match spec_region_name_at(s, q + 5) {
                    Some((_, r)) => match spec_signed_at(s, spec_skip_ws(s, r), -32768, 32767) {
                        Some((x, ex)) => if lit_at(s, ex, ", "@) {
                            match spec_signed_at(s, ex + 2, -32768, 32767) {
                                Some((y, ey)) => if lit_at(s, ey, " due to parcel auto return."@) {
                                    Some((p, q, r, x, ex, y, ey, true))
                                } else if lit_at(s, ey, "."@) {
                                    Some((p, q, r, x, ex, y, ey, false))
                                } else {
                                    None
                                },
                                None => None,
                            }
                        } else {
                            None
                        },
                        None => None,
                    },
                    None => None,
                },
                None => None,
            },
            None => None,
        }
    } else {
        None
    }
}

/// `Your object '<object>' has been returned to your inventory Lost and
/// Found folder from parcel '<parcel>' at <region> <x>, <y>` and then `
/// due to parcel auto return.` or `.`
pub open spec fn your_object_has_been_returned_matches(s: Seq<char>, i: int) -> bool {
    spec_returned(s, i) is Some
}

/// the message read by [`your_object_has_been_returned_message_parser`]:
/// the location is at height 0
pub open spec fn your_object_has_been_returned_is(s: Seq<char>, i: int, m: SystemMessage) -> bool {
    match spec_returned(s, i) {
        Some((p, q, _, x, _, y, _, auto)) => (m matches SystemMessage::YourObjectHasBeenReturned {
            object_name,
            parcel_name,
            location,
            auto_return,
        } && object_name@ == s.subrange(i + 13, p) && parcel_name@ == s.subrange(p + 73, q)
            && location.region_name@ == spec_region_name_at(s, q + 5).unwrap().0 && location.x == x
            && location.y == y && location.z == 0 && auto_return == auto),
        None => false,
    }
}

/// your object was returned to your Lost and Found folder: the object, the
/// parcel, where it was and whether the parcel returned it automatically
pub fn your_object_has_been_returned_message_parser(s: &Vec<char>, i: usize) -> (r: Option<
    SystemMessage,
>)
    ensures
        r is Some <==> your_object_has_been_returned_matches(s@, i as int),
        r matches Some(m) ==> your_object_has_been_returned_is(s@, i as int, m),
{
    let sl = s.len();
    proof {
        reveal_strlit("Your object '");
        reveal_strlit("' has been returned to your inventory Lost and Found folder from parcel '");
        reveal_strlit("' at ");
        reveal_strlit(", ");
    }
    if !lit_at_exec(s, i, "Your object '") {
        return None;
    }
    let p = match find_lit(
        s,
        i + 13,
        "' has been returned to your inventory Lost and Found folder from parcel '",
    ) {
        Some(p) => p,
        None => {
            return None;
        },
    };
    let q = match find_lit(s, p + 73, "' at ") {
        Some(q) => q,
        None => {
            return None;
        },
    };
    let (region_name, r) = match region_name_at(s, q + 5) {
        Some(x) => x,
        None => {
            return None;
        },
    };
    let (x, ex) = match signed_at(s, skip_ws(s, r), -32768, 32767) {
        Some(v) => v,
        None => {
            return None;
        },
    };
    if !lit_at_exec(s, ex, ", ") {
        return None;
    }
    let (y, ey) = match signed_at(s, ex + 2, -32768, 32767) {
        Some(v) => v,
        None => {
            return None;
        },
    };
    let auto_return = if lit_at_exec(s, ey, " due to parcel auto return.") {
        true
    } else if lit_at_exec(s, ey, ".") {
        false
    } else {
        return None;
    };
    Some(
        SystemMessage::YourObjectHasBeenReturned {
            object_name: text_between(s, i + 13, p),
            parcel_name: text_between(s, p + 73, q),
            location: UnconstrainedLocation { region_name, x: x as i16, y: y as i16, z: 0 },
            auto_return,
        },
    )
}

} // verus!
