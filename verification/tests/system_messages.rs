use sl_map_tools::chat_log::{chat_log_line_parser, ChatLogEvent};
use sl_map_tools::extended_info::extended_script_info_message_parser;
use sl_map_tools::message_rules::{
    avatar_gave_object_message_parser, banned_from_parcel_message_parser,
    chat_message_still_being_processed_message_parser, declined_given_object_message_parser,
    dice_roll_message_parser, draw_distance_set_message_parser, firestorm_message_parser,
    grid_status_event_message_parser, link_failed_due_to_piece_distance_message_parser,
    object_gave_object_message_parser, object_granted_permission_to_take_money_parser,
    offered_calling_card_message_parser, permission_to_rez_object_denied_message_parser,
    received_payment_message_parser, region_script_count_change_message_parser,
    renamed_avatar_message_parser, rezzing_object_failed_due_to_full_parcel_message_parser,
    script_info_message_parser, sent_payment_message_parser, simulator_version_message_parser,
    snapshot_saved_message_parser, teleport_completed_message_parser, texture_info_message_parser,
    unable_to_load_gesture_message_parser, you_paid_for_object_message_parser,
    you_paid_to_join_group_message_parser, your_object_has_been_returned_message_parser,
};
use sl_map_tools::scan::{Decimal, OwnerKey};
use sl_map_tools::system_messages::{
    bridge_message_parser, system_message_parser, PathfindingType, SystemMessage,
};

fn chars(s: &str) -> Vec<char> {
    s.chars().collect()
}

/// the value of a decimal number as written
fn value(d: &Decimal) -> f32 {
    let text = format!(
        "{}{}.{}",
        if d.negative { "-" } else { "" },
        d.whole,
        d.fraction.clone().unwrap_or_else(|| "0".to_owned())
    );
    text.parse().unwrap_or(f32::NAN)
}

const AGENT: &str = "secondlife:///app/agent/0f1e2d3c-4b5a-6978-8796-a5b4c3d2e1f0/about";
const AGENT_KEY: &str = "0f1e2d3c-4b5a-6978-8796-a5b4c3d2e1f0";
const GROUP: &str = "secondlife:///app/group/11111111-2222-3333-4444-555555555555/inspect";
const GROUP_KEY: &str = "11111111-2222-3333-4444-555555555555";

#[test]
fn test_teleport_completed() {
    let s = chars("Teleport completed from http://maps.secondlife.com/secondlife/Fudo/30/169/912");
    match teleport_completed_message_parser(&s, 0) {
        Some(SystemMessage::TeleportCompleted { origin }) => {
            assert_eq!(origin.region_name, "Fudo");
            assert_eq!((origin.x, origin.y, origin.z), (30, 169, 912));
        },
        other => panic!("unexpected {other:?}"),
    }
}

#[test]
fn test_teleport_completed_extra_short() {
    let s = chars("Teleport completed from http://maps.secondlife.com/secondlife/AA/78/83/26");
    match teleport_completed_message_parser(&s, 0) {
        Some(SystemMessage::TeleportCompleted { origin }) => {
            assert_eq!(origin.region_name, "AA");
            assert_eq!((origin.x, origin.y, origin.z), (78, 83, 26));
        },
        other => panic!("unexpected {other:?}"),
    }
}

#[test]
fn test_cant_rez_object() {
    let s = chars("Can't rez object 'Foo2' at { 63.0486, 45.2515, 1501.08 } on parcel 'The Foo Bar' in region Fudo because the owner of this land does not allow it.  Use the land tool to see land ownership.");
    match permission_to_rez_object_denied_message_parser(&s, 0) {
        Some(SystemMessage::PermissionToRezObjectDenied {
            object_name,
            parcel_name,
            attempted_rez_location,
            region_name,
        }) => {
            assert_eq!(object_name, "Foo2");
            assert_eq!(parcel_name, "The Foo Bar");
            assert_eq!(region_name, "Fudo");
            assert_eq!(value(&attempted_rez_location.x), 63.0486f32);
            assert_eq!(value(&attempted_rez_location.y), 45.2515f32);
            assert_eq!(value(&attempted_rez_location.z), 1501.08f32);
        },
        other => panic!("unexpected {other:?}"),
    }
}

#[test]
fn teleport_with_url_encoded_region() {
    let s = chars("Teleport completed from http://maps.secondlife.com/secondlife/Da%20Boom/-3/17/25");
    match teleport_completed_message_parser(&s, 0) {
        Some(SystemMessage::TeleportCompleted { origin }) => {
            assert_eq!(origin.region_name, "Da Boom");
            assert_eq!((origin.x, origin.y, origin.z), (-3, 17, 25));
        },
        other => panic!("unexpected {other:?}"),
    }
    assert!(teleport_completed_message_parser(&chars("Teleport completed from somewhere"), 0).is_none());
}

#[test]
fn rez_refused_for_a_full_parcel() {
    let s = chars("Can't rez object 'Box' at { -1, 2.5,3 } on parcel 'Lot' in region  Some Sim  because the parcel is too full");
    match rezzing_object_failed_due_to_full_parcel_message_parser(&s, 0) {
        Some(SystemMessage::RezObjectFailedDueToFullParcel { region_name, attempted_rez_location, .. }) => {
            assert_eq!(region_name, "Some Sim");
            assert!(attempted_rez_location.x.negative);
            assert_eq!(attempted_rez_location.x.whole, "1");
            assert_eq!(attempted_rez_location.y.fraction.as_deref(), Some("5"));
        },
        other => panic!("unexpected {other:?}"),
    }
    // a region name of one character is refused
    let s = chars("Can't rez object 'Box' at { 1, 2, 3 } on parcel 'Lot' in region X because the parcel is too full");
    assert!(rezzing_object_failed_due_to_full_parcel_message_parser(&s, 0).is_none());
}

#[test]
fn snapshots() {
    match snapshot_saved_message_parser(&chars("Snapshot saved: C:\\pics\\a.png"), 0) {
        Some(SystemMessage::SavedSnapshot { filename }) => assert_eq!(filename, "C:\\pics\\a.png"),
        other => panic!("unexpected {other:?}"),
    }
    match snapshot_saved_message_parser(&chars("Failed to save snapshot to /tmp/x: Directory does not exist."), 0) {
        Some(SystemMessage::FailedToSaveSnapshotDueToMissingDestinationFolder { folder }) => assert_eq!(folder, "/tmp/x"),
        other => panic!("unexpected {other:?}"),
    }
    match snapshot_saved_message_parser(&chars("Failed to save snapshot to /tmp/y: Disk is full. 2048KB is required but only 512KB is free."), 0) {
        Some(SystemMessage::FailedToSaveSnapshotDueToDiskSpace { folder, required_disk_space_kib, free_disk_space_kib }) => {
            assert_eq!(folder, "/tmp/y");
            assert_eq!((required_disk_space_kib, free_disk_space_kib), (2048, 512));
        },
        other => panic!("unexpected {other:?}"),
    }
    assert!(snapshot_saved_message_parser(&chars("Failed to save snapshot to /tmp/z"), 0).is_none());
}

#[test]
fn draw_distance() {
    match draw_distance_set_message_parser(&chars("Draw Distance set to 256.5 m."), 0) {
        Some(SystemMessage::DrawDistanceSet { distance }) => {
            assert_eq!(distance.whole, "256");
            assert_eq!(distance.fraction.as_deref(), Some("5"));
        },
        other => panic!("unexpected {other:?}"),
    }
    assert!(draw_distance_set_message_parser(&chars("Draw Distance set to far."), 0).is_none());
}

#[test]
fn payments() {
    let s = chars(&format!("You paid {AGENT} L$250 for Fancy Hat."));
    match you_paid_for_object_message_parser(&s, 0) {
        Some(SystemMessage::YouPaidForObject { seller: OwnerKey::Agent(k), amount, object_name }) => {
            assert_eq!(k.0, AGENT_KEY);
            assert_eq!(amount.0, 250);
            assert_eq!(object_name, "Fancy Hat");
        },
        other => panic!("unexpected {other:?}"),
    }
    let s = chars(&format!("You paid {GROUP} L$10 to join a group."));
    match you_paid_to_join_group_message_parser(&s, 0) {
        Some(SystemMessage::YouPaidToJoinGroup { joined_group, join_fee }) => {
            assert_eq!(joined_group.0, GROUP_KEY);
            assert_eq!(join_fee.0, 10);
        },
        other => panic!("unexpected {other:?}"),
    }
    let s = chars(&format!("You paid {GROUP} L$5: for the party"));
    match sent_payment_message_parser(&s, 0) {
        Some(SystemMessage::SentPayment { recipient_key: OwnerKey::Group(k), amount, message }) => {
            assert_eq!(k.0, GROUP_KEY);
            assert_eq!(amount.0, 5);
            assert_eq!(message.as_deref(), Some("for the party"));
        },
        other => panic!("unexpected {other:?}"),
    }
    let s = chars(&format!("{AGENT} paid you L$1."));
    match received_payment_message_parser(&s, 0) {
        Some(SystemMessage::ReceivedPayment { sender_key: OwnerKey::Agent(k), amount, message }) => {
            assert_eq!(k.0, AGENT_KEY);
            assert_eq!(amount.0, 1);
            assert!(message.is_none());
        },
        other => panic!("unexpected {other:?}"),
    }
    // an upper-case UUID is not a key, an amount must fit in 64 bits
    let s = chars("You paid secondlife:///app/agent/0F1E2D3C-4B5A-6978-8796-A5B4C3D2E1F0/about L$1.");
    assert!(sent_payment_message_parser(&s, 0).is_none());
    let s = chars(&format!("You paid {AGENT} L$99999999999999999999."));
    assert!(sent_payment_message_parser(&s, 0).is_none());
}

#[test]
fn permission_to_take_money() {
    let s = chars("'Vendor', an object owned by 'Bob Resident', located in Fudo at 12.5, 30,22, has been granted permission to: Take Linden dollars (L$) from you.");
    match object_granted_permission_to_take_money_parser(&s, 0) {
        Some(SystemMessage::ObjectGrantedPermissionToTakeMoney { object_name, owner_name, object_region, object_location }) => {
            assert_eq!(object_name, "Vendor");
            assert_eq!(owner_name, "Bob Resident");
            assert_eq!(object_region.as_deref(), Some("Fudo"));
            let c = object_location.expect("a position");
            assert_eq!((value(&c.x), value(&c.y), value(&c.z)), (12.5, 30.0, 22.0));
        },
        other => panic!("unexpected {other:?}"),
    }
    let s = chars("'V', an object owned by 'B', located in (unknown region) at (unknown position), has been granted permission to: Take Linden dollars (L$) from you.");
    match object_granted_permission_to_take_money_parser(&s, 0) {
        Some(SystemMessage::ObjectGrantedPermissionToTakeMoney { object_region: None, object_location: None, .. }) => {},
        other => panic!("unexpected {other:?}"),
    }
}

#[test]
fn names_and_texts() {
    match offered_calling_card_message_parser(&chars("You have offered a calling card to Alice Resident."), 0) {
        Some(SystemMessage::OfferedCallingCard { recipient_avatar_name }) => assert_eq!(recipient_avatar_name, "Alice Resident"),
        other => panic!("unexpected {other:?}"),
    }
    match unable_to_load_gesture_message_parser(&chars("Unable to load gesture Wave.v2."), 0) {
        Some(SystemMessage::UnableToLoadGesture { gesture_name }) => assert_eq!(gesture_name, "Wave.v2"),
        other => panic!("unexpected {other:?}"),
    }
    match renamed_avatar_message_parser(&chars("Old Name is now known as  New Name."), 0) {
        Some(SystemMessage::RenamedAvatar { old_name, new_name }) => {
            assert_eq!(old_name, "Old Name");
            assert_eq!(new_name, "New Name");
        },
        other => panic!("unexpected {other:?}"),
    }
    match avatar_gave_object_message_parser(&chars("A group member named Bob gave you a box."), 0) {
        Some(SystemMessage::AvatarGaveObject { is_group_member, giving_avatar_name, given_object_name }) => {
            assert!(is_group_member);
            assert_eq!(giving_avatar_name, "Bob");
            assert_eq!(given_object_name, "a box");
        },
        other => panic!("unexpected {other:?}"),
    }
    let s = chars("The region you have entered is running a different simulator version. Current simulator: 2024.1\n Previous simulator: 2023.9");
    match simulator_version_message_parser(&s, 0) {
        Some(SystemMessage::SimulatorVersion { previous_region_simulator_version, current_region_simulator_version }) => {
            assert_eq!(current_region_simulator_version, "2024.1");
            assert_eq!(previous_region_simulator_version, "2023.9");
        },
        other => panic!("unexpected {other:?}"),
    }
    match firestorm_message_parser(&chars("Firestorm Tip! Press F1."), 0) {
        Some(SystemMessage::FirestormMessage { message_type, message }) => {
            assert_eq!(message_type, "Tip");
            assert_eq!(message, " Press F1.");
        },
        other => panic!("unexpected {other:?}"),
    }
}

#[test]
fn counts_and_dice() {
    match region_script_count_change_message_parser(&chars("Total scripts in region dropped from 120 to 100 (-20)."), 0) {
        Some(SystemMessage::ScriptCountChanged { previous_script_count, current_script_count, change }) => {
            assert_eq!((previous_script_count, current_script_count, change), (120, 100, -20));
        },
        other => panic!("unexpected {other:?}"),
    }
    assert!(region_script_count_change_message_parser(&chars("Total scripts in region jumped from 1 to 99999999999 (+3)."), 0).is_none());
    match link_failed_due_to_piece_distance_message_parser(&chars("Link failed -- Unable to link 3 of the 7 selected pieces - pieces are too far apart."), 0) {
        Some(SystemMessage::LinkFailedDueToPieceDistance { link_failed_pieces, total_selected_pieces }) => {
            assert_eq!((link_failed_pieces, total_selected_pieces), (Some(3), Some(7)));
        },
        other => panic!("unexpected {other:?}"),
    }
    match link_failed_due_to_piece_distance_message_parser(&chars("Link failed -- Unable to link any pieces - pieces are too far apart."), 0) {
        Some(SystemMessage::LinkFailedDueToPieceDistance { link_failed_pieces: None, total_selected_pieces: None }) => {},
        other => panic!("unexpected {other:?}"),
    }
    match dice_roll_message_parser(&chars("#2 1d6: 4."), 0) {
        Some(SystemMessage::DiceRollResult { roll_number, dice_faces, roll_result }) => {
            assert_eq!((roll_number, dice_faces, roll_result), (2, 6, 4));
        },
        other => panic!("unexpected {other:?}"),
    }
    match dice_roll_message_parser(&chars("Total result for 3d20: 31."), 0) {
        Some(SystemMessage::DiceRollResultSum { roll_count, dice_faces, result_sum }) => {
            assert_eq!((roll_count, dice_faces, result_sum), (3, 20, 31));
        },
        other => panic!("unexpected {other:?}"),
    }
    match banned_from_parcel_message_parser(&chars("You have been banned for 15 minutes"), 0) {
        Some(SystemMessage::BannedFromParcelTemporarily { ban_duration_minutes }) => assert_eq!(ban_duration_minutes, 15),
        other => panic!("unexpected {other:?}"),
    }
    assert!(matches!(banned_from_parcel_message_parser(&chars("You have been banned indefinitely"), 0), Some(SystemMessage::BannedFromParcelIndefinitely)));
}

#[test]
fn script_and_texture_info() {
    let s = chars("Script info: 'Door': [2/3] running scripts, 192 KB allowed memory size limit, 0.012 ms of CPU time consumed.");
    match script_info_message_parser(&s, 0) {
        Some(SystemMessage::ScriptInfo { name, running_scripts, total_scripts, allowed_memory_size_limit_kb, cpu_time_consumed_ms }) => {
            assert_eq!(name, "Door");
            assert_eq!((running_scripts, total_scripts, allowed_memory_size_limit_kb), (2, 3, 192));
            assert_eq!(value(&cpu_time_consumed_ms), 0.012);
        },
        other => panic!("unexpected {other:?}"),
    }
    match texture_info_message_parser(&chars("1024x512 alpha on face 3"), 0) {
        Some(SystemMessage::TextureInfoForFace { face_number, texture_width, texture_height, texture_type }) => {
            assert_eq!((face_number, texture_width, texture_height), (3, 1024, 512));
            assert_eq!(texture_type, "alpha");
        },
        other => panic!("unexpected {other:?}"),
    }
    match texture_info_message_parser(&chars("Texture info for: Chair\nmore"), 0) {
        Some(SystemMessage::TextureInfoForObject { object_name }) => assert_eq!(object_name, "Chair"),
        other => panic!("unexpected {other:?}"),
    }
    assert!(texture_info_message_parser(&chars("70000x2 opaque on face 1"), 0).is_none());
}

#[test]
fn grid_status_and_processing_notices() {
    let s = chars("[ Login issues ] THIS IS A SCHEDULED EVENT We are looking into it. [ https://status.secondlifegrid.net/incidents/abc123 ]");
    match grid_status_event_message_parser(&s, 0) {
        Some(SystemMessage::GridStatusEvent { title, scheduled, body, incident_url }) => {
            assert_eq!(title, "Login issues");
            assert!(scheduled);
            assert_eq!(body, "We are looking into it.");
            assert_eq!(incident_url, "https://status.secondlifegird.net/incidents/abc123");
        },
        other => panic!("unexpected {other:?}"),
    }
    let s = chars("The message sent to Builders is still being processed.\n If the message does not appear in the next few minutes, it may have been dropped by the server.");
    match chat_message_still_being_processed_message_parser(&s, 0) {
        Some(SystemMessage::GroupChatMessageStillBeingProcessed { group_name }) => assert_eq!(group_name, "Builders"),
        other => panic!("unexpected {other:?}"),
    }
}

#[test]
fn given_and_returned_objects() {
    let s = chars(&format!("Gift Box owned by {AGENT} gave you <nolink>'Hat</nolink>' ( http://slurl.com/secondlife/Fudo/10/20/30 )."));
    match object_gave_object_message_parser(&s, 0) {
        Some(SystemMessage::ObjectGaveObject { giving_object_name, giving_object_location, giving_object_owner: OwnerKey::Agent(k), given_object_name }) => {
            assert_eq!(giving_object_name, "Gift Box");
            assert_eq!(k.0, AGENT_KEY);
            assert_eq!(given_object_name, "Hat");
            assert_eq!(giving_object_location.region_name, "Fudo");
            assert_eq!((giving_object_location.x, giving_object_location.y, giving_object_location.z), (10, 20, 30));
        },
        other => panic!("unexpected {other:?}"),
    }
    let s = chars("You decline 'Junk'  ( http://slurl.com/secondlife/Fudo/1/2/3 ) from Mallory Resident.");
    match declined_given_object_message_parser(&s, 0) {
        Some(SystemMessage::DeclinedGivenObject { object_name, giver_location, giver_name }) => {
            assert_eq!(object_name, "Junk");
            assert_eq!(giver_location.region_name, "Fudo");
            assert_eq!(giver_name, "Mallory Resident");
        },
        other => panic!("unexpected {other:?}"),
    }
    // the region name runs over letters, digits and spaces, so only a tab
    // parts it from the coordinates
    let s = chars("Your object 'Tree' has been returned to your inventory Lost and Found folder from parcel 'Park' at Fudo\t120, 45 due to parcel auto return.");
    match your_object_has_been_returned_message_parser(&s, 0) {
        Some(SystemMessage::YourObjectHasBeenReturned { object_name, parcel_name, location, auto_return }) => {
            assert_eq!(object_name, "Tree");
            assert_eq!(parcel_name, "Park");
            assert_eq!(location.region_name, "Fudo");
            assert_eq!((location.x, location.y, location.z), (120, 45, 0));
            assert!(auto_return);
        },
        other => panic!("unexpected {other:?}"),
    }
    let s = chars("Your object 'Tree' has been returned to your inventory Lost and Found folder from parcel 'Park' at Fudo 120, 45.");
    assert!(your_object_has_been_returned_message_parser(&s, 0).is_none());
}

#[test]
fn bridge_notices() {
    assert!(matches!(bridge_message_parser(&chars("Bridge created."), 0), Some(SystemMessage::BridgeCreated)));
    assert!(matches!(bridge_message_parser(&chars("Bridge detached."), 0), Some(SystemMessage::BridgeDetached)));
    assert!(matches!(bridge_message_parser(&chars("Creating the bridge. This might take a few moments, please wait"), 0), Some(SystemMessage::CreatingBridge)));
    assert!(bridge_message_parser(&chars("Bridge collapsed."), 0).is_none());
}

#[test]
fn extended_script_info() {
    let text = format!(
        "Object ID: 01234567-89ab-cdef-0123-456789abcdef\n Description: A box\n Root prim: 01234567-89ab-cdef-0123-456789abcdee\n Prim count: 3\n Land impact: 2\n Inventory items: 5\n Velocity: <0.0, 0.0, -1.5>\n Position: <128.5, 64.25, 22.0> (12.5 m)\n Rotation: <0.0, 0.0, 0.0, 1.0> (<0.0, 0.0, 90.0>)\n Angular velocity: <0.0, 0.0, 0.0> (radians per second)\n Creator: {AGENT}\n Owner: {GROUP}\n Previous owner: ---\n Rezzed by: {AGENT_KEY}\n Group: ---\n Creation time: 2021-03-04T05:06:07.123456Z\n Rez time:\n Pathfinding type: -1\n Attachment point: ---\n Temporarily attached: No\n Your current position: <1.0, 2.0, 3.0>"
    );
    match extended_script_info_message_parser(&chars(&text), 0) {
        Some(SystemMessage::ExtendedScriptInfo { info }) => {
            assert_eq!(info.object_key.0, "01234567-89ab-cdef-0123-456789abcdef");
            assert_eq!(info.description.as_deref(), Some("A box"));
            assert_eq!((info.prim_count, info.land_impact, info.inventory_items), (3, 2, 5));
            assert_eq!(value(&info.velocity.z), -1.5);
            assert_eq!(value(&info.position.y), 64.25);
            assert_eq!(info.position_distance.whole, "12");
            assert_eq!(value(&info.rotation.s), 1.0);
            assert_eq!(value(&info.rotation_vector_degrees.z), 90.0);
            assert_eq!(info.creator.0, AGENT_KEY);
            assert!(matches!(info.owner, OwnerKey::Group(ref k) if k.0 == GROUP_KEY));
            assert!(info.previous_owner.is_none());
            assert_eq!(info.rezzed_by.0, AGENT_KEY);
            assert!(info.group.is_none());
            assert_eq!(info.creation_time.as_ref().map(|t| t.time.year), Some(2021));
            assert!(info.rez_time.is_none());
            assert_eq!(info.pathfinding_type, PathfindingType::Other);
            assert!(info.attachment_point.is_none());
            assert!(!info.temporarily_attached);
            assert_eq!(value(&info.inspecting_avatar_position.x), 1.0);
        },
        other => panic!("unexpected {other:?}"),
    }
    // a pathfinding type outside -1..=6 is not read
    let bad = text.replace("Pathfinding type: -1", "Pathfinding type: 9");
    assert!(extended_script_info_message_parser(&chars(&bad), 0).is_none());
}

#[test]
fn the_first_rule_that_reads_a_message_decides() {
    // `You paid ... L$5: ...` is not a purchase (no ` for `) but a payment
    let m = system_message_parser(&format!("You paid {AGENT} L$5: thanks"));
    assert!(matches!(m, SystemMessage::SentPayment { ref message, .. } if message.as_deref() == Some("thanks")));
    // a fixed text read before the rule for given objects wins over it
    assert!(matches!(system_message_parser("Home position set. Bob gave you a box."), SystemMessage::HomePositionSet));
    // a fixed text tried after it does not
    assert!(matches!(system_message_parser("Avatar ejected. Bob gave you a box."), SystemMessage::AvatarGaveObject { .. }));
    assert!(matches!(system_message_parser("Avatar ejected."), SystemMessage::EjectedAvatar));
    assert!(matches!(system_message_parser("Something unusual"), SystemMessage::OtherSystemMessage { .. }));
    let line = chat_log_line_parser("[2024/01/02 03:04]  Second Life: Total scripts in region jumped from 5 to 8 (+3).").expect("a line");
    match line.event {
        ChatLogEvent::SystemMessage { message } => assert!(matches!(*message, SystemMessage::ScriptCountChanged { change: 3, .. })),
        other => panic!("unexpected {other:?}"),
    }
}
