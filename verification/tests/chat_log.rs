use sl_map_tools::chat_log::{
    avatar_came_online_message_parser, avatar_entered_area_message_parser,
    avatar_left_area_message_parser, avatar_message_parser, avatar_name_parser,
    avatar_went_offline_message_parser, chat_log_line_parser, offset_datetime_parser,
    parse_line_header, Area, AvatarMessage, ChatLogEvent, ChatLogLine, ChatVolume, Timestamp,
    UtcTimestamp,
};
use sl_map_tools::system_messages::{classify_system_message, SystemMessage};

fn chars(s: &str) -> Vec<char> {
    s.chars().collect()
}

fn line(s: &str) -> Result<ChatLogLine, String> {
    chat_log_line_parser(s).ok_or_else(|| format!("`{s}` should parse"))
}

fn stamp(year: u16, month: u8, day: u8, hour: u8, minute: u8, second: u8) -> Timestamp {
    Timestamp { year, month, day, hour, minute, second }
}

#[test]
fn timestamps_with_and_without_seconds() {
    let s = chars("[2024/02/29 13:05:59]  Bob: hi");
    assert_eq!(parse_line_header(&s), Some((Some(stamp(2024, 2, 29, 13, 5, 59)), 23)));
    let s = chars("[2023/12/01 00:07] x");
    assert_eq!(parse_line_header(&s), Some((Some(stamp(2023, 12, 1, 0, 7, 0)), 19)));
    // not a leap year, no such hour, unclosed
    assert_eq!(parse_line_header(&chars("[2023/02/29 13:05] x")), None);
    assert_eq!(parse_line_header(&chars("[2023/02/28 24:05] x")), None);
    assert_eq!(parse_line_header(&chars("[2023/02/28 13:05:07 x")), None);
    let placeholder = "[[year,datetime,slt]/[mthnum,datetime,slt]/[day,datetime,slt] [hour,datetime,slt]:[min,datetime,slt]] Bob: hi";
    assert_eq!(parse_line_header(&chars(placeholder)), Some((None, 102)));
}

#[test]
fn iso_timestamps() {
    let s = chars("at 2021-03-04T05:06:07.123456Z.");
    assert_eq!(
        offset_datetime_parser(&s, 3),
        Some((UtcTimestamp { time: stamp(2021, 3, 4, 5, 6, 7), microsecond: 123456 }, 30))
    );
    assert_eq!(offset_datetime_parser(&s, 2), None);
    assert_eq!(offset_datetime_parser(&chars("2021-13-04T05:06:07.123456Z"), 0), None);
    assert_eq!(offset_datetime_parser(&chars("2021-03-04T05:06:07.12345Z"), 0), None);
}

#[test]
fn avatar_chat_and_emotes() -> Result<(), String> {
    let l = line("[2024/01/02 03:04:05]  Jane Doe: whispers: psst")?;
    assert_eq!(l.timestamp, Some(stamp(2024, 1, 2, 3, 4, 5)));
    match l.event {
        ChatLogEvent::AvatarLine { name, message } => {
            assert_eq!(name, "Jane Doe");
            assert!(matches!(*message, AvatarMessage::Chat { volume: ChatVolume::Whisper, ref message } if message == "psst"));
        }
        other => return Err(format!("{other:?}")),
    }
    match line("[2024/01/02 03:04]  Jane Doe: /me shouts: waves")?.event {
        ChatLogEvent::AvatarLine { message, .. } => {
            assert!(matches!(*message, AvatarMessage::Emote { volume: ChatVolume::Shout, ref message } if message == "waves"));
        }
        other => return Err(format!("{other:?}")),
    }
    match line("[2024/01/02 03:04]  Jane Doe: hello: there")?.event {
        ChatLogEvent::AvatarLine { name, message } => {
            assert_eq!(name, "Jane Doe");
            assert!(matches!(*message, AvatarMessage::Chat { volume: ChatVolume::Say, ref message } if message == "hello: there"));
        }
        other => return Err(format!("{other:?}")),
    }
    Ok(())
}

#[test]
fn avatar_status_lines() -> Result<(), String> {
    match line("[2024/01/02 03:04]  Second Life: Jane Doe is online.")?.event {
        ChatLogEvent::AvatarLine { name, message } => {
            assert_eq!(name, "Jane Doe");
            assert!(matches!(*message, AvatarMessage::CameOnline));
        }
        other => return Err(format!("{other:?}")),
    }
    match line("[2024/01/02 03:04]  Second Life: Jane Doe entered chat range (12.5 m).")?.event {
        ChatLogEvent::AvatarLine { name, message } => {
            assert_eq!(name, "Jane Doe");
            match *message {
                AvatarMessage::EnteredArea { area, distance: Some(d) } => {
                    assert_eq!(area, Area::ChatRange);
                    assert_eq!(d.whole, "12");
                    assert_eq!(d.fraction.as_deref(), Some("5"));
                }
                other => return Err(format!("{other:?}")),
            }
        }
        other => return Err(format!("{other:?}")),
    }
    match line("[2024/01/02 03:04]  Second Life: Jane Doe left the region.")?.event {
        ChatLogEvent::AvatarLine { message, .. } => {
            assert!(matches!(*message, AvatarMessage::LeftArea { area: Area::Region }));
        }
        other => return Err(format!("{other:?}")),
    }
    Ok(())
}

#[test]
fn system_messages() -> Result<(), String> {
    match line("[2024/01/02 03:04]  Second Life: Home position set.")?.event {
        ChatLogEvent::SystemMessage { message } => {
            assert!(matches!(*message, SystemMessage::HomePositionSet));
        }
        other => return Err(format!("{other:?}")),
    }
    match line("[2024/01/02 03:04]  Second Life: Visit https://example.com/x now")?.event {
        ChatLogEvent::SystemMessage { message } => match *message {
            SystemMessage::SystemMessageWithLink { message, link } => {
                assert_eq!(message, "Visit ");
                assert_eq!(link, "https://://example.com/x now");
            }
            other => return Err(format!("{other:?}")),
        },
        other => return Err(format!("{other:?}")),
    }
    match line("[2024/01/02 03:04]  Second Life: see www.example.org")?.event {
        ChatLogEvent::SystemMessage { message } => match *message {
            SystemMessage::SystemMessageWithLink { message, link } => {
                assert_eq!(message, "see ");
                assert_eq!(link, "www.example.org");
            }
            other => return Err(format!("{other:?}")),
        },
        other => return Err(format!("{other:?}")),
    }
    Ok(())
}

#[test]
fn other_messages_and_rejected_lines() -> Result<(), String> {
    match line("[2024/01/02 03:04] a translator says nothing")?.event {
        ChatLogEvent::OtherMessage { message } => assert_eq!(message, "a translator says nothing"),
        other => return Err(format!("{other:?}")),
    }
    assert!(chat_log_line_parser("no timestamp: hi").is_none());
    Ok(())
}

#[test]
fn system_message_classification() {
    let c = |s: &str| classify_system_message(&chars(s));
    assert!(matches!(c("Firestorm wishes you happy holidays, holiday!"), SystemMessage::FirestormHolidayWishes { .. }));
    assert!(matches!(c("Beware of phishing sites"), SystemMessage::PhishingWarning { .. }));
    assert!(matches!(c("This is a test version of Firestorm. If this were an actual release version, a real message of the day would be here. This is only a test."), SystemMessage::TestMessageOfTheDay));
    assert!(matches!(c("Loading world..."), SystemMessage::EarlyFirestormStartupMessage { .. }));
    assert!(matches!(c("Logging in as someone"), SystemMessage::EarlyFirestormStartupMessage { .. }));
    assert!(matches!(c("Loading world"), SystemMessage::OtherSystemMessage { .. }));
    assert!(matches!(c("Join us at wiki.phoenixviewer.com/firestorm_classes"), SystemMessage::FirestormMessage { ref message_type, .. } if message_type == "Classes"));
    assert!(matches!(c("Calling all BETA TESTERS"), SystemMessage::FirestormMessage { ref message_type, .. } if message_type == "Beta Test"));
    assert!(matches!(c("Something else"), SystemMessage::OtherSystemMessage { ref message } if message == "Something else"));
}

#[test]
fn status_message_parsers_read_their_own_message_only() {
    let s = chars("x is online.");
    assert!(matches!(avatar_came_online_message_parser(&s, 2), Some((AvatarMessage::CameOnline, 12))));
    assert!(avatar_went_offline_message_parser(&s, 2).is_none());
    assert!(avatar_came_online_message_parser(&s, 1).is_none());
    let s = chars("is offline.");
    assert!(matches!(avatar_went_offline_message_parser(&s, 0), Some((AvatarMessage::WentOffline, 11))));
    let s = chars("entered chat range (12.5 m).");
    match avatar_entered_area_message_parser(&s, 0) {
        Some((AvatarMessage::EnteredArea { area: Area::ChatRange, distance: Some(d) }, 28)) => {
            assert_eq!(d.whole, "12");
            assert_eq!(d.fraction, Some("5".to_owned()));
        }
        other => panic!("unexpected {other:?}"),
    }
    assert!(avatar_entered_area_message_parser(&chars("entered chat range"), 0).is_none());
    assert!(matches!(
        avatar_left_area_message_parser(&chars("left the region."), 0),
        Some((AvatarMessage::LeftArea { area: Area::Region }, 16))
    ));
    assert!(avatar_left_area_message_parser(&chars("left the region"), 0).is_none());
}

#[test]
fn avatar_message_parser_falls_back_to_chat() {
    let s = chars("is online, maybe");
    assert!(matches!(
        avatar_message_parser(&s, 0),
        AvatarMessage::Chat { volume: ChatVolume::Say, ref message } if message == "is online, maybe"
    ));
}

#[test]
fn avatar_names_end_at_the_first_colon() {
    let s = chars("Jane Doe: a: b");
    assert_eq!(avatar_name_parser(&s, 0), 8);
    assert_eq!(avatar_name_parser(&s, 9), 11);
    assert_eq!(avatar_name_parser(&chars("no colon"), 0), 8);
}
