use acbc::protocol::acc_enum::BroadcastingEventType;
use acbc::protocol::acc_enum::CarLocation;
use acbc::protocol::acc_enum::CarModel;
use acbc::protocol::acc_enum::CupCategory;
use acbc::protocol::acc_enum::DriverCategory;
use acbc::protocol::acc_enum::Nationality;
use acbc::protocol::acc_enum::SessionPhase;
use acbc::protocol::acc_enum::SessionType;
use acbc::protocol::parser::broadcasting_event;
use acbc::protocol::parser::camera_set;
use acbc::protocol::parser::driver;
use acbc::protocol::parser::entrylist_car;
use acbc::protocol::parser::entrylist_update;
use acbc::protocol::parser::lap;
use acbc::protocol::parser::realtime_car_update;
use acbc::protocol::parser::realtime_update;
use acbc::protocol::parser::registration_result;
use acbc::protocol::parser::replay_info;
use acbc::protocol::parser::sector_times;
use acbc::protocol::parser::splits;
use acbc::protocol::parser::track_data;
use acbc::protocol::wire::boolean;
use acbc::protocol::wire::kstring;
use acbc::protocol::wire::le_i32;
use acbc::protocol::wire::le_i8;
use acbc::protocol::wire::le_u16;
use acbc::protocol::wire::le_u32;
use acbc::protocol::wire::le_u8;
use acbc::protocol::wire::tag;
use acbc::protocol::DecodeError;
use acbc::protocol::InboundMessage;
use acbc::protocol::IncomingMessage;
use acbc::protocol::ParseError;
use acbc::protocol::ParseErrorKind;
use acbc::protocol::RegistrationResult;
use acbc::protocol::ReplayInfo;
use acbc::protocol::WireFloat;
use std::borrow::Cow;

fn fails(offset: usize, kind: ParseErrorKind) -> ParseError {
    ParseError { offset, kind }
}

/// A length-prefixed string.
fn text(s: &str) -> Vec<u8> {
    let mut out = (s.len() as u16).to_le_bytes().to_vec();
    out.extend_from_slice(s.as_bytes());
    out
}

/// A lap with the given time, car and sector times, and the flag
/// `is_valid_for_best` set.
fn lap_bytes(time_ms: i32, car_id: u16, driver_index: u16, sectors: &[i32]) -> Vec<u8> {
    let mut out = time_ms.to_le_bytes().to_vec();
    out.extend_from_slice(&car_id.to_le_bytes());
    out.extend_from_slice(&driver_index.to_le_bytes());
    out.push(4 * sectors.len() as u8);
    for s in sectors {
        out.extend_from_slice(&s.to_le_bytes());
    }
    out.extend_from_slice(&[0, 1, 0, 0]);
    out
}

/// A session update as the simulator sends it during qualifying.
fn realtime_update_bytes() -> Vec<u8> {
    let mut out = vec![0x02];
    out.extend_from_slice(&1u16.to_le_bytes());
    out.extend_from_slice(&2u16.to_le_bytes());
    out.push(4);
    out.push(5);
    out.extend_from_slice(&123456.5f32.to_le_bytes());
    out.extend_from_slice(&600000.0f32.to_le_bytes());
    out.extend_from_slice(&3u32.to_le_bytes());
    out.extend_from_slice(&text("pitlane"));
    out.extend_from_slice(&text("CameraPit3"));
    out.extend_from_slice(&text("Basic HUD"));
    out.push(0);
    out.extend_from_slice(&50400.0f32.to_le_bytes());
    out.push(25);
    out.push(31);
    out.push(2);
    out.push(0);
    out.push(1);
    out.extend_from_slice(&lap_bytes(90210, 1001, 0, &[30558, 29691, 30402]));
    out
}

/// A car update of a car on its fourth lap.
fn realtime_car_update_bytes() -> Vec<u8> {
    let mut out = vec![0x03];
    out.extend_from_slice(&1001u16.to_le_bytes());
    out.extend_from_slice(&1u16.to_le_bytes());
    out.push(2);
    out.push((-1i8) as u8);
    out.extend_from_slice(&0.0f32.to_le_bytes());
    out.extend_from_slice(&0.0f32.to_le_bytes());
    out.extend_from_slice(&1.5f32.to_le_bytes());
    out.push(1);
    out.extend_from_slice(&187u16.to_le_bytes());
    out.extend_from_slice(&4u16.to_le_bytes());
    out.extend_from_slice(&2u16.to_le_bytes());
    out.extend_from_slice(&5u16.to_le_bytes());
    out.extend_from_slice(&0.25f32.to_le_bytes());
    out.extend_from_slice(&3u16.to_le_bytes());
    out.extend_from_slice(&(-250i32).to_le_bytes());
    out.extend_from_slice(&lap_bytes(90210, 1001, 1, &[30558, 29691, 30402]));
    out.extend_from_slice(&lap_bytes(91000, 1001, 1, &[30600, 29900, 30500]));
    out.extend_from_slice(&lap_bytes(45000, 1001, 1, &[]));
    out
}

fn camera_set_bytes(name: &str, cameras: &[&str]) -> Vec<u8> {
    let mut out = text(name);
    out.push(cameras.len() as u8);
    for c in cameras {
        out.extend_from_slice(&text(c));
    }
    out
}

/// The track data of Zolder.
fn track_data_bytes() -> Vec<u8> {
    let mut out = vec![0x05];
    out.extend_from_slice(&1i32.to_le_bytes());
    out.extend_from_slice(&text("Circuit Zolder"));
    out.extend_from_slice(&10u32.to_le_bytes());
    out.extend_from_slice(&4011u32.to_le_bytes());
    out.push(7);
    out.extend_from_slice(&camera_set_bytes("Drivable", &["Chase", "FarChase", "Bonnet", "DashPro", "Cockpit", "Dash", "Helmet"]));
    out.extend_from_slice(&camera_set_bytes("Helicam", &["Helicam"]));
    out.extend_from_slice(&camera_set_bytes("Onboard", &["Onboard0", "Onboard1", "Onboard2", "Onboard3"]));
    out.extend_from_slice(&camera_set_bytes("pitlane", &["CameraPit1", "CameraPit2", "CameraPit3"]));
    out.extend_from_slice(&camera_set_bytes("set1", &["CameraTV1", "CameraTV2"]));
    out.extend_from_slice(&camera_set_bytes("set2", &["CameraTV3"]));
    out.extend_from_slice(&camera_set_bytes("setVR", &[]));
    out.push(7);
    for page in ["Blank", "Basic HUD", "Help", "TimeTable", "Broadcasting", "TrackMap", "Basic HUD + Timing"] {
        out.extend_from_slice(&text(page));
    }
    out
}

const ENTRYLIST_CAR: [u8; 41] = [
    0x06, 0xe9, 0x03, 0x18, 0x00, 0x00, 0x4b, 0x00, 0x00, 0x00, 0x00, 0x00, 0x00, 0x00, 0x01,
    0x06, 0x00, 0x4d, 0x61, 0x72, 0x74, 0x69, 0x6e, 0x08, 0x00, 0x52, 0x6f, 0x77, 0x6e, 0x74,
    0x72, 0x65, 0x65, 0x03, 0x00, 0x52, 0x4f, 0x57, 0x03, 0x05, 0x00,
];

#[test]
fn parser_parse_kstring() {
    let input = b"\x03\x00abcefg";
    assert_eq!(kstring(input).unwrap(), (&b"efg"[..], "abc"));
}

#[test]
fn parser_parse_empty_kstring() {
    let input = b"\x00\x00abc";
    assert_eq!(kstring(input).unwrap(), (&b"abc"[..], ""));
}

#[test]
fn parser_parse_registration_result() {
    let input = b"\x01\x01\x00\x00\x00\x01\x01\x00\x00";
    let res = registration_result(input).unwrap();

    assert_eq!(
        res,
        (
            &[][..],
            RegistrationResult {
                connection_id: 1,
                connection_success: true,
                read_only: true,
                error_message: Cow::Borrowed(""),
            }
        )
    );
}

#[test]
fn parser_parse_registration_fail() {
    let input = b"\x01\x01\x00\x00\x00\x00\x01\x10\x00Handshake failed";
    let res = registration_result(input).unwrap();

    assert_eq!(
        res,
        (
            &[][..],
            RegistrationResult {
                connection_id: 1,
                connection_success: false,
                read_only: true,
                error_message: Cow::Borrowed("Handshake failed"),
            }
        )
    );
}

#[test]
fn parser_parse_lap_data() {
    let input = b"\x1b\x62\x01\x00\xe9\x03\x00\x00\x0c\x5e\x77\x00\x00\xfb\x73\x00\x00\xc2\x76\x00\x00\x00\x01\x00\x00";
    let res = lap(input).unwrap().1;

    assert_eq!(res.car_id, 1001);
    assert_eq!(res.splits.len(), 3);
}

#[test]
fn parser_parse_realtime_update() {
    let input = realtime_update_bytes();
    let res = realtime_update(&input).unwrap().1;

    assert_eq!(res.active_camera, "CameraPit3");
    assert_eq!(res.ambient_temp, 25);
    assert_eq!(res.session_type, SessionType::Qualifying);
}

#[test]
fn parser_parse_realtime_car_update() {
    let input = realtime_car_update_bytes();
    let res = realtime_car_update(&input).unwrap();

    assert_eq!(res.0.len(), 0);
    assert_eq!(res.1.current_lap.splits.len(), 0);
}

#[test]
fn parse_entrylist_update() {
    let input = &[0x04, 0x01, 0x00, 0x00, 0x00, 0x01, 0x00, 0xe9, 0x03];
    let res = entrylist_update(input).unwrap().1;

    assert_eq!(res.car_ids.len(), 1);
}

#[test]
fn parse_entrylist_car() {
    let input: &[u8] = &ENTRYLIST_CAR;
    let res = entrylist_car(input).unwrap().1;

    assert_eq!(res.id, 1001);
    assert_eq!(res.race_number, 75);
    assert_eq!(res.drivers.len(), 1);
    assert_eq!(res.drivers[0].first_name, "Martin");
    assert_eq!(res.drivers[0].last_name, "Rowntree");
    assert_eq!(res.drivers[0].short_name, "ROW");
    assert_eq!(res.drivers[0].nationality, Nationality::GreatBritain);
    assert_eq!(res.model, CarModel::Ferrari488Evo);
}

#[test]
fn parse_track_data() {
    let input = track_data_bytes();
    let res = track_data(&input).unwrap().1;

    assert_eq!(res.distance, 4011);
    assert_eq!(res.name, "Circuit Zolder");
    assert_eq!(res.id, 10);
    assert_eq!(res.camera_sets.len(), 7);
    assert_eq!(res.hud_pages.len(), 7);
}

#[test]
fn parse_broadcasting_event() {
    let input = b"\x07\x05\x0d\x00Lap completed\x2c\x4a\x00\x00\xe9\x03\x00\x00";
    let res = broadcasting_event(input).unwrap().1;

    assert_eq!(res.car_id, 1001);
    assert_eq!(res.message, "Lap completed");
    assert_eq!(res.event_type, BroadcastingEventType::LapCompleted);
}

#[test]
fn parse_bogus_data() {
    // 64 bytes of noise behind a 0x03: they look like a car update at first,
    // and the decoder has to give up on them without a panic.
    let input: [u8; 64] = [
        0x03, 0x9c, 0x41, 0xd7, 0x5a, 0xe2, 0x0b, 0x77, 0x3f, 0xa8, 0x14, 0xc6, 0x59, 0x90, 0x2d,
        0xf3, 0x6e, 0x81, 0x1a, 0xc7, 0x35, 0xee, 0x48, 0x07, 0xb2, 0x6d, 0xd9, 0x23, 0x5f, 0x94,
        0x0e, 0xa1, 0x7c, 0xe5, 0x38, 0x4b, 0xf9, 0x12, 0x86, 0xcd, 0x60, 0x2f, 0xbb, 0x54, 0x09,
        0x97, 0xe0, 0x73, 0x1d, 0xaa, 0x46, 0xd1, 0x3c, 0x8f, 0x65, 0xf6, 0x28, 0xb9, 0x02, 0x7e,
        0xc3, 0x51, 0x9a, 0x16,
    ];
    let res = InboundMessage::decode(&input);
    assert!(res.is_err());
    assert_eq!(
        res.unwrap_err(),
        fails(19, ParseErrorKind::UnknownCode(DecodeError::UnknownCarLocation(0xc7)))
    );
}

#[test]
fn kstring_holds_any_utf8() {
    let input = text("Spa-Francorchamps \u{1F3C1} \u{00e9}");
    let (rest, s) = kstring(&input).unwrap();
    assert_eq!(s, "Spa-Francorchamps \u{1F3C1} \u{00e9}");
    assert!(rest.is_empty());
}

#[test]
fn kstring_rejects_what_is_not_utf8() {
    assert_eq!(kstring(b"\x02\x00\xc3\x28rest"), Err(fails(0, ParseErrorKind::InvalidUtf8)));
    assert_eq!(kstring(b"\x01\x00\xff"), Err(fails(0, ParseErrorKind::InvalidUtf8)));
}

#[test]
fn kstring_needs_its_prefix_and_its_body() {
    assert_eq!(kstring(b""), Err(fails(0, ParseErrorKind::UnexpectedEnd)));
    assert_eq!(kstring(b"\x03"), Err(fails(0, ParseErrorKind::UnexpectedEnd)));
    assert_eq!(kstring(b"\x03\x00ab"), Err(fails(2, ParseErrorKind::UnexpectedEnd)));
    assert_eq!(kstring(b"\xff\xff"), Err(fails(2, ParseErrorKind::UnexpectedEnd)));
}

#[test]
fn numbers_are_little_endian() {
    assert_eq!(le_u8(&[0x2a, 1]), Ok((&[1u8][..], 0x2a)));
    assert_eq!(le_u16(&[0xe9, 0x03, 9]), Ok((&[9u8][..], 1001)));
    assert_eq!(le_u16(&[0xff, 0xff]), Ok((&[][..], 65535)));
    assert_eq!(le_u32(&[0x78, 0x56, 0x34, 0x12]), Ok((&[][..], 0x1234_5678)));
    assert_eq!(le_u32(&[0xff, 0xff, 0xff, 0xff, 0]), Ok((&[0u8][..], u32::MAX)));
    assert_eq!(le_i32(&[0x2c, 0x4a, 0x00, 0x00]), Ok((&[][..], 18988)));
}

#[test]
fn signed_numbers_are_twos_complement() {
    assert_eq!(le_i8(&[0xff]), Ok((&[][..], -1)));
    assert_eq!(le_i8(&[0x80]), Ok((&[][..], i8::MIN)));
    assert_eq!(le_i8(&[0x7f]), Ok((&[][..], i8::MAX)));
    assert_eq!(le_i32(&[0xff, 0xff, 0xff, 0xff]), Ok((&[][..], -1)));
    assert_eq!(le_i32(&[0x00, 0x00, 0x00, 0x80]), Ok((&[][..], i32::MIN)));
    assert_eq!(le_i32(&[0xff, 0xff, 0xff, 0x7f]), Ok((&[][..], i32::MAX)));
    assert_eq!(le_i32(&(-250i32).to_le_bytes()), Ok((&[][..], -250)));
}

#[test]
fn numbers_need_all_their_bytes() {
    assert_eq!(le_u8(&[]), Err(fails(0, ParseErrorKind::UnexpectedEnd)));
    assert_eq!(le_i8(&[]), Err(fails(0, ParseErrorKind::UnexpectedEnd)));
    assert_eq!(le_u16(&[1]), Err(fails(0, ParseErrorKind::UnexpectedEnd)));
    assert_eq!(le_u32(&[1, 2, 3]), Err(fails(0, ParseErrorKind::UnexpectedEnd)));
    assert_eq!(le_i32(&[1, 2, 3]), Err(fails(0, ParseErrorKind::UnexpectedEnd)));
}

#[test]
fn boolean_is_true_unless_zero() {
    assert_eq!(boolean(&[0, 7]), Ok((&[7u8][..], false)));
    assert_eq!(boolean(&[1]), Ok((&[][..], true)));
    assert_eq!(boolean(&[0xff]), Ok((&[][..], true)));
    assert_eq!(boolean(&[]), Err(fails(0, ParseErrorKind::UnexpectedEnd)));
}

#[test]
fn tag_must_lead() {
    assert_eq!(tag(&[3, 4], 3), Ok((&[4u8][..], 3)));
    assert_eq!(tag(&[4, 3], 3), Err(fails(0, ParseErrorKind::TagMismatch)));
    assert_eq!(tag(&[], 3), Err(fails(0, ParseErrorKind::TagMismatch)));
}

#[test]
fn lap_fields_come_out_as_sent() {
    let input = b"\x1b\x62\x01\x00\xe9\x03\x00\x00\x0c\x5e\x77\x00\x00\xfb\x73\x00\x00\xc2\x76\x00\x00\x00\x01\x00\x00tail";
    let (rest, res) = lap(input).unwrap();
    assert_eq!(rest, b"tail");
    assert_eq!(res.lap_time_ms, 90651);
    assert_eq!(res.car_id, 1001);
    assert_eq!(res.driver_index, 0);
    assert_eq!(res.splits.as_slice(), &[30558, 29691, 30402]);
    assert!(!res.is_invalid);
    assert!(res.is_valid_for_best);
    assert!(!res.is_out_lap);
    assert!(!res.is_in_lap);
}

#[test]
fn splits_come_out_in_order() {
    let (rest, none) = splits(&[0, 9]).unwrap();
    assert_eq!(rest, &[9]);
    assert!(none.is_empty());
    let (rest, one) = splits(&[4, 0xff, 0xff, 0xff, 0xff]).unwrap();
    assert!(rest.is_empty());
    assert_eq!(one.as_slice(), &[-1]);
    let (_, two) = splits(&[8, 1, 0, 0, 0, 2, 0, 0, 0]).unwrap();
    assert_eq!(two.as_slice(), &[1, 2]);
    let (rest, three) = splits(&[12, 1, 0, 0, 0, 2, 0, 0, 0, 3, 0, 0, 0, 7, 7]).unwrap();
    assert_eq!(three.as_slice(), &[1, 2, 3]);
    assert_eq!(rest, &[7, 7]);
}

#[test]
fn splits_that_overrun_the_buffer_fail() {
    assert_eq!(splits(&[]).err(), Some(fails(0, ParseErrorKind::UnexpectedEnd)));
    assert_eq!(splits(&[4]).err(), Some(fails(1, ParseErrorKind::UnexpectedEnd)));
    assert_eq!(splits(&[4, 1, 2, 3]).err(), Some(fails(1, ParseErrorKind::UnexpectedEnd)));
    assert_eq!(
        splits(&[12, 1, 0, 0, 0, 2, 0, 0, 0, 3, 0, 0]).err(),
        Some(fails(1, ParseErrorKind::UnexpectedEnd))
    );
    assert_eq!(splits(&[252, 0, 0, 0, 0]).err(), Some(fails(1, ParseErrorKind::UnexpectedEnd)));
}

#[test]
fn a_split_length_that_is_no_multiple_of_four_fails() {
    for length in 0..=255u8 {
        if length % 4 != 0 {
            // Whatever follows: nothing, too little, or more than enough.
            let mut input = vec![length];
            assert_eq!(splits(&input).err(), Some(fails(0, ParseErrorKind::RaggedSplits)));
            input.extend_from_slice(&[0; 2]);
            assert_eq!(splits(&input).err(), Some(fails(0, ParseErrorKind::RaggedSplits)));
            input.extend_from_slice(&[0; 300]);
            assert_eq!(splits(&input).err(), Some(fails(0, ParseErrorKind::RaggedSplits)));
        }
    }
    // Three as a length is no count of three: twelve bytes behind it change nothing.
    assert_eq!(
        splits(&[3, 1, 0, 0, 0, 2, 0, 0, 0, 3, 0, 0, 0]).err(),
        Some(fails(0, ParseErrorKind::RaggedSplits))
    );
    let input = b"\x1b\x62\x01\x00\xe9\x03\x00\x00\x03\x5e\x77\x00\x00\xfb\x73\x00\x00\xc2\x76\x00\x00\x00\x01\x00\x00";
    assert_eq!(lap(input).err(), Some(fails(8, ParseErrorKind::RaggedSplits)));
}

#[test]
fn a_fourth_split_is_an_error() {
    let mut input = vec![16u8];
    input.extend_from_slice(&[0; 16]);
    assert_eq!(splits(&input).err(), Some(fails(13, ParseErrorKind::TooManySplits)));
    let mut input = vec![252u8];
    input.extend_from_slice(&[0; 252]);
    assert_eq!(splits(&input).err(), Some(fails(13, ParseErrorKind::TooManySplits)));
    assert_eq!(sector_times(&[0; 16]).err(), Some(fails(12, ParseErrorKind::TooManySplits)));
    assert_eq!(sector_times(&[0; 20]).err(), Some(fails(12, ParseErrorKind::TooManySplits)));
}

#[test]
fn sector_times_come_in_fours() {
    assert!(sector_times(&[]).unwrap().is_empty());
    assert_eq!(sector_times(&[7, 0, 0, 0]).unwrap().as_slice(), &[7]);
    assert_eq!(
        sector_times(&[1, 0, 0, 0, 2, 0, 0, 0, 3, 0, 0, 0]).unwrap().as_slice(),
        &[1, 2, 3]
    );
    assert_eq!(sector_times(&[1]).err(), Some(fails(0, ParseErrorKind::RaggedSplits)));
    assert_eq!(sector_times(&[1, 2, 3]).err(), Some(fails(0, ParseErrorKind::RaggedSplits)));
    assert_eq!(sector_times(&[1, 0, 0, 0, 2]).err(), Some(fails(0, ParseErrorKind::RaggedSplits)));
    assert_eq!(sector_times(&[0; 13]).err(), Some(fails(0, ParseErrorKind::RaggedSplits)));
    assert_eq!(sector_times(&[0; 17]).err(), Some(fails(0, ParseErrorKind::RaggedSplits)));
}

#[test]
fn replay_info_is_absent_behind_a_zero_byte() {
    assert_eq!(replay_info(&[0, 5]), Ok((&[5u8][..], None)));
}

#[test]
fn replay_info_keeps_its_leading_byte() {
    let mut input = 1.5f32.to_le_bytes().to_vec();
    input.extend_from_slice(&2.5f32.to_le_bytes());
    input.extend_from_slice(&7u32.to_le_bytes());
    // 1.5 is 0x3fc00000, so the record starts with a zero byte and reads as absent.
    assert_eq!(replay_info(&input).unwrap().1, None);
    let mut input = 1.1f32.to_le_bytes().to_vec();
    input.extend_from_slice(&2.5f32.to_le_bytes());
    input.extend_from_slice(&7u32.to_le_bytes());
    input.push(0xaa);
    let (rest, info) = replay_info(&input).unwrap();
    assert_eq!(rest, &[0xaa]);
    let info: ReplayInfo = info.unwrap();
    assert_eq!(f32::from_bits(info.session_time.bits), 1.1);
    assert_eq!(f32::from_bits(info.remaining_time.bits), 2.5);
    assert_eq!(info.focused_car_index, 7);
}

#[test]
fn replay_info_needs_twelve_bytes() {
    assert_eq!(replay_info(&[]), Err(fails(0, ParseErrorKind::UnexpectedEnd)));
    assert_eq!(replay_info(&[1, 2, 3]), Err(fails(0, ParseErrorKind::UnexpectedEnd)));
    assert_eq!(replay_info(&[1, 2, 3, 4, 5]), Err(fails(4, ParseErrorKind::UnexpectedEnd)));
    assert_eq!(replay_info(&[1; 11]), Err(fails(8, ParseErrorKind::UnexpectedEnd)));
}

#[test]
fn realtime_update_fields_come_out_as_sent() {
    let mut input = realtime_update_bytes();
    input.extend_from_slice(b"xy");
    let (rest, res) = realtime_update(&input).unwrap();
    assert_eq!(rest, b"xy");
    assert_eq!(res.event_index, 1);
    assert_eq!(res.session_index, 2);
    assert_eq!(res.session_type, SessionType::Qualifying);
    assert_eq!(res.session_phase, SessionPhase::Session);
    assert_eq!(f32::from_bits(res.session_time.bits), 123456.5);
    assert_eq!(f32::from_bits(res.session_end_time.bits), 600000.0);
    assert_eq!(res.focused_car_index, 3);
    assert_eq!(res.active_camera_set, "pitlane");
    assert_eq!(res.active_camera, "CameraPit3");
    assert_eq!(res.current_hud_page, "Basic HUD");
    assert_eq!(res.replay_info, None);
    assert_eq!(f32::from_bits(res.time_of_day.bits), 50400.0);
    assert_eq!(res.ambient_temp, 25);
    assert_eq!(res.track_temp, 31);
    assert_eq!(res.clouds, 2);
    assert_eq!(res.rain_level, 0);
    assert_eq!(res.wetness, 1);
    assert_eq!(res.best_session_lap.lap_time_ms, 90210);
    assert_eq!(res.best_session_lap.splits.as_slice(), &[30558, 29691, 30402]);
}

#[test]
fn realtime_update_with_a_replay() {
    let plain = realtime_update_bytes();
    let at = 1 + 2 + 2 + 1 + 1 + 4 + 4 + 4 + 9 + 12 + 11;
    assert_eq!(plain[at], 0);
    let mut input = plain[..at].to_vec();
    input.extend_from_slice(&10.1f32.to_le_bytes());
    input.extend_from_slice(&20.0f32.to_le_bytes());
    input.extend_from_slice(&5u32.to_le_bytes());
    input.extend_from_slice(&plain[at + 1..]);
    let (rest, res) = realtime_update(&input).unwrap();
    assert!(rest.is_empty());
    assert_eq!(
        res.replay_info,
        Some(ReplayInfo {
            session_time: WireFloat { bits: 10.1f32.to_bits() },
            remaining_time: WireFloat { bits: 20.0f32.to_bits() },
            focused_car_index: 5,
        })
    );
    assert_eq!(res.ambient_temp, 25);
}

#[test]
fn realtime_update_fails_where_a_field_fails() {
    let good = realtime_update_bytes();
    let mut input = good.clone();
    input[5] = 7;
    assert_eq!(
        realtime_update(&input).err(),
        Some(fails(5, ParseErrorKind::UnknownCode(DecodeError::UnknownSessionType(7))))
    );
    let mut input = good.clone();
    input[6] = 9;
    assert_eq!(
        realtime_update(&input).err(),
        Some(fails(6, ParseErrorKind::UnknownCode(DecodeError::UnknownSessionPhase(9))))
    );
    let mut input = good.clone();
    input[21] = 0xff;
    assert_eq!(realtime_update(&input).err(), Some(fails(19, ParseErrorKind::InvalidUtf8)));
    assert_eq!(
        realtime_update(&good[..20]).err(),
        Some(fails(19, ParseErrorKind::UnexpectedEnd))
    );
    assert_eq!(
        realtime_update(&good[..23]).err(),
        Some(fails(21, ParseErrorKind::UnexpectedEnd))
    );
    assert_eq!(
        realtime_update(&good[..good.len() - 1]).err(),
        Some(fails(good.len() - 1, ParseErrorKind::UnexpectedEnd))
    );
    assert_eq!(realtime_update(&good[1..]).err(), Some(fails(0, ParseErrorKind::TagMismatch)));
}

#[test]
fn realtime_car_update_fields_come_out_as_sent() {
    let input = realtime_car_update_bytes();
    let (rest, res) = realtime_car_update(&input).unwrap();
    assert!(rest.is_empty());
    assert_eq!(res.id, 1001);
    assert_eq!(res.driver_index, 1);
    assert_eq!(res.driver_count, 2);
    assert_eq!(res.gear, -1);
    assert_eq!(f32::from_bits(res.world_pos_x.bits), 0.0);
    assert_eq!(f32::from_bits(res.world_pos_y.bits), 0.0);
    assert_eq!(f32::from_bits(res.yaw.bits), 1.5);
    assert_eq!(res.car_location, CarLocation::Track);
    assert_eq!(res.speed_kph, 187);
    assert_eq!(res.position, 4);
    assert_eq!(res.cup_position, 2);
    assert_eq!(res.track_position, 5);
    assert_eq!(f32::from_bits(res.spline_position.bits), 0.25);
    assert_eq!(res.laps, 3);
    assert_eq!(res.delta, -250);
    assert_eq!(res.best_session_lap.lap_time_ms, 90210);
    assert_eq!(res.last_lap.lap_time_ms, 91000);
    assert_eq!(res.last_lap.splits.as_slice(), &[30600, 29900, 30500]);
    assert_eq!(res.current_lap.lap_time_ms, 45000);
}

#[test]
fn a_car_location_of_255_is_reported_as_255() {
    let mut input = realtime_car_update_bytes();
    input[19] = 0xff;
    assert_eq!(
        realtime_car_update(&input).err(),
        Some(fails(19, ParseErrorKind::UnknownCode(DecodeError::UnknownCarLocation(255))))
    );
}

#[test]
fn a_lap_with_four_splits_fails_the_car_update() {
    let good = realtime_car_update_bytes();
    let mut input = good[..38].to_vec();
    input.extend_from_slice(&lap_bytes(90210, 1001, 1, &[1, 2, 3, 4]));
    input.extend_from_slice(&good[38 + 25..]);
    assert_eq!(
        realtime_car_update(&input).err(),
        Some(fails(38 + 8 + 13, ParseErrorKind::TooManySplits))
    );
}

#[test]
fn entrylist_update_lists_the_car_ids() {
    let input = &[0x04, 0x2a, 0, 0, 0, 0x03, 0x00, 0xe9, 0x03, 0xea, 0x03, 0xff, 0xff, 0x55];
    let (rest, res) = entrylist_update(input).unwrap();
    assert_eq!(rest, &[0x55]);
    assert_eq!(res.car_ids, vec![1001, 1002, 65535]);
    let (_, res) = entrylist_update(&[0x04, 1, 0, 0, 0, 0, 0]).unwrap();
    assert!(res.car_ids.is_empty());
}

#[test]
fn entrylist_update_needs_every_id() {
    let input = &[0x04, 0x2a, 0, 0, 0, 0x03, 0x00, 0xe9, 0x03, 0xea, 0x03, 0xff];
    assert_eq!(entrylist_update(input).err(), Some(fails(11, ParseErrorKind::UnexpectedEnd)));
    assert_eq!(
        entrylist_update(&[0x04, 1, 0, 0]).err(),
        Some(fails(1, ParseErrorKind::UnexpectedEnd))
    );
    assert_eq!(
        entrylist_update(&[0x04, 1, 0, 0, 0, 1]).err(),
        Some(fails(5, ParseErrorKind::UnexpectedEnd))
    );
}

#[test]
fn entrylist_update_with_as_many_ids_as_the_count_can_say() {
    let mut input = vec![0x04, 0, 0, 0, 0, 0xff, 0xff];
    for id in 0..65535u16 {
        input.extend_from_slice(&id.to_le_bytes());
    }
    let (rest, res) = entrylist_update(&input).unwrap();
    assert!(rest.is_empty());
    assert_eq!(res.car_ids.len(), 65535);
    assert_eq!(res.car_ids[0], 0);
    assert_eq!(res.car_ids[65534], 65534);
    input.pop();
    assert_eq!(
        entrylist_update(&input).err(),
        Some(fails(7 + 2 * 65534, ParseErrorKind::UnexpectedEnd))
    );
}

#[test]
fn entrylist_car_fields_come_out_as_sent() {
    let (rest, res) = entrylist_car(&ENTRYLIST_CAR).unwrap();
    assert!(rest.is_empty());
    assert_eq!(res.team_name, "");
    assert_eq!(res.cup_category, CupCategory::Overall);
    assert_eq!(res.current_driver_index, 0);
    assert_eq!(res.nationality, Nationality::Any);
    assert_eq!(res.drivers[0].category, DriverCategory::Platinum);
}

#[test]
fn entrylist_car_with_two_drivers() {
    let mut input = ENTRYLIST_CAR[..14].to_vec();
    input.push(2);
    input.extend_from_slice(&ENTRYLIST_CAR[15..]);
    input.extend_from_slice(&text("Jane"));
    input.extend_from_slice(&text("Bloggs"));
    input.extend_from_slice(&text("BLO"));
    input.push(1);
    input.extend_from_slice(&16u16.to_le_bytes());
    let (rest, res) = entrylist_car(&input).unwrap();
    assert!(rest.is_empty());
    assert_eq!(res.drivers.len(), 2);
    assert_eq!(res.drivers[0].first_name, "Martin");
    assert_eq!(res.drivers[1].first_name, "Jane");
    assert_eq!(res.drivers[1].last_name, "Bloggs");
    assert_eq!(res.drivers[1].short_name, "BLO");
    assert_eq!(res.drivers[1].category, DriverCategory::Silver);
    assert_eq!(res.drivers[1].nationality, Nationality::Ireland);
}

#[test]
fn entrylist_car_fails_where_a_code_is_unknown() {
    let mut input = ENTRYLIST_CAR.to_vec();
    input[3] = 26;
    assert_eq!(
        entrylist_car(&input).err(),
        Some(fails(3, ParseErrorKind::UnknownCode(DecodeError::UnknownCarModel(26))))
    );
    let mut input = ENTRYLIST_CAR.to_vec();
    input[10] = 5;
    assert_eq!(
        entrylist_car(&input).err(),
        Some(fails(10, ParseErrorKind::UnknownCode(DecodeError::UnknownCupCategory(5))))
    );
    let mut input = ENTRYLIST_CAR.to_vec();
    input[12] = 78;
    assert_eq!(
        entrylist_car(&input).err(),
        Some(fails(12, ParseErrorKind::UnknownCode(DecodeError::UnknownNationality(78))))
    );
    let mut input = ENTRYLIST_CAR.to_vec();
    input[38] = 4;
    assert_eq!(
        entrylist_car(&input).err(),
        Some(fails(38, ParseErrorKind::UnknownCode(DecodeError::UnknownDriverCategory(4))))
    );
    let mut input = ENTRYLIST_CAR.to_vec();
    input[40] = 1;
    assert_eq!(
        entrylist_car(&input).err(),
        Some(fails(39, ParseErrorKind::UnknownCode(DecodeError::UnknownNationality(261))))
    );
    let mut input = ENTRYLIST_CAR.to_vec();
    input[14] = 2;
    assert_eq!(entrylist_car(&input).err(), Some(fails(41, ParseErrorKind::UnexpectedEnd)));
}

#[test]
fn driver_alone() {
    let (rest, res) = driver(&ENTRYLIST_CAR[15..]).unwrap();
    assert!(rest.is_empty());
    assert_eq!(res.first_name, "Martin");
    assert_eq!(res.nationality, Nationality::GreatBritain);
    assert_eq!(
        driver(&ENTRYLIST_CAR[15..40]).err(),
        Some(fails(24, ParseErrorKind::UnexpectedEnd))
    );
}

#[test]
fn track_data_fields_come_out_as_sent() {
    let input = track_data_bytes();
    let (rest, res) = track_data(&input).unwrap();
    assert!(rest.is_empty());
    let pit = res.camera_sets.get("pitlane").unwrap();
    assert_eq!(pit.len(), 3);
    assert_eq!(pit[2], "CameraPit3");
    assert_eq!(res.camera_sets.get("Drivable").unwrap().len(), 7);
    assert!(res.camera_sets.get("setVR").unwrap().is_empty());
    assert!(res.camera_sets.get("Pitlane").is_none());
    assert_eq!(res.hud_pages[0], "Blank");
    assert_eq!(res.hud_pages[6], "Basic HUD + Timing");
}

#[test]
fn of_two_camera_sets_with_one_name_the_later_is_kept() {
    let mut input = vec![0x05];
    input.extend_from_slice(&0i32.to_le_bytes());
    input.extend_from_slice(&text("Spa"));
    input.extend_from_slice(&42u32.to_le_bytes());
    input.extend_from_slice(&7004u32.to_le_bytes());
    input.push(3);
    input.extend_from_slice(&camera_set_bytes("set1", &["a", "b"]));
    input.extend_from_slice(&camera_set_bytes("set2", &["c"]));
    input.extend_from_slice(&camera_set_bytes("set1", &["d"]));
    input.push(0);
    let res = track_data(&input).unwrap().1;
    assert_eq!(res.camera_sets.len(), 2);
    assert_eq!(res.camera_sets.get("set1").unwrap().len(), 1);
    assert_eq!(res.camera_sets.get("set1").unwrap()[0], "d");
    assert_eq!(res.camera_sets.get("set2").unwrap()[0], "c");
    assert!(res.hud_pages.is_empty());
}

#[test]
fn track_data_fails_where_a_list_is_cut_short() {
    let input = track_data_bytes();
    assert_eq!(
        track_data(&input[..input.len() - 3]).err(),
        Some(fails(input.len() - 18, ParseErrorKind::UnexpectedEnd))
    );
    assert_eq!(track_data(&input[..30]).err(), Some(fails(30, ParseErrorKind::UnexpectedEnd)));
}

#[test]
fn camera_set_alone() {
    let input = camera_set_bytes("pitlane", &["CameraPit1", "CameraPit2"]);
    let (rest, (name, cameras)) = camera_set(&input).unwrap();
    assert!(rest.is_empty());
    assert_eq!(name, "pitlane");
    assert_eq!(cameras, vec!["CameraPit1", "CameraPit2"]);
}

#[test]
fn broadcasting_event_keeps_the_low_half_of_the_car_id() {
    let input = b"\x07\x01\x00\x00\x10\x27\x00\x00\xe9\x03\xcd\xab";
    let (rest, res) = broadcasting_event(input).unwrap();
    assert!(rest.is_empty());
    assert_eq!(res.event_type, BroadcastingEventType::GreenFlag);
    assert_eq!(res.message, "");
    assert_eq!(res.time_ms, 10000);
    assert_eq!(res.car_id, 1001);
    let input = b"\x07\x02\x00\x00\x10\x27\x00\x00\x00\x00\x01\x00";
    assert_eq!(broadcasting_event(input).unwrap().1.car_id, 0);
}

#[test]
fn broadcasting_event_of_an_unknown_kind() {
    let input = b"\x07\x08\x00\x00\x10\x27\x00\x00\xe9\x03\x00\x00";
    assert_eq!(
        broadcasting_event(input).err(),
        Some(fails(1, ParseErrorKind::UnknownCode(DecodeError::UnknownBroadcastingEvent(8))))
    );
}

#[test]
fn every_tag_decodes_to_its_message() {
    let registration = b"\x01\x01\x00\x00\x00\x01\x01\x00\x00".to_vec();
    assert!(matches!(
        InboundMessage::decode(&registration),
        Ok(InboundMessage::RegistrationResult(_))
    ));
    let update = realtime_update_bytes();
    assert!(matches!(InboundMessage::decode(&update), Ok(InboundMessage::RealtimeUpdate(_))));
    let car = realtime_car_update_bytes();
    assert!(matches!(InboundMessage::decode(&car), Ok(InboundMessage::RealtimeCarUpdate(_))));
    let list = [0x04, 0x01, 0x00, 0x00, 0x00, 0x01, 0x00, 0xe9, 0x03];
    assert!(matches!(InboundMessage::decode(&list), Ok(InboundMessage::EntrylistUpdate(_))));
    let track = track_data_bytes();
    assert!(matches!(InboundMessage::decode(&track), Ok(InboundMessage::TrackData(_))));
    assert!(matches!(
        InboundMessage::decode(&ENTRYLIST_CAR),
        Ok(InboundMessage::EntrylistCar(_))
    ));
    let event = b"\x07\x05\x0d\x00Lap completed\x2c\x4a\x00\x00\xe9\x03\x00\x00";
    assert!(matches!(
        InboundMessage::decode(event),
        Ok(InboundMessage::BroadcastingEvent(_))
    ));
}

#[test]
fn the_smallest_message_of_every_tag_decodes() {
    let registration = [1, 0, 0, 0, 0, 0, 0, 0, 0];
    assert!(matches!(
        InboundMessage::decode(&registration),
        Ok(InboundMessage::RegistrationResult(_))
    ));
    let empty_lap = [0u8; 13];
    let mut update = vec![2u8, 0, 0, 0, 0, 0, 0];
    update.extend_from_slice(&[0; 4 + 4 + 4 + 2 + 2 + 2 + 1 + 4 + 5]);
    update.extend_from_slice(&empty_lap);
    assert!(matches!(InboundMessage::decode(&update), Ok(InboundMessage::RealtimeUpdate(_))));
    let mut car = vec![3u8];
    car.extend_from_slice(&[0; 37]);
    car.extend_from_slice(&empty_lap);
    car.extend_from_slice(&empty_lap);
    car.extend_from_slice(&empty_lap);
    assert!(matches!(InboundMessage::decode(&car), Ok(InboundMessage::RealtimeCarUpdate(_))));
    assert!(matches!(
        InboundMessage::decode(&[4, 0, 0, 0, 0, 0, 0]),
        Ok(InboundMessage::EntrylistUpdate(_))
    ));
    assert!(matches!(
        InboundMessage::decode(&[5, 0, 0, 0, 0, 0, 0, 0, 0, 0, 0, 0, 0, 0, 0, 0, 0]),
        Ok(InboundMessage::TrackData(_))
    ));
    assert!(matches!(
        InboundMessage::decode(&[6, 0, 0, 0, 0, 0, 0, 0, 0, 0, 0, 0, 0, 0, 0]),
        Ok(InboundMessage::EntrylistCar(_))
    ));
    assert!(matches!(
        InboundMessage::decode(&[7, 0, 0, 0, 0, 0, 0, 0, 0, 0, 0, 0]),
        Ok(InboundMessage::BroadcastingEvent(_))
    ));
}

#[test]
fn a_byte_that_is_no_tag_is_an_error() {
    assert_eq!(
        InboundMessage::decode(&[0xff, 1, 2, 3]).err(),
        Some(fails(0, ParseErrorKind::TagMismatch))
    );
    assert_eq!(
        InboundMessage::decode(&[0x00]).err(),
        Some(fails(0, ParseErrorKind::TagMismatch))
    );
    assert_eq!(
        InboundMessage::decode(&[0x08, 0, 0, 0, 0]).err(),
        Some(fails(0, ParseErrorKind::TagMismatch))
    );
    assert_eq!(InboundMessage::decode(&[]).err(), Some(fails(0, ParseErrorKind::TagMismatch)));
}

#[test]
fn the_tag_of_the_unregister_request_is_no_inbound_tag() {
    assert_eq!(
        InboundMessage::decode(&[0x09, 1, 0, 0, 0]).err(),
        Some(fails(0, ParseErrorKind::TagMismatch))
    );
}

#[test]
fn bytes_behind_the_message_are_an_error() {
    let input = b"\x01\x01\x00\x00\x00\x01\x01\x00\x00\x00";
    assert_eq!(InboundMessage::decode(input).err(), Some(fails(9, ParseErrorKind::TrailingBytes)));
    let mut input = realtime_car_update_bytes();
    let len = input.len();
    input.extend_from_slice(&[1, 2, 3]);
    assert_eq!(
        InboundMessage::decode(&input).err(),
        Some(fails(len, ParseErrorKind::TrailingBytes))
    );
}

#[test]
fn parse_hands_the_rest_back() {
    let input = b"\x01\x07\x00\x00\x00\x01\x00\x00\x00\x02rest";
    let (rest, message) = IncomingMessage::parse(input).unwrap();
    assert_eq!(rest, b"\x02rest");
    match message {
        InboundMessage::RegistrationResult(res) => {
            assert_eq!(res.connection_id, 7);
            assert!(res.connection_success);
            assert!(!res.read_only);
        }
        other => panic!("decoded {:?}", other),
    }
    assert_eq!(
        IncomingMessage::parse(b"\x0a").err(),
        Some(fails(0, ParseErrorKind::TagMismatch))
    );
}

#[test]
fn into_owned_keeps_the_message() {
    let owned = {
        let packet: Vec<u8> = ENTRYLIST_CAR.to_vec();
        InboundMessage::decode(&packet).unwrap().into_owned()
    };
    match owned {
        InboundMessage::EntrylistCar(car) => {
            assert_eq!(car.id, 1001);
            assert_eq!(car.drivers[0].last_name, "Rowntree");
            assert!(matches!(car.team_name, Cow::Owned(_)));
            assert!(matches!(car.drivers[0].first_name, Cow::Owned(_)));
        }
        other => panic!("decoded {:?}", other),
    }
    let owned = {
        let packet = track_data_bytes();
        track_data(&packet).unwrap().1.into_owned()
    };
    assert_eq!(owned.name, "Circuit Zolder");
    assert_eq!(owned.camera_sets.len(), 7);
    assert_eq!(owned.camera_sets.get("set1").unwrap()[1], "CameraTV2");
    assert!(matches!(owned.hud_pages[2], Cow::Owned(_)));
    let owned = {
        let packet = realtime_update_bytes();
        realtime_update(&packet).unwrap().1.into_owned()
    };
    assert_eq!(owned.active_camera_set, "pitlane");
    assert!(matches!(owned.current_hud_page, Cow::Owned(_)));
    let owned = {
        let packet = b"\x07\x05\x0d\x00Lap completed\x2c\x4a\x00\x00\xe9\x03\x00\x00".to_vec();
        broadcasting_event(&packet).unwrap().1.into_owned()
    };
    assert_eq!(owned.message, "Lap completed");
    let owned = {
        let packet = b"\x01\x01\x00\x00\x00\x00\x01\x10\x00Handshake failed".to_vec();
        registration_result(&packet).unwrap().1.into_owned()
    };
    assert_eq!(owned.error_message, "Handshake failed");
    assert!(matches!(owned.error_message, Cow::Owned(_)));
    let owned = {
        let packet = ENTRYLIST_CAR[15..].to_vec();
        driver(&packet).unwrap().1.into_owned()
    };
    assert_eq!(owned.short_name, "ROW");
}
