use truegear_link::ble_notify_parser::BleNotifyParser;
use truegear_link::ble_notify_parser::DeviceStatus;
use truegear_link::ble_notify_parser::ProtocolError;
use truegear_link::command::ActionType;
use truegear_link::command::ControlCommand;
use truegear_link::command::ControlCommandBody;
use truegear_link::command::ControlCommandTrack;
use truegear_link::command::IntensityMode;
use truegear_link::encode::scaled_intensity;
use truegear_link::predefined::electrical_flag_mask;
use truegear_link::predefined::electrical_flag_shift_map;
use truegear_link::predefined::shake_flag_shift;
use truegear_link::predefined::shake_flag_shift_map;

fn track(
    start_time: u16,
    end_time: u16,
    start_intensity: u16,
    end_intensity: u16,
    intensity_mode: IntensityMode,
    action_type: ActionType,
    once: bool,
    interval: u16,
    index: Vec<u8>,
) -> ControlCommandTrack {
    ControlCommandTrack {
        start_time,
        end_time,
        stop_name: String::new(),
        start_intensity,
        end_intensity,
        intensity_mode,
        action_type,
        once,
        interval,
        index,
    }
}

fn effect(keep: bool, tracks: Vec<ControlCommandTrack>) -> ControlCommandBody {
    ControlCommandBody {
        name: String::from("fx"),
        uuid: String::from("fx-uuid"),
        keep,
        priority: 0,
        tracks,
    }
}

#[test]
fn shake_const_exact_frame() {
    let body = effect(
        false,
        vec![track(
            258,
            772,
            20,
            153,
            IntensityMode::Const,
            ActionType::Shake,
            false,
            0,
            vec![0],
        )],
    );
    let mut buf: Vec<u8> = Vec::new();
    body.write_ble_bytes_to(&mut buf, 1000);
    let expected: Vec<u8> = vec![
        0x68, 0x68, 0x01, // frame head, one object
        0x01, 0x00, 0x01, 0x02, 0x03, 0x04, 0x14, 0x14, // const/no-keep header, id, times, intensities
        0x80, 0x00, 0x00, 0x00, 0x00, 0x00, 0x00, 0x00, // index 0 owns bit 63
        0x16,
    ];
    assert_eq!(buf, expected);
}

#[test]
fn shake_const_end_byte_equals_start_byte() {
    let body = effect(
        false,
        vec![track(
            0,
            100,
            20,
            200,
            IntensityMode::Const,
            ActionType::Shake,
            false,
            0,
            vec![0],
        )],
    );
    let mut buf: Vec<u8> = Vec::new();
    body.write_ble_bytes_to(&mut buf, 1000);
    // within the object: header, id, ts, ts, te, te, start, end
    assert_eq!(buf[9], 20);
    assert_eq!(buf[10], 20);
}

#[test]
fn fade_in_and_out_emits_two_objects() {
    let t = track(
        100,
        301,
        10,
        250,
        IntensityMode::FadeInAndOut,
        ActionType::Shake,
        false,
        0,
        vec![119],
    );
    let mut buf: Vec<u8> = Vec::new();
    let count = t.write_ble_bytes_to(&mut buf, true, 1000);
    assert_eq!(count, 2);
    assert_eq!(buf.len(), 32);
    // index 119 owns bit 0x16: byte 5 of the flag field, value 0x40
    let flags: [u8; 8] = [0x00, 0x00, 0x00, 0x00, 0x00, 0x40, 0x00, 0x00];
    let mut expected: Vec<u8> = vec![0x04, 0x00, 0x00, 0x64, 0x00, 0xC8, 0x0A, 0xFA];
    expected.extend(flags);
    // second half: midpoint 200 to 301, intensities swapped
    expected.extend([0x04, 0x00, 0x00, 0xC8, 0x01, 0x2D, 0xFA, 0x0A]);
    expected.extend(flags);
    assert_eq!(buf, expected);
}

#[test]
fn fade_in_and_out_raises_frame_count_by_two() {
    let body = effect(
        false,
        vec![
            track(0, 10, 1, 2, IntensityMode::Fade, ActionType::Shake, false, 0, vec![0]),
            track(0, 10, 1, 2, IntensityMode::FadeInAndOut, ActionType::Shake, false, 0, vec![0]),
        ],
    );
    let mut buf: Vec<u8> = Vec::new();
    body.write_ble_bytes_to(&mut buf, 1000);
    assert_eq!(buf[2], 3); // one plain object plus two for the split track
    assert_eq!(buf.len(), 3 + 3 * 16 + 1);
}

#[test]
fn electrical_const_exact_frame() {
    let body = effect(
        false,
        vec![track(
            0,
            1000,
            30,
            77,
            IntensityMode::Const,
            ActionType::Electrical,
            false,
            5,
            vec![0, 100],
        )],
    );
    let mut buf: Vec<u8> = Vec::new();
    body.write_ble_bytes_to(&mut buf, 500);
    let expected: Vec<u8> = vec![
        0x68, 0x68, 0x01, // frame head, one object
        0x11, 0x00, 0x00, 0x00, 0x03, 0xE8, 0x05, 0x00, // const header, pad, times, interval, pad
        0x00, 0x0F, 0x00, 0x0F, // both intensities scaled to 15 by the half ratio
        0xF0, 0x00, 0xF0, 0x00, // both zone anchors flagged
        0x16,
    ];
    assert_eq!(buf, expected);
}

#[test]
fn electrical_once_header_overrides_mode() {
    for mode in [IntensityMode::Const, IntensityMode::Fade] {
        let t = track(0, 10, 5, 9, mode, ActionType::Electrical, true, 0, vec![0]);
        let mut buf: Vec<u8> = Vec::new();
        let count = t.write_ble_bytes_to(&mut buf, false, 1000);
        assert_eq!(count, 1);
        assert_eq!(buf[0], 0x10);
    }
}

#[test]
fn message_frame_equals_body_frame() {
    let body = effect(
        true,
        vec![track(1, 2, 3, 4, IntensityMode::Fade, ActionType::Shake, false, 0, vec![7])],
    );
    let message = ControlCommand { method: String::from("play"), body: body.clone() };
    let mut from_message: Vec<u8> = Vec::new();
    message.write_ble_bytes_to(&mut from_message, 1000);
    let mut from_body: Vec<u8> = Vec::new();
    body.write_ble_bytes_to(&mut from_body, 1000);
    assert_eq!(from_message, from_body);
}

#[test]
fn out_of_range_index_is_dropped() {
    let body = effect(
        false,
        vec![track(0, 1, 2, 3, IntensityMode::Fade, ActionType::Shake, false, 0, vec![20, 99, 120, 255])],
    );
    let mut buf: Vec<u8> = Vec::new();
    body.write_ble_bytes_to(&mut buf, 1000);
    assert_eq!(&buf[11..19], &[0u8; 8]);
}

#[test]
fn scaled_intensity_values() {
    assert_eq!(scaled_intensity(30, 500), 15);
    assert_eq!(scaled_intensity(7, 1000), 7);
    assert_eq!(scaled_intensity(100, 0), 0);
    assert_eq!(scaled_intensity(99, 333), 32);
    assert_eq!(scaled_intensity(0xFFFF, 2000), 0xFFFF); // saturates at the 16-bit limit
}

#[test]
fn shake_flag_shift_zone_corners() {
    assert_eq!(shake_flag_shift(119), Some(0x16));
    assert_eq!(shake_flag_shift(19), Some(0x06));
    assert_ne!(shake_flag_shift(119), shake_flag_shift(19));
    assert_eq!(shake_flag_shift(20), None);
    assert_eq!(shake_flag_shift(99), None);
    assert_eq!(shake_flag_shift(120), None);
}

#[test]
fn shake_flag_table_contents() {
    let m = shake_flag_shift_map();
    assert_eq!(m.len(), 40);
    assert_eq!(m[0], (0, 0x3F));
    assert_eq!(m[39], (19, 0x06));
    for (i, s) in m {
        assert_eq!(shake_flag_shift(i), Some(s));
    }
}

#[test]
fn electrical_flag_table_contents() {
    let m = electrical_flag_shift_map();
    assert_eq!(m.len(), 2);
    assert_eq!(m[0], (0, [0x1F, 0x1E, 0x1D, 0x1C]));
    assert_eq!(m[1], (100, [0x0F, 0x0E, 0x0D, 0x0C]));
    // every index selects its zone's nibble, not only the anchors
    assert_eq!(electrical_flag_mask(0), 0xF000_0000);
    assert_eq!(electrical_flag_mask(50), 0xF000_0000);
    assert_eq!(electrical_flag_mask(99), 0xF000_0000);
    assert_eq!(electrical_flag_mask(100), 0x0000_F000);
    assert_eq!(electrical_flag_mask(119), 0x0000_F000);
    assert_eq!(electrical_flag_mask(255), 0x0000_F000);
}

#[test]
fn electrical_zone_flags_follow_zone_membership() {
    // a front-zone index alone flags the front nibble
    let t_front = track(0, 10, 50, 50, IntensityMode::Const, ActionType::Electrical, false, 0, vec![5]);
    let mut buf: Vec<u8> = Vec::new();
    t_front.write_ble_bytes_to(&mut buf, false, 1000);
    assert_eq!(&buf[12..16], &[0xF0, 0x00, 0x00, 0x00]);

    // a back-zone index alone flags the back nibble
    let t_back = track(0, 10, 50, 50, IntensityMode::Const, ActionType::Electrical, false, 0, vec![119]);
    let mut buf: Vec<u8> = Vec::new();
    t_back.write_ble_bytes_to(&mut buf, false, 1000);
    assert_eq!(&buf[12..16], &[0x00, 0x00, 0xF0, 0x00]);

    // one index in each zone flags both
    let t_both = track(0, 10, 50, 50, IntensityMode::Const, ActionType::Electrical, false, 0, vec![5, 119]);
    let mut buf: Vec<u8> = Vec::new();
    t_both.write_ble_bytes_to(&mut buf, false, 1000);
    assert_eq!(&buf[12..16], &[0xF0, 0x00, 0xF0, 0x00]);

    // no index at all flags nothing
    let t_none = track(0, 10, 50, 50, IntensityMode::Const, ActionType::Electrical, false, 0, vec![]);
    let mut buf: Vec<u8> = Vec::new();
    t_none.write_ble_bytes_to(&mut buf, false, 1000);
    assert_eq!(&buf[12..16], &[0x00, 0x00, 0x00, 0x00]);
}

#[test]
fn encoded_frames_decode_to_no_telemetry() {
    // what the gateway sends is itself well-formed under the notification
    // grammar, and carries no device status
    let body = effect(
        true,
        vec![
            track(3, 9, 40, 80, IntensityMode::FadeInAndOut, ActionType::Electrical, false, 7, vec![100]),
            track(0, 50, 60, 60, IntensityMode::Const, ActionType::Shake, false, 0, vec![1, 2, 3]),
        ],
    );
    let mut buf: Vec<u8> = Vec::new();
    body.write_ble_bytes_to(&mut buf, 700);
    let parser = BleNotifyParser::new();
    assert_eq!(parser.on_message_received(buf.as_slice()).unwrap(), vec![]);
}

fn status_frame() -> Vec<u8> {
    vec![
        0x68, 0x68, 0x01, 0x81, 0x02, 0x03, 0x04, // head, one object, status marker
        0x00, 0x01, 0x0F, 0xA0, // main: model 1, 4000 mV
        0x00, 0x02, 0x0B, 0xB8, // left: model 2, 3000 mV
        0x00, 0x03, 0x0D, 0xAC, // right: model 3, 3500 mV
        0x16,
    ]
}

#[test]
fn decode_two_status_frames() {
    let mut buf = status_frame();
    buf.extend(status_frame());
    let parser = BleNotifyParser::new();
    let got = parser.on_message_received(buf.as_slice()).unwrap();
    let want = DeviceStatus {
        main_model: 1,
        main_battery_mv: 4000,
        left_model: 2,
        left_battery_mv: 3000,
        right_model: 3,
        right_battery_mv: 3500,
    };
    assert_eq!(got, vec![want, want]);
}

#[test]
fn decode_skips_echo_objects() {
    let mut buf: Vec<u8> = vec![0x68, 0x68, 0x02, 0x01];
    buf.extend([0xAA; 15]); // echoed shake object payload, ignored
    buf.extend(&status_frame()[3..19]); // a status object in the same frame
    buf.push(0x16);
    let parser = BleNotifyParser::new();
    let got = parser.on_message_received(buf.as_slice()).unwrap();
    assert_eq!(got.len(), 1);
    assert_eq!(got[0].main_battery_mv, 4000);
}

#[test]
fn decode_empty_buffer_is_ok() {
    let parser = BleNotifyParser::new();
    assert_eq!(parser.on_message_received(&[]).unwrap(), vec![]);
}

#[test]
fn decode_unknown_object_type() {
    let parser = BleNotifyParser::new();
    let buf: Vec<u8> = vec![0x68, 0x68, 0x01, 0xFF, 0x16];
    assert_eq!(
        parser.on_message_received(buf.as_slice()),
        Err(ProtocolError::UnknownObjectType)
    );
}

#[test]
fn decode_bad_frame_head() {
    let parser = BleNotifyParser::new();
    assert_eq!(
        parser.on_message_received(&[0x69]),
        Err(ProtocolError::UnexpectedByte)
    );
    assert_eq!(
        parser.on_message_received(&[0x68, 0x67, 0x00, 0x16]),
        Err(ProtocolError::UnexpectedByte)
    );
}

#[test]
fn decode_truncated_frames() {
    let parser = BleNotifyParser::new();
    assert_eq!(parser.on_message_received(&[0x68]), Err(ProtocolError::IncompleteData));
    assert_eq!(parser.on_message_received(&[0x68, 0x68]), Err(ProtocolError::IncompleteData));
    // a frame whose only object is cut off
    assert_eq!(
        parser.on_message_received(&[0x68, 0x68, 0x01, 0x81, 0x02, 0x03]),
        Err(ProtocolError::IncompleteData)
    );
    // a full object but no trailing frame marker
    let frame = status_frame();
    assert_eq!(
        parser.on_message_received(&frame[..frame.len() - 1]),
        Err(ProtocolError::IncompleteData)
    );
}

#[test]
fn decode_bad_status_marker() {
    let parser = BleNotifyParser::new();
    let mut buf = status_frame();
    buf[6] = 0x05; // third marker byte of the status object
    assert_eq!(
        parser.on_message_received(buf.as_slice()),
        Err(ProtocolError::UnexpectedByte)
    );
}

#[test]
fn decode_second_frame_error_is_reported() {
    let parser = BleNotifyParser::new();
    let mut buf = status_frame();
    buf.extend([0x68, 0x68, 0x01, 0xFF, 0x16]);
    assert_eq!(
        parser.on_message_received(buf.as_slice()),
        Err(ProtocolError::UnknownObjectType)
    );
}
