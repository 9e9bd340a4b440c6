use truegear_link::ble::device_name_matches;
use truegear_link::ble::find_characteristic_index;
use truegear_link::ble::find_service_index;
use truegear_link::ble::should_retry_candidate;
use truegear_link::ble::LinkAction;
use truegear_link::ble::LinkError;
use truegear_link::ble::TrueGearConnection;
use truegear_link::ble::SERVICE_UUID;
use truegear_link::ble::WRITE_CHARACTERISTIC_UUID;
use truegear_link::command::ActionType;
use truegear_link::command::ControlCommand;
use truegear_link::command::ControlCommandBody;
use truegear_link::command::ControlCommandTrack;
use truegear_link::command::IntensityMode;
use truegear_link::controller::TrueGearBLEController;
use truegear_link::predefined::on_connected_message;

#[test]
fn second_ensure_connected_reports_search_in_progress() {
    let mut c = TrueGearConnection::new();
    let (a1, r1) = c.ensure_connected(false);
    assert_eq!(a1, LinkAction::StartSearch);
    assert_eq!(r1, Err(LinkError::NotConnected));
    let (a2, r2) = c.ensure_connected(false);
    assert_eq!(a2, LinkAction::Stay);
    assert_eq!(r2, Err(LinkError::SearchInProgress));
    let (a3, r3) = c.ensure_connected(false);
    assert_eq!(a3, LinkAction::Stay);
    assert_eq!(r3, Err(LinkError::SearchInProgress));
}

#[test]
fn search_conclusion_connects_or_releases() {
    let mut c = TrueGearConnection::new();
    let _ = c.ensure_connected(false);
    c.search_finished(false);
    assert!(!c.connected);
    assert!(!c.searching);
    let _ = c.ensure_connected(false);
    c.search_finished(true);
    assert!(c.connected);
    assert!(!c.searching);
    let (a, r) = c.ensure_connected(true);
    assert_eq!(a, LinkAction::Stay);
    assert_eq!(r, Ok(()));
}

#[test]
fn dead_link_restarts_search() {
    let mut c = TrueGearConnection::new();
    let _ = c.ensure_connected(false);
    c.search_finished(true);
    // the handle is held but the platform reports the link dead
    let (a, r) = c.ensure_connected(false);
    assert_eq!(a, LinkAction::StartSearch);
    assert_eq!(r, Err(LinkError::NotConnected));
}

#[test]
fn send_while_disconnected_starts_one_search() {
    let mut c = TrueGearConnection::new();
    let (a1, r1) = c.send_data(false);
    assert_eq!(a1, LinkAction::StartSearch);
    assert_eq!(r1, Err(LinkError::NotConnected));
    let (a2, r2) = c.send_data(false);
    assert_eq!(a2, LinkAction::Stay);
    assert_eq!(r2, Err(LinkError::SearchInProgress));
}

#[test]
fn disconnect_is_idempotent() {
    let mut c = TrueGearConnection::new();
    let _ = c.ensure_connected(false);
    c.search_finished(true);
    c.disconnect();
    assert!(!c.connected);
    c.disconnect();
    assert!(!c.connected);
}

#[test]
fn start_triggers_search_once() {
    let mut c = TrueGearConnection::new();
    assert_eq!(c.start(false), LinkAction::StartSearch);
    assert_eq!(c.start(false), LinkAction::Stay);
}

#[test]
fn device_name_filter() {
    assert!(device_name_matches(b"Truegear_C"));
    assert!(device_name_matches(b"Name: Truegear_C123"));
    assert!(!device_name_matches(b"Truegear"));
    assert!(!device_name_matches(b"truegear_c"));
    assert!(!device_name_matches(b""));
    assert!(!device_name_matches(b"Truegear_"));
}

#[test]
fn retry_budget_is_three() {
    assert!(should_retry_candidate(0));
    assert!(should_retry_candidate(2));
    assert!(!should_retry_candidate(3));
    assert!(!should_retry_candidate(200));
}

#[test]
fn service_and_characteristic_lookup() {
    let services = vec![0x1234u128, SERVICE_UUID, SERVICE_UUID];
    assert_eq!(find_service_index(&services), Ok(1));
    assert_eq!(find_service_index(&[0x1234u128]), Err(LinkError::ServiceNotFound));
    assert_eq!(find_service_index(&[]), Err(LinkError::ServiceNotFound));
    let chars = vec![SERVICE_UUID, WRITE_CHARACTERISTIC_UUID];
    assert_eq!(find_characteristic_index(&chars), Ok(1));
    assert_eq!(
        find_characteristic_index(&[SERVICE_UUID]),
        Err(LinkError::CharacteristicNotFound)
    );
}

#[test]
fn controller_ratio_round_trip() {
    let mut c = TrueGearBLEController::build(1000);
    assert_eq!(c.electical_effect_ratio(), 1000);
    c.set_electical_effect_ratio(250);
    assert_eq!(c.electical_effect_ratio(), 250);
}

#[test]
fn controller_send_while_disconnected() {
    let mut c = TrueGearBLEController::build(1000);
    let message = ControlCommand {
        method: String::from("play"),
        body: ControlCommandBody {
            name: String::from("fx"),
            uuid: String::from("fx"),
            keep: false,
            priority: 0,
            tracks: vec![],
        },
    };
    let (a1, r1) = c.send_ble_message(&message, false);
    assert_eq!(a1, LinkAction::StartSearch);
    assert_eq!(r1, Err(LinkError::NotConnected));
    let (a2, r2) = c.send_ble_message(&message, false);
    assert_eq!(a2, LinkAction::Stay);
    assert_eq!(r2, Err(LinkError::SearchInProgress));
}

#[test]
fn controller_send_when_connected_yields_frames() {
    let mut c = TrueGearBLEController::build(500);
    let _ = c.start(false);
    c.true_gear_connection.search_finished(true);
    let message = ControlCommand {
        method: String::from("play"),
        body: ControlCommandBody {
            name: String::from("fx"),
            uuid: String::from("fx"),
            keep: false,
            priority: 0,
            tracks: vec![ControlCommandTrack {
                start_time: 0,
                end_time: 1000,
                stop_name: String::new(),
                start_intensity: 30,
                end_intensity: 77,
                intensity_mode: IntensityMode::Const,
                action_type: ActionType::Electrical,
                once: false,
                interval: 5,
                index: vec![0, 100],
            }],
        },
    };
    let (_, sent) = c.send_ble_message(&message, true);
    let mut expected: Vec<u8> = Vec::new();
    message.write_ble_bytes_to(&mut expected, 500);
    assert_eq!(sent.unwrap(), expected);

    // a list of commands concatenates their frames
    let list = vec![message.clone(), message.clone()];
    let (_, sent2) = c.send_ble_messages(&list, true);
    let mut doubled = expected.clone();
    doubled.extend(expected.iter().copied());
    assert_eq!(sent2.unwrap(), doubled);
}

#[test]
fn on_connect_greeting_bytes() {
    let messages = on_connected_message();
    assert_eq!(messages.len(), 4);

    let mut c = TrueGearBLEController::build(1000);
    let _ = c.start(false);
    c.true_gear_connection.search_finished(true);
    let (_, sent) = c.on_connected(true);
    let buf = sent.unwrap();

    let shake_frame: Vec<u8> = vec![
        0x68, 0x68, 0x01, // one object
        0x01, 0x00, 0x00, 0x00, 0x00, 0x64, 0x14, 0x14, // const shake, 0-100 ms, intensity 20
        0xFF, 0xC0, 0xFF, 0xC0, 0xFF, 0xC0, 0xFF, 0xC0, // every mapped actuator flagged
        0x16,
    ];
    let electrical_frame: Vec<u8> = vec![
        0x68, 0x68, 0x01, // one object
        0x10, 0x00, 0x00, 0x00, 0x00, 0x00, 0x00, 0x00, // one-shot electrical, all times zero
        0x00, 0x1E, 0x00, 0x00, // intensity 30 fading to 0 at full ratio
        0xF0, 0x00, 0xF0, 0x00, // both zone anchors
        0x16,
    ];
    let mut expected = shake_frame.clone();
    expected.extend(electrical_frame.iter().copied());
    expected.extend(shake_frame.iter().copied());
    expected.extend(electrical_frame.iter().copied());
    assert_eq!(buf, expected);
}

#[test]
fn controller_close_is_idempotent() {
    let mut c = TrueGearBLEController::build(1000);
    let _ = c.start(false);
    c.true_gear_connection.search_finished(true);
    c.close();
    assert!(!c.true_gear_connection.connected);
    c.close();
    assert!(!c.true_gear_connection.connected);
}
