use daly_bms::state::{
    AppState, DalyBtleEvent, HandlerCommand, HandlerMessage, Reading, Step,
};
use daly_bms::view::{control_buttons, readings_panel, ReadingsPanel};

fn reading(hex: &str, ts_ms: u64) -> Reading {
    Reading::new(
        "DL-TEST".to_string(),
        "0000fff0-0000-1000-8000-00805f9b34fb".to_string(),
        "0000fff1-0000-1000-8000-00805f9b34fb".to_string(),
        hex.to_string(),
        ts_ms,
    )
}

#[test]
fn new_state_is_empty_and_disconnected() {
    let s = AppState::new();
    assert!(s.readings.is_empty());
    assert!(!s.is_connected);
    assert!(s.device_name.is_none());
    assert_eq!(s.status_message, "");
}

#[test]
fn reading_constructor_keeps_fields() {
    let r = reading("d2 03", 42);
    assert_eq!(r.device, "DL-TEST");
    assert_eq!(r.value_hex, "d2 03");
    assert!(r.value_text.is_none());
    assert_eq!(r.ts_ms, 42);
}

#[test]
fn connect_only_asks_for_a_device() {
    let mut s = AppState::new();
    let step = s.handle_message(HandlerMessage::Connect, false);
    assert_eq!(step, Step { command: HandlerCommand::OpenDevice, refresh_timestamp: false });
    assert!(!s.is_connected);
    assert_eq!(s.status_message, "");
}

#[test]
fn successful_connection_with_name() {
    let mut s = AppState::new();
    s.connect_succeeded(Some("DL-40D63C".to_string()));
    assert!(s.is_connected);
    assert_eq!(s.device_name.as_deref(), Some("DL-40D63C"));
    assert_eq!(s.status_message, "Connected to DL-40D63C");
}

#[test]
fn successful_connection_without_name() {
    let mut s = AppState::new();
    s.connect_succeeded(None);
    assert!(s.is_connected);
    assert!(s.device_name.is_none());
    assert_eq!(s.status_message, "Connected to device");
}

#[test]
fn failed_connection_reports_error() {
    let mut s = AppState::new();
    s.connect_failed("JsValue(\"User cancelled\")".to_string());
    assert!(!s.is_connected);
    assert_eq!(s.status_message, "Connection failed: JsValue(\"User cancelled\")");
}

#[test]
fn disconnect_forgets_device() {
    let mut s = AppState::new();
    s.connect_succeeded(Some("DL-1".to_string()));
    s.record_event(DalyBtleEvent::Received(reading("01", 1)));
    let step = s.handle_message(HandlerMessage::Disconnect, true);
    assert_eq!(step, Step { command: HandlerCommand::CloseDevice, refresh_timestamp: true });
    assert!(!s.is_connected);
    assert!(s.device_name.is_none());
    assert_eq!(s.status_message, "Disconnected");
    assert_eq!(s.readings.len(), 1);
}

#[test]
fn request_status_with_device() {
    let mut s = AppState::new();
    s.connect_succeeded(Some("DL-1".to_string()));
    let step = s.handle_message(HandlerMessage::RequestStatus, true);
    assert_eq!(step, Step { command: HandlerCommand::SendStatusRequest, refresh_timestamp: true });
    assert_eq!(s.status_message, "Requested status");
    assert!(s.is_connected);
}

#[test]
fn request_status_without_device_is_ignored() {
    let mut s = AppState::new();
    s.connect_failed("e".to_string());
    let step = s.handle_message(HandlerMessage::RequestStatus, false);
    assert_eq!(step, Step { command: HandlerCommand::Nothing, refresh_timestamp: false });
    assert_eq!(s.status_message, "Connection failed: e");
}

#[test]
fn clear_drops_readings_and_keeps_connection() {
    let mut s = AppState::new();
    s.connect_succeeded(Some("DL-1".to_string()));
    s.record_event(DalyBtleEvent::Received(reading("01", 1)));
    s.record_event(DalyBtleEvent::Received(reading("02", 2)));
    let step = s.handle_message(HandlerMessage::ClearReadings, true);
    assert_eq!(step, Step { command: HandlerCommand::Nothing, refresh_timestamp: true });
    assert!(s.readings.is_empty());
    assert!(s.is_connected);
    assert_eq!(s.status_message, "Readings cleared");
}

#[test]
fn readings_are_kept_in_arrival_order_even_when_disconnected() {
    let mut s = AppState::new();
    s.record_event(DalyBtleEvent::Received(reading("01", 1)));
    s.record_event(DalyBtleEvent::Received(reading("02", 2)));
    s.record_event(DalyBtleEvent::Received(reading("03", 3)));
    let hex: Vec<&str> = s.readings.iter().map(|r| r.value_hex.as_str()).collect();
    assert_eq!(hex, vec!["01", "02", "03"]);
    assert!(!s.is_connected);
}

#[test]
fn readings_panel_empty() {
    assert_eq!(readings_panel(0), ReadingsPanel::Empty);
}

#[test]
fn readings_panel_few_readings_newest_first() {
    assert_eq!(readings_panel(3), ReadingsPanel::Recent { newest_first: vec![2, 1, 0], more: None });
}

#[test]
fn readings_panel_exactly_twenty() {
    let expected: Vec<usize> = (0..20).rev().collect();
    assert_eq!(readings_panel(20), ReadingsPanel::Recent { newest_first: expected, more: None });
}

#[test]
fn readings_panel_many_readings() {
    let expected: Vec<usize> = (5..25).rev().collect();
    assert_eq!(readings_panel(25), ReadingsPanel::Recent { newest_first: expected, more: Some(5) });
}

#[test]
fn buttons_when_connected() {
    assert_eq!(
        control_buttons(true),
        vec![HandlerMessage::Disconnect, HandlerMessage::RequestStatus, HandlerMessage::ClearReadings]
    );
}

#[test]
fn buttons_when_disconnected() {
    assert_eq!(control_buttons(false), vec![HandlerMessage::Connect, HandlerMessage::ClearReadings]);
}

#[test]
fn many_inputs_append_readings_in_order_and_keep_name_only_while_connected() {
    let mut s = AppState::new();
    let mut expected: Vec<String> = Vec::new();
    for k in 0..30u64 {
        let hex = format!("{:02x}", k);
        s.record_event(DalyBtleEvent::Received(reading(&hex, k)));
        expected.push(hex);
        match k % 5 {
            0 => {
                s.connect_succeeded(Some(format!("DL-{}", k)));
            }
            1 => {
                s.handle_message(HandlerMessage::Disconnect, true);
            }
            2 => {
                s.connect_failed("e".to_string());
            }
            3 => {
                s.handle_message(HandlerMessage::RequestStatus, s.is_connected);
            }
            _ => {
                s.handle_message(HandlerMessage::Connect, false);
            }
        }
        assert!(s.is_connected || s.device_name.is_none());
    }
    let got: Vec<String> = s.readings.iter().map(|r| r.value_hex.clone()).collect();
    assert_eq!(got, expected);
    s.handle_message(HandlerMessage::ClearReadings, false);
    s.record_event(DalyBtleEvent::Received(reading("aa", 100)));
    let got: Vec<&str> = s.readings.iter().map(|r| r.value_hex.as_str()).collect();
    assert_eq!(got, vec!["aa"]);
}

#[test]
fn connection_outcomes_and_readings_refresh_the_update_time() {
    let mut s = AppState::new();
    assert!(s.connect_failed("e".to_string()));
    assert!(s.connect_succeeded(None));
    assert!(s.record_event(DalyBtleEvent::Received(reading("01", 1))));
}
