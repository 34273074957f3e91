use daly_bms::gatt::{
    is_control_uuid_str, plan_characteristic, CharacteristicProps, ValueSource, DEVICE_NAME_PREFIX,
    SERVICE_FFF0, SERVICE_FFF1, SERVICE_FFF2,
};

#[test]
fn control_uuid_is_recognised_in_any_case() {
    assert!(is_control_uuid_str("0000fff2-0000-1000-8000-00805f9b34fb"));
    assert!(is_control_uuid_str("0000FFF2-0000-1000-8000-00805F9B34FB"));
    assert!(is_control_uuid_str("0000fFf2"));
}

#[test]
fn other_uuids_are_not_control() {
    assert!(!is_control_uuid_str("0000fff1-0000-1000-8000-00805f9b34fb"));
    assert!(!is_control_uuid_str("0000fff"));
    assert!(!is_control_uuid_str(""));
    assert!(!is_control_uuid_str("x0000fff2"));
}

#[test]
fn writable_fff2_becomes_control() {
    let props = CharacteristicProps { write: true, notify: false, read: false };
    let plan = plan_characteristic(SERVICE_FFF2, props);
    assert!(plan.store_as_control);
    assert_eq!(plan.source, ValueSource::Unused);
}

#[test]
fn read_only_fff2_is_not_control() {
    let props = CharacteristicProps { write: false, notify: false, read: true };
    let plan = plan_characteristic(SERVICE_FFF2, props);
    assert!(!plan.store_as_control);
    assert_eq!(plan.source, ValueSource::SingleRead);
}

#[test]
fn notifications_take_precedence_over_reads() {
    let props = CharacteristicProps { write: false, notify: true, read: true };
    let plan = plan_characteristic(SERVICE_FFF1, props);
    assert!(!plan.store_as_control);
    assert_eq!(plan.source, ValueSource::Notifications);
}

#[test]
fn writable_other_characteristic_is_not_control() {
    let props = CharacteristicProps { write: true, notify: true, read: true };
    let plan = plan_characteristic(SERVICE_FFF0, props);
    assert!(!plan.store_as_control);
    assert_eq!(plan.source, ValueSource::Notifications);
}

#[test]
fn device_filter_prefix() {
    assert_eq!(DEVICE_NAME_PREFIX, "DL-");
    assert!("DL-40D63C2C1234".starts_with(DEVICE_NAME_PREFIX));
}
