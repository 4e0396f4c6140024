use renogymon::bt2::{
    adapter_path, bt2_device_indices, characteristic_role, device_path_for_address,
    find_characteristics, notification_data, service_wait_step, services_timeout_error, CharRole,
    GattObject, ServiceWaitAction, SERVICE_POLL_ATTEMPTS,
};
use renogymon::error::RenogyError;

const WRITE: &str = "0000ffd1-0000-1000-8000-00805f9b34fb";
const NOTIFY: &str = "0000fff1-0000-1000-8000-00805f9b34fb";

fn obj(path: &str, uuid: Option<&str>) -> GattObject {
    GattObject { path: path.to_string(), characteristic_uuid: uuid.map(|u| u.to_string()) }
}

#[test]
fn device_path_from_mac_address() {
    assert_eq!(
        device_path_for_address("aa:bb:cc:0d:ee:ff", "hci0"),
        "/org/bluez/hci0/dev_AA_BB_CC_0D_EE_FF"
    );
    assert_eq!(device_path_for_address("", "hci1"), "/org/bluez/hci1/dev_");
}

#[test]
fn adapter_object_path() {
    assert_eq!(adapter_path("hci0"), "/org/bluez/hci0");
}

#[test]
fn characteristic_roles() {
    assert_eq!(characteristic_role(WRITE), CharRole::Write);
    assert_eq!(characteristic_role(NOTIFY), CharRole::Notify);
    assert_eq!(characteristic_role("00002a00-0000-1000-8000-00805f9b34fb"), CharRole::Other);
}

#[test]
fn finds_both_characteristics_in_any_case() {
    let dev = "/org/bluez/hci0/dev_AA";
    let objects = vec![
        obj("/org/bluez/hci0", None),
        obj("/org/bluez/hci0/dev_AA/service0010/char0011", Some("0000FFF1-0000-1000-8000-00805F9B34FB")),
        obj("/org/bluez/hci0/dev_AA/service0010", None),
        obj("/org/bluez/hci0/dev_AA/service0014/char0015", Some(WRITE)),
    ];
    assert_eq!(
        find_characteristics(&objects, dev),
        Ok((
            "/org/bluez/hci0/dev_AA/service0014/char0015".to_string(),
            "/org/bluez/hci0/dev_AA/service0010/char0011".to_string()
        ))
    );
}

#[test]
fn ignores_characteristics_of_other_devices() {
    let objects = vec![
        obj("/org/bluez/hci0/dev_BB/service0010/char0011", Some(WRITE)),
        obj("/org/bluez/hci0/dev_AA/service0010/char0012", Some(NOTIFY)),
    ];
    assert_eq!(
        find_characteristics(&objects, "/org/bluez/hci0/dev_AA"),
        Err(RenogyError::Bluetooth("BT-2 characteristics not found".to_string()))
    );
}

#[test]
fn stops_at_first_complete_pair() {
    let objects = vec![
        obj("/d/w1", Some(WRITE)),
        obj("/d/w2", Some(WRITE)),
        obj("/d/n1", Some(NOTIFY)),
        obj("/d/w3", Some(WRITE)),
    ];
    assert_eq!(
        find_characteristics(&objects, "/d"),
        Ok(("/d/w2".to_string(), "/d/n1".to_string()))
    );
}

#[test]
fn service_wait_gives_up_after_all_attempts() {
    assert_eq!(SERVICE_POLL_ATTEMPTS, 50);
    for k in 0..49 {
        assert_eq!(service_wait_step(k, false), ServiceWaitAction::SleepThenPoll);
    }
    assert_eq!(service_wait_step(49, false), ServiceWaitAction::SleepThenFail);
    assert_eq!(service_wait_step(0, true), ServiceWaitAction::Ready);
    assert_eq!(service_wait_step(49, true), ServiceWaitAction::Ready);
    assert_eq!(
        services_timeout_error(),
        RenogyError::Bluetooth("timeout waiting for services to resolve".to_string())
    );
}

#[test]
fn selects_bt2_devices_by_name() {
    let names = vec![
        Some("BT-TH-1234".to_string()),
        None,
        Some("Speaker".to_string()),
        Some("BT-TH-".to_string()),
        Some("bt-th-lower".to_string()),
        Some("BT-T".to_string()),
    ];
    assert_eq!(bt2_device_indices(&names), vec![0, 3]);
}

#[test]
fn forwards_only_non_empty_notifications() {
    assert_eq!(notification_data(Some(vec![1, 2])), Some(vec![1, 2]));
    assert_eq!(notification_data(Some(vec![])), None);
    assert_eq!(notification_data(None), None);
}
