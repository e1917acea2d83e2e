use stella::wallpaper_changer::ble_device::{self, BleEarphone};
use stella::wallpaper_changer::devices::{
    airpods_connected, check_earphones, is_airpods, is_headphone_jack, DeviceReport, Earphone,
};

fn report(name: &str, connected: Option<bool>) -> DeviceReport {
    DeviceReport { name: name.to_string(), connected }
}

#[test]
fn jack_readings_give_earphone_states() {
    assert_eq!(check_earphones(Ok(true)), Ok(Earphone::Activated));
    assert_eq!(check_earphones(Ok(false)), Ok(Earphone::Deactivated));
    assert_eq!(check_earphones(Err("no such card".to_string())), Ok(Earphone::Deactivated));
}

#[test]
fn the_headphone_jack_control_is_recognised() {
    assert!(is_headphone_jack("Headphone Jack"));
    assert!(!is_headphone_jack("Headphone Phantom Jack"));
    assert!(!is_headphone_jack("headphone jack"));
    assert!(!is_headphone_jack("Master"));
}

#[test]
fn airpods_are_recognised_by_name() {
    assert!(is_airpods("AirPods"));
    assert!(!is_airpods("Airpods"));
    assert!(!is_airpods("AirPods Pro"));
}

#[test]
fn the_last_airpods_in_the_scan_decides() {
    let scan = vec![report("AirPods", Some(true)), report("Mouse", None), report("AirPods", Some(false))];
    assert!(!airpods_connected(&scan, true));
    let scan = vec![report("AirPods", Some(false)), report("AirPods", Some(true)), report("Mouse", None)];
    assert!(airpods_connected(&scan, true));
    assert!(!airpods_connected(&vec![report("Mouse", None)], true));
}

#[test]
fn a_scan_that_cannot_stop_counts_as_disconnected() {
    let scan = vec![report("AirPods", Some(true))];
    assert!(!airpods_connected(&scan, false));
}

#[test]
fn the_first_bluetooth_earphones_decide() {
    assert!(ble_device::is_earphones("Airpods"));
    assert!(!ble_device::is_earphones("AirPods"));
    let scan = vec![report("Keyboard", None), report("Airpods", Some(true)), report("Airpods", Some(false))];
    assert_eq!(ble_device::check_earphones(&scan), Ok(BleEarphone::Activated));
    let scan = vec![report("Airpods", Some(false)), report("Airpods", Some(true))];
    assert_eq!(ble_device::check_earphones(&scan), Ok(BleEarphone::Deactivated));
    assert_eq!(ble_device::check_earphones(&vec![report("AirPods", Some(true))]), Ok(BleEarphone::Deactivated));
    assert_eq!(ble_device::check_earphones(&Vec::new()), Ok(BleEarphone::Deactivated));
}
