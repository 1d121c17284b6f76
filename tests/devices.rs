use bevy_seedling::devices::{
    reconcile_devices, restart_choice, DeviceChange, DeviceInfo, InputDeviceInfo,
    OutputDeviceInfo,
};

fn device(name: &str, num_channels: u16, is_default: bool) -> DeviceInfo {
    DeviceInfo { name: name.to_string(), num_channels, is_default }
}

#[test]
fn reconcile_finds_new_changed_and_gone_devices() {
    let known = vec![device("speakers", 2, true), device("headset", 2, false), device("hdmi", 8, false)];
    let available = vec![device("headset", 1, false), device("usb", 2, false), device("speakers", 2, true)];
    let changes = reconcile_devices(&known, &available);
    assert_eq!(changes.len(), 3);
    assert!(matches!(&changes[0], DeviceChange::Changed(1, d) if d.num_channels == 1 && d.name == "headset"));
    assert!(matches!(&changes[1], DeviceChange::Added(d) if d.name == "usb"));
    assert!(matches!(&changes[2], DeviceChange::Removed(2)));
    assert!(reconcile_devices(&available, &available).is_empty());
}

#[test]
fn restart_keeps_or_falls_back_to_default() {
    let available = vec![device("usb", 2, false), device("speakers", 2, true), device("tv", 2, true)];
    assert_eq!(restart_choice(&Some("usb".to_string()), &available), Some("usb".to_string()));
    assert_eq!(restart_choice(&Some("gone".to_string()), &available), Some("speakers".to_string()));
    assert_eq!(restart_choice(&None, &available), None);
    assert_eq!(restart_choice(&Some("gone".to_string()), &vec![device("usb", 2, false)]), None);
}

#[test]
fn device_info_accessors() {
    let input = InputDeviceInfo(device("mic", 1, true));
    assert_eq!(input.name(), "mic");
    assert_eq!(input.num_channels(), 1);
    assert!(input.is_default());
    let output = OutputDeviceInfo(device("speakers", 2, false));
    assert_eq!(output.name(), "speakers");
    assert_eq!(output.num_channels(), 2);
    assert!(!output.is_default());
    let copy = output.0.duplicate();
    assert_eq!(copy.name, "speakers");
}
