use jojo_server::button::Button;
use jojo_server::device::{Device, DeviceId};
use jojo_server::mouse::{MouseConfig, MouseRead};

#[test]
fn device_accessors_and_setters() {
    let id = DeviceId(42);
    let mut device = Device::new(
        id,
        String::from("pad"),
        Some(MouseConfig::new(1, 1)),
        vec![Button::default()],
    );
    assert_eq!(device.id(), id);
    assert_eq!(device.name(), "pad");
    assert_eq!(*device.mouse_config(), Some(MouseConfig::new(1, 1)));
    assert_eq!(*device.buttons(), vec![Button::default()]);

    device.set_id(DeviceId(43));
    device.set_name(String::from("other"));
    device.set_mouse_config(None);
    device.set_buttons(Vec::new());
    assert_eq!(device.id(), DeviceId(43));
    assert_eq!(device.name(), "other");
    assert_eq!(*device.mouse_config(), None);
    assert_eq!(*device.buttons(), Vec::<Button>::new());
}

#[test]
fn default_device_is_empty() {
    let device = Device::default();
    assert_eq!(device.id(), DeviceId(0));
    assert_eq!(device.name(), "");
    assert_eq!(*device.mouse_config(), None);
    assert_eq!(device.buttons().len(), 0);
}

#[test]
fn mouse_read_reports_both_axes() {
    let read = MouseRead::new(-4, 17);
    assert_eq!(read.x_read(), -4);
    assert_eq!(read.y_read(), 17);
}

#[test]
fn mouse_config_defaults_invert_vertical() {
    let cfg = MouseConfig::default();
    assert_eq!(cfg.x_sen(), 1);
    assert_eq!(cfg.y_sen(), -1);
    let custom = MouseConfig::new(3, 5);
    assert_eq!(custom.x_sen(), 3);
    assert_eq!(custom.y_sen(), 5);
}
