use sorahk::pad_mapping::trigger_matches_xinput;
use sorahk::device::DeviceType;
use sorahk::device::InputDevice;
use sorahk::device::input_name_to_device;
use sorahk::dialogs::MouseDirection;
use sorahk::dialogs::MouseDirectionDialog;
use sorahk::dialogs::MouseScrollDialog;
use sorahk::dialogs::ScrollChoice;
use sorahk::slots::SlotKind;
use sorahk::slots::calibration_short_label;
use sorahk::slots::get_slot;

#[test]
fn xinput_combo_names() {
    let d = InputDevice::XInputCombo { device_type: DeviceType::Gamepad(0x045E), button_ids: vec![0x0B, 0x0C] };
    assert_eq!(d.to_name(), "GAMEPAD_045E_A+B");
    let j = InputDevice::XInputCombo { device_type: DeviceType::Joystick(0x1a2B), button_ids: vec![0x17] };
    assert_eq!(j.to_name(), "JOYSTICK_1A2B_RS_Down");
}

#[test]
fn raw_names_differ_by_position() {
    let a = InputDevice::GenericDevice { device_type: DeviceType::Gamepad(0x20BC), button_id: (1u64 << 32) | 0x0001_0007 };
    let b = InputDevice::GenericDevice { device_type: DeviceType::Gamepad(0x20BC), button_id: (1u64 << 32) | 0x0002_0007 };
    assert_eq!(a.to_name(), "GAMEPAD_20BC_H4295032839");
    assert!(b.to_name().starts_with("GAMEPAD_20BC_"));
    assert_ne!(a.to_name(), b.to_name());
}

#[test]
fn names_read_back() {
    let devices = vec![
        InputDevice::XInputCombo { device_type: DeviceType::Gamepad(0x045E), button_ids: vec![0x11] },
        InputDevice::XInputCombo { device_type: DeviceType::Joystick(0x0001), button_ids: vec![0x07, 0x19, 0x01] },
        InputDevice::GenericDevice { device_type: DeviceType::Gamepad(0xFFFF), button_id: u64::MAX },
        InputDevice::GenericDevice { device_type: DeviceType::Joystick(0), button_id: 0 },
    ];
    for d in devices {
        let name = d.to_name();
        let back = input_name_to_device(&name).expect("reads back");
        assert_eq!(back.to_name(), name);
    }
}

#[test]
fn raw_code_forms() {
    match input_name_to_device("GAMEPAD_20BC_5159_DEVDEADBEEF_B1.7") {
        Some(InputDevice::GenericDevice { device_type, button_id }) => {
            assert_eq!(device_type, DeviceType::Gamepad(0x20BC));
            assert_eq!(button_id & 0xFFFF_FFFF, 0x0001_0007);
        }
        other => panic!("unexpected {other:?}"),
    }
    match input_name_to_device("GAMEPAD_20bc_5159_DEVAA_H680322833") {
        Some(InputDevice::GenericDevice { device_type, button_id }) => {
            assert_eq!(device_type, DeviceType::Gamepad(0x20BC));
            assert_eq!(button_id, 680322833);
        }
        other => panic!("unexpected {other:?}"),
    }
    assert!(input_name_to_device("GAMEPAD_20BC_5159_DEVAA_H99999999999999999999").is_none(), "past u64");
    assert!(input_name_to_device("GAMEPAD_20BC_5159_DEVAA_B65536.1").is_none(), "position part too large");
    assert!(input_name_to_device("GAMEPAD_20BC_5159_DEVAA_B1").is_none());
    assert!(input_name_to_device("GAMEPAD_045E_A+Q").is_none());
    assert!(input_name_to_device("KEY_A").is_none());
    assert!(input_name_to_device("GAMEPAD_XYZW_A").is_none());
    match input_name_to_device("GAMEPAD_045E_LS_Left") {
        Some(InputDevice::XInputCombo { button_ids, .. }) => assert_eq!(button_ids, vec![0x11]),
        other => panic!("unexpected {other:?}"),
    }
}

#[test]
fn slot_table_and_labels() {
    let a = get_slot(19).unwrap();
    assert_eq!((a.label, a.short, a.default_trigger, a.kind), ("A 键", "A", "GAMEPAD_045E_A", SlotKind::Button));
    assert!(get_slot(24).is_none());
    assert_eq!(calibration_short_label(22), "L3");
    assert_eq!(calibration_short_label(4), "十字↑");
    assert_eq!(calibration_short_label(19), "A 键");
    assert_eq!(calibration_short_label(99), "?");
    assert_eq!(SlotKind::Trigger.legend(), "扳机");
    assert_eq!(SlotKind::Stick.base_rgb(), (80, 200, 130));
}

#[test]
fn pick_dialogs_remember_the_choice() {
    let mut d = MouseDirectionDialog::new();
    assert_eq!(d.get_selected_direction(), None);
    assert!(d.pick(MouseDirection::UpLeft));
    assert_eq!(d.get_selected_direction().as_deref(), Some("MOUSE_UP_LEFT"));
    let mut s = MouseScrollDialog::new();
    assert!(s.pick(ScrollChoice::Middle));
    assert_eq!(s.get_selected_direction().as_deref(), Some("MBUTTON"));
}

#[test]
fn written_combo_matches_the_live_bitmap() {
    let d = InputDevice::XInputCombo { device_type: DeviceType::Gamepad(0x045E), button_ids: vec![0x0B, 0x0C] };
    let name = d.to_name();
    let both = (1u32 << 0x0B) | (1u32 << 0x0C);
    assert!(trigger_matches_xinput(&name, 0x045E, both));
    assert!(trigger_matches_xinput(&name, 0x045E, both | 1));
    assert!(!trigger_matches_xinput(&name, 0x045E, 1u32 << 0x0B), "one button is up");
    assert!(!trigger_matches_xinput(&name, 0x045E, 0));
    assert!(!trigger_matches_xinput(&name, 0x028E, both), "another vendor");
}
