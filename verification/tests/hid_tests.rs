use sorahk::hid_ids::parse_hex_u16;
use sorahk::config::DeviceApiPreference;
use sorahk::config::DevicePrefs;
use sorahk::config::HidDeviceBaseline;
use sorahk::hid_ids::activated_devices;
use sorahk::hid_ids::add_hid_baseline;
use sorahk::hid_ids::apply_changed_prefs;
use sorahk::hid_ids::baseline_vid_pid;
use sorahk::hid_ids::forget_device_baselines;
use sorahk::hid_ids::hid_device_id;
use sorahk::hid_ids::pref_key_vid_pid;

fn baseline(id: &str, data: u8) -> HidDeviceBaseline {
    HidDeviceBaseline { device_id: id.to_string(), baseline_data: vec![data] }
}

#[test]
fn device_ids_are_upper_case_hex() {
    assert_eq!(hid_device_id(0x045e, 0x28e, None), "045E:028E");
    assert_eq!(hid_device_id(0x20BC, 0x5159, Some("ab12")), "20BC:5159:ab12");
    assert_eq!(hid_device_id(0, 0xFFFF, Some("")), "0000:FFFF:");
}

#[test]
fn baseline_ids_read_back() {
    assert_eq!(baseline_vid_pid("045E:028E"), Some((0x045E, 0x028E)));
    assert_eq!(baseline_vid_pid("20bc:5159:SER:IAL"), Some((0x20BC, 0x5159)));
    assert_eq!(baseline_vid_pid("+1:2"), Some((1, 2)), "a leading plus is read as std reads it");
    assert_eq!(baseline_vid_pid("045E"), None, "no colon");
    assert_eq!(baseline_vid_pid("045E:"), None, "no product");
    assert_eq!(baseline_vid_pid("XYZ:028E"), None);
    assert_eq!(baseline_vid_pid("10000:1"), None, "does not fit");
    let id = hid_device_id(0x1234, 0xABCD, Some("S1"));
    assert_eq!(baseline_vid_pid(&id), Some((0x1234, 0xABCD)));
}

#[test]
fn preference_keys_split_at_the_first_colon() {
    assert_eq!(pref_key_vid_pid("045E:028E"), Some((0x045E, 0x028E)));
    assert_eq!(pref_key_vid_pid("045E:028E:1"), None, "the product part runs to the end");
    assert_eq!(pref_key_vid_pid("nothing"), None);
}

#[test]
fn baselines_are_added_once() {
    let mut list = vec![baseline("045E:028E", 1)];
    assert!(!add_hid_baseline(&mut list, "045E:028E".to_string(), vec![9]));
    assert_eq!(list.len(), 1);
    assert_eq!(list[0].baseline_data, vec![1], "the stored baseline stays");
    assert!(add_hid_baseline(&mut list, "045E:028E:7".to_string(), vec![2]));
    assert_eq!(list.len(), 2);
    assert_eq!(list[1].device_id, "045E:028E:7");
}

#[test]
fn activated_devices_come_from_readable_ids() {
    let list = vec![baseline("045E:028E", 1), baseline("junk", 2), baseline("20BC:5159:S", 3)];
    assert_eq!(activated_devices(&list), vec![(0x045E, 0x028E), (0x20BC, 0x5159)]);
}

#[test]
fn forgetting_a_device_drops_all_its_baselines() {
    let mut list = vec![
        baseline("045E:028E", 1),
        baseline("20BC:5159", 2),
        baseline("045E:028E:S1", 3),
        baseline("045E:028F", 4),
    ];
    forget_device_baselines(&mut list, 0x045E, 0x028E);
    let ids: Vec<&str> = list.iter().map(|b| b.device_id.as_str()).collect();
    assert_eq!(ids, vec!["20BC:5159", "045E:028F"]);
}

#[test]
fn changed_preferences_are_stored_and_reported() {
    let mut prefs = DevicePrefs::new();
    prefs.set("045E:028E".to_string(), DeviceApiPreference::Auto);
    let changed = vec![
        ("045E:028E".to_string(), DeviceApiPreference::XInput),
        ("bad".to_string(), DeviceApiPreference::RawInput),
    ];
    let notices = apply_changed_prefs(&mut prefs, &changed);
    assert_eq!(notices, vec![((0x045E, 0x028E), DeviceApiPreference::XInput)]);
    assert_eq!(prefs.get("045E:028E"), Some(DeviceApiPreference::XInput));
    assert_eq!(prefs.get("bad"), Some(DeviceApiPreference::RawInput));
    assert_eq!(prefs.len(), 2);
}

#[test]
fn hex_numbers_read_as_std_reads_them() {
    assert_eq!(parse_hex_u16("FFFF"), Some(0xFFFF));
    assert_eq!(parse_hex_u16("+ff"), Some(0xFF));
    assert_eq!(parse_hex_u16("00000ffff"), Some(0xFFFF));
    assert_eq!(parse_hex_u16("10000"), None);
    assert_eq!(parse_hex_u16(""), None);
    assert_eq!(parse_hex_u16("+"), None);
    assert_eq!(parse_hex_u16("-1"), None);
    assert_eq!(parse_hex_u16("1g"), None);
    for s in ["0", "7f", "+A0b", "ffff", "12345", "", "x", "+-1", " 1"] {
        assert_eq!(parse_hex_u16(s), u16::from_str_radix(s, 16).ok(), "{}", s);
    }
}
