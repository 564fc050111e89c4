use sorahk::config::AppConfig;
use sorahk::config::KeyMapping;
use sorahk::config::DeviceApiPreference;
use sorahk::config::XInputCaptureMode;
use sorahk::config::default_double_tap_gap_ms;
use sorahk::config::sorted_unique;
use sorahk::config::DevicePrefs;
use sorahk::config::Language;
use sorahk::keys::TargetKeys;
use sorahk::vibration::VibrationConfig;
use sorahk::presets::default_vibration_presets;
use smallvec::SmallVec;

fn keys(list: &[&str]) -> TargetKeys {
    TargetKeys::from_vec(list.iter().map(|s| s.to_string()).collect())
}

fn mapping(trigger: &str, targets: &[&str]) -> KeyMapping {
    KeyMapping {
        trigger_key: trigger.to_string(),
        target_keys: keys(targets),
        interval: None,
        event_duration: None,
        turbo_enabled: true,
        move_speed: 10,
        double_tap_enabled: false,
        double_tap_gap_ms: default_double_tap_gap_ms(),
        note: String::new(),
    }
}

#[test]
fn test_default_config_creation() {
    let config = AppConfig::default();
    assert!(config.show_tray_icon);
    assert!(config.show_notifications);
    assert!(!config.always_on_top);
    assert!(!config.dark_mode);
    assert_eq!(config.switch_key, "DELETE");
    assert_eq!(config.input_timeout, 5);
    assert_eq!(config.interval, 5);
    assert_eq!(config.event_duration, 5);
    assert_eq!(config.worker_count, 0);
    assert!(config.process_whitelist.is_empty());
    assert_eq!(config.mappings.len(), 1);
    assert_eq!(config.language, Language::default());
    assert_eq!(Language::default(), Language::SimplifiedChinese);
}

#[test]
fn load_rules_keep_saved_settings() {
    let mut config = AppConfig::default();
    config.language = Language::Japanese;
    config.dark_mode = true;
    config.switch_key = "F12".to_string();
    config.input_timeout = 8;
    config.process_whitelist = vec!["b.exe".to_string(), "a.exe".to_string(), "b.exe".to_string()];
    config.apply_load_rules();
    assert_eq!(config.language, Language::Japanese);
    assert!(config.dark_mode);
    assert_eq!(config.switch_key, "F12");
    assert_eq!(config.input_timeout, 8);
    assert_eq!(config.process_whitelist, vec!["a.exe".to_string(), "b.exe".to_string()]);
}

#[test]
fn default_config_starts_with_q_and_one_preset() {
    let config = AppConfig::default();
    assert_eq!(config.mappings[0].trigger_key, "Q");
    assert_eq!(config.mappings[0].get_target_keys(), &["Q".to_string()]);
    assert_eq!(config.mappings[0].move_speed, 10);
    assert_eq!(config.presets.len(), 1);
    assert_eq!(config.presets[0].name, "默认");
    assert_eq!(config.rawinput_capture_mode, "MostSustained");
    assert_eq!(config.xinput_capture_mode, "MostSustained");
    assert!(config.classic_mode && config.dfo_player && config.whitelist_enabled);
    assert_eq!(config.vibration_presets.len(), default_vibration_presets().len());
    assert_eq!(config.vibration.master_gain, 0);
}

#[test]
fn test_key_mapping_with_overrides() {
    let mapping = KeyMapping {
        trigger_key: "A".to_string(),
        target_keys: keys(&["B"]),
        interval: Some(10),
        event_duration: Some(8),
        turbo_enabled: true,
        move_speed: 5,
        double_tap_enabled: false,
        double_tap_gap_ms: default_double_tap_gap_ms(),
        note: String::new(),
    };
    assert_eq!(mapping.trigger_key, "A");
    assert_eq!(mapping.target_keys.as_slice(), &["B".to_string()]);
    assert_eq!(mapping.interval, Some(10));
    assert_eq!(mapping.event_duration, Some(8));
}

#[test]
fn test_key_mapping_without_overrides() {
    let mapping = mapping("C", &["D"]);
    assert_eq!(mapping.trigger_key, "C");
    assert_eq!(mapping.target_keys.as_slice(), &["D".to_string()]);
    assert_eq!(mapping.interval, None);
    assert_eq!(mapping.event_duration, None);
}

#[test]
fn test_multiple_target_keys_single() {
    let mut m = mapping("A", &["B"]);
    m.move_speed = 5;
    assert_eq!(m.target_keys.len(), 1);
    assert_eq!(m.target_keys_display(), "B");
}

#[test]
fn test_multiple_target_keys_multiple() {
    let m = mapping("A", &["MOUSE_UP", "MOUSE_LEFT"]);
    assert_eq!(m.target_keys.len(), 2);
    assert_eq!(m.target_keys_display(), "MOUSE_UP, MOUSE_LEFT");
}

#[test]
fn test_multiple_target_keys_empty() {
    let m = KeyMapping { target_keys: TargetKeys::new(), ..mapping("A", &[]) };
    assert_eq!(m.target_keys.len(), 0);
    assert_eq!(m.target_keys_display(), "");
}

#[test]
fn test_add_target_key() {
    let mut m = mapping("A", &["B"]);
    m.add_target_key("C".to_string());
    assert_eq!(m.target_keys.len(), 2);
    assert_eq!(m.get_target_keys()[1], "C");
    m.add_target_key("B".to_string());
    assert_eq!(m.target_keys.len(), 2);
}

#[test]
fn test_remove_target_key() {
    let mut m = mapping("A", &["B", "C", "D"]);
    m.remove_target_key("C");
    assert_eq!(m.target_keys.len(), 2);
    assert_eq!(m.get_target_keys()[0], "B");
    assert_eq!(m.get_target_keys()[1], "D");
}

#[test]
fn test_clear_target_keys() {
    let mut m = mapping("A", &["B", "C"]);
    m.clear_target_keys();
    assert_eq!(m.target_keys.len(), 0);
}

#[test]
fn test_smallvec_inline_capacity() {
    let small_vec: SmallVec<[String; 4]> =
        SmallVec::from_vec(vec!["A".to_string(), "B".to_string(), "C".to_string()]);
    assert_eq!(small_vec.len(), 3);
    assert!(small_vec.spilled() == false);

    let mut large_vec: SmallVec<[String; 4]> = SmallVec::new();
    for i in 0..6 {
        large_vec.push(format!("KEY_{}", i));
    }
    assert_eq!(large_vec.len(), 6);
    assert!(large_vec.spilled());
}

#[test]
fn test_get_target_keys() {
    let m = mapping("A", &["B", "C"]);
    let keys = m.get_target_keys();
    assert_eq!(keys.len(), 2);
    assert_eq!(keys[0], "B");
    assert_eq!(keys[1], "C");
}

#[test]
fn target_keys_clone_is_independent() {
    let m = mapping("A", &["B"]);
    let mut copy = m.clone();
    copy.add_target_key("C".to_string());
    assert_eq!(m.target_keys.len(), 1);
    assert_eq!(copy.target_keys_display(), "B, C");
}

fn loaded(input_timeout: u64, interval: u64, event_duration: u64, whitelist: &[&str]) -> AppConfig {
    let mut config = AppConfig::default();
    config.input_timeout = input_timeout;
    config.interval = interval;
    config.event_duration = event_duration;
    config.worker_count = 0;
    config.process_whitelist = whitelist.iter().map(|s| s.to_string()).collect();
    config.mappings = vec![];
    config.apply_load_rules();
    config
}

#[test]
fn test_config_validation_input_timeout() {
    let config = loaded(1, 5, 5, &[]);
    assert!(config.input_timeout >= 2, "Input timeout should be clamped to minimum 2");
}

#[test]
fn test_config_validation_interval() {
    let config = loaded(10, 2, 5, &[]);
    assert!(config.interval >= 5, "Interval should be clamped to minimum 5");
}

#[test]
fn test_config_validation_event_duration() {
    let config = loaded(10, 5, 2, &[]);
    assert!(config.event_duration >= 2, "Event duration should be clamped to minimum 2");
}

#[test]
fn test_config_validation_clamps_negative_values() {
    let loaded = loaded(1, 1, 1, &[]);
    assert!(loaded.input_timeout >= 2);
    assert!(loaded.interval >= 5);
    assert!(loaded.event_duration >= 2);
}

#[test]
fn load_rules_clamp_to_exact_minimums() {
    let c = loaded(1, 1, 1, &[]);
    assert_eq!((c.input_timeout, c.interval, c.event_duration), (2, 5, 2));
    let c = loaded(7, 9, 3, &[]);
    assert_eq!((c.input_timeout, c.interval, c.event_duration), (7, 9, 3));
}

#[test]
fn test_config_deduplicates_process_whitelist() {
    let loaded = loaded(10, 5, 5, &["chrome.exe", "notepad.exe", "chrome.exe", "firefox.exe", "notepad.exe"]);
    assert_eq!(loaded.process_whitelist.len(), 3);
    assert!(loaded.process_whitelist.contains(&"chrome.exe".to_string()));
    assert!(loaded.process_whitelist.contains(&"notepad.exe".to_string()));
    assert!(loaded.process_whitelist.contains(&"firefox.exe".to_string()));
    assert_eq!(loaded.process_whitelist, vec!["chrome.exe", "firefox.exe", "notepad.exe"]);
}

#[test]
fn test_config_with_duplicate_process_names() {
    let loaded = loaded(5, 5, 5, &["app.exe", "app.exe", "other.exe"]);
    assert_eq!(loaded.process_whitelist.len(), 2);
}

#[test]
fn test_config_with_special_characters_in_process_name() {
    let loaded = loaded(5, 5, 5, &["app-name.exe", "app_name.exe", "app123.exe"]);
    assert_eq!(loaded.process_whitelist.len(), 3);
    assert!(loaded.process_whitelist.contains(&"app-name.exe".to_string()));
}

#[test]
fn test_config_with_extreme_values() {
    let loaded = loaded(10000, 1000, 500, &[]);
    assert_eq!(loaded.interval, 1000);
    assert_eq!(loaded.event_duration, 500);
    assert_eq!(loaded.input_timeout, 10000);
}

#[test]
fn whitelist_sorting_follows_code_points() {
    let list = vec!["b".to_string(), "B".to_string(), "é".to_string(), "a".to_string(), "B".to_string()];
    assert_eq!(sorted_unique(&list), vec!["B", "a", "b", "é"]);
}

#[test]
fn device_preferences_sort_by_device() {
    let mut prefs = DevicePrefs::new();
    prefs.set("20BC:5159".to_string(), DeviceApiPreference::RawInput);
    prefs.set("045E:028E".to_string(), DeviceApiPreference::XInput);
    prefs.set("1234:0001".to_string(), DeviceApiPreference::Auto);
    let sorted = prefs.sorted();
    let names: Vec<&str> = sorted.iter().map(|(k, _)| k.as_str()).collect();
    assert_eq!(names, vec!["045E:028E", "1234:0001", "20BC:5159"]);
    assert_eq!(sorted[2].1, DeviceApiPreference::RawInput);
}

#[test]
fn device_preference_set_twice_keeps_one_entry() {
    let mut prefs = DevicePrefs::new();
    assert_eq!(prefs.get("045E:028E"), None);
    prefs.set("045E:028E".to_string(), DeviceApiPreference::XInput);
    prefs.set("20BC:5159".to_string(), DeviceApiPreference::Auto);
    prefs.set("045E:028E".to_string(), DeviceApiPreference::RawInput);
    assert_eq!(prefs.len(), 2);
    assert_eq!(prefs.get("045E:028E"), Some(DeviceApiPreference::RawInput));
    assert_eq!(prefs.get("20BC:5159"), Some(DeviceApiPreference::Auto));
    assert_eq!(prefs.entries()[0].0, "045E:028E");
    assert_eq!(prefs.sorted().len(), 2);
}

#[test]
fn capture_modes_round_trip_their_names() {
    assert_eq!(XInputCaptureMode::all_modes().len(), 3);
    for &m in XInputCaptureMode::all_modes() {
        let back: XInputCaptureMode = m.as_str().parse().unwrap();
        assert_eq!(back, m);
        assert_eq!(XInputCaptureMode::from_name(m.as_str()), m);
    }
    assert_eq!(XInputCaptureMode::from_name("nonsense"), XInputCaptureMode::default());
    let other: XInputCaptureMode = "mostsustained".parse().unwrap();
    assert_eq!(other, XInputCaptureMode::DiagonalPriority);
    let most: XInputCaptureMode = "MostSustained".parse().unwrap();
    assert_eq!(most, XInputCaptureMode::MostSustained);
    assert_eq!(XInputCaptureMode::default(), XInputCaptureMode::DiagonalPriority);
    assert_eq!(DeviceApiPreference::default(), DeviceApiPreference::Auto);
}

#[test]
fn vibration_file_is_taken_over_unless_empty() {
    let mut config = AppConfig::default();
    let mut empty = VibrationConfig::default();
    empty.attack_gain = 0;
    empty.master_gain = 0;
    empty.advanced_enabled = false;
    assert!(!config.adopt_vibration_file(empty, vec![]));
    assert_eq!(config.vibration_presets.len(), default_vibration_presets().len());

    let mut v = VibrationConfig::default();
    v.master_gain = 80;
    assert!(config.adopt_vibration_file(v, vec![]));
    assert_eq!(config.vibration.master_gain, 80);
    assert_eq!(config.vibration_presets.len(), default_vibration_presets().len(), "no presets in the file: kept");

    let only = default_vibration_presets().into_iter().take(2).collect::<Vec<_>>();
    assert!(config.adopt_vibration_file(empty, only));
    assert_eq!(config.vibration_presets.len(), 2);
    assert_eq!(config.vibration.master_gain, 0);
}
