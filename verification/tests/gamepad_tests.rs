use std::collections::HashSet;

use sorahk::capture::PadCaptureCandidates;
use sorahk::capture::PadCaptureReconciler;
use sorahk::capture::PAD_CAPTURE_HOLD_MS;
use sorahk::capture::pick_calibration_device;
use sorahk::config::AppConfig;
use sorahk::config::KeyMapping;
use sorahk::device::DeviceType;
use sorahk::device::InputDevice;
use sorahk::keys::TargetKeys;
use sorahk::pad_mapping::add_slot_target;
use sorahk::pad_mapping::find_slot_mapping_index;
use sorahk::pad_mapping::is_mouse_vk;
use sorahk::pad_mapping::migrate_slot_notes;
use sorahk::pad_mapping::set_slot_targets;
use sorahk::pad_mapping::set_slot_trigger;
use sorahk::pad_mapping::set_slot_trigger_moving;
use sorahk::pad_mapping::short_trigger_name;
use sorahk::pad_mapping::slot_note;
use sorahk::pad_mapping::slot_targets;
use sorahk::pad_mapping::slot_trigger_display;
use sorahk::pad_mapping::trigger_matches_raw;
use sorahk::pad_mapping::trigger_matches_xinput;
use sorahk::slots::CALIBRATION_ORDER;
use sorahk::slots::SLOT_COUNT;
use sorahk::slots::all_slots;
use sorahk::slots::calibration_slot;
use sorahk::slots::get_slot;
use sorahk::pad_mapping::newly_pressed_slot;
use sorahk::pad_mapping::newly_pressed_slot_xinput;
use sorahk::pad_mapping::slot_is_live;
use sorahk::pad_mapping::slot_is_live_xinput;
use sorahk::pad_mapping::apply_capture;
use sorahk::pad_mapping::CaptureOutcome;
use sorahk::switch_key::switch_key_step;
use sorahk::switch_key::vk_to_bit;
use sorahk::switch_key::ParsedSwitchKey;

fn mk(trigger: &str, note: &str, targets: &[&str]) -> KeyMapping {
    KeyMapping {
        trigger_key: trigger.to_string(),
        target_keys: TargetKeys::from_vec(targets.iter().map(|s| s.to_string()).collect()),
        interval: None,
        event_duration: None,
        turbo_enabled: true,
        move_speed: 5,
        double_tap_enabled: false,
        double_tap_gap_ms: 50,
        note: note.to_string(),
    }
}

fn raw(pos: u64) -> InputDevice {
    InputDevice::GenericDevice { device_type: DeviceType::Gamepad(0x20BC), button_id: (1u64 << 32) | pos }
}

fn xinput(ids: &[u32]) -> InputDevice {
    InputDevice::XInputCombo { device_type: DeviceType::Gamepad(0x045E), button_ids: ids.to_vec() }
}

fn xinput1(id: u32) -> InputDevice {
    xinput(&[id])
}

/// Feeds events at their times (ms), picks an input per calibration step.
fn run_wizard(events: &[(InputDevice, u64)], hold: u64) -> (Vec<(String, String)>, Vec<String>) {
    let mut rec = PadCaptureReconciler::new(hold);
    let mut cfg = AppConfig::default();
    let mut step = 0usize;
    let mut out = Vec::new();
    let mut errs = Vec::new();
    let base: u64 = 10_000;
    let handle = |cands: PadCaptureCandidates,
                  cfg: &mut AppConfig,
                  step: &mut usize,
                  out: &mut Vec<(String, String)>,
                  errs: &mut Vec<String>| {
        let Some(slot_id) = calibration_slot(*step) else {
            return;
        };
        let Some(slot) = get_slot(slot_id) else {
            return;
        };
        match pick_calibration_device(&slot, &cands) {
            Ok(dev) => {
                let name = dev.to_name();
                set_slot_trigger(cfg, &slot, name.clone());
                out.push((slot.label.to_string(), name));
                *step += 1;
            }
            Err(e) => errs.push(e),
        }
    };
    for (dev, offset) in events {
        let now = base + *offset;
        if let Some(c) = rec.feed(dev.clone(), now) {
            handle(c, &mut cfg, &mut step, &mut out, &mut errs);
            continue;
        }
        if let Some(c) = rec.tick(now) {
            handle(c, &mut cfg, &mut step, &mut out, &mut errs);
        }
    }
    let end = base + hold * 2 + 1000;
    if let Some(c) = rec.tick(end) {
        handle(c, &mut cfg, &mut step, &mut out, &mut errs);
    }
    (out, errs)
}

fn slot_note_is_system_format() {
    assert_eq!(slot_note("A 键"), "手柄A 键（系统）");
    assert_eq!(slot_note("十字键·上"), "手柄十字键·上（系统）");
}

fn find_slot_mapping_matches_only_system_note() {
    let slot = get_slot(19).unwrap();
    let mut cfg = AppConfig::default();
    cfg.mappings.push(mk("GAMEPAD_045E_A", "手柄·A 键", &[]));
    assert_eq!(find_slot_mapping_index(&cfg, &slot), None);
    cfg.mappings.push(mk("GAMEPAD_20BC_5159_X_B1.2", "手柄A 键（系统）", &[]));
    let expect = cfg.mappings.len() - 1;
    assert_eq!(find_slot_mapping_index(&cfg, &slot), Some(expect));
}

fn migrate_slot_notes_renames_and_dedupes() {
    let mut cfg = AppConfig::default();
    cfg.mappings.push(mk("GAMEPAD_20BC_5159_X_B1.2", "手柄·A 键", &["Q"]));
    cfg.mappings.push(mk("GAMEPAD_20BC_5159_X_B1.2", "手柄·A 键", &["Q"]));
    assert!(migrate_slot_notes(&mut cfg));
    let a: Vec<&KeyMapping> = cfg.mappings.iter().filter(|m| m.note == "手柄A 键（系统）").collect();
    assert_eq!(a.len(), 1, "one mapping per slot");
    assert_eq!(a[0].trigger_key, "GAMEPAD_20BC_5159_X_B1.2", "trigger kept");
    assert_eq!(a[0].target_keys.len(), 1, "targets kept");
    assert!(!migrate_slot_notes(&mut cfg));
}

fn trigger_matches_raw_requires_same_device_and_position() {
    let name = "GAMEPAD_20BC_5159_DEVDEADBEEF_B1.7";
    assert!(trigger_matches_raw(name, 0x20BC, 0x5159, 0x0001_0007));
    assert!(!trigger_matches_raw(name, 0x20BC, 0x5159, 0x0002_0007));
    assert!(!trigger_matches_raw(name, 0x20BC, 0x5159, 0));
    assert!(!trigger_matches_raw(name, 0x045E, 0x028E, 0x0001_0007));
    assert!(!trigger_matches_raw("GAMEPAD_045E_A", 0x20BC, 0x5159, 0x0001_0007));
}

fn calibration_order_covers_all_hotspots_without_duplicates() {
    assert_eq!(CALIBRATION_ORDER.len(), SLOT_COUNT);
    assert_eq!(calibration_slot(0), Some(19));
    assert_eq!(calibration_slot(23), Some(15));
    assert_eq!(calibration_slot(CALIBRATION_ORDER.len()), None);
    let mut seen = HashSet::new();
    for id in CALIBRATION_ORDER {
        assert!(get_slot(id).is_some(), "unknown slot {id}");
        assert!(seen.insert(id), "slot {id} twice");
    }
    for slot in all_slots() {
        assert!(seen.contains(&slot.id), "slot {} ({}) missing", slot.id, slot.label);
    }
}

fn mouse_vks_are_filtered() {
    for vk in [0x01u32, 0x02, 0x04, 0x05, 0x06] {
        assert!(is_mouse_vk(vk));
    }
    assert!(!is_mouse_vk(0x41));
    assert!(!is_mouse_vk(0x20));
}

fn one_press_with_dual_channel_writes_one_slot() {
    let events = vec![(raw(0x0001_0007), 0), (xinput1(0x0B), 6)];
    let (steps, errs) = run_wizard(&events, PAD_CAPTURE_HOLD_MS);
    assert_eq!(steps.len(), 1, "one press, one step: {steps:?} {errs:?}");
    assert_eq!(steps[0].0, "A 键", "recorded for the current step: {steps:?}");
    assert!(steps[0].1.starts_with("GAMEPAD_20BC_"), "button slots prefer the raw name: {}", steps[0].1);
}

fn xinput_first_still_prefers_raw_name() {
    let events = vec![(xinput1(0x0B), 0), (raw(0x0001_0007), 8)];
    let (steps, errs) = run_wizard(&events, PAD_CAPTURE_HOLD_MS);
    assert_eq!(steps.len(), 1, "reversed arrival still folds into one step: {steps:?} {errs:?}");
    assert!(steps[0].1.starts_with("GAMEPAD_20BC_"), "got: {}", steps[0].1);
}

fn lone_xinput_event_commits_after_hold() {
    let events = vec![(xinput1(0x0B), 0)];
    let (steps, errs) = run_wizard(&events, PAD_CAPTURE_HOLD_MS);
    assert_eq!(steps.len(), 1, "a single channel is not lost: {steps:?} {errs:?}");
    assert_eq!(steps[0].1, "GAMEPAD_045E_A");
}

fn two_presses_beyond_window_are_recorded_separately() {
    let events = vec![(raw(0x0001_0007), 0), (raw(0x0002_0007), 900)];
    let (steps, errs) = run_wizard(&events, PAD_CAPTURE_HOLD_MS);
    assert_eq!(steps.len(), 2, "two presses beyond the window, two steps: {steps:?} {errs:?}");
    assert_ne!(steps[0].1, steps[1].1);
}

fn default_window_is_300ms() {
    assert_eq!(PAD_CAPTURE_HOLD_MS, 300);
    let hold = PAD_CAPTURE_HOLD_MS;
    let base: u64 = 5_000;
    let mut rec = PadCaptureReconciler::new(hold);
    assert!(rec.feed(raw(0x0001_0007), base).is_none());
    assert!(rec.feed(xinput1(0x0B), base + 200).is_none());
    assert!(rec.tick(base + hold + 1).is_some());
    let mut rec = PadCaptureReconciler::new(hold);
    assert!(rec.feed(raw(0x0001_0007), base).is_none());
    assert!(rec.feed(xinput1(0x0B), base + 400).is_some(), "beyond the window the previous press settles first");
}

fn stick_click_rebound_is_filtered_to_the_click() {
    let hold = PAD_CAPTURE_HOLD_MS;
    let base: u64 = 5_000;
    let mut rec = PadCaptureReconciler::new(hold);
    assert!(rec.feed(xinput1(0x08), base).is_none());
    assert!(rec.feed(xinput1(0x14), base + 200).is_none());
    let c = rec.tick(base + hold + 1).expect("window settles");
    let slot = get_slot(23).unwrap();
    let got = pick_calibration_device(&slot, &c).expect("the rebound is filtered out");
    assert_eq!(got.to_name(), "GAMEPAD_045E_RS_Click");
}

fn diagonal_stick_push_is_rejected() {
    let slot = get_slot(10).unwrap();
    let mut c = PadCaptureCandidates::default();
    c.xinput = Some(xinput(&[0x11, 0x13]));
    assert!(pick_calibration_device(&slot, &c).is_err(), "a diagonal push is not clean");

    let slot_click = get_slot(22).unwrap();
    let mut c2 = PadCaptureCandidates::default();
    c2.xinput = Some(xinput(&[0x14]));
    assert!(pick_calibration_device(&slot_click, &c2).is_err(), "no click: press again");
}

fn stick_slots_prefer_xinput_button_slots_prefer_raw() {
    let stick = get_slot(10).unwrap();
    let mut c = PadCaptureCandidates::default();
    c.raw = Some(raw(0x0002_0007));
    c.xinput = Some(xinput(&[0x11]));
    assert_eq!(pick_calibration_device(&stick, &c).unwrap().to_name(), "GAMEPAD_045E_LS_Left");

    let button = get_slot(19).unwrap();
    let mut c2 = PadCaptureCandidates::default();
    c2.raw = Some(raw(0x0001_0007));
    assert!(pick_calibration_device(&button, &c2).unwrap().to_name().starts_with("GAMEPAD_20BC_"));

    let mut c3 = PadCaptureCandidates::default();
    c3.xinput = Some(xinput(&[0x0B, 0x0C]));
    assert!(pick_calibration_device(&button, &c3).is_err(), "several keys are refused");
}

fn xinput_live_match() {
    let ls_left = 1u32 << 0x11;
    assert!(trigger_matches_xinput("GAMEPAD_045E_LS_Left", 0x045E, ls_left));
    assert!(!trigger_matches_xinput("GAMEPAD_045E_LS_Left", 0x045E, 1u32 << 0x10));
    assert!(!trigger_matches_xinput("GAMEPAD_045E_LS_Left", 0x20BC, ls_left));
    assert!(!trigger_matches_xinput("GAMEPAD_20BC_5159_DEVAA_H1", 0x045E, ls_left));
    assert!(!trigger_matches_xinput("GAMEPAD_045E_LS_Left", 0x045E, 0));
    let ab = (1u32 << 0x0B) | (1u32 << 0x0C);
    assert!(trigger_matches_xinput("GAMEPAD_045E_A+B", 0x045E, ab));
    assert!(!trigger_matches_xinput("GAMEPAD_045E_A+B", 0x045E, 1u32 << 0x0B));
}

fn short_trigger_strips_device_prefix() {
    assert_eq!(short_trigger_name("GAMEPAD_20BC_5159_DEV5A27EA46_H680322833"), "H680322833");
    assert_eq!(short_trigger_name("GAMEPAD_045E_RS_Click"), "045E_RS_Click");
}

#[test]
fn gamepad_mapping_slot_note_is_system_format() { slot_note_is_system_format(); }
#[test]
fn tests_slot_note_is_system_format() { slot_note_is_system_format(); }
#[test]
fn gamepad_mapping_find_slot_mapping_matches_only_system_note() { find_slot_mapping_matches_only_system_note(); }
#[test]
fn tests_find_slot_mapping_matches_only_system_note() { find_slot_mapping_matches_only_system_note(); }
#[test]
fn gamepad_mapping_migrate_slot_notes_renames_and_dedupes() { migrate_slot_notes_renames_and_dedupes(); }
#[test]
fn tests_migrate_slot_notes_renames_and_dedupes() { migrate_slot_notes_renames_and_dedupes(); }
#[test]
fn gamepad_mapping_trigger_matches_raw_requires_same_device_and_position() { trigger_matches_raw_requires_same_device_and_position(); }
#[test]
fn tests_trigger_matches_raw_requires_same_device_and_position() { trigger_matches_raw_requires_same_device_and_position(); }
#[test]
fn gamepad_mapping_calibration_order_covers_all_hotspots_without_duplicates() { calibration_order_covers_all_hotspots_without_duplicates(); }
#[test]
fn tests_calibration_order_covers_all_hotspots_without_duplicates() { calibration_order_covers_all_hotspots_without_duplicates(); }
#[test]
fn gamepad_mapping_mouse_vks_are_filtered() { mouse_vks_are_filtered(); }
#[test]
fn tests_mouse_vks_are_filtered() { mouse_vks_are_filtered(); }
#[test]
fn gamepad_mapping_one_press_with_dual_channel_writes_one_slot() { one_press_with_dual_channel_writes_one_slot(); }
#[test]
fn tests_one_press_with_dual_channel_writes_one_slot() { one_press_with_dual_channel_writes_one_slot(); }
#[test]
fn gamepad_mapping_xinput_first_still_prefers_raw_name() { xinput_first_still_prefers_raw_name(); }
#[test]
fn tests_xinput_first_still_prefers_raw_name() { xinput_first_still_prefers_raw_name(); }
#[test]
fn gamepad_mapping_lone_xinput_event_commits_after_hold() { lone_xinput_event_commits_after_hold(); }
#[test]
fn tests_lone_xinput_event_commits_after_hold() { lone_xinput_event_commits_after_hold(); }
#[test]
fn gamepad_mapping_two_presses_beyond_window_are_recorded_separately() { two_presses_beyond_window_are_recorded_separately(); }
#[test]
fn tests_two_presses_beyond_window_are_recorded_separately() { two_presses_beyond_window_are_recorded_separately(); }
#[test]
fn gamepad_mapping_default_window_is_300ms() { default_window_is_300ms(); }
#[test]
fn tests_default_window_is_300ms() { default_window_is_300ms(); }
#[test]
fn gamepad_mapping_stick_click_rebound_is_filtered_to_the_click() { stick_click_rebound_is_filtered_to_the_click(); }
#[test]
fn tests_stick_click_rebound_is_filtered_to_the_click() { stick_click_rebound_is_filtered_to_the_click(); }
#[test]
fn gamepad_mapping_diagonal_stick_push_is_rejected() { diagonal_stick_push_is_rejected(); }
#[test]
fn tests_diagonal_stick_push_is_rejected() { diagonal_stick_push_is_rejected(); }
#[test]
fn gamepad_mapping_stick_slots_prefer_xinput_button_slots_prefer_raw() { stick_slots_prefer_xinput_button_slots_prefer_raw(); }
#[test]
fn tests_stick_slots_prefer_xinput_button_slots_prefer_raw() { stick_slots_prefer_xinput_button_slots_prefer_raw(); }
#[test]
fn gamepad_mapping_xinput_live_match() { xinput_live_match(); }
#[test]
fn tests_xinput_live_match() { xinput_live_match(); }
#[test]
fn gamepad_mapping_short_trigger_strips_device_prefix() { short_trigger_strips_device_prefix(); }
#[test]
fn tests_short_trigger_strips_device_prefix() { short_trigger_strips_device_prefix(); }

#[test]
fn set_slot_targets_replaces_instead_of_appending() {
    let mut cfg = AppConfig::default();
    let s = get_slot(0).unwrap();
    set_slot_trigger(&mut cfg, &s, "GAMEPAD_045E_ABXY_A".to_string());
    assert!(add_slot_target(&mut cfg, &s, "X".to_string()));
    assert!(add_slot_target(&mut cfg, &s, "A".to_string()));
    assert_eq!(slot_targets(&cfg, &s).len(), 2, "X+A first");
    assert!(set_slot_targets(&mut cfg, &s, "X".to_string()), "X+A to X is a change");
    assert_eq!(slot_targets(&cfg, &s), vec!["X".to_string()], "replaced, not appended");
    assert!(set_slot_targets(&mut cfg, &s, "X+A".to_string()));
    assert_eq!(slot_targets(&cfg, &s).len(), 2);
    assert!(!set_slot_targets(&mut cfg, &s, "X+A".to_string()));
    let s2 = get_slot(1).unwrap();
    assert!(!set_slot_targets(&mut cfg, &s2, "Y".to_string()));
}

#[test]
fn set_slot_targets_allows_duplicate_keys() {
    let mut cfg = AppConfig::default();
    let s = get_slot(0).unwrap();
    set_slot_trigger(&mut cfg, &s, "GAMEPAD_045E_ABXY_A".to_string());
    assert!(set_slot_targets(&mut cfg, &s, "DOWN+Z".to_string()));
    assert!(set_slot_targets(&mut cfg, &s, "DOWN+Z+Z".to_string()), "repeated keys are kept");
    assert_eq!(slot_targets(&cfg, &s), vec!["DOWN".to_string(), "Z".to_string(), "Z".to_string()]);
    assert!(!set_slot_targets(&mut cfg, &s, "DOWN+z+z".to_string()));
    assert_eq!(slot_targets(&cfg, &s), vec!["DOWN".to_string(), "Z".to_string(), "Z".to_string()]);
    assert!(set_slot_targets(&mut cfg, &s, "X".to_string()));
    assert_eq!(slot_targets(&cfg, &s), vec!["X".to_string()]);
}

#[test]
fn set_slot_trigger_moves_conflicting_key() {
    let mut cfg = AppConfig::default();
    let a = get_slot(19).unwrap();
    let x = get_slot(16).unwrap();
    set_slot_trigger(&mut cfg, &x, "GAMEPAD_20BC_5159_DEVAA_H123".to_string());
    let moved = set_slot_trigger_moving(&mut cfg, &a, "GAMEPAD_20BC_5159_DEVAA_H123".to_string());
    assert_eq!(moved.as_deref(), Some("X 键"), "names the slot it was taken from");
    assert!(find_slot_mapping_index(&cfg, &a).is_some(), "the current slot is written");
    assert!(find_slot_mapping_index(&cfg, &x).is_none(), "the old slot is cleared");
    assert_eq!(slot_trigger_display(&cfg, &a), "GAMEPAD_20BC_5159_DEVAA_H123");
}

#[test]
fn set_slot_trigger_normalizes_and_creates_once() {
    let mut cfg = AppConfig::default();
    let s = get_slot(21).unwrap();
    let i = set_slot_trigger(&mut cfg, &s, "CTRL++F6+CTRL".to_string());
    assert_eq!(i, 1);
    assert_eq!(cfg.mappings[i].trigger_key, "CTRL+F6");
    assert!(!cfg.mappings[i].turbo_enabled, "a new slot mapping does not repeat");
    assert_eq!(cfg.mappings[i].note, "手柄Start（系统）");
    let j = set_slot_trigger(&mut cfg, &s, "GAMEPAD_045E_B".to_string());
    assert_eq!(j, i, "the existing mapping is updated");
    assert_eq!(cfg.mappings.len(), 2);
}

#[test]
fn live_slots_follow_their_own_mapping() {
    let mut cfg = AppConfig::default();
    let a = get_slot(19).unwrap();
    let ls_left = get_slot(10).unwrap();
    set_slot_trigger(&mut cfg, &a, "GAMEPAD_20BC_5159_DEVAA_B1.7".to_string());
    set_slot_trigger(&mut cfg, &ls_left, "GAMEPAD_045E_LS_Left".to_string());
    assert!(slot_is_live(&cfg, 19, 0x20BC, 0x5159, 0x0001_0007));
    assert!(!slot_is_live(&cfg, 18, 0x20BC, 0x5159, 0x0001_0007), "an uncalibrated slot never lights");
    assert_eq!(newly_pressed_slot(&cfg, 0, 0x20BC, 0x5159, 0x0001_0007), Some(19));
    assert_eq!(newly_pressed_slot(&cfg, 0x0001_0007, 0x20BC, 0x5159, 0x0001_0007), None, "held, not new");
    assert_eq!(newly_pressed_slot(&cfg, 5, 0x20BC, 0x5159, 0), None);
    let mask = 1u32 << 0x11;
    assert!(slot_is_live_xinput(&cfg, 10, 0x045E, mask));
    assert_eq!(newly_pressed_slot_xinput(&cfg, 0x045E, mask, None), Some(10));
    assert_eq!(newly_pressed_slot_xinput(&cfg, 0x045E, mask, Some((0x045E, mask))), None, "already down");
    assert_eq!(newly_pressed_slot_xinput(&cfg, 0x045E, mask, Some((0x1234, mask))), Some(10));
}

#[test]
fn confirming_a_capture() {
    let mut cfg = AppConfig::default();
    let s = get_slot(20).unwrap();
    assert_eq!(apply_capture(&mut cfg, &s, false, "F".to_string()), CaptureOutcome::NotCalibrated);
    assert_eq!(cfg.mappings.len(), 1);
    assert_eq!(apply_capture(&mut cfg, &s, true, "GAMEPAD_045E_Back".to_string()), CaptureOutcome::TriggerSet);
    assert_eq!(apply_capture(&mut cfg, &s, false, "f+g".to_string()), CaptureOutcome::TargetsSet);
    assert_eq!(slot_targets(&cfg, &s), vec!["F".to_string(), "G".to_string()]);
}

#[test]
fn toggle_hotkey_fires_once_per_press() {
    assert_eq!(vk_to_bit(0x2E), 1 << 14);
    assert_eq!(vk_to_bit(0x10), 1);
    let single = ParsedSwitchKey::Single(0x2E);
    let (s1, fired) = switch_key_step(&single, 0, (false, false, false), &[true]);
    assert!(fired);
    let (s2, again) = switch_key_step(&single, s1, (false, false, false), &[true]);
    assert!(!again, "held: no second toggle");
    let (s3, _) = switch_key_step(&single, s2, (false, false, false), &[false]);
    assert_eq!(s3, 0);
    let combo = ParsedSwitchKey::combo(0b001, vec![0x75]);
    assert_eq!(switch_key_step(&combo, 0, (false, false, false), &[true]), (0, false), "Ctrl is not down");
    let (c1, fired) = switch_key_step(&combo, 0, (true, false, false), &[true]);
    assert!(fired);
    assert_eq!(switch_key_step(&combo, c1, (true, false, false), &[true]).1, false);
    let copy = combo.clone();
    assert_eq!(switch_key_step(&copy, 0, (true, false, false), &[true]), (c1, true), "a clone keeps the keys");
    let two = ParsedSwitchKey::combo(0, vec![0x41, 0x42]);
    assert_eq!(switch_key_step(&two, 0, (false, false, false), &[true, false]).1, false, "B is not down");
    let none = ParsedSwitchKey::NoKey;
    assert_eq!(switch_key_step(&none, 7, (true, true, true), &[]), (7, false));
}
