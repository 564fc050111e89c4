use sorahk::presets::VibrationPreset;
use sorahk::presets::default_vibration_presets;
use sorahk::presets::ensure_act1_preset_position;
use sorahk::presets::pick_preset_for_apply;
use sorahk::presets::is_act_variant_name;
use sorahk::presets::is_act_base_name;
use sorahk::presets::visible_preset_entries;
use sorahk::act::ActTier;
use sorahk::act::act_tier_from_max;
use sorahk::act::act_ladder;
use sorahk::act::act_decay;
use sorahk::act::act_rank_lr;
use sorahk::act::act_variant_rank_gains;
use sorahk::act::act_general_presets;
use sorahk::act::ensure_act_general_variants;
use sorahk::act::lr;

fn preset_named(name: &str) -> VibrationPreset {
    VibrationPreset {
        name: name.to_string(),
        params: [0; 60],
        item_lr: [0; 26],
        rank_lr: [0; 30],
        rank_type_gain: [0; 15],
        rank_level_gain: 0,
        rank_duration: 0,
        out_smooth: 0,
        user_modified: false,
    }
}

fn act1_builtin() -> VibrationPreset {
    default_vibration_presets()
        .into_iter()
        .find(|p| p.name == "ACT1 特供")
        .expect("the built-in table holds ACT1 特供")
}

#[test]
fn act1_preset_missing_inserted_right_below_default() {
    let mut presets = vec![preset_named("默认"), preset_named("用户A"), preset_named("用户B")];
    assert!(ensure_act1_preset_position(&mut presets, true));
    assert_eq!(presets[1].name, "ACT1 特供", "goes right below 默认");
    assert_eq!(presets.len(), 4);
}

#[test]
fn act1_preset_stale_end_position_is_moved_below_default() {
    let mut presets = vec![
        preset_named("默认"),
        preset_named("用户A"),
        preset_named("用户B"),
        act1_builtin(),
    ];
    assert!(ensure_act1_preset_position(&mut presets, true), "a misplaced entry must be moved");
    assert_eq!(presets[1].name, "ACT1 特供", "moved right below 默认");
    assert_eq!(presets[0].name, "默认");
    assert_eq!(presets.len(), 4, "moving adds and drops nothing");
}

#[test]
fn act1_preset_already_correct_is_untouched() {
    let mut presets = vec![preset_named("默认"), act1_builtin(), preset_named("用户A")];
    assert!(!ensure_act1_preset_position(&mut presets, true));
    assert_eq!(presets[1].name, "ACT1 特供");
}

#[test]
fn act1_preset_not_managed_when_not_legacy() {
    let mut presets = vec![preset_named("默认"), act1_builtin()];
    assert!(!ensure_act1_preset_position(&mut presets, false));
    assert_eq!(presets.len(), 2, "the other route hides it, nothing added or dropped");

    let mut missing = vec![preset_named("默认")];
    assert!(!ensure_act1_preset_position(&mut missing, false));
    assert_eq!(missing.len(), 1, "the other route inserts nothing");
}

#[test]
fn act1_preset_inserted_top_when_no_default() {
    let mut presets = vec![preset_named("用户A")];
    assert!(ensure_act1_preset_position(&mut presets, true));
    assert_eq!(presets[0].name, "ACT1 特供", "on top when there is no 默认");
}

#[test]
fn act1_stale_builtin_entry_values_are_healed() {
    let mut stale = preset_named("ACT1 特供");
    stale.params[16] = 70;
    let mut presets = vec![preset_named("默认"), stale, preset_named("用户A")];
    assert!(ensure_act1_preset_position(&mut presets, true), "stale values are healed");
    assert_eq!(presets[1].params, act1_builtin().params, "back to the built-in values");
}

#[test]
fn act1_user_modified_entry_is_not_healed() {
    let mut mine = act1_builtin();
    mine.user_modified = true;
    mine.params[16] = 42;
    let mut presets = vec![preset_named("默认"), mine, preset_named("用户A")];
    assert!(!ensure_act1_preset_position(&mut presets, true));
    assert_eq!(presets[1].params[16], 42, "an entry the user changed is left alone");
}

#[test]
fn pick_preset_prefers_builtin_unless_user_modified() {
    let mut stale = act1_builtin();
    stale.user_modified = false;
    stale.params[16] = 1;
    let picked = pick_preset_for_apply(Some(&stale), "ACT1 特供").unwrap();
    assert_eq!(picked.params, act1_builtin().params, "not changed by the user: built-in values");

    let mut mine = act1_builtin();
    mine.user_modified = true;
    mine.params[16] = 42;
    let picked = pick_preset_for_apply(Some(&mine), "ACT1 特供").unwrap();
    assert_eq!(picked.params[16], 42, "changed by the user: the user's version");

    let custom = preset_named("我的预设");
    let picked = pick_preset_for_apply(Some(&custom), "我的预设").unwrap();
    assert_eq!(picked.name, "我的预设", "own presets are used as they are");
    assert!(pick_preset_for_apply(None, "不存在的预设").is_none());
}

#[test]
fn act1_placement_is_stable_after_one_pass() {
    let mut presets = vec![preset_named("用户A"), act1_builtin(), preset_named("默认")];
    assert!(ensure_act1_preset_position(&mut presets, true));
    assert!(!ensure_act1_preset_position(&mut presets, true), "a second pass changes nothing");
    assert_eq!(presets[2].name, "ACT1 特供");
}

#[test]
fn act_names_are_recognized() {
    assert!(is_act_variant_name("ACT1 特供"));
    assert!(is_act_variant_name("默认-ACT"));
    assert!(!is_act_variant_name("默认"));
    assert!(is_act_base_name("默认"));
    assert!(!is_act_base_name("ACT1 特供"));
    assert!(!is_act_base_name("测试版(全0)"));
    assert!(!is_act_base_name("我的预设"));
}

#[test]
fn visible_entries_keep_real_indices() {
    let presets = vec![preset_named("默认"), act1_builtin(), preset_named("默认-ACT"), preset_named("我的")];
    let legacy = visible_preset_entries(&presets, true);
    assert_eq!(legacy, vec![(1, "ACT1 特供".to_string()), (2, "默认-ACT".to_string()), (3, "我的".to_string())]);
    let modern = visible_preset_entries(&presets, false);
    assert_eq!(modern, vec![(0, "默认".to_string()), (3, "我的".to_string())]);
}

#[test]
fn act_tiers_ladders_and_decays() {
    assert_eq!(act_tier_from_max(0), ActTier::Light);
    assert_eq!(act_tier_from_max(30), ActTier::Light);
    assert_eq!(act_tier_from_max(31), ActTier::Medium);
    assert_eq!(act_tier_from_max(37), ActTier::Heavy);
    assert_eq!(act_tier_from_max(41), ActTier::Extreme);
    assert_eq!(act_tier_from_max(42), ActTier::Max);
    assert_eq!(act_ladder(ActTier::Extreme), (75, 65, 55, 40, 20, 25, 10));
    assert_eq!(act_ladder(ActTier::Light), (58, 50, 42, 30, 15, 20, 8));
    assert_eq!(act_decay(ActTier::Max), (28, 65, 50, 65));
}

#[test]
fn act_rank_weights_and_gains() {
    let r = act_rank_lr();
    assert_eq!(r[22], -15);
    assert_eq!(r[23], 10);
    assert_eq!(r.iter().filter(|v| **v != 0).count(), 2);
    let g = act_variant_rank_gains(&[100, 50, 15, 5, 1000, 0, 0, 0, 0, 0, 0, 0, 0, 0, 0]);
    assert_eq!(&g[..5], &[30, 15, 5, 2, 100]);
    assert_eq!(lr(-5), 0xFFFF_FFFB);
    assert_eq!(lr(12), 12);
}

#[test]
fn act_general_variants_are_inserted_after_their_base() {
    let variants = act_general_presets();
    assert!(variants.iter().all(|p| p.name.ends_with("-ACT")));
    assert!(variants.iter().all(|p| p.rank_level_gain <= 30 && p.rank_duration <= 250));
    let mut presets = default_vibration_presets();
    let before = presets.len();
    assert!(ensure_act_general_variants(&mut presets, true));
    assert_eq!(presets.len(), before + variants.len());
    let i = presets.iter().position(|p| p.name == "默认").unwrap();
    assert_eq!(presets[i + 1].name, "默认-ACT");
    assert!(!ensure_act_general_variants(&mut presets, true), "a second pass changes nothing");
    let mut other = default_vibration_presets();
    assert!(!ensure_act_general_variants(&mut other, false));
}

#[test]
fn act_motor_weights_for_the_extreme_tier() {
    let w = sorahk::act::act_motor_item_lr(ActTier::Extreme);
    assert_eq!(w[14], lr(-5));
    assert_eq!(w[15], lr(-5));
    assert_eq!(w[21], 15);
    assert_eq!(w[22], lr(-10));
    assert_eq!(w[23], 12);
    assert_eq!(w[24], 18);
    assert_eq!(w[25], lr(-12));
    assert_eq!(w.iter().filter(|v| **v != 0).count(), 7);
}

#[test]
fn act_params_follow_the_ladder_and_signature() {
    let base = [0u32; 60];
    let p = sorahk::act::act_build_params(&base, ActTier::Extreme, sorahk::act::ActSignature::Hit, None);
    assert_eq!((p[0], p[4], p[9], p[11]), (100, 75, 90, 0));
    assert_eq!((p[12], p[13], p[14], p[15], p[16], p[17]), (20, 55, 25, 10, 65, 40));
    assert_eq!((p[35], p[36], p[37], p[38]), (25, 60, 45, 60));
    let q = sorahk::act::act_build_params(&base, ActTier::Extreme, sorahk::act::ActSignature::Special, Some(50));
    assert_eq!((q[4], q[13], q[16]), (50, 65, 61));
    let mut high = [0u32; 60];
    high[11] = 35;
    assert_eq!(sorahk::act::act_build_params(&high, ActTier::Light, sorahk::act::ActSignature::Hit, None)[11], 20);
}

#[test]
fn vibration_defaults() {
    let v = sorahk::vibration::VibrationConfig::default();
    assert!(v.enabled);
    assert!(!v.advanced_enabled);
    assert_eq!((v.out_smooth, v.rhythm, v.rank_level_gain, v.master_gain, v.attack_gain), (55, 50, 100, 0, 0));
    assert_eq!(v.advanced[4], 380);
    assert_eq!(v.advanced.len(), 41);
    assert_eq!(sorahk::vibration::default_vib_100(), 100);
}

#[test]
fn act_variants_keep_user_entries_and_replace_stale_ones() {
    let variants = act_general_presets();
    let mut mine = preset_named("默认-ACT");
    mine.user_modified = true;
    mine.params[0] = 77;
    let mut stale = preset_named("高振幅-ACT");
    stale.params[0] = 1;
    let mut presets = vec![preset_named("用户A"), mine, preset_named("默认"), stale, preset_named("用户B")];
    assert!(ensure_act_general_variants(&mut presets, true));
    let first = |name: &str| presets.iter().position(|p| p.name == name).unwrap();
    let kept = &presets[first("默认-ACT")];
    assert!(kept.user_modified);
    assert_eq!(kept.params[0], 77, "an entry the user saved over is left as it is");
    let want = variants.iter().find(|p| p.name == "高振幅-ACT").unwrap();
    let got = &presets[first("高振幅-ACT")];
    assert_eq!(got.params, want.params, "a stale built-in variant takes the built values");
    assert!(!got.user_modified);
    let others: Vec<&str> = presets
        .iter()
        .map(|p| p.name.as_str())
        .filter(|n| !variants.iter().any(|v| v.name == *n))
        .collect();
    assert_eq!(others, vec!["用户A", "默认", "用户B"], "other entries keep their order");
    let last = presets.last().unwrap();
    assert!(last.name.ends_with("-ACT"), "a variant whose base is missing is appended");
}

#[test]
fn act1_placement_settles_with_a_later_act1_below_default() {
    let mut presets = vec![act1_builtin(), preset_named("默认"), preset_named("ACT1 特供")];
    assert!(ensure_act1_preset_position(&mut presets, true));
    assert_eq!(presets[1].name, "ACT1 特供");
    assert_eq!(presets[0].name, "默认");
    let snapshot: Vec<String> = presets.iter().map(|p| p.name.clone()).collect();
    assert!(!ensure_act1_preset_position(&mut presets, true), "a second pass changes nothing");
    let again: Vec<String> = presets.iter().map(|p| p.name.clone()).collect();
    assert_eq!(snapshot, again);
}

#[test]
fn act_rebuild_writes_only_the_advanced_group() {
    let src = [7u32; 60];
    let mut a = [1u32; 60];
    let mut b = [500u32; 60];
    sorahk::act::act_rebuild_advanced(&mut a, &src);
    sorahk::act::act_rebuild_advanced(&mut b, &src);
    for i in 0..60 {
        let written = (21..=34).contains(&i) || (39..=58).contains(&i);
        if written {
            assert_eq!(a[i], b[i], "slot {} depends on the profile only", i);
        } else {
            assert_eq!(a[i], 1, "slot {} is kept", i);
            assert_eq!(b[i], 500, "slot {} is kept", i);
        }
    }
    assert_eq!(a[23], 380);
    assert_eq!(a[46], 3000);
    assert_eq!(a[21], 6, "a movement build-up of 7 is the neutral archetype");
}

#[test]
fn act_variant_table_has_one_entry_per_base() {
    let variants = act_general_presets();
    let bases: Vec<String> = default_vibration_presets()
        .into_iter()
        .map(|p| p.name)
        .filter(|n| n != "ACT1 特供" && n != "测试版(全0)")
        .collect();
    let names: Vec<String> = variants.iter().map(|p| p.name.clone()).collect();
    let expected: Vec<String> = bases.iter().map(|b| format!("{}-ACT", b)).collect();
    assert_eq!(names, expected);
    assert!(variants.iter().all(|p| !p.user_modified));
}
