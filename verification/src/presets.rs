//! Named vibration presets: the built-in table and the pure rules that keep a
//! user's preset list in step with it.

use vstd::prelude::*;
use crate::seq_util::{first_index_where, first_where, is_first_where, lemma_first_index_at, lemma_first_index_none};
use crate::text::{owned, seq_ends_with, str_ends_with, str_eq};

verus! {

/// A named vibration parameter preset.
#[derive(Debug)]
pub struct VibrationPreset {
    pub name: String,
    /// The 60 engine parameters.
    pub params: [u32; 60],
    /// Left/right motor weights of the 13 base items (two's complement for negatives).
    pub item_lr: [u32; 26],
    /// Left/right motor weights of the 15 rank events (two's complement for negatives).
    pub rank_lr: [u32; 30],
    /// Strength % of each of the 15 rank events (0 = off).
    pub rank_type_gain: [u32; 15],
    /// Rank level strength %.
    pub rank_level_gain: u32,
    /// Full-strength rank pulse length in ms.
    pub rank_duration: u32,
    /// Output smoothing %.
    pub out_smooth: u32,
    /// The user saved over this preset: their values win over the built-in ones.
    pub user_modified: bool,
}

/// A preset as values.
pub struct PresetView {
    pub name: Seq<char>,
    pub params: Seq<u32>,
    pub item_lr: Seq<u32>,
    pub rank_lr: Seq<u32>,
    pub rank_type_gain: Seq<u32>,
    pub rank_level_gain: u32,
    pub rank_duration: u32,
    pub out_smooth: u32,
    pub user_modified: bool,
}

impl View for VibrationPreset {
    type V = PresetView;

    open spec fn view(&self) -> PresetView {
        PresetView {
            name: self.name@,
            params: self.params@,
            item_lr: self.item_lr@,
            rank_lr: self.rank_lr@,
            rank_type_gain: self.rank_type_gain@,
            rank_level_gain: self.rank_level_gain,
            rank_duration: self.rank_duration,
            out_smooth: self.out_smooth,
            user_modified: self.user_modified,
        }
    }
}

/// The views of a list of presets.
pub open spec fn views(s: Seq<VibrationPreset>) -> Seq<PresetView> {
    s.map_values(|p: VibrationPreset| p@)
}

/// The preset is named `n`.
pub open spec fn name_is(n: Seq<char>) -> spec_fn(PresetView) -> bool {
    |p: PresetView| p.name == n
}

/// Two presets hold the same tuning values (name and ownership aside).
pub open spec fn same_values(a: PresetView, b: PresetView) -> bool {
    &&& a.params == b.params
    &&& a.item_lr == b.item_lr
    &&& a.rank_lr == b.rank_lr
    &&& a.rank_type_gain == b.rank_type_gain
    &&& a.rank_level_gain == b.rank_level_gain
    &&& a.rank_duration == b.rank_duration
    &&& a.out_smooth == b.out_smooth
}

/// `e` with the tuning values of `b` (name and ownership kept).
pub open spec fn with_values(e: PresetView, b: PresetView) -> PresetView {
    PresetView {
        name: e.name,
        user_modified: e.user_modified,
        params: b.params,
        item_lr: b.item_lr,
        rank_lr: b.rank_lr,
        rank_type_gain: b.rank_type_gain,
        rank_level_gain: b.rank_level_gain,
        rank_duration: b.rank_duration,
        out_smooth: b.out_smooth,
    }
}

/// Balanced all-rounder, light overall.
pub const NAME_DEFAULT: &'static str = "默认";
pub const DEFAULT_PARAMS: [u32; 60] = [
    100, 0, 0, 0, 55, 40, 30, 0, 0, 100, 0, 40, 20, 80, 35, 40, 25, 30, 50, 95, 95, 6, 25, 380,
    35, 8, 40, 30, 4, 40, 500, 35, 1200, 55, 200, 25, 55, 25, 60, 1500, 150, 90, 250, 20, 600,
    1500, 3000, 160, 60, 30, 60, 25, 200, 50, 0, 150, 90, 90, 30, 100,
];
pub const DEFAULT_ITEM_LR: [u32; 26] = [
    0, 0, 0, 0, 0, 0, 0, 0, 0, 0, 0, 0, 0, 0, 0, 0, 0, 0, 0, 0, 0, 0, 0xFFFF_FFF6, 10, 0, 0,
];
pub const DEFAULT_RANK_LR: [u32; 30] = [
    0, 0, 0, 0, 0, 0, 0, 0, 0, 0, 0, 0, 0, 0, 0, 0, 0, 0, 0, 0, 0, 0, 0xFFFF_FFF1, 10, 0, 0, 10,
    0, 0, 0,
];
pub const DEFAULT_RANK_GAIN: [u32; 15] = [
    60, 100, 100, 100, 100, 100, 90, 70, 75, 70, 100, 30, 100, 100, 100,
];

/// Legacy-route preset tuned for the ACT1 client.
pub const NAME_ACT1: &'static str = "ACT1 特供";
pub const ACT1_PARAMS: [u32; 60] = [
    100, 0, 0, 0, 75, 65, 35, 0, 0, 90, 0, 20, 20, 55, 25, 10, 65, 40, 50, 100, 100, 8, 50, 380,
    35, 8, 40, 30, 4, 45, 500, 40, 800, 55, 300, 25, 60, 45, 60, 1200, 150, 90, 600, 30, 800,
    1200, 3000, 150, 60, 40, 60, 35, 200, 30, 200, 150, 40, 40, 30, 50,
];
pub const ACT1_ITEM_LR: [u32; 26] = [
    0, 0, 0, 0, 0, 0, 0, 0, 0, 0, 0, 0, 0, 0, 0xFFFF_FFFB, 0xFFFF_FFFB, 0, 0, 0, 0, 0, 15,
    0xFFFF_FFF6, 10, 15, 0xFFFF_FFF6,
];
pub const ACT1_RANK_LR: [u32; 30] = [
    0, 0, 0, 0, 0, 0, 0, 0, 0, 0, 0, 0, 0, 0, 0, 0, 0, 0, 0, 0, 0, 0, 0xFFFF_FFF1, 10, 0, 0, 0,
    0, 0, 0,
];
pub const ACT1_RANK_GAIN: [u32; 15] = [
    20, 20, 30, 30, 30, 20, 20, 20, 20, 20, 20, 40, 20, 20, 45,
];

/// Low-frequency attackers: heavy, lasting hits.
pub const NAME_LOW_FREQ: &'static str = "低频攻击职业";
pub const LOW_FREQ_PARAMS: [u32; 60] = [
    100, 0, 0, 0, 70, 60, 40, 0, 0, 100, 0, 40, 40, 95, 50, 45, 45, 50, 50, 105, 105, 5, 20,
    380, 40, 8, 45, 30, 4, 60, 500, 20, 1200, 75, 200, 40, 95, 40, 60, 60, 160, 90, 300, 20,
    600, 1000, 3000, 180, 60, 30, 90, 15, 200, 50, 300, 180, 90, 90, 30, 100,
];
pub const LOW_FREQ_ITEM_LR: [u32; 26] = [
    0, 0, 0, 15, 0, 0, 20, 10, 0, 0, 0, 0, 0, 0, 0, 0, 0, 0, 0, 0, 0, 20, 0xFFFF_FFEC, 15, 30,
    0xFFFF_FFF1,
];
pub const LOW_FREQ_RANK_LR: [u32; 30] = [
    0, 0, 0, 0, 20, 0xFFFF_FFF6, 0, 0, 0, 0, 25, 0xFFFF_FFF6, 0, 0, 0, 0, 0, 0, 10, 0, 0, 0,
    0xFFFF_FFE7, 5, 0, 0, 30, 0xFFFF_FFF1, 20, 0,
];
pub const LOW_FREQ_RANK_GAIN: [u32; 15] = [
    65, 90, 100, 100, 100, 100, 90, 75, 70, 80, 100, 25, 100, 100, 100,
];

/// High-frequency attackers: light and quick, against hand fatigue.
pub const NAME_HIGH_FREQ: &'static str = "高频攻击职业";
pub const HIGH_FREQ_PARAMS: [u32; 60] = [
    100, 0, 0, 0, 45, 35, 30, 0, 0, 100, 0, 45, 25, 80, 35, 40, 20, 25, 50, 85, 85, 10, 35, 380,
    40, 8, 45, 30, 4, 25, 500, 50, 1200, 45, 200, 15, 50, 15, 60, 60, 150, 90, 140, 25, 600,
    2000, 3000, 140, 40, 30, 80, 35, 200, 50, 120, 150, 90, 90, 30, 100,
];
pub const HIGH_FREQ_ITEM_LR: [u32; 26] = [
    0, 0, 0, 0, 0, 0, 0, 0, 0, 0, 0, 0, 0, 0, 0, 0, 0, 0, 0, 0, 0, 0, 0xFFFF_FFF6, 10, 0, 0,
];
pub const HIGH_FREQ_RANK_LR: [u32; 30] = [
    0, 0, 0, 0, 0, 0, 0, 0, 0, 0, 0, 0, 0, 0, 0, 0, 0, 0, 0, 0, 0, 0, 0xFFFF_FFF1, 10, 0, 0, 10,
    0, 0, 0,
];
pub const HIGH_FREQ_RANK_GAIN: [u32; 15] = [
    55, 90, 90, 90, 90, 90, 90, 70, 75, 75, 90, 30, 90, 100, 90,
];

/// High amplitude: heavy impact.
pub const NAME_HIGH_AMP: &'static str = "高振幅";
pub const HIGH_AMP_PARAMS: [u32; 60] = [
    100, 0, 0, 0, 70, 65, 55, 0, 0, 100, 0, 40, 45, 100, 55, 65, 60, 70, 50, 180, 180, 3, 15,
    380, 40, 8, 40, 30, 4, 60, 500, 20, 1200, 75, 200, 40, 60, 30, 80, 1000, 200, 90, 300, 30,
    600, 1500, 3000, 200, 90, 30, 60, 15, 200, 50, 0, 200, 90, 90, 30, 100,
];
pub const HIGH_AMP_ITEM_LR: [u32; 26] = [
    0, 0, 0, 15, 0, 0, 20, 10, 0, 0, 0, 0, 0, 0, 0, 0, 0, 0, 0, 0, 0, 20, 0xFFFF_FFEC, 15, 30,
    0xFFFF_FFF1,
];
pub const HIGH_AMP_RANK_LR: [u32; 30] = [
    0, 0, 0, 0, 20, 0xFFFF_FFF6, 0, 0, 0, 0, 25, 0xFFFF_FFF6, 0, 0, 0, 0, 0, 0, 10, 0, 0, 0,
    0xFFFF_FFE7, 5, 0, 0, 30, 0xFFFF_FFF1, 20, 0,
];
pub const HIGH_AMP_RANK_GAIN: [u32; 15] = [
    65, 90, 100, 100, 100, 100, 90, 75, 70, 80, 100, 25, 100, 100, 100,
];

/// Rhythm: very short, crisp pulses.
pub const NAME_RHYTHM: &'static str = "节奏律动";
pub const RHYTHM_PARAMS: [u32; 60] = [
    100, 0, 0, 0, 70, 30, 35, 0, 0, 100, 0, 45, 35, 95, 35, 70, 55, 45, 55, 100, 100, 8, 30,
    360, 30, 8, 35, 30, 4, 30, 500, 40, 1200, 50, 200, 20, 55, 20, 60, 1600, 160, 90, 250, 20,
    700, 1500, 3000, 150, 50, 30, 70, 30, 200, 50, 0, 150, 90, 90, 30, 100,
];
pub const RHYTHM_ITEM_LR: [u32; 26] = [
    0, 0, 0, 15, 0, 0, 0xFFFF_FFF6, 0, 0, 0, 0, 10, 0, 0, 0, 0, 0xFFFF_FFF6, 15, 0, 0, 0, 15,
    0xFFFF_FFF1, 20, 0, 0,
];
pub const RHYTHM_RANK_LR: [u32; 30] = [
    0, 15, 0, 20, 0, 0, 0, 0, 0, 0, 0, 0, 0, 0, 0, 0, 0, 0, 0, 20, 0, 0, 0xFFFF_FFEC, 5, 0, 0,
    0, 30, 0, 0,
];
pub const RHYTHM_RANK_GAIN: [u32; 15] = [
    60, 90, 90, 90, 90, 90, 90, 75, 85, 80, 90, 30, 90, 100, 90,
];

/// Minimal: lightest feedback for long sessions.
pub const NAME_MINIMAL: &'static str = "极简轻巧";
pub const MINIMAL_PARAMS: [u32; 60] = [
    100, 0, 0, 0, 45, 30, 0, 0, 0, 80, 0, 60, 15, 60, 20, 35, 20, 20, 50, 100, 100, 2, 10, 400,
    25, 6, 30, 30, 4, 25, 500, 45, 1200, 45, 200, 15, 55, 15, 45, 800, 90, 90, 250, 20, 600,
    1500, 3000, 120, 30, 30, 60, 35, 200, 40, 0, 150, 90, 90, 30, 100,
];
pub const MINIMAL_ITEM_LR: [u32; 26] = [
    0, 0, 0xFFFF_FFF1, 0xFFFF_FFFB, 0, 0, 0xFFFF_FFF1, 0xFFFF_FFFB, 0, 0, 0, 0, 0, 0,
    0xFFFF_FFF1, 0xFFFF_FFFB, 0, 0, 0xFFFF_FFF1, 0, 0xFFFF_FFF1, 0xFFFF_FFFB, 0xFFFF_FFF1, 0,
    0xFFFF_FFF1, 0,
];
pub const MINIMAL_RANK_LR: [u32; 30] = [
    0, 5, 0, 5, 0, 5, 0, 5, 0, 5, 0, 5, 0, 5, 0, 5, 0, 5, 0, 5, 0, 5, 0xFFFF_FFE7, 0, 0, 5, 0,
    5, 0, 5,
];
pub const MINIMAL_RANK_GAIN: [u32; 15] = [
    40, 50, 50, 50, 50, 50, 50, 45, 40, 45, 40, 20, 40, 50, 50,
];

/// Competitive: survival warnings emphasised.
pub const NAME_COMBAT: &'static str = "实战竞技";
pub const COMBAT_PARAMS: [u32; 60] = [
    100, 0, 0, 0, 65, 35, 60, 0, 0, 100, 0, 45, 55, 90, 70, 45, 40, 80, 55, 120, 120, 8, 30,
    380, 35, 8, 40, 30, 4, 45, 500, 30, 1200, 60, 200, 30, 60, 30, 70, 1500, 180, 90, 250, 25,
    800, 1500, 3000, 180, 70, 30, 60, 25, 200, 50, 250, 200, 90, 90, 30, 100,
];
pub const COMBAT_ITEM_LR: [u32; 26] = [
    0, 0, 0, 5, 0, 0, 15, 0, 0, 0, 0, 0, 0, 0, 25, 10, 0, 0, 30, 10, 0, 20, 0xFFFF_FFF6, 10, 30,
    15,
];
pub const COMBAT_RANK_LR: [u32; 30] = [
    0, 0, 30, 0, 0, 0, 0, 0, 0, 0, 0, 0, 0, 0, 0, 0, 0, 0, 0, 0, 0, 0, 0xFFFF_FFEC, 5, 0, 0, 20,
    0, 30, 0,
];
pub const COMBAT_RANK_GAIN: [u32; 15] = [
    60, 100, 90, 90, 90, 90, 85, 70, 80, 75, 90, 30, 90, 95, 100,
];

/// Test preset: every value zero, for designing from scratch.
pub const NAME_ALL_ZERO: &'static str = "测试版(全0)";
pub const ALL_ZERO_PARAMS: [u32; 60] = [
    0, 0, 0, 0, 0, 0, 0, 0, 0, 0, 0, 0, 0, 0, 0, 0, 0, 0, 0, 0, 0, 0, 0, 0, 0, 0, 0, 0, 0, 0, 0,
    0, 0, 0, 0, 0, 0, 0, 0, 0, 0, 0, 0, 0, 0, 0, 0, 0, 0, 0, 0, 0, 0, 0, 0, 0, 0, 0, 0, 0,
];
pub const ALL_ZERO_ITEM_LR: [u32; 26] = [
    0, 0, 0, 0, 0, 0, 0, 0, 0, 0, 0, 0, 0, 0, 0, 0, 0, 0, 0, 0, 0, 0, 0, 0, 0, 0,
];
pub const ALL_ZERO_RANK_LR: [u32; 30] = [
    0, 0, 0, 0, 0, 0, 0, 0, 0, 0, 0, 0, 0, 0, 0, 0, 0, 0, 0, 0, 0, 0, 0, 0, 0, 0, 0, 0, 0, 0,
];
pub const ALL_ZERO_RANK_GAIN: [u32; 15] = [
    0, 0, 0, 0, 0, 0, 0, 0, 0, 0, 0, 0, 0, 0, 0,
];

/// A built-in entry (never user-modified).
pub open spec fn builtin_entry(
    name: &'static str,
    params: [u32; 60],
    item_lr: [u32; 26],
    rank_lr: [u32; 30],
    rank_type_gain: [u32; 15],
    rank_level_gain: u32,
    rank_duration: u32,
    out_smooth: u32,
) -> PresetView {
    PresetView {
        name: name@,
        params: params@,
        item_lr: item_lr@,
        rank_lr: rank_lr@,
        rank_type_gain: rank_type_gain@,
        rank_level_gain,
        rank_duration,
        out_smooth,
        user_modified: false,
    }
}

/// The built-in preset table, in list order.
pub open spec fn builtin_presets() -> Seq<PresetView> {
    seq![
        builtin_entry(NAME_DEFAULT, DEFAULT_PARAMS, DEFAULT_ITEM_LR, DEFAULT_RANK_LR, DEFAULT_RANK_GAIN, 100, 300, 55),
        builtin_entry(NAME_ACT1, ACT1_PARAMS, ACT1_ITEM_LR, ACT1_RANK_LR, ACT1_RANK_GAIN, 30, 250, 35),
        builtin_entry(NAME_LOW_FREQ, LOW_FREQ_PARAMS, LOW_FREQ_ITEM_LR, LOW_FREQ_RANK_LR, LOW_FREQ_RANK_GAIN, 100, 400, 40),
        builtin_entry(NAME_HIGH_FREQ, HIGH_FREQ_PARAMS, HIGH_FREQ_ITEM_LR, HIGH_FREQ_RANK_LR, HIGH_FREQ_RANK_GAIN, 100, 250, 70),
        builtin_entry(NAME_HIGH_AMP, HIGH_AMP_PARAMS, HIGH_AMP_ITEM_LR, HIGH_AMP_RANK_LR, HIGH_AMP_RANK_GAIN, 100, 450, 35),
        builtin_entry(NAME_RHYTHM, RHYTHM_PARAMS, RHYTHM_ITEM_LR, RHYTHM_RANK_LR, RHYTHM_RANK_GAIN, 100, 200, 55),
        builtin_entry(NAME_MINIMAL, MINIMAL_PARAMS, MINIMAL_ITEM_LR, MINIMAL_RANK_LR, MINIMAL_RANK_GAIN, 60, 180, 70),
        builtin_entry(NAME_COMBAT, COMBAT_PARAMS, COMBAT_ITEM_LR, COMBAT_RANK_LR, COMBAT_RANK_GAIN, 100, 380, 50),
        builtin_entry(NAME_ALL_ZERO, ALL_ZERO_PARAMS, ALL_ZERO_ITEM_LR, ALL_ZERO_RANK_LR, ALL_ZERO_RANK_GAIN, 0, 0, 0),
    ]
}

/// The built-in preset named `name`, if any.
pub open spec fn builtin_named(name: Seq<char>) -> Option<PresetView> {
    first_where(builtin_presets(), name_is(name))
}

fn make_builtin(
    name: &'static str,
    params: [u32; 60],
    item_lr: [u32; 26],
    rank_lr: [u32; 30],
    rank_type_gain: [u32; 15],
    rank_level_gain: u32,
    rank_duration: u32,
    out_smooth: u32,
) -> (r: VibrationPreset)
    ensures
        r@ == builtin_entry(name, params, item_lr, rank_lr, rank_type_gain, rank_level_gain, rank_duration, out_smooth),
{
    VibrationPreset {
        name: owned(name),
        params,
        item_lr,
        rank_lr,
        rank_type_gain,
        rank_level_gain,
        rank_duration,
        out_smooth,
        user_modified: false,
    }
}

/// The built-in presets.
pub fn default_vibration_presets() -> (r: Vec<VibrationPreset>)
    ensures
        views(r@) == builtin_presets(),
{
    let mut v: Vec<VibrationPreset> = Vec::new();
    v.push(make_builtin(NAME_DEFAULT, DEFAULT_PARAMS, DEFAULT_ITEM_LR, DEFAULT_RANK_LR, DEFAULT_RANK_GAIN, 100, 300, 55));
    v.push(make_builtin(NAME_ACT1, ACT1_PARAMS, ACT1_ITEM_LR, ACT1_RANK_LR, ACT1_RANK_GAIN, 30, 250, 35));
    v.push(make_builtin(NAME_LOW_FREQ, LOW_FREQ_PARAMS, LOW_FREQ_ITEM_LR, LOW_FREQ_RANK_LR, LOW_FREQ_RANK_GAIN, 100, 400, 40));
    v.push(make_builtin(NAME_HIGH_FREQ, HIGH_FREQ_PARAMS, HIGH_FREQ_ITEM_LR, HIGH_FREQ_RANK_LR, HIGH_FREQ_RANK_GAIN, 100, 250, 70));
    v.push(make_builtin(NAME_HIGH_AMP, HIGH_AMP_PARAMS, HIGH_AMP_ITEM_LR, HIGH_AMP_RANK_LR, HIGH_AMP_RANK_GAIN, 100, 450, 35));
    v.push(make_builtin(NAME_RHYTHM, RHYTHM_PARAMS, RHYTHM_ITEM_LR, RHYTHM_RANK_LR, RHYTHM_RANK_GAIN, 100, 200, 55));
    v.push(make_builtin(NAME_MINIMAL, MINIMAL_PARAMS, MINIMAL_ITEM_LR, MINIMAL_RANK_LR, MINIMAL_RANK_GAIN, 60, 180, 70));
    v.push(make_builtin(NAME_COMBAT, COMBAT_PARAMS, COMBAT_ITEM_LR, COMBAT_RANK_LR, COMBAT_RANK_GAIN, 100, 380, 50));
    v.push(make_builtin(NAME_ALL_ZERO, ALL_ZERO_PARAMS, ALL_ZERO_ITEM_LR, ALL_ZERO_RANK_LR, ALL_ZERO_RANK_GAIN, 0, 0, 0));
    assert(views(v@) == builtin_presets());
    v
}

/// An independent copy of a preset.
pub fn copy_preset(p: &VibrationPreset) -> (r: VibrationPreset)
    ensures
        r@ == p@,
{
    VibrationPreset {
        name: p.name.clone(),
        params: p.params,
        item_lr: p.item_lr,
        rank_lr: p.rank_lr,
        rank_type_gain: p.rank_type_gain,
        rank_level_gain: p.rank_level_gain,
        rank_duration: p.rank_duration,
        out_smooth: p.out_smooth,
        user_modified: p.user_modified,
    }
}

/// The built-in names are pairwise different.
pub proof fn lemma_builtin_names_distinct()
    ensures
        forall|a: int, b: int| 0 <= a < b < 9 ==> (#[trigger] builtin_presets()[a]).name != (#[trigger] builtin_presets()[b]).name,
        builtin_presets().len() == 9,
{
    reveal_strlit("默认");
    reveal_strlit("ACT1 特供");
    reveal_strlit("低频攻击职业");
    reveal_strlit("高频攻击职业");
    reveal_strlit("高振幅");
    reveal_strlit("节奏律动");
    reveal_strlit("极简轻巧");
    reveal_strlit("实战竞技");
    reveal_strlit("测试版(全0)");
    assert forall|a: int, b: int| 0 <= a < b < 9 implies (#[trigger] builtin_presets()[a]).name != (#[trigger] builtin_presets()[b]).name by {
        let x = builtin_presets()[a].name;
        let y = builtin_presets()[b].name;
        if x == y {
            assert(x.len() == y.len());
            assert(x[0] == y[0]);
            assert(x[1] == y[1]);
        }
    }
}

/// No built-in name ends with "-ACT".
pub proof fn lemma_builtin_names_lack_act_suffix()
    ensures
        forall|a: int| 0 <= a < builtin_presets().len() ==> !seq_ends_with(#[trigger] builtin_presets()[a].name, "-ACT"@),
{
    lemma_builtin_names_distinct();
    reveal_strlit("默认");
    reveal_strlit("ACT1 特供");
    reveal_strlit("低频攻击职业");
    reveal_strlit("高频攻击职业");
    reveal_strlit("高振幅");
    reveal_strlit("节奏律动");
    reveal_strlit("极简轻巧");
    reveal_strlit("实战竞技");
    reveal_strlit("测试版(全0)");
    reveal_strlit("-ACT");
    assert(!seq_ends_with(builtin_presets()[0].name, "-ACT"@)) by {
        let x = builtin_presets()[0].name;
        if seq_ends_with(x, "-ACT"@) {
            assert(x[x.len() - 1] == x.subrange(x.len() - 4, x.len() as int)[3]);
        }
    }
    assert(!seq_ends_with(builtin_presets()[1].name, "-ACT"@)) by {
        let x = builtin_presets()[1].name;
        if seq_ends_with(x, "-ACT"@) {
            assert(x[x.len() - 1] == x.subrange(x.len() - 4, x.len() as int)[3]);
        }
    }
    assert(!seq_ends_with(builtin_presets()[2].name, "-ACT"@)) by {
        let x = builtin_presets()[2].name;
        if seq_ends_with(x, "-ACT"@) {
            assert(x[x.len() - 1] == x.subrange(x.len() - 4, x.len() as int)[3]);
        }
    }
    assert(!seq_ends_with(builtin_presets()[3].name, "-ACT"@)) by {
        let x = builtin_presets()[3].name;
        if seq_ends_with(x, "-ACT"@) {
            assert(x[x.len() - 1] == x.subrange(x.len() - 4, x.len() as int)[3]);
        }
    }
    assert(!seq_ends_with(builtin_presets()[4].name, "-ACT"@)) by {
        let x = builtin_presets()[4].name;
        if seq_ends_with(x, "-ACT"@) {
            assert(x[x.len() - 1] == x.subrange(x.len() - 4, x.len() as int)[3]);
        }
    }
    assert(!seq_ends_with(builtin_presets()[5].name, "-ACT"@)) by {
        let x = builtin_presets()[5].name;
        if seq_ends_with(x, "-ACT"@) {
            assert(x[x.len() - 1] == x.subrange(x.len() - 4, x.len() as int)[3]);
        }
    }
    assert(!seq_ends_with(builtin_presets()[6].name, "-ACT"@)) by {
        let x = builtin_presets()[6].name;
        if seq_ends_with(x, "-ACT"@) {
            assert(x[x.len() - 1] == x.subrange(x.len() - 4, x.len() as int)[3]);
        }
    }
    assert(!seq_ends_with(builtin_presets()[7].name, "-ACT"@)) by {
        let x = builtin_presets()[7].name;
        if seq_ends_with(x, "-ACT"@) {
            assert(x[x.len() - 1] == x.subrange(x.len() - 4, x.len() as int)[3]);
        }
    }
    assert(!seq_ends_with(builtin_presets()[8].name, "-ACT"@)) by {
        let x = builtin_presets()[8].name;
        if seq_ends_with(x, "-ACT"@) {
            assert(x[x.len() - 1] == x.subrange(x.len() - 4, x.len() as int)[3]);
        }
    }
    assert forall|a: int| 0 <= a < builtin_presets().len() implies !seq_ends_with(#[trigger] builtin_presets()[a].name, "-ACT"@) by {
        assert(a == 0 || a == 1 || a == 2 || a == 3 || a == 4 || a == 5 || a == 6 || a == 7 || a == 8);
    }
}

/// Looking a built-in preset up by its own name finds it.
pub proof fn lemma_builtin_lookup(k: int)
    requires
        0 <= k < 9,
    ensures
        builtin_named(builtin_presets()[k].name) == Some(builtin_presets()[k]),
{
    lemma_builtin_names_distinct();
    let t = builtin_presets();
    assert(is_first_where(t, name_is(t[k].name), k));
    lemma_first_index_at(t, name_is(t[k].name), k);
}

/// The "ACT1" built-in preset.
pub open spec fn act1_builtin() -> PresetView {
    builtin_presets()[1]
}

/// The index of the first entry named `n`.
pub open spec fn first_index_by_name(v: Seq<PresetView>, n: Seq<char>) -> Option<int> {
    first_index_where(v, name_is(n))
}

/// The index of the first preset named `name`.
pub fn position_named(ps: &Vec<VibrationPreset>, name: &str) -> (r: Option<usize>)
    ensures
        match first_index_where(views(ps@), name_is(name@)) {
            None => r is None,
            Some(i) => r == Some(i as usize),
        },
        r matches Some(i) ==> i < ps@.len() && is_first_where(views(ps@), name_is(name@), i as int),
        r is None ==> forall|j: int| 0 <= j < ps@.len() ==> (#[trigger] ps@[j]).name@ != name@,
{
    let ghost vs = views(ps@);
    let mut i: usize = 0;
    while i < ps.len()
        invariant
            vs == views(ps@),
            i <= ps@.len(),
            forall|j: int| 0 <= j < i ==> !(name_is(name@))(#[trigger] vs[j]),
            forall|j: int| 0 <= j < i ==> (#[trigger] ps@[j]).name@ != name@,
        decreases ps@.len() - i,
    {
        if str_eq(ps[i].name.as_str(), name) {
            proof {
                assert(is_first_where(vs, name_is(name@), i as int));
                lemma_first_index_at(vs, name_is(name@), i as int);
            }
            return Some(i);
        }
        i = i + 1;
    }
    proof { lemma_first_index_none(vs, name_is(name@)); }
    None
}

/// The built-in preset named `name`, as a fresh value.
pub fn find_builtin(name: &str) -> (r: Option<VibrationPreset>)
    ensures
        match builtin_named(name@) {
            None => r is None,
            Some(b) => r matches Some(p) && p@ == b,
        },
{
    let table = default_vibration_presets();
    match position_named(&table, name) {
        None => {
            None
        },
        Some(i) => {
            proof {
                let k = choose|k: int| is_first_where(views(table@), name_is(name@), k);
                lemma_first_index_at(views(table@), name_is(name@), k);
            }
            Some(copy_preset(&table[i]))
        },
    }
}

/// Whether two arrays hold the same values.
pub fn arrays_eq<const N: usize>(a: &[u32; N], b: &[u32; N]) -> (r: bool)
    ensures
        r == (a@ == b@),
{
    let mut i: usize = 0;
    while i < N
        invariant
            a@.len() == N,
            b@.len() == N,
            i <= N,
            forall|j: int| 0 <= j < i ==> a@[j] == b@[j],
        decreases N - i,
    {
        if a[i] != b[i] {
            return false;
        }
        i = i + 1;
    }
    assert(a@ == b@);
    true
}

/// Whether two presets hold the same tuning values.
pub fn values_equal(a: &VibrationPreset, b: &VibrationPreset) -> (r: bool)
    ensures
        r == same_values(a@, b@),
{
    arrays_eq(&a.params, &b.params) && arrays_eq(&a.item_lr, &b.item_lr) && arrays_eq(&a.rank_lr, &b.rank_lr)
        && arrays_eq(&a.rank_type_gain, &b.rank_type_gain) && a.rank_level_gain == b.rank_level_gain
        && a.rank_duration == b.rank_duration && a.out_smooth == b.out_smooth
}

/// `e` carrying the tuning values of `b`.
fn adopt_values(e: &VibrationPreset, b: &VibrationPreset) -> (r: VibrationPreset)
    ensures
        r@ == with_values(e@, b@),
{
    VibrationPreset {
        name: e.name.clone(),
        params: b.params,
        item_lr: b.item_lr,
        rank_lr: b.rank_lr,
        rank_type_gain: b.rank_type_gain,
        rank_level_gain: b.rank_level_gain,
        rank_duration: b.rank_duration,
        out_smooth: b.out_smooth,
        user_modified: e.user_modified,
    }
}

/// Where the "ACT1" preset belongs: right below the first "默认" entry, or at the
/// top when there is none.
pub open spec fn act1_target(v: Seq<PresetView>) -> int {
    match first_index_where(v, name_is(NAME_DEFAULT@)) {
        Some(i) => i + 1,
        None => 0,
    }
}

fn act1_target_exec(ps: &Vec<VibrationPreset>) -> (r: usize)
    ensures
        r == act1_target(views(ps@)),
        r <= ps@.len(),
{
    let n = ps.len();
    match position_named(ps, NAME_DEFAULT) {
        Some(i) => i + 1,
        None => 0,
    }
}

/// Lists with the same names at the same places have the same first match by name.
pub proof fn lemma_same_names_same_first(v: Seq<PresetView>, w: Seq<PresetView>, n: Seq<char>)
    requires
        v.len() == w.len(),
        forall|i: int| 0 <= i < v.len() ==> (#[trigger] v[i]).name == w[i].name,
    ensures
        first_index_where(v, name_is(n)) == first_index_where(w, name_is(n)),
{
    assert forall|i: int| is_first_where(v, name_is(n), i) <==> is_first_where(w, name_is(n), i) by {
        if is_first_where(v, name_is(n), i) {
            assert forall|j: int| 0 <= j < i implies !(name_is(n))(#[trigger] w[j]) by {
                assert(!(name_is(n))(v[j]));
            }
        }
        if is_first_where(w, name_is(n), i) {
            assert forall|j: int| 0 <= j < i implies !(name_is(n))(#[trigger] v[j]) by {
                assert(!(name_is(n))(w[j]));
            }
        }
    }
}

/// The effect of `ensure_act1_preset_position` on a list of presets: the new list and
/// whether anything changed.
///  - Outside the legacy route: nothing changes.
///  - No "ACT1" entry: the built-in one is inserted at `act1_target`.
///  - Otherwise the first such entry, when the user never saved over it and its values
///    differ from the built-in ones, takes the built-in values; it is then moved to
///    `act1_target` when it is elsewhere (reported as a change).
pub open spec fn ensure_act1_spec(v: Seq<PresetView>, legacy: bool) -> (Seq<PresetView>, bool) {
    if !legacy {
        (v, false)
    } else {
        match first_index_where(v, name_is(NAME_ACT1@)) {
            None => (v.insert(act1_target(v), act1_builtin()), true),
            Some(idx) => {
                let e = v[idx];
                let heal = !e.user_modified && !same_values(e, act1_builtin());
                let healed = healed_act1(e);
                let w = v.update(idx, healed);
                if idx == act1_target(v) {
                    (w, heal)
                } else {
                    let rest = w.remove(idx);
                    (rest.insert(act1_target(rest), healed), true)
                }
            },
        }
    }
}

/// The "ACT1" entry at `idx` after healing: the built-in values when the user never
/// saved over it and its values differ.
pub open spec fn healed_act1(e: PresetView) -> PresetView {
    if !e.user_modified && !same_values(e, act1_builtin()) {
        with_values(e, act1_builtin())
    } else {
        e
    }
}

fn heal_act1_at(presets: &mut Vec<VibrationPreset>, idx: usize) -> (changed: bool)
    requires
        idx < old(presets)@.len(),
    ensures
        views(final(presets)@) == views(old(presets)@).update(idx as int, healed_act1(views(old(presets)@)[idx as int])),
        changed == (!old(presets)@[idx as int].user_modified && !same_values(old(presets)@[idx as int]@, act1_builtin())),
{
    proof { lemma_builtin_lookup(1); }
    let ghost v = views(presets@);
    if !presets[idx].user_modified {
        match find_builtin(NAME_ACT1) {
            Some(b) => {
                if !values_equal(&presets[idx], &b) {
                    let healed = adopt_values(&presets[idx], &b);
                    presets.set(idx, healed);
                    assert(views(presets@) == v.update(idx as int, healed_act1(v[idx as int])));
                    return true;
                }
            },
            None => {},
        }
    }
    assert(views(presets@) == v.update(idx as int, healed_act1(v[idx as int])));
    false
}

fn relocate_act1(presets: &mut Vec<VibrationPreset>, idx: usize)
    requires
        idx < old(presets)@.len(),
    ensures
        views(final(presets)@) == views(old(presets)@).remove(idx as int).insert(
            act1_target(views(old(presets)@).remove(idx as int)),
            views(old(presets)@)[idx as int],
        ),
{
    let ghost w = views(presets@);
    let pr = presets.remove(idx);
    assert(views(presets@) == w.remove(idx as int));
    let t = act1_target_exec(presets);
    presets.insert(t, pr);
    assert(views(presets@) == w.remove(idx as int).insert(t as int, w[idx as int]));
}

/// Keeps the "ACT1" preset right below "默认" on the legacy route, restoring the
/// built-in values of an entry the user never saved over (see `ensure_act1_spec`).
/// Returns whether the list changed.
pub fn ensure_act1_preset_position(presets: &mut Vec<VibrationPreset>, legacy_client: bool) -> (r: bool)
    ensures
        views(final(presets)@) == ensure_act1_spec(views(old(presets)@), legacy_client).0,
        r == ensure_act1_spec(views(old(presets)@), legacy_client).1,
{
    if !legacy_client {
        return false;
    }
    let ghost v = views(presets@);
    proof { lemma_builtin_lookup(1); }
    match position_named(presets, NAME_ACT1) {
        None => {
            match find_builtin(NAME_ACT1) {
                Some(pr) => {
                    let t = act1_target_exec(presets);
                    presets.insert(t, pr);
                    assert(views(presets@) == v.insert(t as int, act1_builtin()));
                    true
                },
                None => false,
            }
        },
        Some(idx) => {
            let changed = heal_act1_at(presets, idx);
            let ghost w = views(presets@);
            proof {
                let healed = healed_act1(v[idx as int]);
                assert forall|i: int| 0 <= i < v.len() implies (#[trigger] v[i]).name == w[i].name by {
                    if i == idx as int {
                        assert(w[i] == healed);
                    }
                }
                lemma_same_names_same_first(v, w, NAME_DEFAULT@);
            }
            let want = act1_target_exec(presets);
            if idx == want {
                return changed;
            }
            relocate_act1(presets, idx);
            assert(w[idx as int] == healed_act1(v[idx as int]));
            true
        },
    }
}

/// No "ACT1" entry other than the first one stands above the first "默认" entry.
pub open spec fn act1_settles_in_one_pass(v: Seq<PresetView>) -> bool {
    forall|i: int, j: int|
        0 <= i < j < v.len() && (#[trigger] v[i]).name == NAME_ACT1@ && (#[trigger] v[j]).name == NAME_ACT1@
            ==> j + 1 >= act1_target(v)
}

/// Healing an entry twice changes nothing more.
pub proof fn lemma_healed_is_stable(e: PresetView)
    ensures
        healed_act1(healed_act1(e)) == healed_act1(e),
        !(!healed_act1(e).user_modified && !same_values(healed_act1(e), act1_builtin())),
{
}

/// Inserting an "ACT1" entry at its place into a list with none above that place puts
/// it first among the "ACT1" entries and leaves the place unchanged.
pub proof fn lemma_insert_act1_at_target(r: Seq<PresetView>, h: PresetView)
    requires
        forall|j: int| 0 <= j < act1_target(r) && j < r.len() ==> (#[trigger] r[j]).name != NAME_ACT1@,
        h.name == NAME_ACT1@,
    ensures
        first_index_where(r.insert(act1_target(r), h), name_is(NAME_ACT1@)) == Some(act1_target(r)),
        act1_target(r.insert(act1_target(r), h)) == act1_target(r),
{
    lemma_builtin_names_distinct();
    assert(builtin_presets()[0].name != builtin_presets()[1].name);
    let t = act1_target(r);
    let f = r.insert(t, h);
    assert(0 <= t <= r.len()) by {
        match first_index_where(r, name_is(NAME_DEFAULT@)) {
            Some(d) => {
                let k = choose|k: int| is_first_where(r, name_is(NAME_DEFAULT@), k);
                lemma_first_index_at(r, name_is(NAME_DEFAULT@), k);
            },
            None => {},
        }
    }
    assert(f[t] == h);
    assert forall|j: int| 0 <= j < t implies !(name_is(NAME_ACT1@))(#[trigger] f[j]) by {
        assert(f[j] == r[j]);
    }
    assert(is_first_where(f, name_is(NAME_ACT1@), t));
    lemma_first_index_at(f, name_is(NAME_ACT1@), t);
    match first_index_where(r, name_is(NAME_DEFAULT@)) {
        Some(d) => {
            let k = choose|k: int| is_first_where(r, name_is(NAME_DEFAULT@), k);
            lemma_first_index_at(r, name_is(NAME_DEFAULT@), k);
            assert(k == d);
            assert(f[d] == r[d]);
            assert forall|j: int| 0 <= j < d implies !(name_is(NAME_DEFAULT@))(#[trigger] f[j]) by {
                assert(f[j] == r[j]);
                assert(!(name_is(NAME_DEFAULT@))(r[j]));
            }
            assert(is_first_where(f, name_is(NAME_DEFAULT@), d));
            lemma_first_index_at(f, name_is(NAME_DEFAULT@), d);
        },
        None => {
            assert forall|j: int| 0 <= j < f.len() implies !(name_is(NAME_DEFAULT@))(#[trigger] f[j]) by {
                if j < t {
                    assert(f[j] == r[j]);
                } else if j > t {
                    assert(f[j] == r[j - 1]);
                }
                if j != t {
                    if exists|i: int| is_first_where(r, name_is(NAME_DEFAULT@), i) {
                    } else {
                        let jj = if j < t { j } else { j - 1 };
                        if (name_is(NAME_DEFAULT@))(r[jj]) {
                            crate::seq_util::lemma_first_where_exists(r, name_is(NAME_DEFAULT@), jj);
                        }
                    }
                }
            }
            lemma_first_index_none(f, name_is(NAME_DEFAULT@));
        },
    }
}

/// Placing the "ACT1" preset is stable: once `ensure_act1_preset_position` has run on a
/// list where no "ACT1" entry but the first stands above the first "默认" entry,
/// running it again changes nothing and reports no change.
pub proof fn law_act1_placement_is_stable(v: Seq<PresetView>)
    requires
        act1_settles_in_one_pass(v),
    ensures
        ensure_act1_spec(ensure_act1_spec(v, true).0, true) == (ensure_act1_spec(v, true).0, false),
{
    lemma_builtin_names_distinct();
    assert(builtin_presets()[0].name != builtin_presets()[1].name);
    let f = ensure_act1_spec(v, true).0;
    match first_index_where(v, name_is(NAME_ACT1@)) {
        None => {
            assert forall|j: int| 0 <= j < v.len() implies (#[trigger] v[j]).name != NAME_ACT1@ by {
                if v[j].name == NAME_ACT1@ {
                    crate::seq_util::lemma_first_where_exists(v, name_is(NAME_ACT1@), j);
                }
            }
            lemma_insert_act1_at_target(v, act1_builtin());
            let t = act1_target(v);
            assert(f[t] == act1_builtin());
            assert(f.update(t, healed_act1(f[t])) == f);
        },
        Some(idx) => {
            let k = choose|k: int| is_first_where(v, name_is(NAME_ACT1@), k);
            lemma_first_index_at(v, name_is(NAME_ACT1@), k);
            let e = v[idx];
            let h = healed_act1(e);
            lemma_healed_is_stable(e);
            let w = v.update(idx, h);
            assert forall|i: int| 0 <= i < v.len() implies (#[trigger] v[i]).name == w[i].name by {}
            lemma_same_names_same_first(v, w, NAME_DEFAULT@);
            lemma_same_names_same_first(v, w, NAME_ACT1@);
            if idx == act1_target(v) {
                assert(f == w);
                assert(w.update(idx, healed_act1(w[idx])) == w);
            } else {
                let rest = w.remove(idx);
                lemma_rest_has_no_act1_above_target(v, idx, h);
                lemma_insert_act1_at_target(rest, h);
                let t = act1_target(rest);
                assert(f[t] == h);
                assert(f.update(t, healed_act1(f[t])) == f);
            }
        },
    }
}

/// Taking the first "ACT1" entry (at `idx`, away from its place) out of a list where
/// it settles in one pass leaves no "ACT1" entry above the new place.
proof fn lemma_rest_has_no_act1_above_target(v: Seq<PresetView>, idx: int, h: PresetView)
    requires
        act1_settles_in_one_pass(v),
        is_first_where(v, name_is(NAME_ACT1@), idx),
        h.name == NAME_ACT1@,
    ensures
        forall|j: int| 0 <= j < act1_target(v.update(idx, h).remove(idx)) && j < v.len() - 1
            ==> (#[trigger] v.update(idx, h).remove(idx)[j]).name != NAME_ACT1@,
{
    lemma_builtin_names_distinct();
    assert(builtin_presets()[0].name != builtin_presets()[1].name);
    let w = v.update(idx, h);
    let rest = w.remove(idx);
    assert forall|j: int| 0 <= j < rest.len() implies (#[trigger] rest[j]) == (if j < idx { v[j] } else { v[j + 1] }) by {}
    match first_index_where(v, name_is(NAME_DEFAULT@)) {
        None => {
            assert forall|j: int| 0 <= j < rest.len() implies !(name_is(NAME_DEFAULT@))(#[trigger] rest[j]) by {
                let jj = if j < idx { j } else { j + 1 };
                assert(rest[j] == v[jj]);
                if (name_is(NAME_DEFAULT@))(v[jj]) {
                    crate::seq_util::lemma_first_where_exists(v, name_is(NAME_DEFAULT@), jj);
                }
            }
            lemma_first_index_none(rest, name_is(NAME_DEFAULT@));
        },
        Some(d) => {
            let kd = choose|k: int| is_first_where(v, name_is(NAME_DEFAULT@), k);
            lemma_first_index_at(v, name_is(NAME_DEFAULT@), kd);
            assert(v[d].name == NAME_DEFAULT@);
            assert(idx != d);
            if idx < d {
                assert(rest[d - 1] == v[d]);
                assert forall|j: int| 0 <= j < d - 1 implies !(name_is(NAME_DEFAULT@))(#[trigger] rest[j]) by {
                    let jj = if j < idx { j } else { j + 1 };
                    assert(rest[j] == v[jj]);
                    assert(!(name_is(NAME_DEFAULT@))(v[jj]));
                }
                assert(is_first_where(rest, name_is(NAME_DEFAULT@), d - 1));
                lemma_first_index_at(rest, name_is(NAME_DEFAULT@), d - 1);
                assert forall|j: int| 0 <= j < d && j < v.len() - 1 implies (#[trigger] rest[j]).name != NAME_ACT1@ by {
                    if j < idx {
                        assert(rest[j] == v[j]);
                        assert(!(name_is(NAME_ACT1@))(v[j]));
                    } else {
                        assert(rest[j] == v[j + 1]);
                        if j + 1 < d && v[j + 1].name == NAME_ACT1@ {
                            assert(v[idx].name == NAME_ACT1@);
                            assert(j + 1 + 1 >= act1_target(v));
                        }
                    }
                }
            } else {
                assert(rest[d] == v[d]);
                assert forall|j: int| 0 <= j < d implies !(name_is(NAME_DEFAULT@))(#[trigger] rest[j]) by {
                    assert(rest[j] == v[j]);
                    assert(!(name_is(NAME_DEFAULT@))(v[j]));
                }
                assert(is_first_where(rest, name_is(NAME_DEFAULT@), d));
                lemma_first_index_at(rest, name_is(NAME_DEFAULT@), d);
                assert forall|j: int| 0 <= j < d + 1 && j < v.len() - 1 implies (#[trigger] rest[j]).name != NAME_ACT1@ by {
                    assert(rest[j] == v[j]);
                    assert(!(name_is(NAME_ACT1@))(v[j]));
                }
            }
        },
    }
}

/// Names that belong to the legacy route only: "ACT1" and every "-ACT" variant.
pub open spec fn is_act_variant_spec(name: Seq<char>) -> bool {
    name == NAME_ACT1@ || seq_ends_with(name, "-ACT"@)
}

/// Built-in names that have an "-ACT" variant (every built-in but "ACT1" and the all-zero test preset).
pub open spec fn is_act_base_spec(name: Seq<char>) -> bool {
    name != NAME_ACT1@ && name != NAME_ALL_ZERO@ && exists|i: int| 0 <= i < builtin_presets().len() && (#[trigger] builtin_presets()[i]).name == name
}

/// Whether `name` is shown only on the legacy route ("ACT1" and every "*-ACT" variant).
pub fn is_act_variant_name(name: &str) -> (r: bool)
    ensures
        r == is_act_variant_spec(name@),
{
    str_eq(name, NAME_ACT1) || str_ends_with(name, "-ACT")
}

/// Whether `name` is a built-in preset that the legacy route replaces by its "-ACT" variant.
pub fn is_act_base_name(name: &str) -> (r: bool)
    ensures
        r == is_act_base_spec(name@),
{
    if str_eq(name, NAME_ACT1) || str_eq(name, NAME_ALL_ZERO) {
        return false;
    }
    let table = default_vibration_presets();
    let found = position_named(&table, name);
    proof {
        if exists|i: int| 0 <= i < builtin_presets().len() && (#[trigger] builtin_presets()[i]).name == name@ {
            let i = choose|i: int| 0 <= i < builtin_presets().len() && (#[trigger] builtin_presets()[i]).name == name@;
            assert(table@[i].name@ == name@);
        }
    }
    found.is_some()
}

/// Whether an entry is listed on the given route.
pub open spec fn visible_on_route(p: PresetView, legacy: bool) -> bool {
    if legacy {
        !is_act_base_spec(p.name)
    } else {
        !is_act_variant_spec(p.name)
    }
}

/// The (index, name) pairs of the entries among the first `n` that are listed on the route.
pub open spec fn visible_upto(v: Seq<PresetView>, legacy: bool, n: int) -> Seq<(int, Seq<char>)>
    decreases n,
{
    if n <= 0 {
        Seq::empty()
    } else if visible_on_route(v[n - 1], legacy) {
        visible_upto(v, legacy, n - 1).push((n - 1, v[n - 1].name))
    } else {
        visible_upto(v, legacy, n - 1)
    }
}

/// The entries of the preset drop-down with their real indices: on the legacy route the
/// built-ins that have an "-ACT" variant are hidden, otherwise the legacy-only entries are.
pub fn visible_preset_entries(presets: &[VibrationPreset], legacy: bool) -> (r: Vec<(usize, String)>)
    ensures
        r@.map_values(|e: (usize, String)| (e.0 as int, e.1@)) == visible_upto(views(presets@), legacy, presets@.len() as int),
{
    let mut out: Vec<(usize, String)> = Vec::new();
    let mut i: usize = 0;
    while i < presets.len()
        invariant
            i <= presets@.len(),
            out@.map_values(|e: (usize, String)| (e.0 as int, e.1@)) == visible_upto(views(presets@), legacy, i as int),
        decreases presets@.len() - i,
    {
        let p = &presets[i];
        let keep = if legacy {
            !is_act_base_name(p.name.as_str())
        } else {
            !is_act_variant_name(p.name.as_str())
        };
        let ghost before = out@;
        if keep {
            out.push((i, p.name.clone()));
            assert(out@.map_values(|e: (usize, String)| (e.0 as int, e.1@)) =~= before.map_values(|e: (usize, String)| (e.0 as int, e.1@)).push((i as int, p.name@)));
        }
        assert(views(presets@)[i as int] == presets@[i as int]@);
        i = i + 1;
    }
    out
}

/// The preset to apply for `name`: the user's entry when they saved over it, else the
/// built-in one of that name, else the user's own preset; `None` when neither exists.
pub open spec fn pick_spec(user_entry: Option<PresetView>, name: Seq<char>) -> Option<PresetView> {
    match user_entry {
        Some(u) => if u.user_modified {
            Some(u)
        } else {
            match builtin_named(name) {
                Some(b) => Some(b),
                None => Some(u),
            }
        },
        None => builtin_named(name),
    }
}

/// Chooses the values to apply for the preset `name` (see `pick_spec`).
pub fn pick_preset_for_apply(user_entry: Option<&VibrationPreset>, name: &str) -> (r: Option<VibrationPreset>)
    ensures
        match pick_spec(opt_view(user_entry), name@) {
            None => r is None,
            Some(v) => r matches Some(p) && p@ == v,
        },
{
    let builtin = find_builtin(name);
    match user_entry {
        Some(u) => {
            if u.user_modified {
                Some(copy_preset(u))
            } else {
                match builtin {
                    Some(b) => Some(b),
                    None => Some(copy_preset(u)),
                }
            }
        },
        None => builtin,
    }
}

impl Clone for VibrationPreset {
    fn clone(&self) -> Self {
        copy_preset(self)
    }
}

/// The view of an optional preset reference.
pub open spec fn opt_view(p: Option<&VibrationPreset>) -> Option<PresetView> {
    match p {
        Some(x) => Some(x@),
        None => None,
    }
}

} // verus!
