//! Vibration settings (battle events to gamepad motors) and their default values.

use vstd::prelude::*;

verus! {

/// Vibration configuration.
#[derive(Debug, Clone, Copy, PartialEq)]
pub struct VibrationConfig {
    /// Master switch of vibration feedback.
    pub enabled: bool,
    /// Advanced tuning shown (off: only the base parameters apply).
    pub advanced_enabled: bool,
    /// Left motor global gain %.
    pub motor_l_gain: u32,
    /// Right motor global gain %.
    pub motor_r_gain: u32,
    /// Left/right weights % of the 13 base items (two's complement for negatives).
    pub item_lr: [u32; 26],
    /// Left/right weights % of the 15 rank events.
    pub rank_lr: [u32; 30],
    /// Strength % of each rank event (0 = off).
    pub rank_type_gain: [u32; 15],
    /// Rank level strength %.
    pub rank_level_gain: u32,
    /// Full-strength rank pulse length in ms.
    pub rank_duration: u32,
    /// Random variation % around the cap (0 = off).
    pub random_gain: u32,
    /// Output smoothing % (low-pass against hum).
    pub out_smooth: u32,
    /// Rank and movement channels ignore the global adjustment (for testing one channel).
    pub independent_test: bool,
    /// Movement vibration ignores the global strength.
    pub move_independent: bool,
    /// Rank-driven dynamic decay.
    pub rank_decay_enabled: bool,
    /// Output dead zone %.
    pub out_threshold: u32,
    /// Non-zero output remapped to [remap_min, 100].
    pub remap_enabled: bool,
    /// Lowest remapped output %.
    pub remap_min: u32,
    /// Light feedback on the leading motor only.
    pub split_enabled: bool,
    /// Peak % below which feedback counts as light.
    pub split_thr: u32,
    /// Idle time before the rank decays, ms.
    pub rank_decay_delay_ms: u32,
    /// Rank decay speed, levels per second.
    pub rank_decay_speed: u32,
    /// Feedback multiplier % at the lowest rank.
    pub rank_decay_min_mul: u32,
    /// Feedback multiplier % at the highest rank.
    pub rank_decay_max_mul: u32,
    /// Fixed-frequency mode: at most `abs_freq_max` pulses per window.
    pub abs_freq_enabled: bool,
    /// Fixed-frequency window, ms.
    pub abs_freq_window_ms: u32,
    /// Pulses per fixed-frequency window.
    pub abs_freq_max: u32,
    /// Throttle window, ms (0 = off).
    pub throttle_window_ms: u32,
    /// Pulses per throttle window (0 = off).
    pub throttle_max_hits: u32,
    /// Pulse ratio % while dense (100 = unchanged).
    pub throttle_dense_ratio: u32,
    /// Crowd merging: kept strength % per merged event (0 = off).
    pub merge_keep: u32,
    /// Crowd merging: cap % of merged strength.
    pub merge_cap: u32,
    /// Crowd merging: flush window, ms (0 = no flush).
    pub merge_hold: u32,
    /// Hit cap: pulses per window (0 = off).
    pub hitcap_max: u32,
    /// Hit cap window, ms.
    pub hitcap_win_ms: u32,
    /// Hit merge window, ms: several hits of one swing vibrate once.
    pub hitmerge_ms: u32,
    /// Sustained cap seconds before extra damping (0 = off).
    pub sustain_secs: u32,
    /// Extra damping % after sustained capping.
    pub sustain_reduce: u32,
    /// Tail cut-off % of the pulse peak under load (0 = off).
    pub tail_land_pct: u32,
    /// Strength % of monster status feedback (0 = off).
    pub monster_abnormal_gain: u32,
    /// Hit storm threshold, events per window (0 = off).
    pub storm_thr: u32,
    /// Share % of hits kept during a storm.
    pub storm_keep_pct: u32,
    /// Storm counting window, ms.
    pub storm_win_ms: u32,
    /// Pause after which a storm ends, ms.
    pub storm_pause_ms: u32,
    /// Mute monster status feedback during a storm.
    pub storm_mute_abnormal: bool,
    /// Mute rank feedback during a storm.
    pub storm_mute_rank: bool,
    /// Crowd merging enabled.
    pub merge_enabled: bool,
    /// Hit cap enabled.
    pub hitcap_enabled: bool,
    /// Storm sampling enabled (detection continues for the mutes).
    pub storm_enabled: bool,
    /// Sustained damping enabled.
    pub sustain_enabled: bool,
    /// Tail cut-off enabled.
    pub tail_land_enabled: bool,
    /// Combo density adaptation enabled.
    pub density_enabled: bool,
    /// Hit adaptivity enabled.
    pub adapt_enabled: bool,
    /// Movement charge enabled.
    pub move_charge_enabled: bool,
    /// Custom decay times enabled.
    pub decay_enabled: bool,
    /// Custom algorithm windows enabled.
    pub algo_windows_enabled: bool,
    /// Silence / counter / pulse enabled.
    pub pulse_enabled: bool,
    /// Unified envelope during storms.
    pub storm_unified_enabled: bool,
    /// Unified envelope length, ms.
    pub storm_unified_ms: u32,
    /// Output engine mode of the legacy route (0 classic, 1 shaped, 2 shaped with carry).
    pub legacy_output_mode: u32,
    /// Attack frequency gain.
    pub attack_gain: u32,
    /// Hit damage gain.
    pub damage_gain: u32,
    /// Camera shake gain.
    pub shake_gain: u32,
    /// Movement gain.
    pub move_gain: u32,
    /// Total strength cap.
    pub max_strength: u32,
    /// Decay time constant, ms.
    pub decay_ms: u32,
    /// Combo reset boost.
    pub hit_boost: u32,
    /// Battle start pulse.
    pub start_pulse: u32,
    /// Kill pulse.
    pub kill_pulse: u32,
    /// Global master gain.
    pub master_gain: u32,
    /// Damage font hit strength.
    pub font_strength: u32,
    /// Damage font minimum interval, ms.
    pub font_interval: u32,
    /// Right motor rhythm ratio (50 = balanced).
    pub rhythm: u32,
    /// Font strength: HP.
    pub font_hp: u32,
    /// Font strength: special.
    pub font_special: u32,
    /// Font strength: state.
    pub font_state: u32,
    /// Font strength: effect.
    pub font_effect: u32,
    /// Font strength: attack.
    pub font_attack: u32,
    /// Font strength: hit.
    pub font_hit: u32,
    /// Advanced parameters (ratios, decays, windows, combo, adaptivity, pulses).
    pub advanced: [u32; 41],
}

/// The advanced parameter defaults.
pub open spec fn default_vib_advanced_spec() -> Seq<u32> {
    seq![100u32, 100, 0, 0, 380, 50, 10, 55, 30, 60, 50, 85, 25, 70, 70, 50, 45, 60, 30, 70, 70, 150, 90, 380, 35, 8, 40, 30, 4, 100, 30, 60, 20, 200, 50, 0, 150, 90, 90, 30, 100]
}

/// The advanced parameter defaults.
pub fn default_vib_advanced() -> (r: [u32; 41])
    ensures
        r@ == default_vib_advanced_spec(),
{
    let r: [u32; 41] = [100, 100, 0, 0, 380, 50, 10, 55, 30, 60, 50, 85, 25, 70, 70, 50, 45, 60, 30, 70, 70, 150, 90, 380, 35, 8, 40, 30, 4, 100, 30, 60, 20, 200, 50, 0, 150, 90, 90, 30, 100];
    assert(r@ =~= default_vib_advanced_spec());
    r
}

/// Rank-event motor weights: all neutral.
pub open spec fn default_vib_rank_lr_spec() -> Seq<u32> {
    Seq::new(30, |i: int| 0u32)
}

/// Rank-event motor weights: all neutral.
pub fn default_vib_rank_lr() -> (r: [u32; 30])
    ensures
        r@ == default_vib_rank_lr_spec(),
{
    let r: [u32; 30] = [0; 30];
    assert(r@ =~= default_vib_rank_lr_spec());
    r
}

/// Rank-event strengths: all 100 %.
pub open spec fn default_vib_rank_gain_spec() -> Seq<u32> {
    Seq::new(15, |i: int| 100u32)
}

/// Rank-event strengths: all 100 %.
pub fn default_vib_rank_gain() -> (r: [u32; 15])
    ensures
        r@ == default_vib_rank_gain_spec(),
{
    let r: [u32; 15] = [100; 15];
    assert(r@ =~= default_vib_rank_gain_spec());
    r
}

/// Base-item motor weights: all neutral.
pub open spec fn default_vib_item_lr_spec() -> Seq<u32> {
    Seq::new(26, |i: int| 0u32)
}

/// Base-item motor weights: all neutral.
pub fn default_vib_item_lr() -> (r: [u32; 26])
    ensures
        r@ == default_vib_item_lr_spec(),
{
    let r: [u32; 26] = [0; 26];
    assert(r@ =~= default_vib_item_lr_spec());
    r
}

/// Field default: `300`.
pub fn default_vib_rank_dur() -> (r: u32)
    ensures
        r == 300,
{
    300
}

/// Field default: `true`.
pub fn default_vib_true() -> (r: bool)
    ensures
        r == true,
{
    true
}

/// Field default: `40`.
pub fn default_vib_40() -> (r: u32)
    ensures
        r == 40,
{
    40
}

/// Field default: `60`.
pub fn default_vib_60() -> (r: u32)
    ensures
        r == 60,
{
    60
}

/// Field default: `80`.
pub fn default_vib_80() -> (r: u32)
    ensures
        r == 80,
{
    80
}

/// Field default: `20`.
pub fn default_vib_20() -> (r: u32)
    ensures
        r == 20,
{
    20
}

/// Field default: `100`.
pub fn default_vib_100() -> (r: u32)
    ensures
        r == 100,
{
    100
}

/// Field default: `80`.
pub fn default_vib_merge_keep() -> (r: u32)
    ensures
        r == 80,
{
    80
}

/// Field default: `100`.
pub fn default_vib_merge_cap() -> (r: u32)
    ensures
        r == 100,
{
    100
}

/// Field default: `80`.
pub fn default_vib_merge_hold() -> (r: u32)
    ensures
        r == 80,
{
    80
}

/// Field default: `6`.
pub fn default_vib_hitcap_max() -> (r: u32)
    ensures
        r == 6,
{
    6
}

/// Field default: `1000`.
pub fn default_vib_hitcap_win() -> (r: u32)
    ensures
        r == 1000,
{
    1000
}

/// Field default: `60`.
pub fn default_vib_hitmerge() -> (r: u32)
    ensures
        r == 60,
{
    60
}

/// Field default: `3`.
pub fn default_vib_sustain_secs() -> (r: u32)
    ensures
        r == 3,
{
    3
}

/// Field default: `30`.
pub fn default_vib_sustain_reduce() -> (r: u32)
    ensures
        r == 30,
{
    30
}

/// Field default: `25`.
pub fn default_vib_tail_land() -> (r: u32)
    ensures
        r == 25,
{
    25
}

/// Field default: `1`.
pub fn default_vib_monster_abnormal() -> (r: u32)
    ensures
        r == 1,
{
    1
}

/// Field default: `10`.
pub fn default_vib_storm_thr() -> (r: u32)
    ensures
        r == 10,
{
    10
}

/// Field default: `50`.
pub fn default_vib_storm_keep() -> (r: u32)
    ensures
        r == 50,
{
    50
}

/// Field default: `1000`.
pub fn default_vib_storm_win() -> (r: u32)
    ensures
        r == 1000,
{
    1000
}

/// Field default: `400`.
pub fn default_vib_storm_pause() -> (r: u32)
    ensures
        r == 400,
{
    400
}

/// Field default: `120`.
pub fn default_vib_storm_unified_ms() -> (r: u32)
    ensures
        r == 120,
{
    120
}

/// Field default: `55`.
pub fn default_vib_55() -> (r: u32)
    ensures
        r == 55,
{
    55
}

/// Field default: `true`.
pub fn default_vib_move_indep() -> (r: bool)
    ensures
        r == true,
{
    true
}

/// Field default: `3000`.
pub fn default_vib_abs_win() -> (r: u32)
    ensures
        r == 3000,
{
    3000
}

/// Field default: `false`.
pub fn default_vib_rank_decay() -> (r: bool)
    ensures
        r == false,
{
    false
}

/// Field default: `28`.
pub fn default_vib_3() -> (r: u32)
    ensures
        r == 28,
{
    28
}

/// Field default: `28`.
pub fn default_vib_28() -> (r: u32)
    ensures
        r == 28,
{
    28
}

/// Field default: `40`.
pub fn default_vib_split_thr() -> (r: u32)
    ensures
        r == 40,
{
    40
}

/// Field default: `2000`.
pub fn default_vib_rank_decay_delay() -> (r: u32)
    ensures
        r == 2000,
{
    2000
}

/// Field default: `2`.
pub fn default_vib_rank_decay_speed() -> (r: u32)
    ensures
        r == 2,
{
    2
}

/// Field default: `60`.
pub fn default_vib_rank_decay_min() -> (r: u32)
    ensures
        r == 60,
{
    60
}

/// Field default: `120`.
pub fn default_vib_rank_decay_max() -> (r: u32)
    ensures
        r == 120,
{
    120
}

/// Field default: `6`.
pub fn default_vib_abs_max() -> (r: u32)
    ensures
        r == 6,
{
    6
}

/// Field default: `180`.
pub fn default_vib_180() -> (r: u32)
    ensures
        r == 180,
{
    180
}

/// Field default: `15`.
pub fn default_vib_15() -> (r: u32)
    ensures
        r == 15,
{
    15
}

/// Field default: `35`.
pub fn default_vib_35() -> (r: u32)
    ensures
        r == 35,
{
    35
}

/// Field default: `50`.
pub fn default_vib_50() -> (r: u32)
    ensures
        r == 50,
{
    50
}

/// Field default: `30`.
pub fn default_vib_30() -> (r: u32)
    ensures
        r == 30,
{
    30
}

/// The field values of `VibrationConfig::default()`.
pub open spec fn is_default_vibration(c: VibrationConfig) -> bool {
    &&& c.enabled == true
    &&& c.advanced_enabled == false
    &&& c.motor_l_gain == 100
    &&& c.motor_r_gain == 100
    &&& c.item_lr@ == default_vib_item_lr_spec()
    &&& c.rank_lr@ == default_vib_rank_lr_spec()
    &&& c.rank_type_gain@ == default_vib_rank_gain_spec()
    &&& c.rank_level_gain == 100
    &&& c.rank_duration == 300
    &&& c.random_gain == 0
    &&& c.out_smooth == 55
    &&& c.independent_test == false
    &&& c.move_independent == true
    &&& c.rank_decay_enabled == false
    &&& c.out_threshold == 28
    &&& c.remap_enabled == true
    &&& c.remap_min == 28
    &&& c.split_enabled == true
    &&& c.split_thr == 40
    &&& c.rank_decay_delay_ms == 2000
    &&& c.rank_decay_speed == 2
    &&& c.rank_decay_min_mul == 60
    &&& c.rank_decay_max_mul == 120
    &&& c.abs_freq_enabled == false
    &&& c.abs_freq_window_ms == 3000
    &&& c.abs_freq_max == 6
    &&& c.throttle_window_ms == 0
    &&& c.throttle_max_hits == 0
    &&& c.throttle_dense_ratio == 100
    &&& c.merge_keep == 80
    &&& c.merge_cap == 100
    &&& c.merge_hold == 80
    &&& c.hitcap_max == 6
    &&& c.hitcap_win_ms == 1000
    &&& c.hitmerge_ms == 60
    &&& c.sustain_secs == 3
    &&& c.sustain_reduce == 30
    &&& c.tail_land_pct == 25
    &&& c.monster_abnormal_gain == 1
    &&& c.storm_thr == 10
    &&& c.storm_keep_pct == 50
    &&& c.storm_win_ms == 1000
    &&& c.storm_pause_ms == 400
    &&& c.storm_mute_abnormal == false
    &&& c.storm_mute_rank == false
    &&& c.merge_enabled == true
    &&& c.hitcap_enabled == true
    &&& c.storm_enabled == true
    &&& c.sustain_enabled == true
    &&& c.tail_land_enabled == true
    &&& c.density_enabled == true
    &&& c.adapt_enabled == true
    &&& c.move_charge_enabled == true
    &&& c.decay_enabled == true
    &&& c.algo_windows_enabled == true
    &&& c.pulse_enabled == true
    &&& c.storm_unified_enabled == false
    &&& c.storm_unified_ms == 120
    &&& c.legacy_output_mode == 0
    &&& c.attack_gain == 0
    &&& c.damage_gain == 0
    &&& c.shake_gain == 0
    &&& c.move_gain == 0
    &&& c.max_strength == 0
    &&& c.decay_ms == 0
    &&& c.hit_boost == 0
    &&& c.start_pulse == 0
    &&& c.kill_pulse == 0
    &&& c.master_gain == 0
    &&& c.font_strength == 0
    &&& c.font_interval == 0
    &&& c.rhythm == 50
    &&& c.font_hp == 0
    &&& c.font_special == 0
    &&& c.font_state == 0
    &&& c.font_effect == 0
    &&& c.font_attack == 0
    &&& c.font_hit == 0
    &&& c.advanced@ == default_vib_advanced_spec()
}

impl VibrationConfig {
    /// The default settings.
    pub fn default_config() -> (r: Self)
        ensures
            is_default_vibration(r),
    {
        VibrationConfig {
            enabled: true,
            advanced_enabled: false,
            motor_l_gain: 100,
            motor_r_gain: 100,
            item_lr: default_vib_item_lr(),
            rank_lr: default_vib_rank_lr(),
            rank_type_gain: default_vib_rank_gain(),
            rank_level_gain: 100,
            rank_duration: default_vib_rank_dur(),
            random_gain: 0,
            out_smooth: 55,
            independent_test: false,
            move_independent: true,
            rank_decay_enabled: false,
            out_threshold: 28,
            remap_enabled: true,
            remap_min: 28,
            split_enabled: true,
            split_thr: 40,
            rank_decay_delay_ms: 2000,
            rank_decay_speed: 2,
            rank_decay_min_mul: 60,
            rank_decay_max_mul: 120,
            abs_freq_enabled: false,
            abs_freq_window_ms: 3000,
            abs_freq_max: 6,
            throttle_window_ms: 0,
            throttle_max_hits: 0,
            throttle_dense_ratio: 100,
            merge_keep: default_vib_merge_keep(),
            merge_cap: default_vib_merge_cap(),
            merge_hold: default_vib_merge_hold(),
            hitcap_max: default_vib_hitcap_max(),
            hitcap_win_ms: default_vib_hitcap_win(),
            hitmerge_ms: default_vib_hitmerge(),
            sustain_secs: default_vib_sustain_secs(),
            sustain_reduce: default_vib_sustain_reduce(),
            tail_land_pct: default_vib_tail_land(),
            monster_abnormal_gain: default_vib_monster_abnormal(),
            storm_thr: default_vib_storm_thr(),
            storm_keep_pct: default_vib_storm_keep(),
            storm_win_ms: default_vib_storm_win(),
            storm_pause_ms: default_vib_storm_pause(),
            storm_mute_abnormal: false,
            storm_mute_rank: false,
            merge_enabled: true,
            hitcap_enabled: true,
            storm_enabled: true,
            sustain_enabled: true,
            tail_land_enabled: true,
            density_enabled: true,
            adapt_enabled: true,
            move_charge_enabled: true,
            decay_enabled: true,
            algo_windows_enabled: true,
            pulse_enabled: true,
            storm_unified_enabled: false,
            storm_unified_ms: default_vib_storm_unified_ms(),
            legacy_output_mode: 0,
            attack_gain: 0,
            damage_gain: 0,
            shake_gain: 0,
            move_gain: 0,
            max_strength: 0,
            decay_ms: 0,
            hit_boost: 0,
            start_pulse: 0,
            kill_pulse: 0,
            master_gain: 0,
            font_strength: 0,
            font_interval: 0,
            rhythm: 50,
            font_hp: 0,
            font_special: 0,
            font_state: 0,
            font_effect: 0,
            font_attack: 0,
            font_hit: 0,
            advanced: default_vib_advanced(),
        }
    }
}

impl Default for VibrationConfig {
    fn default() -> (r: Self)
        ensures
            is_default_vibration(r),
    {
        Self::default_config()
    }
}

/// Applying the "ACT1" preset also turns advanced tuning on and mutes monster status
/// and rank feedback during hit storms; every other setting is kept.
pub fn act1_preset_extras(vib: &mut VibrationConfig)
    ensures
        *final(vib) == (VibrationConfig { advanced_enabled: true, storm_mute_abnormal: true, storm_mute_rank: true, ..*old(vib) }),
{
    vib.advanced_enabled = true;
    vib.storm_mute_abnormal = true;
    vib.storm_mute_rank = true;
}

/// An array of `N` values taken from the front of `v`, zero where `v` is shorter
/// (extra values are dropped). Used when reading fixed-size arrays from a file.
pub fn array_from_values<const N: usize>(v: &Vec<u32>) -> (r: [u32; N])
    ensures
        r@.len() == N,
        forall|i: int| 0 <= i < N ==> r@[i] == if i < v@.len() { v@[i] } else { 0u32 },
{
    let mut a = [0u32; N];
    let mut i: usize = 0;
    while i < N && i < v.len()
        invariant
            a@.len() == N,
            i <= N,
            i <= v@.len(),
            forall|j: int| 0 <= j < i ==> a@[j] == v@[j],
            forall|j: int| i <= j < N ==> a@[j] == 0u32,
        decreases N - i,
    {
        a[i] = v[i];
        i = i + 1;
    }
    a
}

} // verus!
