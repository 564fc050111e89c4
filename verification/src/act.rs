//! The "-ACT" preset family of the legacy route: strength tiers, event ladders and the
//! rebuild of the advanced parameter group from an archetype profile.

use vstd::prelude::*;
use crate::presets::{
    act1_builtin, builtin_presets, default_vibration_presets, find_builtin, first_index_by_name,
    lemma_builtin_lookup, position_named, same_values, values_equal, views, PresetView,
    VibrationPreset, ACT1_PARAMS, NAME_ACT1, NAME_ALL_ZERO, NAME_COMBAT, NAME_DEFAULT,
    NAME_HIGH_AMP, NAME_HIGH_FREQ, NAME_LOW_FREQ, NAME_MINIMAL, NAME_RHYTHM,
};
use crate::text::{chars_end_with, chars_of, seq_ends_with, str_eq, string_from_chars};
use crate::presets::{lemma_builtin_names_distinct, lemma_builtin_names_lack_act_suffix, name_is};
use crate::seq_util::{first_where, is_first_where, lemma_first_index_at, lemma_first_index_none, lemma_first_where_exists};
use vstd::string::StringExecFns;

verus! {

/// Strength tier of an "-ACT" preset: fixes its cap and event ladder.
#[derive(Debug, Clone, Copy, PartialEq, Eq)]
pub enum ActTier {
    Light,
    Medium,
    Heavy,
    Extreme,
    Max,
}

/// The main feedback of an "-ACT" preset (the other events sit below it).
#[derive(Debug, Clone, Copy, PartialEq, Eq)]
pub enum ActSignature {
    Hit,
    Special,
    Taken,
    Dot,
}

/// The tier of a class's own strength cap (bands up to 30 / 33 / 37 / 41 / above).
pub open spec fn tier_for_max(m: u32) -> ActTier {
    if m <= 30 {
        ActTier::Light
    } else if m <= 33 {
        ActTier::Medium
    } else if m <= 37 {
        ActTier::Heavy
    } else if m <= 41 {
        ActTier::Extreme
    } else {
        ActTier::Max
    }
}

/// The tier of a class's own strength cap.
pub fn act_tier_from_max(orig_max: u32) -> (r: ActTier)
    ensures
        r == tier_for_max(orig_max),
{
    if orig_max <= 30 {
        ActTier::Light
    } else if orig_max <= 33 {
        ActTier::Medium
    } else if orig_max <= 37 {
        ActTier::Heavy
    } else if orig_max <= 41 {
        ActTier::Extreme
    } else {
        ActTier::Max
    }
}

/// (cap, hit, special, taken, DOT, state, effect) of each tier; Extreme is the "ACT1" preset's own.
pub open spec fn ladder(t: ActTier) -> (u32, u32, u32, u32, u32, u32, u32) {
    match t {
        ActTier::Light => (58, 50, 42, 30, 15, 20, 8),
        ActTier::Medium => (63, 56, 47, 34, 17, 22, 9),
        ActTier::Heavy => (68, 61, 51, 37, 19, 24, 10),
        ActTier::Extreme => (75, 65, 55, 40, 20, 25, 10),
        ActTier::Max => (75, 68, 58, 43, 22, 27, 11),
    }
}

/// The event strength ladder of a tier.
pub fn act_ladder(t: ActTier) -> (r: (u32, u32, u32, u32, u32, u32, u32))
    ensures
        r == ladder(t),
{
    match t {
        ActTier::Light => (58, 50, 42, 30, 15, 20, 8),
        ActTier::Medium => (63, 56, 47, 34, 17, 22, 9),
        ActTier::Heavy => (68, 61, 51, 37, 19, 24, 10),
        ActTier::Extreme => (75, 65, 55, 40, 20, 25, 10),
        ActTier::Max => (75, 68, 58, 43, 22, 27, 11),
    }
}

/// The four decay times (hit, special, taken, state) of each tier.
pub open spec fn decays(t: ActTier) -> (u32, u32, u32, u32) {
    match t {
        ActTier::Light => (20, 45, 35, 45),
        ActTier::Medium => (22, 50, 40, 50),
        ActTier::Heavy => (25, 55, 45, 55),
        ActTier::Extreme => (25, 60, 45, 60),
        ActTier::Max => (28, 65, 50, 65),
    }
}

/// The decay times of a tier.
pub fn act_decay(t: ActTier) -> (r: (u32, u32, u32, u32))
    ensures
        r == decays(t),
{
    match t {
        ActTier::Light => (20, 45, 35, 45),
        ActTier::Medium => (22, 50, 40, 50),
        ActTier::Heavy => (25, 55, 45, 55),
        ActTier::Extreme => (25, 60, 45, 60),
        ActTier::Max => (28, 65, 50, 65),
    }
}

/// The 60 parameters of the built-in "ACT1" preset (the base of every job variant).
pub fn act1_base_params() -> (r: [u32; 60])
    ensures
        r@ == act1_builtin().params,
        r@ == ACT1_PARAMS@,
{
    proof { lemma_builtin_lookup(1); }
    match find_builtin(NAME_ACT1) {
        Some(p) => p.params,
        None => [0u32; 60],
    }
}

/// High-combo archetype (low density threshold or low combo cap in the profile).
pub open spec fn combo_heavy(src: Seq<u32>) -> bool {
    src[29] <= 35 || src[47] <= 145
}

/// Heavy-hitter archetype.
pub open spec fn heavy(src: Seq<u32>) -> bool {
    src[29] >= 60 || src[47] >= 160
}

/// Mobile archetype (strong movement build-up).
pub open spec fn mobile(src: Seq<u32>) -> bool {
    src[21] >= 10
}

/// Stationary archetype.
pub open spec fn stationary(src: Seq<u32>) -> bool {
    src[21] <= 3
}

/// Picks by archetype: combo-heavy, else heavy, else general.
pub open spec fn by_combo(src: Seq<u32>, c: u32, h: u32, g: u32) -> u32 {
    if combo_heavy(src) { c } else if heavy(src) { h } else { g }
}

/// Picks by movement archetype: mobile, else stationary, else neutral.
pub open spec fn by_move(src: Seq<u32>, m: u32, s: u32, n: u32) -> u32 {
    if mobile(src) { m } else if stationary(src) { s } else { n }
}

/// Movement feel (same for every job) and movement build-up by archetype.
pub open spec fn move_group(p: Seq<u32>, src: Seq<u32>) -> Seq<u32> {
    p.update(23, 380).update(24, 40).update(25, 8).update(26, 45).update(27, 30).update(28, 4)
        .update(21, by_move(src, 12, 2, 6)).update(22, by_move(src, 40, 10, 25)).update(39, by_move(src, 1800, 1000, 1500))
}

/// Combo density adaptation by archetype.
pub open spec fn density_group(p: Seq<u32>, src: Seq<u32>) -> Seq<u32> {
    p.update(29, by_combo(src, 35, 65, 45)).update(30, 500).update(31, by_combo(src, 40, 20, 32))
        .update(32, by_combo(src, 800, 1000, 1000)).update(33, by_combo(src, 60, 75, 55)).update(34, by_combo(src, 300, 300, 250))
}

/// Combo multiplier, window and break threshold by archetype.
pub open spec fn combo_group(p: Seq<u32>, src: Seq<u32>) -> Seq<u32> {
    p.update(45, by_combo(src, 2200, 1100, 1500)).update(47, by_combo(src, 140, 170, 155))
        .update(48, by_combo(src, 33, 43, 38)).update(49, by_combo(src, 30, 50, 40))
}

/// Hit adaptivity: strong when the profile reduces a lot (`src[31] >= 40`).
pub open spec fn adapt_group(p: Seq<u32>, src: Seq<u32>) -> Seq<u32> {
    if src[31] >= 40 {
        p.update(50, 55).update(51, 35).update(52, 200).update(53, 40)
    } else {
        p.update(50, 65).update(51, 20).update(52, 250).update(53, 50)
    }
}

/// DOT / effect / burst / counter / idle windows.
pub open spec fn window_group(p: Seq<u32>, src: Seq<u32>) -> Seq<u32> {
    p.update(40, if src[40] >= 200 { 200u32 } else { 150 }).update(41, if src[41] <= 80 { 80u32 } else { 90 })
        .update(42, if src[42] <= 300 { 250u32 } else { 600 }).update(43, if src[43] >= 40 { 40u32 } else { 30 })
        .update(44, if src[44] >= 800 { 1000u32 } else { 800 }).update(46, 3000)
}

/// Silence / counter / pulse slots.
pub open spec fn pulse_group(p: Seq<u32>, src: Seq<u32>) -> Seq<u32> {
    p.update(54, if src[54] >= 200 { 250u32 } else { 200 }).update(55, if src[55] >= 150 { 150u32 } else { 130 })
        .update(56, if src[56] >= 70 { 80u32 } else { 40 }).update(57, if src[57] >= 70 { 80u32 } else { 40 })
        .update(58, if src[58] >= 40 { 40u32 } else { 30 })
}

/// The advanced group of `p` rebuilt after the archetype profile `src`; all other slots kept.
pub open spec fn rebuilt(p: Seq<u32>, src: Seq<u32>) -> Seq<u32> {
    pulse_group(window_group(adapt_group(combo_group(density_group(move_group(p, src), src), src), src), src), src)
}

fn set_move_group(p: &mut [u32; 60], src: &[u32; 60])
    ensures
        final(p)@ == move_group(old(p)@, src@),
{
    p[23] = 380;
    p[24] = 40;
    p[25] = 8;
    p[26] = 45;
    p[27] = 30;
    p[28] = 4;
    if src[21] >= 10 {
        p[21] = 12;
        p[22] = 40;
        p[39] = 1800;
    } else if src[21] <= 3 {
        p[21] = 2;
        p[22] = 10;
        p[39] = 1000;
    } else {
        p[21] = 6;
        p[22] = 25;
        p[39] = 1500;
    }
}

fn set_density_group(p: &mut [u32; 60], src: &[u32; 60])
    ensures
        final(p)@ == density_group(old(p)@, src@),
{
    let combo = src[29] <= 35 || src[47] <= 145;
    let hv = src[29] >= 60 || src[47] >= 160;
    if combo {
        p[29] = 35;
        p[30] = 500;
        p[31] = 40;
        p[32] = 800;
        p[33] = 60;
        p[34] = 300;
    } else if hv {
        p[29] = 65;
        p[30] = 500;
        p[31] = 20;
        p[32] = 1000;
        p[33] = 75;
        p[34] = 300;
    } else {
        p[29] = 45;
        p[30] = 500;
        p[31] = 32;
        p[32] = 1000;
        p[33] = 55;
        p[34] = 250;
    }
}

fn set_combo_group(p: &mut [u32; 60], src: &[u32; 60])
    ensures
        final(p)@ == combo_group(old(p)@, src@),
{
    let combo = src[29] <= 35 || src[47] <= 145;
    let hv = src[29] >= 60 || src[47] >= 160;
    if combo {
        p[45] = 2200;
        p[47] = 140;
        p[48] = 33;
        p[49] = 30;
    } else if hv {
        p[45] = 1100;
        p[47] = 170;
        p[48] = 43;
        p[49] = 50;
    } else {
        p[45] = 1500;
        p[47] = 155;
        p[48] = 38;
        p[49] = 40;
    }
}

fn set_adapt_group(p: &mut [u32; 60], src: &[u32; 60])
    ensures
        final(p)@ == adapt_group(old(p)@, src@),
{
    if src[31] >= 40 {
        p[50] = 55;
        p[51] = 35;
        p[52] = 200;
        p[53] = 40;
    } else {
        p[50] = 65;
        p[51] = 20;
        p[52] = 250;
        p[53] = 50;
    }
}

fn set_window_group(p: &mut [u32; 60], src: &[u32; 60])
    ensures
        final(p)@ == window_group(old(p)@, src@),
{
    p[40] = if src[40] >= 200 { 200 } else { 150 };
    p[41] = if src[41] <= 80 { 80 } else { 90 };
    p[42] = if src[42] <= 300 { 250 } else { 600 };
    p[43] = if src[43] >= 40 { 40 } else { 30 };
    p[44] = if src[44] >= 800 { 1000 } else { 800 };
    p[46] = 3000;
}

fn set_pulse_group(p: &mut [u32; 60], src: &[u32; 60])
    ensures
        final(p)@ == pulse_group(old(p)@, src@),
{
    p[54] = if src[54] >= 200 { 250 } else { 200 };
    p[55] = if src[55] >= 150 { 150 } else { 130 };
    p[56] = if src[56] >= 70 { 80 } else { 40 };
    p[57] = if src[57] >= 70 { 80 } else { 40 };
    p[58] = if src[58] >= 40 { 40 } else { 30 };
}

/// Rewrites the advanced parameter group (movement, density, combo, adaptivity,
/// windows, pulses) of `p` after the archetype that `src` shows; other slots keep
/// their values.
pub fn act_rebuild_advanced(p: &mut [u32; 60], src: &[u32; 60])
    ensures
        final(p)@ == rebuilt(old(p)@, src@),
{
    set_move_group(p, src);
    set_density_group(p, src);
    set_combo_group(p, src);
    set_adapt_group(p, src);
    set_window_group(p, src);
    set_pulse_group(p, src);
}

/// The slots the advanced rebuild writes: 21..=34 and 39..=58.
pub open spec fn rebuild_writes(i: int) -> bool {
    (21 <= i <= 34) || (39 <= i <= 58)
}

proof fn lemma_move_frame(p: Seq<u32>, q: Seq<u32>, src: Seq<u32>)
    requires
        p.len() == 60,
        q.len() == 60,
    ensures
        move_group(p, src).len() == 60,
        forall|i: int| 0 <= i < 60 ==> #[trigger] move_group(p, src)[i] == if (21 <= i <= 28 || i == 39) {
            move_group(q, src)[i]
        } else {
            p[i]
        },
{
}

proof fn lemma_density_frame(p: Seq<u32>, q: Seq<u32>, src: Seq<u32>)
    requires
        p.len() == 60,
        q.len() == 60,
    ensures
        density_group(p, src).len() == 60,
        forall|i: int| 0 <= i < 60 ==> #[trigger] density_group(p, src)[i] == if 29 <= i <= 34 {
            density_group(q, src)[i]
        } else {
            p[i]
        },
{
}

proof fn lemma_combo_frame(p: Seq<u32>, q: Seq<u32>, src: Seq<u32>)
    requires
        p.len() == 60,
        q.len() == 60,
    ensures
        combo_group(p, src).len() == 60,
        forall|i: int| 0 <= i < 60 ==> #[trigger] combo_group(p, src)[i] == if (i == 45 || 47 <= i <= 49) {
            combo_group(q, src)[i]
        } else {
            p[i]
        },
{
}

proof fn lemma_adapt_frame(p: Seq<u32>, q: Seq<u32>, src: Seq<u32>)
    requires
        p.len() == 60,
        q.len() == 60,
    ensures
        adapt_group(p, src).len() == 60,
        forall|i: int| 0 <= i < 60 ==> #[trigger] adapt_group(p, src)[i] == if 50 <= i <= 53 {
            adapt_group(q, src)[i]
        } else {
            p[i]
        },
{
}

proof fn lemma_window_frame(p: Seq<u32>, q: Seq<u32>, src: Seq<u32>)
    requires
        p.len() == 60,
        q.len() == 60,
    ensures
        window_group(p, src).len() == 60,
        forall|i: int| 0 <= i < 60 ==> #[trigger] window_group(p, src)[i] == if (40 <= i <= 44 || i == 46) {
            window_group(q, src)[i]
        } else {
            p[i]
        },
{
}

proof fn lemma_pulse_frame(p: Seq<u32>, q: Seq<u32>, src: Seq<u32>)
    requires
        p.len() == 60,
        q.len() == 60,
    ensures
        pulse_group(p, src).len() == 60,
        forall|i: int| 0 <= i < 60 ==> #[trigger] pulse_group(p, src)[i] == if 54 <= i <= 58 {
            pulse_group(q, src)[i]
        } else {
            p[i]
        },
{
}

/// The advanced rebuild writes only slots 21..=34 and 39..=58, and what it writes
/// there depends on the archetype profile alone: every other slot (the curve and
/// ladder slots 0..=20, the decays 35..=38 and slot 59) keeps its value, two lists
/// rebuilt after the same profile agree on every written slot, and the movement feel
/// (slot 23) and effect window (slot 46) come out as 380 and 3000.
pub proof fn law_rebuild_depends_on_profile_only(p: Seq<u32>, p2: Seq<u32>, src: Seq<u32>)
    requires
        p.len() == 60,
        p2.len() == 60,
        src.len() == 60,
    ensures
        rebuilt(p, src).len() == 60,
        forall|i: int| 0 <= i < 60 && !rebuild_writes(i) ==> #[trigger] rebuilt(p, src)[i] == p[i],
        forall|i: int| 0 <= i < 60 && rebuild_writes(i) ==> #[trigger] rebuilt(p, src)[i] == rebuilt(p2, src)[i],
        rebuilt(p, src)[23] == 380,
        rebuilt(p, src)[46] == 3000,
{
    let m1 = move_group(p, src);
    let m2 = move_group(p2, src);
    lemma_move_frame(p, p2, src);
    let d1 = density_group(m1, src);
    let d2 = density_group(m2, src);
    lemma_density_frame(m1, m2, src);
    lemma_density_frame(m2, m2, src);
    let c1 = combo_group(d1, src);
    let c2 = combo_group(d2, src);
    lemma_combo_frame(d1, d2, src);
    lemma_combo_frame(d2, d2, src);
    let a1 = adapt_group(c1, src);
    let a2 = adapt_group(c2, src);
    lemma_adapt_frame(c1, c2, src);
    lemma_adapt_frame(c2, c2, src);
    let w1 = window_group(a1, src);
    let w2 = window_group(a2, src);
    lemma_window_frame(a1, a2, src);
    lemma_window_frame(a2, a2, src);
    lemma_pulse_frame(w1, w2, src);
    lemma_pulse_frame(w2, w2, src);
    assert forall|i: int| 0 <= i < 60 && !rebuild_writes(i) implies #[trigger] rebuilt(p, src)[i] == p[i] by {
        assert(pulse_group(w1, src)[i] == w1[i]);
        assert(w1[i] == a1[i]);
        assert(a1[i] == c1[i]);
        assert(c1[i] == d1[i]);
        assert(d1[i] == m1[i]);
        assert(m1[i] == p[i]);
    }
    assert forall|i: int| 0 <= i < 60 && rebuild_writes(i) implies #[trigger] rebuilt(p, src)[i] == rebuilt(p2, src)[i] by {
        assert(m1[i] == if (21 <= i <= 28 || i == 39) { m2[i] } else { p[i] });
        assert(d1[i] == if 29 <= i <= 34 { d2[i] } else { m1[i] });
        assert(d2[i] == if 29 <= i <= 34 { d2[i] } else { m2[i] });
        assert(c1[i] == if (i == 45 || 47 <= i <= 49) { c2[i] } else { d1[i] });
        assert(c2[i] == if (i == 45 || 47 <= i <= 49) { c2[i] } else { d2[i] });
        assert(a1[i] == if 50 <= i <= 53 { a2[i] } else { c1[i] });
        assert(a2[i] == if 50 <= i <= 53 { a2[i] } else { c2[i] });
        assert(w1[i] == if (40 <= i <= 44 || i == 46) { w2[i] } else { a1[i] });
        assert(w2[i] == if (40 <= i <= 44 || i == 46) { w2[i] } else { a2[i] });
        assert(pulse_group(w1, src)[i] == if 54 <= i <= 58 { pulse_group(w2, src)[i] } else { w1[i] });
        assert(pulse_group(w2, src)[i] == if 54 <= i <= 58 { pulse_group(w2, src)[i] } else { w2[i] });
    }
    assert(m1[23] == 380);
    assert(rebuilt(p, src)[23] == m1[23]) by {
        assert(pulse_group(w1, src)[23] == w1[23]);
    }
    assert(w1[46] == 3000);
}

/// The hit strength 4 lower (not below 0), used when another event leads.
pub open spec fn hit_minus_4(hit: u32) -> u32 {
    if hit >= 4 { (hit - 4) as u32 } else { 0 }
}

pub open spec fn max_u32(a: u32, b: u32) -> u32 {
    if a >= b { a } else { b }
}

pub open spec fn min_u32(a: u32, b: u32) -> u32 {
    if a <= b { a } else { b }
}

/// (hit, special, taken, DOT) strengths: the leading event gets at least the hit
/// strength, and the hit then drops by 4.
pub open spec fn sig_values(t: ActTier, sig: ActSignature) -> (u32, u32, u32, u32) {
    let (_c, hit, special, taken, dot, _s, _e) = ladder(t);
    match sig {
        ActSignature::Hit => (hit, special, taken, dot),
        ActSignature::Special => (hit_minus_4(hit), max_u32(special, hit), taken, dot),
        ActSignature::Taken => (hit_minus_4(hit), special, max_u32(taken, hit), dot),
        ActSignature::Dot => (hit_minus_4(hit), special, taken, max_u32(dot, hit)),
    }
}

/// `base` with the tier's ladder, decays and gates written in: master 100, cap (or the
/// override), global 90, font interval at most 20, the event strengths and the decays.
pub open spec fn prebuilt(base: Seq<u32>, t: ActTier, sig: ActSignature, max_override: Option<u32>) -> Seq<u32> {
    let (cap, _h, _sp, _tk, _d, state, effect) = ladder(t);
    let max = match max_override {
        Some(m) => m,
        None => cap,
    };
    let (dec_a, dec_s, dec_h, dec_st) = decays(t);
    let (hit_v, sp_v, tk_v, dt_v) = sig_values(t, sig);
    base.update(0, 100).update(4, max).update(9, 90).update(11, min_u32(base[11], 20)).update(12, dt_v)
        .update(13, sp_v).update(14, state).update(15, effect).update(16, hit_v).update(17, tk_v)
        .update(35, dec_a).update(36, dec_s).update(37, dec_h).update(38, dec_st)
}

/// The "-ACT" parameters: `base` with the tier written in, then the advanced group
/// rebuilt after the archetype of `src`.
pub open spec fn built_params(
    base: Seq<u32>,
    src: Seq<u32>,
    t: ActTier,
    sig: ActSignature,
    max_override: Option<u32>,
) -> Seq<u32> {
    rebuilt(prebuilt(base, t, sig, max_override), src)
}

/// Builds "-ACT" parameters from a base and a separate archetype profile (see `built_params`).
pub fn act_build_params_from(
    base: &[u32; 60],
    src: &[u32; 60],
    tier: ActTier,
    sig: ActSignature,
    max_override: Option<u32>,
) -> (r: [u32; 60])
    ensures
        r@ == built_params(base@, src@, tier, sig, max_override),
{
    let (cap, hit, special, taken, dot, state, effect) = act_ladder(tier);
    let max = match max_override {
        Some(m) => m,
        None => cap,
    };
    let (dec_a, dec_s, dec_h, dec_st) = act_decay(tier);
    let hit_low = if hit >= 4 { hit - 4 } else { 0 };
    let (hit_v, sp_v, tk_v, dt_v) = match sig {
        ActSignature::Hit => (hit, special, taken, dot),
        ActSignature::Special => (hit_low, if special >= hit { special } else { hit }, taken, dot),
        ActSignature::Taken => (hit_low, special, if taken >= hit { taken } else { hit }, dot),
        ActSignature::Dot => (hit_low, special, taken, if dot >= hit { dot } else { hit }),
    };
    let mut p = *base;
    p[0] = 100;
    p[4] = max;
    p[9] = 90;
    p[11] = if base[11] <= 20 { base[11] } else { 20 };
    p[12] = dt_v;
    p[13] = sp_v;
    p[14] = state;
    p[15] = effect;
    p[16] = hit_v;
    p[17] = tk_v;
    p[35] = dec_a;
    p[36] = dec_s;
    p[37] = dec_h;
    p[38] = dec_st;
    assert(p@ == prebuilt(base@, tier, sig, max_override));
    act_rebuild_advanced(&mut p, src);
    p
}

/// Builds "-ACT" parameters whose archetype profile is the base itself.
pub fn act_build_params(base: &[u32; 60], tier: ActTier, sig: ActSignature, max_override: Option<u32>) -> (r: [u32; 60])
    ensures
        r@ == built_params(base@, base@, tier, sig, max_override),
{
    act_build_params_from(base, base, tier, sig, max_override)
}

/// A signed weight stored as `u32` (two's complement).
pub open spec fn lr_spec(w: i32) -> u32 {
    if w >= 0 { w as u32 } else { (w + 0x1_0000_0000) as u32 }
}

/// Stores a signed weight (-100..+100) as `u32`, negatives in two's complement.
pub fn lr(w: i32) -> (r: u32)
    ensures
        r == lr_spec(w),
{
    if w >= 0 {
        w as u32
    } else {
        let m = (-(w + 1)) as u32;
        u32::MAX - m
    }
}

pub open spec fn tier_index(t: ActTier) -> int {
    match t {
        ActTier::Light => 0,
        ActTier::Medium => 1,
        ActTier::Heavy => 2,
        ActTier::Extreme => 3,
        ActTier::Max => 4,
    }
}

/// Motor weights of an "-ACT" preset: DOT slightly lighter, special and hit to the
/// right, taken to the left; stronger with the tier.
pub open spec fn motor_lr(t: ActTier) -> Seq<u32> {
    let i = tier_index(t);
    let hit_r = seq![8u32, 10, 10, 12, 12][i];
    let taken_l = seq![8u32, 12, 15, 18, 20][i];
    let taken_r = seq![-6i32, -8i32, -10i32, -12i32, -14i32][i];
    let special_r = seq![8u32, 10, 15, 15, 18][i];
    Seq::new(26, |k: int| 0u32).update(14, lr_spec(-5i32)).update(15, lr_spec(-5i32)).update(21, special_r)
        .update(22, lr_spec(-10i32)).update(23, hit_r).update(24, taken_l).update(25, lr_spec(taken_r))
}

/// The motor weights of an "-ACT" preset of tier `tier`.
pub fn act_motor_item_lr(tier: ActTier) -> (r: [u32; 26])
    ensures
        r@ == motor_lr(tier),
{
    let i: usize = match tier {
        ActTier::Light => 0,
        ActTier::Medium => 1,
        ActTier::Heavy => 2,
        ActTier::Extreme => 3,
        ActTier::Max => 4,
    };
    let hit_r_t: [u32; 5] = [8, 10, 10, 12, 12];
    let taken_l_t: [u32; 5] = [8, 12, 15, 18, 20];
    let taken_r_t: [i32; 5] = [-6, -8, -10, -12, -14];
    let special_r_t: [u32; 5] = [8, 10, 15, 15, 18];
    let hit_r = hit_r_t[i];
    let taken_l = taken_l_t[i];
    let taken_r = taken_r_t[i];
    let special_r = special_r_t[i];
    let mut w = [0u32; 26];
    w[14] = lr(-5);
    w[15] = lr(-5);
    w[21] = special_r;
    w[22] = lr(-10);
    w[23] = hit_r;
    w[24] = lr(taken_l as i32);
    w[25] = lr(taken_r);
    assert(w@ =~= motor_lr(tier));
    w
}

/// Rank-event motor weights of an "-ACT" preset: neutral, movement to the left.
pub open spec fn act_rank_lr_spec() -> Seq<i32> {
    Seq::new(30, |k: int| 0i32).update(22, -15i32).update(23, 10i32)
}

/// The rank-event motor weights of an "-ACT" preset.
pub fn act_rank_lr() -> (r: [i32; 30])
    ensures
        r@ == act_rank_lr_spec(),
{
    let mut r = [0i32; 30];
    r[22] = -15;
    r[23] = 10;
    assert(r@ =~= act_rank_lr_spec());
    r
}

/// 30% of a rank strength, rounded half up, at most 100.
pub open spec fn gain30(b: u32) -> u32 {
    let q = (3 * b + 5) / 10;
    if q > 100 { 100 } else { q as u32 }
}

/// The rank strengths of an "-ACT" variant: 30% of each, rounded, at most 100.
pub fn act_variant_rank_gains(base: &[u32; 15]) -> (r: [u32; 15])
    ensures
        r@ == Seq::new(15, |i: int| gain30(base@[i])),
{
    let mut g = [0u32; 15];
    let mut i: usize = 0;
    while i < 15
        invariant
            i <= 15,
            g@.len() == 15,
            forall|j: int| 0 <= j < i ==> g@[j] == gain30(base@[j]),
        decreases 15 - i,
    {
        let b = base[i];
        g[i] = if b >= 334 { 100 } else { (3 * b + 5) / 10 };
        i = i + 1;
    }
    assert(g@ =~= Seq::new(15, |i: int| gain30(base@[i])));
    g
}

/// The design of each built-in preset in the ACT frame: tier, leading event and an
/// optional lower cap.
pub open spec fn design_for(name: Seq<char>) -> (ActTier, ActSignature, Option<u32>) {
    if name == NAME_DEFAULT@ {
        (ActTier::Medium, ActSignature::Hit, None)
    } else if name == NAME_LOW_FREQ@ {
        (ActTier::Extreme, ActSignature::Special, None)
    } else if name == NAME_HIGH_FREQ@ {
        (ActTier::Light, ActSignature::Hit, None)
    } else if name == NAME_HIGH_AMP@ {
        (ActTier::Max, ActSignature::Hit, None)
    } else if name == NAME_RHYTHM@ {
        (ActTier::Light, ActSignature::Special, None)
    } else if name == NAME_MINIMAL@ {
        (ActTier::Light, ActSignature::Hit, Some(50))
    } else if name == NAME_COMBAT@ {
        (ActTier::Heavy, ActSignature::Taken, None)
    } else {
        (ActTier::Medium, ActSignature::Hit, None)
    }
}

fn act_general_design(name: &str) -> (r: (ActTier, ActSignature, Option<u32>))
    ensures
        r == design_for(name@),
{
    if str_eq(name, NAME_DEFAULT) {
        (ActTier::Medium, ActSignature::Hit, None)
    } else if str_eq(name, NAME_LOW_FREQ) {
        (ActTier::Extreme, ActSignature::Special, None)
    } else if str_eq(name, NAME_HIGH_FREQ) {
        (ActTier::Light, ActSignature::Hit, None)
    } else if str_eq(name, NAME_HIGH_AMP) {
        (ActTier::Max, ActSignature::Hit, None)
    } else if str_eq(name, NAME_RHYTHM) {
        (ActTier::Light, ActSignature::Special, None)
    } else if str_eq(name, NAME_MINIMAL) {
        (ActTier::Light, ActSignature::Hit, Some(50))
    } else if str_eq(name, NAME_COMBAT) {
        (ActTier::Heavy, ActSignature::Taken, None)
    } else {
        (ActTier::Medium, ActSignature::Hit, None)
    }
}

/// The built-ins that get an "-ACT" variant ("ACT1" and the all-zero preset do not).
pub open spec fn has_variant_pred() -> spec_fn(PresetView) -> bool {
    |p: PresetView| p.name != NAME_ACT1@ && p.name != NAME_ALL_ZERO@
}

/// The "-ACT" variant of a built-in preset.
pub open spec fn act_variant(p: PresetView) -> PresetView {
    let (tier, sig, mo) = design_for(p.name);
    PresetView {
        name: p.name + "-ACT"@,
        params: built_params(p.params, p.params, tier, sig, mo),
        item_lr: motor_lr(tier),
        rank_lr: act_rank_lr_spec().map_values(|v: i32| lr_spec(v)),
        rank_type_gain: Seq::new(15, |i: int| gain30(p.rank_type_gain[i])),
        rank_level_gain: min_u32(p.rank_level_gain, 30),
        rank_duration: min_u32(p.rank_duration, 250),
        out_smooth: p.out_smooth,
        user_modified: false,
    }
}

/// The "-ACT" variants of the built-in presets, in list order.
pub open spec fn general_variants() -> Seq<PresetView> {
    builtin_presets().filter(has_variant_pred()).map_values(|p: PresetView| act_variant(p))
}

fn rank_lr_as_u32() -> (r: [u32; 30])
    ensures
        r@ == act_rank_lr_spec().map_values(|v: i32| lr_spec(v)),
{
    let w = act_rank_lr();
    let mut r = [0u32; 30];
    let mut i: usize = 0;
    while i < 30
        invariant
            i <= 30,
            r@.len() == 30,
            w@ == act_rank_lr_spec(),
            forall|j: int| 0 <= j < i ==> r@[j] == lr_spec(w@[j]),
        decreases 30 - i,
    {
        r[i] = lr(w[i]);
        i = i + 1;
    }
    assert(r@ =~= act_rank_lr_spec().map_values(|v: i32| lr_spec(v)));
    r
}

fn make_variant(p: &VibrationPreset) -> (r: VibrationPreset)
    ensures
        r@ == act_variant(p@),
{
    let (tier, sig, mo) = act_general_design(p.name.as_str());
    let mut name = p.name.clone();
    name.append("-ACT");
    let rank_type_gain = act_variant_rank_gains(&p.rank_type_gain);
    VibrationPreset {
        name,
        params: act_build_params(&p.params, tier, sig, mo),
        item_lr: act_motor_item_lr(tier),
        rank_lr: rank_lr_as_u32(),
        rank_type_gain,
        rank_level_gain: if p.rank_level_gain <= 30 { p.rank_level_gain } else { 30 },
        rank_duration: if p.rank_duration <= 250 { p.rank_duration } else { 250 },
        out_smooth: p.out_smooth,
        user_modified: false,
    }
}

/// The "-ACT" variant of every built-in preset but "ACT1" and the all-zero one: each
/// built-in's design put into the ACT frame (see `act_variant`).
pub fn act_general_presets() -> (r: Vec<VibrationPreset>)
    ensures
        views(r@) == general_variants(),
{
    let table = default_vibration_presets();
    let ghost t = views(table@);
    let mut out: Vec<VibrationPreset> = Vec::new();
    let mut i: usize = 0;
    while i < table.len()
        invariant
            t == views(table@),
            t == builtin_presets(),
            i <= table@.len(),
            views(out@) == t.take(i as int).filter(has_variant_pred()).map_values(|p: PresetView| act_variant(p)),
        decreases table@.len() - i,
    {
        let p = &table[i];
        let ghost before = out@;
        proof {
            t.lemma_take_succ_push(i as int);
            t.take(i as int).lemma_filter_push(t[i as int], has_variant_pred());
        }
        if !str_eq(p.name.as_str(), NAME_ACT1) && !str_eq(p.name.as_str(), NAME_ALL_ZERO) {
            let v = make_variant(p);
            out.push(v);
            assert(views(out@) =~= views(before).push(act_variant(t[i as int])));
        }
        assert(t.take(i + 1).filter(has_variant_pred()).map_values(|p: PresetView| act_variant(p)) =~= views(out@));
        i = i + 1;
    }
    assert(t.take(t.len() as int) == t);
    out
}

/// A name with every trailing "-ACT" removed.
pub open spec fn trim_act(n: Seq<char>) -> Seq<char>
    decreases n.len(),
{
    if n.len() >= 4 && n.subrange(n.len() - 4, n.len() as int) == "-ACT"@ {
        trim_act(n.subrange(0, n.len() - 4))
    } else {
        n
    }
}

fn trim_act_exec(name: &str) -> (r: String)
    ensures
        r@ == trim_act(name@),
{
    proof { reveal_strlit("-ACT"); }
    let suffix = chars_of("-ACT");
    let mut cs = chars_of(name);
    while chars_end_with(cs.as_slice(), suffix.as_slice())
        invariant
            suffix@ == "-ACT"@,
            suffix@.len() == 4,
            trim_act(cs@) == trim_act(name@),
        decreases cs@.len(),
    {
        let ghost before = cs@;
        cs.truncate(cs.len() - 4);
        assert(cs@ == before.subrange(0, before.len() - 4));
    }
    string_from_chars(cs.as_slice())
}

/// One step of `ensure_act_general_variants` for the variant `w`: a missing variant is
/// inserted right after its base preset (or appended); an entry the user never saved
/// over whose values differ is replaced by the variant.
pub open spec fn general_step(v: Seq<PresetView>, w: PresetView) -> (Seq<PresetView>, bool) {
    match first_index_by_name(v, w.name) {
        None => {
            let pos = match first_index_by_name(v, trim_act(w.name)) {
                Some(i) => i + 1,
                None => v.len() as int,
            };
            (v.insert(pos, w), true)
        },
        Some(idx) => if !v[idx].user_modified && !same_values(v[idx], w) {
            (v.update(idx, w), true)
        } else {
            (v, false)
        },
    }
}

/// The steps for the first `k` variants of `ws`, and whether any changed the list.
pub open spec fn general_fold(v: Seq<PresetView>, ws: Seq<PresetView>, k: nat) -> (Seq<PresetView>, bool)
    decreases k,
{
    if k == 0 {
        (v, false)
    } else {
        let (a, c) = general_fold(v, ws, (k - 1) as nat);
        let (b, d) = general_step(a, ws[k - 1]);
        (b, c || d)
    }
}

/// The effect of `ensure_act_general_variants`: nothing outside the legacy route, else
/// one `general_step` per "-ACT" variant in order.
pub open spec fn ensure_general_spec(v: Seq<PresetView>, legacy: bool) -> (Seq<PresetView>, bool) {
    if !legacy {
        (v, false)
    } else {
        general_fold(v, general_variants(), general_variants().len())
    }
}

/// Keeps the "-ACT" variants of the built-in presets in the list on the legacy route
/// (see `ensure_general_spec`). Returns whether the list changed.
pub fn ensure_act_general_variants(presets: &mut Vec<VibrationPreset>, legacy_client: bool) -> (r: bool)
    ensures
        views(final(presets)@) == ensure_general_spec(views(old(presets)@), legacy_client).0,
        r == ensure_general_spec(views(old(presets)@), legacy_client).1,
{
    if !legacy_client {
        return false;
    }
    let ghost v0 = views(presets@);
    let wants = act_general_presets();
    let ghost ws = views(wants@);
    let mut changed = false;
    let mut k: usize = 0;
    while k < wants.len()
        invariant
            ws == views(wants@),
            ws == general_variants(),
            k <= wants@.len(),
            (views(presets@), changed) == general_fold(v0, ws, k as nat),
        decreases wants@.len() - k,
    {
        let want = crate::presets::copy_preset(&wants[k]);
        let ghost a = views(presets@);
        let step_changed = apply_general_step(presets, want);
        assert((views(presets@), step_changed) == general_step(a, ws[k as int]));
        changed = changed || step_changed;
        k = k + 1;
    }
    changed
}

fn apply_general_step(presets: &mut Vec<VibrationPreset>, want: VibrationPreset) -> (r: bool)
    ensures
        (views(final(presets)@), r) == general_step(views(old(presets)@), want@),
{
    let ghost v = views(presets@);
    match position_named(presets, want.name.as_str()) {
        None => {
            let base = trim_act_exec(want.name.as_str());
            let n = presets.len();
            let pos = match position_named(presets, base.as_str()) {
                Some(i) => i + 1,
                None => presets.len(),
            };
            presets.insert(pos, want);
            assert(views(presets@) == v.insert(pos as int, want@));
            true
        },
        Some(idx) => {
            if !presets[idx].user_modified && !values_equal(&presets[idx], &want) {
                presets.set(idx, want);
                assert(views(presets@) == v.update(idx as int, want@));
                true
            } else {
                false
            }
        },
    }
}

// ---------------------------------------------------------------------------
// Keeping the variants is idempotent.

/// No two presets share a name.
pub open spec fn names_distinct(s: Seq<PresetView>) -> bool {
    forall|i: int, j: int| 0 <= i < j < s.len() ==> (#[trigger] s[i]).name != (#[trigger] s[j]).name
}

/// The first preset named `w`'s name is `w` itself, or holds `w`'s values, or is one the
/// user saved over: the step for `w` leaves it alone.
pub open spec fn settled(v: Seq<PresetView>, w: PresetView) -> bool {
    match first_index_by_name(v, w.name) {
        Some(i) => v[i].user_modified || same_values(v[i], w),
        None => false,
    }
}

proof fn lemma_first_found(v: Seq<PresetView>, n: Seq<char>)
    ensures
        first_index_by_name(v, n) matches Some(i) ==> is_first_where(v, name_is(n), i),
        first_index_by_name(v, n) is None ==> forall|j: int| 0 <= j < v.len() ==> (#[trigger] v[j]).name != n,
{
    if first_index_by_name(v, n) is None {
        assert forall|j: int| 0 <= j < v.len() implies (#[trigger] v[j]).name != n by {
            if v[j].name == n {
                lemma_first_where_exists(v, name_is(n), j);
            }
        }
    }
}

proof fn lemma_filter_names_distinct(s: Seq<PresetView>, p: spec_fn(PresetView) -> bool)
    requires
        names_distinct(s),
    ensures
        names_distinct(s.filter(p)),
    decreases s.len(),
{
    reveal(Seq::filter);
    if s.len() > 0 {
        let init = s.drop_last();
        assert(names_distinct(init)) by {
            assert forall|i: int, j: int| 0 <= i < j < init.len() implies (#[trigger] init[i]).name != (#[trigger] init[j]).name by {
                assert(init[i] == s[i] && init[j] == s[j]);
            }
        }
        lemma_filter_names_distinct(init, p);
        let f = init.filter(p);
        if p(s.last()) {
            let g = f.push(s.last());
            assert forall|i: int, j: int| 0 <= i < j < g.len() implies (#[trigger] g[i]).name != (#[trigger] g[j]).name by {
                if j == g.len() - 1 {
                    assert(f.contains(g[i]));
                    init.lemma_filter_contains_rev(p, g[i]);
                    let k = choose|k: int| 0 <= k < init.len() && init[k] == g[i];
                    assert(s[k] == g[i]);
                    assert(s[s.len() - 1] == s.last());
                } else {
                    assert(g[i] == f[i] && g[j] == f[j]);
                }
            }
        }
    }
}

/// The "-ACT" variants have distinct names.
pub proof fn lemma_variant_names_distinct()
    ensures
        names_distinct(general_variants()),
{
    lemma_builtin_names_distinct();
    let b = builtin_presets();
    assert(names_distinct(b));
    lemma_filter_names_distinct(b, has_variant_pred());
    let f = b.filter(has_variant_pred());
    let g = general_variants();
    assert forall|i: int, j: int| 0 <= i < j < g.len() implies (#[trigger] g[i]).name != (#[trigger] g[j]).name by {
        assert(g[i].name == f[i].name + "-ACT"@);
        assert(g[j].name == f[j].name + "-ACT"@);
        if g[i].name == g[j].name {
            assert(f[i].name == g[i].name.subrange(0, f[i].name.len() as int));
            assert(f[j].name == g[j].name.subrange(0, f[j].name.len() as int));
        }
    }
}

proof fn lemma_step_settles(v: Seq<PresetView>, w: PresetView)
    ensures
        settled(general_step(v, w).0, w),
{
    lemma_first_found(v, w.name);
    let r = general_step(v, w).0;
    match first_index_by_name(v, w.name) {
        None => {
            let pos = match first_index_by_name(v, trim_act(w.name)) {
                Some(i) => i + 1,
                None => v.len() as int,
            };
            lemma_first_found(v, trim_act(w.name));
            assert(0 <= pos <= v.len());
            assert(r == v.insert(pos, w));
            assert(is_first_where(r, name_is(w.name), pos)) by {
                assert forall|j: int| 0 <= j < pos implies !(name_is(w.name))(#[trigger] r[j]) by {
                    assert(r[j] == v[j]);
                }
            }
            lemma_first_index_at(r, name_is(w.name), pos);
        },
        Some(idx) => {
            if !v[idx].user_modified && !same_values(v[idx], w) {
                assert(r == v.update(idx, w));
                assert(is_first_where(r, name_is(w.name), idx)) by {
                    assert forall|j: int| 0 <= j < idx implies !(name_is(w.name))(#[trigger] r[j]) by {
                        assert(r[j] == v[j]);
                    }
                }
                lemma_first_index_at(r, name_is(w.name), idx);
            }
        },
    }
}

proof fn lemma_step_keeps_settled(v: Seq<PresetView>, w: PresetView, u: PresetView)
    requires
        settled(v, u),
        u.name != w.name,
    ensures
        settled(general_step(v, w).0, u),
{
    lemma_first_found(v, w.name);
    lemma_first_found(v, u.name);
    let i = first_index_by_name(v, u.name)->0;
    let r = general_step(v, w).0;
    match first_index_by_name(v, w.name) {
        None => {
            let pos = match first_index_by_name(v, trim_act(w.name)) {
                Some(k) => k + 1,
                None => v.len() as int,
            };
            lemma_first_found(v, trim_act(w.name));
            assert(r == v.insert(pos, w));
            let i2 = if i < pos { i } else { i + 1 };
            assert(r[i2] == v[i]);
            assert(is_first_where(r, name_is(u.name), i2)) by {
                assert forall|j: int| 0 <= j < i2 implies !(name_is(u.name))(#[trigger] r[j]) by {
                    if j < pos {
                        assert(r[j] == v[j]);
                    } else if j > pos {
                        assert(r[j] == v[j - 1]);
                    }
                }
            }
            lemma_first_index_at(r, name_is(u.name), i2);
        },
        Some(idx) => {
            if !v[idx].user_modified && !same_values(v[idx], w) {
                assert(r == v.update(idx, w));
                assert(idx != i);
                assert(is_first_where(r, name_is(u.name), i)) by {
                    assert forall|j: int| 0 <= j < i implies !(name_is(u.name))(#[trigger] r[j]) by {
                        if j != idx {
                            assert(r[j] == v[j]);
                        }
                    }
                }
                lemma_first_index_at(r, name_is(u.name), i);
            }
        },
    }
}

proof fn lemma_fold_settles(v: Seq<PresetView>, ws: Seq<PresetView>, k: nat)
    requires
        names_distinct(ws),
        k <= ws.len(),
    ensures
        forall|j: int| 0 <= j < k ==> settled(general_fold(v, ws, k).0, #[trigger] ws[j]),
    decreases k,
{
    if k > 0 {
        let m = (k - 1) as nat;
        lemma_fold_settles(v, ws, m);
        let a = general_fold(v, ws, m).0;
        assert forall|j: int| 0 <= j < k implies settled(general_fold(v, ws, k).0, #[trigger] ws[j]) by {
            if j == m {
                lemma_step_settles(a, ws[m as int]);
            } else {
                assert(ws[j].name != ws[m as int].name);
                lemma_step_keeps_settled(a, ws[m as int], ws[j]);
            }
        }
    }
}

proof fn lemma_fold_identity(v: Seq<PresetView>, ws: Seq<PresetView>, k: nat)
    requires
        forall|j: int| 0 <= j < ws.len() ==> settled(v, #[trigger] ws[j]),
        k <= ws.len(),
    ensures
        general_fold(v, ws, k) == (v, false),
    decreases k,
{
    if k > 0 {
        let m = (k - 1) as nat;
        lemma_fold_identity(v, ws, m);
        assert(settled(v, ws[m as int]));
    }
}

/// Keeping the "-ACT" variants is idempotent: a second pass right after the first
/// changes nothing and reports no change.
pub proof fn law_act_variants_are_idempotent(v: Seq<PresetView>, legacy: bool)
    ensures
        ensure_general_spec(ensure_general_spec(v, legacy).0, legacy) == (ensure_general_spec(v, legacy).0, false),
{
    if legacy {
        let ws = general_variants();
        lemma_variant_names_distinct();
        lemma_fold_settles(v, ws, ws.len());
        let r = general_fold(v, ws, ws.len()).0;
        lemma_fold_identity(r, ws, ws.len());
    }
}


// ---------------------------------------------------------------------------
// Where the variants end up, and what the pass leaves alone.

/// What the first entry named `w`'s name is after the pass: an entry the user saved
/// over stays as it was, anything else is (or becomes) `w`.
pub open spec fn variant_outcome(v: Seq<PresetView>, w: PresetView) -> PresetView {
    match first_where(v, name_is(w.name)) {
        Some(e) => if e.user_modified { e } else { w },
        None => w,
    }
}

/// The names of the "-ACT" variants.
pub open spec fn variant_names() -> Seq<Seq<char>> {
    general_variants().map_values(|w: PresetView| w.name)
}

/// A preset whose name is not that of an "-ACT" variant.
pub open spec fn not_variant_named() -> spec_fn(PresetView) -> bool {
    |p: PresetView| !variant_names().contains(p.name)
}

proof fn lemma_step_keeps_first(v: Seq<PresetView>, w: PresetView, n: Seq<char>)
    requires
        n != w.name,
    ensures
        first_where(general_step(v, w).0, name_is(n)) == first_where(v, name_is(n)),
{
    lemma_first_found(v, w.name);
    lemma_first_found(v, n);
    lemma_first_found(v, trim_act(w.name));
    let r = general_step(v, w).0;
    let pos = match first_index_by_name(v, trim_act(w.name)) {
        Some(k) => k + 1,
        None => v.len() as int,
    };
    match first_index_by_name(v, n) {
        None => {
            lemma_first_index_none(v, name_is(n));
            assert forall|j: int| 0 <= j < r.len() implies !(name_is(n))(#[trigger] r[j]) by {
                match first_index_by_name(v, w.name) {
                    None => {
                        assert(r == v.insert(pos, w));
                        if j < pos {
                            assert(r[j] == v[j]);
                        } else if j > pos {
                            assert(r[j] == v[j - 1]);
                        }
                    },
                    Some(idx) => {
                        if j != idx {
                            assert(r[j] == v[j]);
                        }
                    },
                }
            }
            lemma_first_index_none(r, name_is(n));
        },
        Some(i) => {
            lemma_first_index_at(v, name_is(n), i);
            match first_index_by_name(v, w.name) {
                None => {
                    assert(r == v.insert(pos, w));
                    let i2 = if i < pos { i } else { i + 1 };
                    assert(r[i2] == v[i]);
                    assert(is_first_where(r, name_is(n), i2)) by {
                        assert forall|j: int| 0 <= j < i2 implies !(name_is(n))(#[trigger] r[j]) by {
                            if j < pos {
                                assert(r[j] == v[j]);
                            } else if j > pos {
                                assert(r[j] == v[j - 1]);
                            }
                        }
                    }
                    lemma_first_index_at(r, name_is(n), i2);
                },
                Some(idx) => {
                    assert(idx != i);
                    assert(r[i] == v[i]);
                    assert(is_first_where(r, name_is(n), i)) by {
                        assert forall|j: int| 0 <= j < i implies !(name_is(n))(#[trigger] r[j]) by {
                            if j != idx {
                                assert(r[j] == v[j]);
                            }
                        }
                    }
                    lemma_first_index_at(r, name_is(n), i);
                },
            }
        },
    }
}

proof fn lemma_step_own_outcome(v: Seq<PresetView>, w: PresetView)
    requires
        !w.user_modified,
    ensures
        first_where(general_step(v, w).0, name_is(w.name)) == Some(variant_outcome(v, w)),
{
    lemma_first_found(v, w.name);
    lemma_first_found(v, trim_act(w.name));
    let r = general_step(v, w).0;
    match first_index_by_name(v, w.name) {
        None => {
            lemma_first_index_none(v, name_is(w.name));
            let pos = match first_index_by_name(v, trim_act(w.name)) {
                Some(k) => k + 1,
                None => v.len() as int,
            };
            assert(r == v.insert(pos, w));
            assert(is_first_where(r, name_is(w.name), pos)) by {
                assert forall|j: int| 0 <= j < pos implies !(name_is(w.name))(#[trigger] r[j]) by {
                    assert(r[j] == v[j]);
                }
            }
            lemma_first_index_at(r, name_is(w.name), pos);
        },
        Some(idx) => {
            lemma_first_index_at(v, name_is(w.name), idx);
            if !v[idx].user_modified && !same_values(v[idx], w) {
                assert(r == v.update(idx, w));
                assert(is_first_where(r, name_is(w.name), idx)) by {
                    assert forall|j: int| 0 <= j < idx implies !(name_is(w.name))(#[trigger] r[j]) by {
                        assert(r[j] == v[j]);
                    }
                }
                lemma_first_index_at(r, name_is(w.name), idx);
            } else if !v[idx].user_modified {
                assert(v[idx] == w);
            }
        },
    }
}

proof fn lemma_filter_insert_rejected(v: Seq<PresetView>, pos: int, x: PresetView, p: spec_fn(PresetView) -> bool)
    requires
        0 <= pos <= v.len(),
        !p(x),
    ensures
        v.insert(pos, x).filter(p) == v.filter(p),
{
    let a = v.take(pos);
    let b = v.skip(pos);
    assert(v == a + b);
    assert(v.insert(pos, x) == a.push(x) + b);
    Seq::filter_distributes_over_add(a, b, p);
    Seq::filter_distributes_over_add(a.push(x), b, p);
    a.lemma_filter_push(x, p);
}

proof fn lemma_filter_update_rejected(v: Seq<PresetView>, i: int, x: PresetView, p: spec_fn(PresetView) -> bool)
    requires
        0 <= i < v.len(),
        !p(x),
        !p(v[i]),
    ensures
        v.update(i, x).filter(p) == v.filter(p),
{
    let a = v.take(i);
    let b = v.skip(i + 1);
    assert(v == a.push(v[i]) + b);
    assert(v.update(i, x) == a.push(x) + b);
    Seq::filter_distributes_over_add(a.push(v[i]), b, p);
    Seq::filter_distributes_over_add(a.push(x), b, p);
    a.lemma_filter_push(x, p);
    a.lemma_filter_push(v[i], p);
}

proof fn lemma_step_keeps_others(v: Seq<PresetView>, w: PresetView, p: spec_fn(PresetView) -> bool)
    requires
        forall|e: PresetView| e.name == w.name ==> !p(e),
    ensures
        general_step(v, w).0.filter(p) == v.filter(p),
{
    lemma_first_found(v, w.name);
    lemma_first_found(v, trim_act(w.name));
    match first_index_by_name(v, w.name) {
        None => {
            let pos = match first_index_by_name(v, trim_act(w.name)) {
                Some(k) => k + 1,
                None => v.len() as int,
            };
            lemma_filter_insert_rejected(v, pos, w, p);
        },
        Some(idx) => {
            if !v[idx].user_modified && !same_values(v[idx], w) {
                lemma_filter_update_rejected(v, idx, w, p);
            }
        },
    }
}

proof fn lemma_fold_outcomes(v: Seq<PresetView>, ws: Seq<PresetView>, k: nat, p: spec_fn(PresetView) -> bool)
    requires
        names_distinct(ws),
        forall|j: int| 0 <= j < ws.len() ==> !(#[trigger] ws[j]).user_modified,
        forall|e: PresetView, j: int| #![trigger p(e), ws[j]] 0 <= j < ws.len() && e.name == ws[j].name ==> !p(e),
        k <= ws.len(),
    ensures
        forall|j: int| 0 <= j < k ==> first_where(general_fold(v, ws, k).0, name_is((#[trigger] ws[j]).name))
            == Some(variant_outcome(v, ws[j])),
        forall|j: int| k <= j < ws.len() ==> first_where(general_fold(v, ws, k).0, name_is((#[trigger] ws[j]).name))
            == first_where(v, name_is(ws[j].name)),
        general_fold(v, ws, k).0.filter(p) == v.filter(p),
    decreases k,
{
    if k > 0 {
        let m = (k - 1) as nat;
        lemma_fold_outcomes(v, ws, m, p);
        let a = general_fold(v, ws, m).0;
        let wm = ws[m as int];
        assert forall|j: int| 0 <= j < k implies first_where(general_fold(v, ws, k).0, name_is((#[trigger] ws[j]).name))
            == Some(variant_outcome(v, ws[j])) by {
            if j == m {
                lemma_step_own_outcome(a, wm);
            } else {
                assert(ws[j].name != wm.name);
                lemma_step_keeps_first(a, wm, ws[j].name);
            }
        }
        assert forall|j: int| k <= j < ws.len() implies first_where(general_fold(v, ws, k).0, name_is((#[trigger] ws[j]).name))
            == first_where(v, name_is(ws[j].name)) by {
            assert(ws[j].name != wm.name);
            lemma_step_keeps_first(a, wm, ws[j].name);
        }
        assert forall|e: PresetView| e.name == wm.name implies !p(e) by {
            assert(0 <= m < ws.len());
        }
        lemma_step_keeps_others(a, wm, p);
    }
}

/// Where the "-ACT" variants end up on the legacy route: for every variant, the first
/// entry carrying its name is the one the user saved over, if there was such an entry,
/// and the variant itself otherwise; the entries whose names are no variant's keep
/// their order (the pass adds and replaces variant entries only).
pub proof fn law_act_variants_placement(v: Seq<PresetView>)
    ensures
        forall|j: int| 0 <= j < general_variants().len() ==> first_where(
            ensure_general_spec(v, true).0,
            name_is((#[trigger] general_variants()[j]).name),
        ) == Some(variant_outcome(v, general_variants()[j])),
        ensure_general_spec(v, true).0.filter(not_variant_named()) == v.filter(not_variant_named()),
{
    let ws = general_variants();
    lemma_variant_names_distinct();
    assert forall|j: int| 0 <= j < ws.len() implies !(#[trigger] ws[j]).user_modified by {
        let f = builtin_presets().filter(has_variant_pred());
        assert(ws[j] == act_variant(f[j]));
    }
    assert forall|e: PresetView, j: int| #![trigger (not_variant_named())(e), ws[j]] 0 <= j < ws.len() && e.name == ws[j].name
        implies !(not_variant_named())(e) by {
        assert(variant_names()[j] == ws[j].name);
    }
    lemma_fold_outcomes(v, ws, ws.len(), not_variant_named());
}

/// One step of the pass for a variant that is missing puts it right after the first
/// entry named its base preset, or at the end when there is none, and changes nothing
/// else.
pub proof fn law_missing_variant_goes_after_its_base(v: Seq<PresetView>, w: PresetView)
    requires
        forall|j: int| 0 <= j < v.len() ==> (#[trigger] v[j]).name != w.name,
    ensures
        general_step(v, w).1,
        first_where(v, name_is(trim_act(w.name))) matches Some(b) ==> exists|i: int|
            is_first_where(v, name_is(trim_act(w.name)), i) && general_step(v, w).0 == v.insert(i + 1, w),
        first_where(v, name_is(trim_act(w.name))) is None ==> general_step(v, w).0 == v.push(w),
{
    lemma_first_index_none(v, name_is(w.name));
    lemma_first_found(v, trim_act(w.name));
    match first_index_by_name(v, trim_act(w.name)) {
        Some(i) => {
            lemma_first_index_at(v, name_is(trim_act(w.name)), i);
        },
        None => {
            lemma_first_index_none(v, name_is(trim_act(w.name)));
            assert(v.insert(v.len() as int, w) == v.push(w));
        },
    }
}

// ---------------------------------------------------------------------------
// A variant added by the pass stands right after its base preset.

proof fn lemma_trim_act_has_no_suffix(n: Seq<char>)
    ensures
        !seq_ends_with(trim_act(n), "-ACT"@),
    decreases n.len(),
{
    reveal_strlit("-ACT");
    if n.len() >= 4 && n.subrange(n.len() - 4, n.len() as int) == "-ACT"@ {
        lemma_trim_act_has_no_suffix(n.subrange(0, n.len() - 4));
    }
}

proof fn lemma_trim_act_of_suffixed(n: Seq<char>)
    requires
        !seq_ends_with(n, "-ACT"@),
    ensures
        trim_act(n + "-ACT"@) == n,
{
    reveal_strlit("-ACT");
    let m = n + "-ACT"@;
    assert(m.subrange(m.len() - 4, m.len() as int) =~= "-ACT"@);
    assert(m.subrange(0, m.len() - 4) =~= n);
    assert("-ACT"@.len() == 4);
    assert(!(n.len() >= 4 && n.subrange(n.len() - 4, n.len() as int) == "-ACT"@));
    assert(trim_act(n) == n);
    assert(trim_act(m) == trim_act(m.subrange(0, m.len() - 4)));
}

/// Every variant name ends with "-ACT", and the base names of different variants differ.
proof fn lemma_variant_bases()
    ensures
        forall|j: int| 0 <= j < general_variants().len() ==> seq_ends_with(#[trigger] general_variants()[j].name, "-ACT"@),
        forall|j: int, m: int| 0 <= j < m < general_variants().len()
            ==> trim_act((#[trigger] general_variants()[j]).name) != trim_act((#[trigger] general_variants()[m]).name),
{
    reveal_strlit("-ACT");
    lemma_builtin_names_distinct();
    lemma_builtin_names_lack_act_suffix();
    let b = builtin_presets();
    assert(names_distinct(b));
    lemma_filter_names_distinct(b, has_variant_pred());
    let f = b.filter(has_variant_pred());
    let g = general_variants();
    assert forall|j: int| 0 <= j < f.len() implies !seq_ends_with(#[trigger] f[j].name, "-ACT"@) by {
        assert(f.contains(f[j]));
        b.lemma_filter_contains_rev(has_variant_pred(), f[j]);
        let k = choose|k: int| 0 <= k < b.len() && b[k] == f[j];
        assert(!seq_ends_with(b[k].name, "-ACT"@));
    }
    assert forall|j: int| 0 <= j < g.len() implies seq_ends_with(#[trigger] g[j].name, "-ACT"@) by {
        assert(g[j].name == f[j].name + "-ACT"@);
        let m = f[j].name + "-ACT"@;
        assert(m.subrange(m.len() - 4, m.len() as int) =~= "-ACT"@);
    }
    assert forall|j: int, m: int| 0 <= j < m < g.len() implies trim_act((#[trigger] g[j]).name) != trim_act((#[trigger] g[m]).name) by {
        assert(g[j].name == f[j].name + "-ACT"@);
        assert(g[m].name == f[m].name + "-ACT"@);
        lemma_trim_act_of_suffixed(f[j].name);
        lemma_trim_act_of_suffixed(f[m].name);
    }
}

proof fn lemma_fold_keeps_first(v: Seq<PresetView>, ws: Seq<PresetView>, k: nat, n: Seq<char>)
    requires
        k <= ws.len(),
        forall|j: int| 0 <= j < k ==> (#[trigger] ws[j]).name != n,
    ensures
        first_where(general_fold(v, ws, k).0, name_is(n)) == first_where(v, name_is(n)),
    decreases k,
{
    if k > 0 {
        let m = (k - 1) as nat;
        lemma_fold_keeps_first(v, ws, m, n);
        assert(ws[m as int].name != n);
        lemma_step_keeps_first(general_fold(v, ws, m).0, ws[m as int], n);
    }
}

/// `x` stands right after the first entry named `base`.
pub open spec fn right_after_first(s: Seq<PresetView>, base: Seq<char>, x: PresetView) -> bool {
    exists|i: int| is_first_where(s, name_is(base), i) && i + 1 < s.len() && s[i + 1] == x
}

proof fn lemma_step_places_missing(a: Seq<PresetView>, w: PresetView)
    requires
        first_where(a, name_is(w.name)) is None,
        first_where(a, name_is(trim_act(w.name))) is Some,
        w.name != trim_act(w.name),
    ensures
        right_after_first(general_step(a, w).0, trim_act(w.name), w),
{
    let base = trim_act(w.name);
    lemma_first_found(a, w.name);
    lemma_first_found(a, base);
    match first_index_by_name(a, w.name) {
        Some(idx) => {
            lemma_first_index_at(a, name_is(w.name), idx);
        },
        None => {},
    }
    match first_index_by_name(a, base) {
        Some(i) => {
            let r = general_step(a, w).0;
            assert(r == a.insert(i + 1, w));
            assert(r[i] == a[i]);
            assert(r[i + 1] == w);
            assert(is_first_where(r, name_is(base), i)) by {
                assert forall|j: int| 0 <= j < i implies !(name_is(base))(#[trigger] r[j]) by {
                    assert(r[j] == a[j]);
                }
            }
        },
        None => {
            lemma_first_index_none(a, name_is(base));
        },
    }
}

proof fn lemma_step_keeps_after_first(a: Seq<PresetView>, w: PresetView, base: Seq<char>, x: PresetView)
    requires
        right_after_first(a, base, x),
        w.name != base,
        w.name != x.name,
        trim_act(w.name) != base,
    ensures
        right_after_first(general_step(a, w).0, base, x),
{
    let i = choose|i: int| is_first_where(a, name_is(base), i) && i + 1 < a.len() && a[i + 1] == x;
    let r = general_step(a, w).0;
    lemma_first_found(a, w.name);
    lemma_first_found(a, trim_act(w.name));
    match first_index_by_name(a, w.name) {
        Some(idx) => {
            if !a[idx].user_modified && !same_values(a[idx], w) {
                assert(r == a.update(idx, w));
                assert(idx != i && idx != i + 1);
                assert(r[i] == a[i] && r[i + 1] == a[i + 1]);
                assert(is_first_where(r, name_is(base), i)) by {
                    assert forall|j: int| 0 <= j < i implies !(name_is(base))(#[trigger] r[j]) by {
                        if j != idx {
                            assert(r[j] == a[j]);
                        }
                    }
                }
            }
        },
        None => {
            let pos = match first_index_by_name(a, trim_act(w.name)) {
                Some(k) => k + 1,
                None => a.len() as int,
            };
            assert(r == a.insert(pos, w));
            match first_index_by_name(a, trim_act(w.name)) {
                Some(k) => {
                    assert(a[k].name == trim_act(w.name));
                    assert(k != i);
                },
                None => {},
            }
            assert(pos != i + 1);
            if pos <= i {
                assert(r[i + 1] == a[i] && r[i + 2] == a[i + 1]);
                assert(is_first_where(r, name_is(base), i + 1)) by {
                    assert forall|j: int| 0 <= j < i + 1 implies !(name_is(base))(#[trigger] r[j]) by {
                        if j < pos {
                            assert(r[j] == a[j]);
                        } else if j > pos {
                            assert(r[j] == a[j - 1]);
                        }
                    }
                }
            } else {
                assert(r[i] == a[i] && r[i + 1] == a[i + 1]);
                assert(is_first_where(r, name_is(base), i)) by {
                    assert forall|j: int| 0 <= j < i implies !(name_is(base))(#[trigger] r[j]) by {
                        assert(r[j] == a[j]);
                    }
                }
            }
        },
    }
}

/// Whether the pass adds the variant `w` right after its base: `v` has no entry named
/// `w`'s name but has one named its base.
pub open spec fn added_after_base(v: Seq<PresetView>, w: PresetView) -> bool {
    first_where(v, name_is(w.name)) is None && first_where(v, name_is(trim_act(w.name))) is Some
}

proof fn lemma_fold_adjacent(v: Seq<PresetView>, ws: Seq<PresetView>, k: nat)
    requires
        names_distinct(ws),
        forall|j: int| 0 <= j < ws.len() ==> seq_ends_with(#[trigger] ws[j].name, "-ACT"@),
        forall|j: int, m: int| 0 <= j < m < ws.len() ==> trim_act((#[trigger] ws[j]).name) != trim_act((#[trigger] ws[m]).name),
        k <= ws.len(),
    ensures
        forall|j: int| 0 <= j < k && added_after_base(v, #[trigger] ws[j])
            ==> right_after_first(general_fold(v, ws, k).0, trim_act(ws[j].name), ws[j]),
    decreases k,
{
    if k > 0 {
        let m = (k - 1) as nat;
        lemma_fold_adjacent(v, ws, m);
        let a = general_fold(v, ws, m).0;
        let wm = ws[m as int];
        lemma_trim_act_has_no_suffix(wm.name);
        assert forall|j: int| 0 <= j < k && added_after_base(v, #[trigger] ws[j])
            implies right_after_first(general_fold(v, ws, k).0, trim_act(ws[j].name), ws[j]) by {
            lemma_trim_act_has_no_suffix(ws[j].name);
            if j == m {
                assert forall|q: int| 0 <= q < m implies (#[trigger] ws[q]).name != wm.name by {}
                lemma_fold_keeps_first(v, ws, m, wm.name);
                assert forall|q: int| 0 <= q < m implies (#[trigger] ws[q]).name != trim_act(wm.name) by {
                    assert(seq_ends_with(ws[q].name, "-ACT"@));
                }
                lemma_fold_keeps_first(v, ws, m, trim_act(wm.name));
                assert(wm.name != trim_act(wm.name)) by {
                    assert(seq_ends_with(wm.name, "-ACT"@));
                }
                lemma_step_places_missing(a, wm);
            } else {
                assert(wm.name != trim_act(ws[j].name)) by {
                    assert(seq_ends_with(wm.name, "-ACT"@));
                }
                assert(wm.name != ws[j].name);
                assert(trim_act(wm.name) != trim_act(ws[j].name));
                lemma_step_keeps_after_first(a, wm, trim_act(ws[j].name), ws[j]);
            }
        }
    }
}

/// On the legacy route, a variant that the list lacked while it held its base preset
/// ends up right after the first entry carrying the base preset's name.
pub proof fn law_added_variant_follows_its_base(v: Seq<PresetView>)
    ensures
        forall|j: int| 0 <= j < general_variants().len() && added_after_base(v, #[trigger] general_variants()[j])
            ==> right_after_first(ensure_general_spec(v, true).0, trim_act(general_variants()[j].name), general_variants()[j]),
{
    lemma_variant_names_distinct();
    lemma_variant_bases();
    let ws = general_variants();
    lemma_fold_adjacent(v, ws, ws.len());
}

// ---------------------------------------------------------------------------
// A variant with no base preset is appended: only later appended variants follow it.

/// Whether the pass appends the variant `w`: `v` has no entry named `w`'s name and none
/// named its base.
pub open spec fn appended_without_base(v: Seq<PresetView>, w: PresetView) -> bool {
    first_where(v, name_is(w.name)) is None && first_where(v, name_is(trim_act(w.name))) is None
}

/// In `s` the first entry named like `ws[j]` is `ws[j]` itself, and every entry after it
/// is one of the variants listed after `ws[j]`.
pub open spec fn followed_only_by_later(s: Seq<PresetView>, ws: Seq<PresetView>, j: int) -> bool {
    exists|i: int|
        #![trigger is_first_where(s, name_is(ws[j].name), i)]
        is_first_where(s, name_is(ws[j].name), i) && s[i] == ws[j] && forall|q: int|
            #![trigger s[q]]
            i < q < s.len() ==> exists|m: int| j < m < ws.len() && #[trigger] ws[m] == s[q]
}

proof fn lemma_step_appends(a: Seq<PresetView>, ws: Seq<PresetView>, m: int)
    requires
        0 <= m < ws.len(),
        first_where(a, name_is(ws[m].name)) is None,
        first_where(a, name_is(trim_act(ws[m].name))) is None,
    ensures
        followed_only_by_later(general_step(a, ws[m]).0, ws, m),
{
    let w = ws[m];
    lemma_first_found(a, w.name);
    lemma_first_found(a, trim_act(w.name));
    match first_index_by_name(a, w.name) {
        Some(idx) => {
            lemma_first_index_at(a, name_is(w.name), idx);
        },
        None => {},
    }
    match first_index_by_name(a, trim_act(w.name)) {
        Some(b) => {
            lemma_first_index_at(a, name_is(trim_act(w.name)), b);
        },
        None => {},
    }
    let r = general_step(a, w).0;
    let i = a.len() as int;
    assert(r == a.insert(i, w));
    assert(r[i] == w);
    assert(is_first_where(r, name_is(w.name), i)) by {
        assert forall|q: int| 0 <= q < i implies !(name_is(w.name))(#[trigger] r[q]) by {
            assert(r[q] == a[q]);
        }
    }
}

proof fn lemma_step_keeps_tail(a: Seq<PresetView>, ws: Seq<PresetView>, j: int, m: int)
    requires
        0 <= j < m < ws.len(),
        names_distinct(ws),
        forall|q: int| 0 <= q < ws.len() ==> seq_ends_with(#[trigger] ws[q].name, "-ACT"@),
        followed_only_by_later(a, ws, j),
    ensures
        followed_only_by_later(general_step(a, ws[m]).0, ws, j),
{
    let w = ws[m];
    let x = ws[j];
    let i = choose|i: int|
        #![trigger is_first_where(a, name_is(x.name), i)]
        is_first_where(a, name_is(x.name), i) && a[i] == x && forall|q: int|
            #![trigger a[q]]
            i < q < a.len() ==> exists|mm: int| j < mm < ws.len() && #[trigger] ws[mm] == a[q];
    assert(x.name != w.name);
    let r = general_step(a, w).0;
    lemma_first_found(a, w.name);
    lemma_first_found(a, trim_act(w.name));
    lemma_trim_act_has_no_suffix(w.name);
    match first_index_by_name(a, w.name) {
        Some(idx) => {
            if !a[idx].user_modified && !same_values(a[idx], w) {
                assert(r == a.update(idx, w));
                if idx > i {
                    let mm = choose|mm: int| j < mm < ws.len() && #[trigger] ws[mm] == a[idx];
                    assert(ws[mm].name == w.name);
                    if mm != m {
                        if mm < m {
                            assert(ws[mm].name != ws[m].name);
                        } else {
                            assert(ws[m].name != ws[mm].name);
                        }
                    }
                    assert(a[idx] == w);
                    assert(false);
                }
                assert(idx != i);
                assert(r[i] == a[i]);
                assert(is_first_where(r, name_is(x.name), i)) by {
                    assert forall|q: int| 0 <= q < i implies !(name_is(x.name))(#[trigger] r[q]) by {
                        if q != idx {
                            assert(r[q] == a[q]);
                        }
                    }
                }
                assert forall|q: int| #![trigger r[q]] i < q < r.len() implies exists|mm: int| j < mm < ws.len() && #[trigger] ws[mm] == r[q] by {
                    assert(r[q] == a[q]);
                }
            }
        },
        None => {
            let pos = match first_index_by_name(a, trim_act(w.name)) {
                Some(b) => b + 1,
                None => a.len() as int,
            };
            assert(r == a.insert(pos, w));
            match first_index_by_name(a, trim_act(w.name)) {
                Some(b) => {
                    assert(a[b].name == trim_act(w.name));
                    if b > i {
                        let mm = choose|mm: int| j < mm < ws.len() && #[trigger] ws[mm] == a[b];
                        assert(seq_ends_with(ws[mm].name, "-ACT"@));
                        assert(false);
                    }
                    if b == i {
                        assert(seq_ends_with(ws[j].name, "-ACT"@));
                        assert(false);
                    }
                },
                None => {},
            }
            if pos <= i {
                assert(r[i + 1] == a[i]);
                assert(is_first_where(r, name_is(x.name), i + 1)) by {
                    assert forall|q: int| 0 <= q < i + 1 implies !(name_is(x.name))(#[trigger] r[q]) by {
                        if q < pos {
                            assert(r[q] == a[q]);
                        } else if q > pos {
                            assert(r[q] == a[q - 1]);
                        }
                    }
                }
                assert forall|q: int| #![trigger r[q]] i + 1 < q < r.len() implies exists|mm: int| j < mm < ws.len() && #[trigger] ws[mm] == r[q] by {
                    assert(r[q] == a[q - 1]);
                }
            } else {
                assert(pos == a.len());
                assert(r[i] == a[i]);
                assert(is_first_where(r, name_is(x.name), i)) by {
                    assert forall|q: int| 0 <= q < i implies !(name_is(x.name))(#[trigger] r[q]) by {
                        assert(r[q] == a[q]);
                    }
                }
                assert forall|q: int| #![trigger r[q]] i < q < r.len() implies exists|mm: int| j < mm < ws.len() && #[trigger] ws[mm] == r[q] by {
                    if q < a.len() {
                        assert(r[q] == a[q]);
                    } else {
                        assert(r[q] == ws[m]);
                    }
                }
            }
        },
    }
}

proof fn lemma_fold_appends(v: Seq<PresetView>, ws: Seq<PresetView>, k: nat)
    requires
        names_distinct(ws),
        forall|q: int| 0 <= q < ws.len() ==> seq_ends_with(#[trigger] ws[q].name, "-ACT"@),
        k <= ws.len(),
    ensures
        forall|j: int| 0 <= j < k && appended_without_base(v, #[trigger] ws[j])
            ==> followed_only_by_later(general_fold(v, ws, k).0, ws, j),
    decreases k,
{
    if k > 0 {
        let m = (k - 1) as nat;
        lemma_fold_appends(v, ws, m);
        let a = general_fold(v, ws, m).0;
        let wm = ws[m as int];
        assert forall|j: int| 0 <= j < k && appended_without_base(v, #[trigger] ws[j])
            implies followed_only_by_later(general_fold(v, ws, k).0, ws, j) by {
            if j == m {
                assert forall|q: int| 0 <= q < m implies (#[trigger] ws[q]).name != wm.name by {}
                lemma_fold_keeps_first(v, ws, m, wm.name);
                lemma_trim_act_has_no_suffix(wm.name);
                assert forall|q: int| 0 <= q < m implies (#[trigger] ws[q]).name != trim_act(wm.name) by {
                    assert(seq_ends_with(ws[q].name, "-ACT"@));
                }
                lemma_fold_keeps_first(v, ws, m, trim_act(wm.name));
                lemma_step_appends(a, ws, m as int);
            } else {
                lemma_step_keeps_tail(a, ws, j, m as int);
            }
        }
    }
}

/// What `ensure_act_general_variants` does on the legacy route, as one statement. For
/// every "-ACT" variant `w`:
///  - the first entry carrying `w`'s name is the entry the user saved over, if there was
///    one, and `w` itself otherwise;
///  - if the list lacked `w` but held its base preset, `w` stands right after the first
///    entry named the base;
///  - if the list lacked both, `w` was appended: only variants listed after it follow it.
/// Entries whose names are no variant's keep their order, and a second pass changes
/// nothing and reports no change.
pub proof fn law_act_variants_pass(v: Seq<PresetView>)
    ensures
        forall|j: int| 0 <= j < general_variants().len() ==> first_where(
            ensure_general_spec(v, true).0,
            name_is((#[trigger] general_variants()[j]).name),
        ) == Some(variant_outcome(v, general_variants()[j])),
        forall|j: int| 0 <= j < general_variants().len() && added_after_base(v, #[trigger] general_variants()[j])
            ==> right_after_first(ensure_general_spec(v, true).0, trim_act(general_variants()[j].name), general_variants()[j]),
        forall|j: int| 0 <= j < general_variants().len() && appended_without_base(v, #[trigger] general_variants()[j])
            ==> followed_only_by_later(ensure_general_spec(v, true).0, general_variants(), j),
        ensure_general_spec(v, true).0.filter(not_variant_named()) == v.filter(not_variant_named()),
        ensure_general_spec(ensure_general_spec(v, true).0, true) == (ensure_general_spec(v, true).0, false),
{
    law_act_variants_placement(v);
    law_added_variant_follows_its_base(v);
    law_act_variants_are_idempotent(v, true);
    lemma_variant_names_distinct();
    lemma_variant_bases();
    let ws = general_variants();
    lemma_fold_appends(v, ws, ws.len());
}

/// The "-ACT" variant table: one variant per built-in preset other than "ACT1" and the
/// all-zero test preset, named after it with "-ACT" appended (distinct names, each
/// ending in "-ACT"), never marked as saved over by the user, with the rank level gain
/// capped at 30 and the rank duration at 250.
pub proof fn law_act_variant_table()
    ensures
        names_distinct(general_variants()),
        forall|j: int| 0 <= j < general_variants().len() ==> {
            let w = #[trigger] general_variants()[j];
            &&& seq_ends_with(w.name, "-ACT"@)
            &&& !w.user_modified
            &&& w.rank_level_gain <= 30
            &&& w.rank_duration <= 250
            &&& exists|k: int| 0 <= k < builtin_presets().len() && (has_variant_pred())(builtin_presets()[k])
                && #[trigger] (builtin_presets()[k].name + "-ACT"@) == w.name
        },
{
    lemma_variant_names_distinct();
    lemma_variant_bases();
    let b = builtin_presets();
    let f = b.filter(has_variant_pred());
    let g = general_variants();
    assert forall|j: int| 0 <= j < g.len() implies {
        let w = #[trigger] g[j];
        &&& seq_ends_with(w.name, "-ACT"@)
        &&& !w.user_modified
        &&& w.rank_level_gain <= 30
        &&& w.rank_duration <= 250
        &&& exists|k: int| 0 <= k < b.len() && (has_variant_pred())(b[k]) && #[trigger] (b[k].name + "-ACT"@) == w.name
    } by {
        assert(g[j] == act_variant(f[j]));
        assert(f.contains(f[j]));
        b.lemma_filter_contains_rev(has_variant_pred(), f[j]);
        b.lemma_filter_pred(has_variant_pred(), j);
        let k = choose|k: int| 0 <= k < b.len() && b[k] == f[j];
        assert(b[k].name + "-ACT"@ == g[j].name);
    }
}

} // verus!
