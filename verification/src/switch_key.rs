//! The toggle hotkey: detecting the press of a single key or of a key combination from
//! the key states read each frame, without repeating while it is held.

use vstd::prelude::*;
use smallvec::SmallVec;

verus! {

/// The main keys of a combination (inline capacity of four, as a `SmallVec`).
#[verifier::external_body]
#[derive(Debug)]
pub struct SwitchKeyCodes {
    inner: SmallVec<[u32; 4]>,
}

/// The key codes held, in order.
pub uninterp spec fn switch_codes_contents(v: SwitchKeyCodes) -> Seq<u32>;

impl SwitchKeyCodes {
    /// The codes of `v`, in order. Calls `SmallVec::from_vec`, which takes the vector's
    /// items over unchanged.
    #[verifier::external_body]
    pub fn from_vec(v: Vec<u32>) -> (r: Self)
        ensures
            switch_codes_contents(r) == v@,
    {
        SwitchKeyCodes { inner: SmallVec::from_vec(v) }
    }

    /// The number of codes. Calls `SmallVec::len`.
    #[verifier::external_body]
    pub fn len(&self) -> (n: usize)
        ensures
            n == switch_codes_contents(*self).len(),
    {
        self.inner.len()
    }

    /// The code at `i` (index of the slice `SmallVec` derefs to).
    #[verifier::external_body]
    pub fn get(&self, i: usize) -> (r: u32)
        requires
            i < switch_codes_contents(*self).len(),
        ensures
            r == switch_codes_contents(*self)[i as int],
    {
        self.inner[i]
    }

    /// An independent list with the same codes. Calls `SmallVec::clone`.
    #[verifier::external_body]
    pub fn duplicate(&self) -> (r: Self)
        ensures
            switch_codes_contents(r) == switch_codes_contents(*self),
    {
        SwitchKeyCodes { inner: self.inner.clone() }
    }
}

impl Clone for SwitchKeyCodes {
    fn clone(&self) -> Self {
        self.duplicate()
    }
}

/// A configured toggle hotkey.
#[derive(Debug, Clone)]
pub enum ParsedSwitchKey {
    /// No hotkey.
    NoKey,
    /// One key.
    Single(u32),
    /// Modifiers (bit 0 Ctrl, bit 1 Shift, bit 2 Alt) and main keys.
    Combo { modifiers: u8, keys: SwitchKeyCodes },
}

impl ParsedSwitchKey {
    /// A combination of the modifiers `modifiers` (bit 0 Ctrl, bit 1 Shift, bit 2 Alt)
    /// and the main keys `keys`, in order.
    pub fn combo(modifiers: u8, keys: Vec<u32>) -> (r: ParsedSwitchKey)
        ensures
            r matches ParsedSwitchKey::Combo { modifiers: m, keys: k } && m == modifiers
                && switch_codes_contents(k) == keys@,
    {
        ParsedSwitchKey::Combo { modifiers, keys: SwitchKeyCodes::from_vec(keys) }
    }
}

/// The state bit a key code is tracked by (16 bits, codes taken modulo 16).
pub open spec fn vk_bit(vk: u32) -> u16 {
    (1u16 << ((vk % 16) as u16)) as u16
}

/// The state bit a key code is tracked by.
pub fn vk_to_bit(vk: u32) -> (r: u16)
    ensures
        r == vk_bit(vk),
{
    let k: u16 = (vk % 16) as u16;
    1u16 << k
}

/// Every main key is down.
pub open spec fn all_down(pressed: Seq<bool>) -> bool {
    forall|i: int| 0 <= i < pressed.len() ==> #[trigger] pressed[i]
}

/// The combination's keys from `i` on, with `last` the bits of keys seen down before:
/// a key that goes down sets its bit, and when at that moment every key is down the
/// hotkey fires (and the remaining keys are left for the next frame); a key that is up
/// clears its bit.
pub open spec fn combo_fold(keys: Seq<u32>, pressed: Seq<bool>, last: u16, i: int) -> (u16, bool)
    decreases keys.len() - i,
{
    if i < 0 || i >= keys.len() {
        (last, false)
    } else {
        let bit = vk_bit(keys[i]);
        if pressed[i] && last & bit == 0 {
            let now = last | bit;
            if all_down(pressed) {
                (now, true)
            } else {
                combo_fold(keys, pressed, now, i + 1)
            }
        } else if !pressed[i] {
            combo_fold(keys, pressed, last & !bit, i + 1)
        } else {
            combo_fold(keys, pressed, last, i + 1)
        }
    }
}

/// One frame of hotkey detection: the new key-state bits and whether the hotkey fired.
/// `modifiers_down` tells which of Ctrl, Shift, Alt are down (either side); `pressed`
/// the state of the single key, or of each main key of the combination.
pub open spec fn switch_step_spec(key: ParsedSwitchKey, last: u16, modifiers_down: (bool, bool, bool), pressed: Seq<bool>) -> (u16, bool) {
    match key {
        ParsedSwitchKey::NoKey => (last, false),
        ParsedSwitchKey::Single(vk) => {
            let bit = vk_bit(vk);
            if pressed[0] && last & bit == 0 {
                (last | bit, true)
            } else if !pressed[0] {
                (last & !bit, false)
            } else {
                (last, false)
            }
        },
        ParsedSwitchKey::Combo { modifiers, keys } => {
            let ctrl_ok = modifiers & 1 == 0 || modifiers_down.0;
            let shift_ok = modifiers & 2 == 0 || modifiers_down.1;
            let alt_ok = modifiers & 4 == 0 || modifiers_down.2;
            if !(ctrl_ok && shift_ok && alt_ok) {
                (last, false)
            } else {
                combo_fold(switch_codes_contents(keys), pressed, last, 0)
            }
        },
    }
}

/// The number of key states a hotkey needs each frame.
pub open spec fn states_needed(key: ParsedSwitchKey) -> nat {
    match key {
        ParsedSwitchKey::NoKey => 0,
        ParsedSwitchKey::Single(_) => 1,
        ParsedSwitchKey::Combo { keys, .. } => switch_codes_contents(keys).len(),
    }
}

fn all_pressed(pressed: &[bool]) -> (r: bool)
    ensures
        r == all_down(pressed@),
{
    let mut i: usize = 0;
    while i < pressed.len()
        invariant
            i <= pressed@.len(),
            forall|k: int| 0 <= k < i ==> pressed@[k],
        decreases pressed@.len() - i,
    {
        if !pressed[i] {
            return false;
        }
        i = i + 1;
    }
    true
}

/// One frame of hotkey detection (see `switch_step_spec`).
pub fn switch_key_step(key: &ParsedSwitchKey, last: u16, modifiers_down: (bool, bool, bool), pressed: &[bool]) -> (r: (u16, bool))
    requires
        pressed@.len() == states_needed(*key),
    ensures
        r == switch_step_spec(*key, last, modifiers_down, pressed@),
{
    match key {
        ParsedSwitchKey::NoKey => (last, false),
        ParsedSwitchKey::Single(vk) => {
            let bit = vk_to_bit(*vk);
            if pressed[0] && last & bit == 0 {
                (last | bit, true)
            } else if !pressed[0] {
                (last & !bit, false)
            } else {
                (last, false)
            }
        }
        ParsedSwitchKey::Combo { modifiers, keys } => {
            let ctrl_ok = *modifiers & 1 == 0 || modifiers_down.0;
            let shift_ok = *modifiers & 2 == 0 || modifiers_down.1;
            let alt_ok = *modifiers & 4 == 0 || modifiers_down.2;
            if !(ctrl_ok && shift_ok && alt_ok) {
                return (last, false);
            }
            let ghost codes = switch_codes_contents(*keys);
            let every = all_pressed(pressed);
            let n = keys.len();
            let mut state = last;
            let mut i: usize = 0;
            assert(switch_step_spec(*key, last, modifiers_down, pressed@) == combo_fold(codes, pressed@, last, 0));
            while i < n
                invariant
                    switch_step_spec(*key, last, modifiers_down, pressed@) == combo_fold(codes, pressed@, last, 0),
                    n == codes.len(),
                    codes == switch_codes_contents(*keys),
                    pressed@.len() == n,
                    every == all_down(pressed@),
                    i <= n,
                    combo_fold(codes, pressed@, last, 0) == combo_fold(codes, pressed@, state, i as int),
                decreases n - i,
            {
                let bit = vk_to_bit(keys.get(i));
                let ghost before = state;
                if pressed[i] && state & bit == 0 {
                    state = state | bit;
                    if every {
                        assert(combo_fold(codes, pressed@, before, i as int) == (state, true));
                        return (state, true);
                    }
                } else if !pressed[i] {
                    state = state & !bit;
                }
                i = i + 1;
            }
            (state, false)
        }
    }
}

/// A single-key hotkey fires once per press: while the key stays down, the next frame
/// does not fire again.
pub proof fn law_held_key_fires_once(vk: u32, last: u16, modifiers_down: (bool, bool, bool))
    ensures
        !switch_step_spec(
            ParsedSwitchKey::Single(vk),
            switch_step_spec(ParsedSwitchKey::Single(vk), last, modifiers_down, seq![true]).0,
            modifiers_down,
            seq![true],
        ).1,
{
    let k: u16 = (vk % 16) as u16;
    let b = vk_bit(vk);
    assert(b == (1u16 << k));
    assert(k < 16);
    assert((1u16 << k) != 0u16) by (bit_vector)
        requires
            k < 16;
    assert(((last | b) & b) != 0u16) by (bit_vector)
        requires
            b != 0u16;
}

/// A combination fires only with its modifiers down: when it asks for Ctrl (bit 0),
/// Shift (bit 1) or Alt (bit 2) and that modifier is not down, the frame does not fire
/// and leaves the key-state bits as they were. With every modifier it asks for down,
/// it behaves as the same main keys without modifiers.
pub proof fn law_combo_needs_its_modifiers(
    modifiers: u8,
    keys: SwitchKeyCodes,
    last: u16,
    down: (bool, bool, bool),
    pressed: Seq<bool>,
)
    ensures
        (modifiers & 1 != 0 && !down.0) || (modifiers & 2 != 0 && !down.1) || (modifiers & 4 != 0 && !down.2)
            ==> switch_step_spec(ParsedSwitchKey::Combo { modifiers, keys }, last, down, pressed) == (last, false),
        (modifiers & 1 == 0 || down.0) && (modifiers & 2 == 0 || down.1) && (modifiers & 4 == 0 || down.2)
            ==> switch_step_spec(ParsedSwitchKey::Combo { modifiers, keys }, last, down, pressed)
                == switch_step_spec(ParsedSwitchKey::Combo { modifiers: 0, keys }, last, (false, false, false), pressed),
{
    assert(0u8 & 1 == 0 && 0u8 & 2 == 0 && 0u8 & 4 == 0) by (bit_vector);
}

proof fn lemma_fold_all_down(keys: Seq<u32>, pressed: Seq<bool>, last: u16, i: int)
    requires
        all_down(pressed),
        pressed.len() == keys.len(),
        0 <= i,
    ensures
        combo_fold(keys, pressed, last, i).1 == exists|j: int| i <= j < keys.len() && #[trigger] (last & vk_bit(keys[j])) == 0u16,
    decreases keys.len() - i,
{
    if i < keys.len() {
        assert(pressed[i]);
        if last & vk_bit(keys[i]) != 0 {
            lemma_fold_all_down(keys, pressed, last, i + 1);
            if exists|j: int| i <= j < keys.len() && #[trigger] (last & vk_bit(keys[j])) == 0u16 {
                let j = choose|j: int| i <= j < keys.len() && #[trigger] (last & vk_bit(keys[j])) == 0u16;
                assert(j != i);
            }
        }
    }
}

proof fn lemma_fold_all_up(keys: Seq<u32>, pressed: Seq<bool>, last: u16, i: int)
    requires
        forall|j: int| 0 <= j < pressed.len() ==> !#[trigger] pressed[j],
        pressed.len() == keys.len(),
        0 <= i <= keys.len(),
    ensures
        !combo_fold(keys, pressed, last, i).1,
        forall|j: int| 0 <= j < i ==> (#[trigger] vk_bit(keys[j]) & last) == 0u16
            ==> (vk_bit(keys[j]) & combo_fold(keys, pressed, last, i).0) == 0u16,
        forall|j: int| i <= j < keys.len() ==> (#[trigger] vk_bit(keys[j]) & combo_fold(keys, pressed, last, i).0) == 0u16,
    decreases keys.len() - i,
{
    if i < keys.len() {
        assert(!pressed[i]);
        let b = vk_bit(keys[i]);
        let next = last & !b;
        lemma_fold_all_up(keys, pressed, next, i + 1);
        let r = combo_fold(keys, pressed, next, i + 1).0;
        assert(combo_fold(keys, pressed, last, i).0 == r);
        assert forall|j: int| 0 <= j < i && (#[trigger] vk_bit(keys[j]) & last) == 0u16 implies (vk_bit(keys[j]) & r) == 0u16 by {
            let c = vk_bit(keys[j]);
            assert((c & last) == 0u16 ==> (c & (last & !b)) == 0u16) by (bit_vector);
        }
        assert((b & (last & !b)) == 0u16) by (bit_vector);
    }
}

/// A combination fires on the frame its main keys come down together: after a frame
/// with every main key up, a frame with every main key down (and the modifiers it asks
/// for down) fires. A frame with every main key up never fires.
pub proof fn law_combo_fires_when_pressed_again(
    modifiers: u8,
    keys: SwitchKeyCodes,
    last: u16,
    down: (bool, bool, bool),
    up: Seq<bool>,
    all: Seq<bool>,
)
    requires
        switch_codes_contents(keys).len() > 0,
        up.len() == switch_codes_contents(keys).len(),
        all.len() == switch_codes_contents(keys).len(),
        forall|j: int| 0 <= j < up.len() ==> !#[trigger] up[j],
        forall|j: int| 0 <= j < all.len() ==> #[trigger] all[j],
        (modifiers & 1 == 0 || down.0) && (modifiers & 2 == 0 || down.1) && (modifiers & 4 == 0 || down.2),
    ensures
        !switch_step_spec(ParsedSwitchKey::Combo { modifiers, keys }, last, down, up).1,
        switch_step_spec(
            ParsedSwitchKey::Combo { modifiers, keys },
            switch_step_spec(ParsedSwitchKey::Combo { modifiers, keys }, last, down, up).0,
            down,
            all,
        ).1,
{
    let ks = switch_codes_contents(keys);
    lemma_fold_all_up(ks, up, last, 0);
    let mid = combo_fold(ks, up, last, 0).0;
    let c0 = vk_bit(ks[0]);
    assert((c0 & mid) == 0u16);
    assert((mid & c0) == 0u16) by (bit_vector)
        requires
            (c0 & mid) == 0u16;
    lemma_fold_all_down(ks, all, mid, 0);
}

/// A single-key hotkey fires exactly when its key goes down: a frame with the key up
/// never fires, and after such a frame a frame with the key down fires.
pub proof fn law_single_key_fires_on_press(vk: u32, last: u16, down: (bool, bool, bool))
    ensures
        !switch_step_spec(ParsedSwitchKey::Single(vk), last, down, seq![false]).1,
        switch_step_spec(
            ParsedSwitchKey::Single(vk),
            switch_step_spec(ParsedSwitchKey::Single(vk), last, down, seq![false]).0,
            down,
            seq![true],
        ).1,
{
    let b = vk_bit(vk);
    assert(((last & !b) & b) == 0u16) by (bit_vector);
}

} // verus!
