//! The per-frame decisions of the gamepad page: keeping the calibration flag in step
//! with the flow, ending a capture when the page is left, choosing a slot from a fresh
//! gamepad press, the quick-listen pick, and the keyboard capture that completes on the
//! first release. The window program reads the inputs, performs the actions and feeds
//! the next frame.

use vstd::prelude::*;
use crate::pad_mapping::is_mouse_vk;

verus! {

/// The phase the gamepad page's flow is in.
#[derive(Debug, Clone, Copy, PartialEq, Eq, Structural)]
pub enum GpPhase {
    /// Nothing selected.
    Idle,
    /// A slot is selected.
    Selected,
    /// Waiting for the keyboard keys of the selected slot.
    AwaitKb,
    /// Waiting for the gamepad button of the selected slot.
    AwaitPad,
    /// A captured value waits for confirmation.
    ConfirmCapture,
    /// A deletion waits for confirmation.
    ConfirmDelete,
    /// The calibration wizard runs.
    Calibrate,
    /// A mapping was just completed.
    MapDone,
}

/// What one frame of the gamepad page starts from.
#[derive(Debug, Clone, Copy, PartialEq, Eq, Structural)]
pub struct GpFrame {
    /// The flow's phase.
    pub phase: GpPhase,
    /// Whether the input thread is told that calibration runs.
    pub calibrating_flag: bool,
    /// Whether the gamepad page is the active page.
    pub on_gamepad_page: bool,
    /// Whether the flow is capturing (keyboard or gamepad).
    pub capturing: bool,
    /// Whether the window has the input focus.
    pub focused: bool,
    /// Whether a gamepad is being identified live.
    pub live_pad: bool,
    /// Whether its live state could be read this frame.
    pub live_state: bool,
    /// The first slot newly pressed on it since the last frame, if any.
    pub pad_pressed_slot: Option<usize>,
}

/// What the window program does for a frame.
#[derive(Debug, Clone, Copy, PartialEq, Eq, Structural)]
pub struct GpFrameActions {
    /// Tell the input thread whether calibration runs (when it is out of step).
    pub set_calibrating: Option<bool>,
    /// The page was left: end the frame after the steps below, dropping the
    /// quick-listen state and the remembered XInput bitmap.
    pub leave_page: bool,
    /// Cancel the capture in progress (the page was left during one).
    pub cancel_capture: bool,
    /// Select this slot (and move on to its keyboard keys when it has none).
    pub select_slot: Option<usize>,
    /// Remember this frame's live state as the previous one.
    pub keep_live_state: bool,
    /// Forget the previous live state (no gamepad is identified).
    pub reset_live_state: bool,
}

/// The phases in which a gamepad press must not change the selection: while keys or a
/// button are awaited, a confirmation is pending, or calibration runs.
pub open spec fn holds_selection(p: GpPhase) -> bool {
    p == GpPhase::AwaitKb || p == GpPhase::AwaitPad || p == GpPhase::ConfirmCapture
        || p == GpPhase::ConfirmDelete || p == GpPhase::Calibrate
}

/// The actions of a frame. The calibration flag follows the phase. Off the gamepad
/// page a capture in progress is cancelled and the frame ends. On it, with a gamepad
/// identified and its state read, a fresh press selects its slot when the window has
/// the focus and the phase does not hold the selection, and the state is remembered;
/// with no gamepad identified the remembered state is dropped.
pub open spec fn gp_frame_spec(f: GpFrame) -> GpFrameActions {
    let calibrating = f.phase == GpPhase::Calibrate;
    let set_calibrating = if f.calibrating_flag != calibrating { Some(calibrating) } else { None };
    if !f.on_gamepad_page {
        GpFrameActions {
            set_calibrating,
            leave_page: true,
            cancel_capture: f.capturing,
            select_slot: None,
            keep_live_state: false,
            reset_live_state: false,
        }
    } else {
        let read = f.live_pad && f.live_state;
        GpFrameActions {
            set_calibrating,
            leave_page: false,
            cancel_capture: false,
            select_slot: if read && !holds_selection(f.phase) && f.focused { f.pad_pressed_slot } else { None },
            keep_live_state: read,
            reset_live_state: !f.live_pad,
        }
    }
}

/// On the gamepad page, with a gamepad identified, its state read and the window
/// focused, a fresh press selects its slot when nothing is selected, a slot is
/// selected or a mapping was just completed; while keys or a button are awaited, a
/// confirmation is pending or calibration runs, the selection is kept.
pub proof fn law_fresh_press_selects_unless_waiting(f: GpFrame)
    requires
        f.on_gamepad_page,
        f.live_pad,
        f.live_state,
        f.focused,
    ensures
        f.phase == GpPhase::Idle || f.phase == GpPhase::Selected || f.phase == GpPhase::MapDone
            ==> gp_frame_spec(f).select_slot == f.pad_pressed_slot,
        f.phase == GpPhase::AwaitKb || f.phase == GpPhase::AwaitPad || f.phase == GpPhase::ConfirmCapture
            || f.phase == GpPhase::ConfirmDelete || f.phase == GpPhase::Calibrate
            ==> gp_frame_spec(f).select_slot is None,
{
}

/// The calibration flag the input thread ends up with follows the phase: told to the
/// thread exactly when it is out of step, it is on during calibration and off
/// otherwise. Leaving the gamepad page ends the frame, cancels a capture in progress
/// (and nothing else) and never selects a slot.
pub proof fn law_frame_flag_and_leaving(f: GpFrame)
    ensures
        (match gp_frame_spec(f).set_calibrating {
            Some(b) => b,
            None => f.calibrating_flag,
        }) == (f.phase == GpPhase::Calibrate),
        gp_frame_spec(f).set_calibrating is Some <==> f.calibrating_flag != (f.phase == GpPhase::Calibrate),
        !f.on_gamepad_page ==> gp_frame_spec(f).leave_page && gp_frame_spec(f).cancel_capture == f.capturing
            && gp_frame_spec(f).select_slot is None,
        f.on_gamepad_page ==> !gp_frame_spec(f).leave_page && !gp_frame_spec(f).cancel_capture,
        gp_frame_spec(f).select_slot matches Some(id) ==> f.pad_pressed_slot == Some(id) && f.focused,
{
}

fn holds_selection_exec(p: GpPhase) -> (r: bool)
    ensures
        r == holds_selection(p),
{
    match p {
        GpPhase::AwaitKb | GpPhase::AwaitPad | GpPhase::ConfirmCapture | GpPhase::ConfirmDelete | GpPhase::Calibrate => true,
        _ => false,
    }
}

/// The decisions at the start of a frame of the gamepad page (see `gp_frame_spec`).
pub fn gp_frame_step(f: GpFrame) -> (r: GpFrameActions)
    ensures
        r == gp_frame_spec(f),
{
    let calibrating = match f.phase {
        GpPhase::Calibrate => true,
        _ => false,
    };
    let set_calibrating = if f.calibrating_flag != calibrating { Some(calibrating) } else { None };
    if !f.on_gamepad_page {
        return GpFrameActions {
            set_calibrating,
            leave_page: true,
            cancel_capture: f.capturing,
            select_slot: None,
            keep_live_state: false,
            reset_live_state: false,
        };
    }
    let read = f.live_pad && f.live_state;
    let select_slot = if read && !holds_selection_exec(f.phase) && f.focused { f.pad_pressed_slot } else { None };
    GpFrameActions {
        set_calibrating,
        leave_page: false,
        cancel_capture: false,
        select_slot,
        keep_live_state: read,
        reset_live_state: !f.live_pad,
    }
}

/// The quick-listen pick: while the page listens for a gamepad key, the window has the
/// focus and the flow is not busy, a slot newly pressed on the XInput bitmap is
/// selected and listening stops; otherwise nothing is picked and listening goes on as
/// it was. Returns the slot to select and whether listening continues.
pub fn quick_listen_step(listening: bool, focused: bool, busy: bool, xinput_pressed_slot: Option<usize>) -> (r: (Option<usize>, bool))
    ensures
        r == (if listening && focused && !busy && xinput_pressed_slot is Some {
            (xinput_pressed_slot, false)
        } else {
            (None::<usize>, listening)
        }),
{
    if listening && focused && !busy {
        match xinput_pressed_slot {
            Some(id) => (Some(id), false),
            None => (None, listening),
        }
    } else {
        (None, listening)
    }
}

// ---------------------------------------------------------------------------
// Keyboard capture.

/// Whether `vk` is a mouse button.
pub open spec fn mouse_vk(vk: u32) -> bool {
    vk == 0x01 || vk == 0x02 || vk == 0x04 || vk == 0x05 || vk == 0x06
}

/// The keys counted as captured after a poll: the keys captured so far and the keys
/// held now that were not already held when the capture began, mouse buttons left out.
pub open spec fn captured_after(pressed: Seq<u32>, initial: Seq<u32>, current: Seq<u32>) -> Set<u32> {
    pressed.to_set().filter(|vk: u32| !mouse_vk(vk)).union(
        current.to_set().filter(|vk: u32| !mouse_vk(vk) && !initial.contains(vk)),
    )
}

/// The capture completes when one of the captured keys is no longer held.
pub open spec fn capture_released(pressed: Seq<u32>, initial: Seq<u32>, current: Seq<u32>) -> bool {
    exists|vk: u32| captured_after(pressed, initial, current).contains(vk) && !current.contains(vk)
}

fn vk_in(s: &Vec<u32>, vk: u32) -> (r: bool)
    ensures
        r == s@.contains(vk),
{
    let mut i: usize = 0;
    while i < s.len()
        invariant
            i <= s@.len(),
            forall|j: int| 0 <= j < i ==> s@[j] != vk,
        decreases s@.len() - i,
    {
        if s[i] == vk {
            return true;
        }
        i = i + 1;
    }
    false
}

/// Not a mouse button.
pub open spec fn not_mouse() -> spec_fn(u32) -> bool {
    |vk: u32| !mouse_vk(vk)
}

/// Held now, not a mouse button, and not held when the capture began.
pub open spec fn newly_held(initial: Seq<u32>) -> spec_fn(u32) -> bool {
    |vk: u32| !mouse_vk(vk) && !initial.contains(vk)
}

/// Adds `vk` to `out` unless it is there already.
fn add_once(out: &mut Vec<u32>, vk: u32)
    requires
        old(out)@.no_duplicates(),
    ensures
        final(out)@.no_duplicates(),
        final(out)@.to_set() == old(out)@.to_set().insert(vk),
{
    if vk_in(out, vk) {
        assert(old(out)@.to_set().insert(vk) =~= old(out)@.to_set());
    } else {
        let ghost before = out@;
        out.push(vk);
        proof {
            before.lemma_push_to_set_commute(vk);
            assert forall|a: int, b: int| 0 <= a < out@.len() && 0 <= b < out@.len() && a != b implies out@[a] != out@[b] by {
                if a == before.len() {
                    assert(before.contains(before[b]));
                } else if b == before.len() {
                    assert(before.contains(before[a]));
                }
            }
        }
    }
}

/// One poll of the keyboard capture: `pressed` are the keys captured so far, `initial`
/// the keys held when the capture began, `current` the keys held now. Returns the keys
/// captured after the poll (each once, see `captured_after`) and whether the capture
/// completes (see `capture_released`).
pub fn kb_capture_step(pressed: &Vec<u32>, initial: &Vec<u32>, current: &Vec<u32>) -> (r: (Vec<u32>, bool))
    ensures
        r.0@.to_set() == captured_after(pressed@, initial@, current@),
        r.0@.no_duplicates(),
        r.1 == capture_released(pressed@, initial@, current@),
{
    let ghost target = captured_after(pressed@, initial@, current@);
    let mut out: Vec<u32> = Vec::new();
    let mut i: usize = 0;
    assert(pressed@.take(0).to_set().filter(not_mouse()) =~= out@.to_set());
    while i < pressed.len()
        invariant
            i <= pressed@.len(),
            out@.no_duplicates(),
            out@.to_set() == pressed@.take(i as int).to_set().filter(not_mouse()),
        decreases pressed@.len() - i,
    {
        let vk = pressed[i];
        let ghost before = out@.to_set();
        proof {
            assert(pressed@.take(i + 1) =~= pressed@.take(i as int).push(vk));
            pressed@.take(i as int).lemma_push_to_set_commute(vk);
        }
        if !is_mouse_vk(vk) {
            add_once(&mut out, vk);
            assert(out@.to_set() =~= pressed@.take(i + 1).to_set().filter(not_mouse()));
        } else {
            assert(out@.to_set() =~= pressed@.take(i + 1).to_set().filter(not_mouse()));
        }
        i = i + 1;
    }
    assert(pressed@.take(pressed@.len() as int) =~= pressed@);
    let ghost from_pressed = out@.to_set();
    let mut k: usize = 0;
    assert(out@.to_set() =~= from_pressed.union(current@.take(0).to_set().filter(newly_held(initial@))));
    while k < current.len()
        invariant
            k <= current@.len(),
            out@.no_duplicates(),
            out@.to_set() == from_pressed.union(current@.take(k as int).to_set().filter(newly_held(initial@))),
        decreases current@.len() - k,
    {
        let vk = current[k];
        proof {
            assert(current@.take(k + 1) =~= current@.take(k as int).push(vk));
            current@.take(k as int).lemma_push_to_set_commute(vk);
        }
        if !is_mouse_vk(vk) && !vk_in(initial, vk) {
            add_once(&mut out, vk);
        }
        assert(out@.to_set() =~= from_pressed.union(current@.take(k + 1).to_set().filter(newly_held(initial@))));
        k = k + 1;
    }
    assert(current@.take(current@.len() as int) =~= current@);
    assert(out@.to_set() =~= target);
    let mut released = false;
    let mut m: usize = 0;
    while m < out.len()
        invariant
            m <= out@.len(),
            released == exists|j: int| 0 <= j < m && !current@.contains(#[trigger] out@[j]),
        decreases out@.len() - m,
    {
        let held = vk_in(current, out[m]);
        if !held {
            released = true;
        }
        m = m + 1;
    }
    proof {
        if released {
            let j = choose|j: int| 0 <= j < out@.len() && !current@.contains(#[trigger] out@[j]);
            assert(out@.to_set().contains(out@[j]));
        }
        if capture_released(pressed@, initial@, current@) {
            let vk = choose|vk: u32| target.contains(vk) && !current@.contains(vk);
            assert(out@.to_set().contains(vk));
            let j = choose|j: int| 0 <= j < out@.len() && out@[j] == vk;
            assert(!current@.contains(out@[j]));
        }
    }
    (out, released)
}

} // verus!
