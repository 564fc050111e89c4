//! Folding the events of one physical press into one capture, and choosing what a
//! calibration step records from it.
//!
//! One press can be reported several times on two channels: the raw HID channel
//! (`GenericDevice`) and the XInput channel (`XInputCombo`), and a stick press springs
//! back into a direction some hundred milliseconds later. Every event within `hold`
//! milliseconds of the first one of a press belongs to that press; each channel keeps
//! one candidate. Times are milliseconds on a monotonic clock.

use vstd::prelude::*;
use crate::device::InputDevice;
use crate::device::DeviceView;
use crate::device::opt_device_view;
use crate::slots::GamepadSlot;
use crate::slots::SlotKind;
use crate::slots::SlotView;
use crate::text::owned;

verus! {

/// The press window, in milliseconds (long enough to catch a stick's spring-back, short
/// enough not to make every step wait).
pub const PAD_CAPTURE_HOLD_MS: u64 = 300;

/// XInput input ids of the stick presses and directions.
pub const XI_LS_CLICK: u32 = 0x07;
pub const XI_RS_CLICK: u32 = 0x08;
pub const XI_LS_DIRS: [u32; 4] = [0x10, 0x11, 0x12, 0x13];
pub const XI_RS_DIRS: [u32; 4] = [0x14, 0x15, 0x16, 0x17];

/// What one press window collected: at most one candidate per channel.
#[derive(Debug)]
pub struct PadCaptureCandidates {
    /// The raw HID channel's input.
    pub raw: Option<InputDevice>,
    /// The XInput channel's input, its button ids merged over the window.
    pub xinput: Option<InputDevice>,
}

/// The candidates as values.
pub struct CandidatesView {
    pub raw: Option<DeviceView>,
    pub xinput: Option<DeviceView>,
}

impl View for PadCaptureCandidates {
    type V = CandidatesView;

    open spec fn view(&self) -> CandidatesView {
        CandidatesView { raw: opt_device_view(self.raw), xinput: opt_device_view(self.xinput) }
    }
}

/// `old` followed by each id of `new` that is not there yet.
pub open spec fn merge_ids(old: Seq<u32>, new: Seq<u32>) -> Seq<u32>
    decreases new.len(),
{
    if new.len() == 0 {
        old
    } else {
        let m = merge_ids(old, new.drop_last());
        if m.contains(new.last()) {
            m
        } else {
            m.push(new.last())
        }
    }
}

/// The XInput ids collected so far.
pub open spec fn xinput_ids_so_far(c: CandidatesView) -> Seq<u32> {
    match c.xinput {
        Some(DeviceView::XInputCombo { button_ids, .. }) => button_ids,
        _ => Seq::empty(),
    }
}

/// The candidates after one more event: a raw input replaces the raw candidate, an
/// XInput input adds its ids to the XInput candidate, keyboard and mouse events are
/// ignored.
pub open spec fn push_spec(c: CandidatesView, d: DeviceView) -> CandidatesView {
    match d {
        DeviceView::GenericDevice { .. } => CandidatesView { raw: Some(d), ..c },
        DeviceView::XInputCombo { device_type, button_ids } => CandidatesView {
            xinput: Some(DeviceView::XInputCombo {
                device_type,
                button_ids: merge_ids(xinput_ids_so_far(c), button_ids),
            }),
            ..c
        },
        _ => c,
    }
}

/// No candidate on either channel.
pub open spec fn no_candidates() -> CandidatesView {
    CandidatesView { raw: None, xinput: None }
}

/// Whether `id` is in `v`.
fn ids_contain(v: &Vec<u32>, id: u32) -> (r: bool)
    ensures
        r == v@.contains(id),
{
    let mut i: usize = 0;
    while i < v.len()
        invariant
            i <= v@.len(),
            forall|k: int| 0 <= k < i ==> v@[k] != id,
        decreases v@.len() - i,
    {
        if v[i] == id {
            assert(v@[i as int] == id);
            return true;
        }
        i = i + 1;
    }
    false
}

impl PadCaptureCandidates {
    /// No candidate yet.
    pub fn empty() -> (r: Self)
        ensures
            r@ == no_candidates(),
    {
        PadCaptureCandidates { raw: None, xinput: None }
    }

    /// Adds one captured event.
    pub fn push(&mut self, device: InputDevice)
        ensures
            final(self)@ == push_spec(old(self)@, device@),
    {
        match device {
            InputDevice::GenericDevice { device_type, button_id } => {
                self.raw = Some(InputDevice::GenericDevice { device_type, button_id });
            }
            InputDevice::XInputCombo { device_type, button_ids } => {
                let mut merged: Vec<u32> = match &self.xinput {
                    Some(InputDevice::XInputCombo { button_ids: old, .. }) => old.clone(),
                    _ => Vec::new(),
                };
                let ghost start = merged@;
                assert(start == xinput_ids_so_far(old(self)@));
                let mut i: usize = 0;
                assert(button_ids@.subrange(0, 0) =~= Seq::<u32>::empty());
                while i < button_ids.len()
                    invariant
                        i <= button_ids@.len(),
                        merged@ == merge_ids(start, button_ids@.subrange(0, i as int)),
                    decreases button_ids@.len() - i,
                {
                    let id = button_ids[i];
                    assert(button_ids@.subrange(0, i + 1).drop_last() =~= button_ids@.subrange(0, i as int));
                    if !ids_contain(&merged, id) {
                        merged.push(id);
                    }
                    i = i + 1;
                }
                assert(button_ids@.subrange(0, button_ids@.len() as int) =~= button_ids@);
                self.xinput = Some(InputDevice::XInputCombo { device_type, button_ids: merged });
            }
            _ => {}
        }
    }

    /// An independent copy.
    pub fn duplicate(&self) -> (r: Self)
        ensures
            r@ == self@,
    {
        let raw = match &self.raw {
            Some(d) => Some(d.duplicate()),
            None => None,
        };
        let xinput = match &self.xinput {
            Some(d) => Some(d.duplicate()),
            None => None,
        };
        PadCaptureCandidates { raw, xinput }
    }
}

impl Default for PadCaptureCandidates {
    fn default() -> (r: Self)
        ensures
            r@ == no_candidates(),
    {
        PadCaptureCandidates::empty()
    }
}

impl Clone for PadCaptureCandidates {
    fn clone(&self) -> Self {
        self.duplicate()
    }
}

/// Milliseconds from `start` to `now` (zero when `now` is earlier).
pub open spec fn elapsed(now: u64, start: u64) -> u64 {
    if now >= start { (now - start) as u64 } else { 0 }
}

/// Folds the events of each press into one set of candidates.
#[derive(Debug)]
pub struct PadCaptureReconciler {
    /// The open press window: when it opened, and what it has collected.
    window: Option<(u64, PadCaptureCandidates)>,
    /// Window length, ms.
    hold: u64,
}

/// The reconciler as values.
pub struct ReconcilerView {
    pub window: Option<(u64, CandidatesView)>,
    pub hold: u64,
}

impl View for PadCaptureReconciler {
    type V = ReconcilerView;

    closed spec fn view(&self) -> ReconcilerView {
        ReconcilerView {
            window: match self.window {
                Some((t, c)) => Some((t, c@)),
                None => None,
            },
            hold: self.hold,
        }
    }
}

impl PadCaptureReconciler {
    /// A reconciler with no open window and windows of `hold` ms.
    pub fn new(hold: u64) -> (r: Self)
        ensures
            r@.window is None,
            r@.hold == hold,
    {
        PadCaptureReconciler { window: None, hold }
    }

    /// Drops the open window (at the start and end of every capture).
    pub fn reset(&mut self)
        ensures
            final(self)@.window is None,
            final(self)@.hold == old(self)@.hold,
    {
        self.window = None;
    }

    /// Takes one captured event at time `now`. Returns the candidates of the previous
    /// press when its window has run out by `now`; the event then opens a new window.
    /// An event within the open window only joins its candidates.
    pub fn feed(&mut self, device: InputDevice, now: u64) -> (r: Option<PadCaptureCandidates>)
        ensures
            final(self)@.hold == old(self)@.hold,
            match old(self)@.window {
                Some((start, c)) => if elapsed(now, start) >= old(self)@.hold {
                    &&& r matches Some(done) && done@ == c
                    &&& final(self)@.window == Some((now, push_spec(no_candidates(), device@)))
                } else {
                    &&& r is None
                    &&& final(self)@.window == Some((start, push_spec(c, device@)))
                },
                None => {
                    &&& r is None
                    &&& final(self)@.window == Some((now, push_spec(no_candidates(), device@)))
                },
            },
    {
        let w = self.window.take();
        match w {
            Some((start, mut c)) => {
                let gone: u64 = if now >= start { now - start } else { 0 };
                if gone >= self.hold {
                    let mut fresh = PadCaptureCandidates::empty();
                    fresh.push(device);
                    self.window = Some((now, fresh));
                    Some(c)
                } else {
                    c.push(device);
                    self.window = Some((start, c));
                    None
                }
            }
            None => {
                let mut fresh = PadCaptureCandidates::empty();
                fresh.push(device);
                self.window = Some((now, fresh));
                None
            }
        }
    }

    /// Called every frame: once the open window has run out by `now`, closes it and
    /// returns its candidates.
    pub fn tick(&mut self, now: u64) -> (r: Option<PadCaptureCandidates>)
        ensures
            final(self)@.hold == old(self)@.hold,
            match old(self)@.window {
                Some((start, c)) => if elapsed(now, start) >= old(self)@.hold {
                    &&& r matches Some(done) && done@ == c
                    &&& final(self)@.window is None
                } else {
                    &&& r is None
                    &&& final(self)@ == old(self)@
                },
                None => r is None && final(self)@ == old(self)@,
            },
    {
        let w = self.window.take();
        match w {
            Some((start, c)) => {
                let gone: u64 = if now >= start { now - start } else { 0 };
                if gone >= self.hold {
                    Some(c)
                } else {
                    self.window = Some((start, c));
                    None
                }
            }
            None => None,
        }
    }
}

impl Default for PadCaptureReconciler {
    fn default() -> (r: Self)
        ensures
            r@.window is None,
            r@.hold == PAD_CAPTURE_HOLD_MS,
    {
        PadCaptureReconciler::new(PAD_CAPTURE_HOLD_MS)
    }
}

/// The XInput ids a stick slot accepts: its click, or its stick's four directions.
pub open spec fn expected_ids(slot_id: usize) -> Seq<u32> {
    if slot_id == 22 {
        seq![XI_LS_CLICK]
    } else if slot_id == 23 {
        seq![XI_RS_CLICK]
    } else if 8 <= slot_id <= 11 {
        seq![0x10u32, 0x11, 0x12, 0x13]
    } else if 12 <= slot_id <= 15 {
        seq![0x14u32, 0x15, 0x16, 0x17]
    } else {
        Seq::empty()
    }
}

/// The ids of `ids` that slot `slot_id` accepts, in order.
pub open spec fn kept_ids(slot_id: usize, ids: Seq<u32>) -> Seq<u32> {
    ids.filter(|id: u32| expected_ids(slot_id).contains(id))
}

/// Messages asking for the press to be repeated.
pub open spec fn msg_stick_click_pushed() -> Seq<char> { "按摇杆时别推动 — 请垂直按下再松开"@ }
pub open spec fn msg_stick_diagonal() -> Seq<char> { "摇杆推直一点 — 一次只推一个方向"@ }
pub open spec fn msg_stick_no_direction() -> Seq<char> { "没识别到摇杆方向 — 请推到底再松开"@ }
pub open spec fn msg_stick_nothing() -> Seq<char> { "没等到摇杆输入 — 请操作一下再松开"@ }
pub open spec fn msg_several_keys() -> Seq<char> { "同时按了多个键 — 请只按一个键"@ }
pub open spec fn msg_nothing() -> Seq<char> { "没等到手柄输入 — 请按一下再松开"@ }

/// What one calibration step records from the candidates of one press, or the
/// message asking the user to press again.
///
/// Stick slots (directions and presses) prefer the XInput channel, keeping only the
/// ids the slot accepts, which must leave exactly one; without an XInput candidate they
/// fall back to the raw one. Other slots prefer the raw channel; with XInput alone
/// exactly one button must be down.
pub open spec fn pick_spec(slot: SlotView, c: CandidatesView) -> Result<DeviceView, Seq<char>> {
    if slot.kind == SlotKind::Stick || slot.kind == SlotKind::StickClick {
        match c.xinput {
            Some(DeviceView::XInputCombo { device_type, button_ids }) => {
                let kept = kept_ids(slot.id, button_ids);
                if kept.len() == 1 {
                    Ok(DeviceView::XInputCombo { device_type, button_ids: kept })
                } else if slot.kind == SlotKind::StickClick {
                    Err(msg_stick_click_pushed())
                } else if kept.len() > 1 {
                    Err(msg_stick_diagonal())
                } else {
                    Err(msg_stick_no_direction())
                }
            },
            _ => match c.raw {
                Some(d) => Ok(d),
                None => Err(msg_stick_nothing()),
            },
        }
    } else {
        match c.raw {
            Some(d) => Ok(d),
            None => match c.xinput {
                Some(DeviceView::XInputCombo { device_type, button_ids }) => if button_ids.len() == 1 {
                    Ok(DeviceView::XInputCombo { device_type, button_ids })
                } else {
                    Err(msg_several_keys())
                },
                _ => Err(msg_nothing()),
            },
        }
    }
}

/// The ids slot `slot_id` accepts.
fn expected_ids_of(slot_id: usize) -> (r: Vec<u32>)
    ensures
        r@ == expected_ids(slot_id),
{
    let r = if slot_id == 22 {
        vec![XI_LS_CLICK]
    } else if slot_id == 23 {
        vec![XI_RS_CLICK]
    } else if 8 <= slot_id && slot_id <= 11 {
        vec![0x10u32, 0x11, 0x12, 0x13]
    } else if 12 <= slot_id && slot_id <= 15 {
        vec![0x14u32, 0x15, 0x16, 0x17]
    } else {
        Vec::new()
    };
    assert(r@ =~= expected_ids(slot_id));
    r
}

/// The ids of `ids` that slot `slot_id` accepts.
fn keep_expected(slot_id: usize, ids: &Vec<u32>) -> (r: Vec<u32>)
    ensures
        r@ == kept_ids(slot_id, ids@),
{
    let expected = expected_ids_of(slot_id);
    let mut r: Vec<u32> = Vec::new();
    let mut i: usize = 0;
    assert(ids@.subrange(0, 0) =~= Seq::<u32>::empty());
    while i < ids.len()
        invariant
            i <= ids@.len(),
            expected@ == expected_ids(slot_id),
            r@ == kept_ids(slot_id, ids@.subrange(0, i as int)),
        decreases ids@.len() - i,
    {
        let ghost before = ids@.subrange(0, i as int);
        assert(ids@.subrange(0, i + 1) =~= before.push(ids@[i as int]));
        proof {
            before.lemma_filter_push(ids@[i as int], |id: u32| expected_ids(slot_id).contains(id));
        }
        if ids_contain(&expected, ids[i]) {
            r.push(ids[i]);
        }
        i = i + 1;
    }
    assert(ids@.subrange(0, ids@.len() as int) =~= ids@);
    r
}

/// What one calibration step records from `cands`, or the message asking for the press
/// to be repeated (the step must then not advance).
pub fn pick_calibration_device(slot: &GamepadSlot, cands: &PadCaptureCandidates) -> (r: Result<InputDevice, String>)
    ensures
        match r {
            Ok(d) => pick_spec(slot@, cands@) == Ok::<DeviceView, Seq<char>>(d@),
            Err(e) => pick_spec(slot@, cands@) == Err::<DeviceView, Seq<char>>(e@),
        },
{
    let is_stick = slot.kind == SlotKind::Stick || slot.kind == SlotKind::StickClick;
    if is_stick {
        if let Some(InputDevice::XInputCombo { device_type, button_ids }) = &cands.xinput {
            let kept = keep_expected(slot.id, button_ids);
            if kept.len() == 1 {
                return Ok(InputDevice::XInputCombo { device_type: *device_type, button_ids: kept });
            }
            if slot.kind == SlotKind::StickClick {
                return Err(owned("按摇杆时别推动 — 请垂直按下再松开"));
            } else if kept.len() > 1 {
                return Err(owned("摇杆推直一点 — 一次只推一个方向"));
            } else {
                return Err(owned("没识别到摇杆方向 — 请推到底再松开"));
            }
        }
        if let Some(raw) = &cands.raw {
            return Ok(raw.duplicate());
        }
        return Err(owned("没等到摇杆输入 — 请操作一下再松开"));
    }
    if let Some(raw) = &cands.raw {
        return Ok(raw.duplicate());
    }
    if let Some(InputDevice::XInputCombo { device_type, button_ids }) = &cands.xinput {
        if button_ids.len() == 1 {
            return Ok(InputDevice::XInputCombo { device_type: *device_type, button_ids: button_ids.clone() });
        }
        return Err(owned("同时按了多个键 — 请只按一个键"));
    }
    Err(owned("没等到手柄输入 — 请按一下再松开"))
}

/// Within one press the order in which the two channels report does not matter: a raw
/// event and an XInput event give the same candidates either way.
pub proof fn law_channel_order_does_not_matter(c: CandidatesView, raw: DeviceView, x: DeviceView)
    requires
        raw is GenericDevice,
        x is XInputCombo,
    ensures
        push_spec(push_spec(c, raw), x) == push_spec(push_spec(c, x), raw),
{
}

/// The stick a stick slot belongs to: slots 8 to 11 are the left stick's directions,
/// 12 to 15 the right stick's, and 22 and 23 the two stick presses, each on its own.
pub open spec fn same_stick(s: int, t: int) -> bool {
    ||| (8 <= s <= 11 && 8 <= t <= 11)
    ||| (12 <= s <= 15 && 12 <= t <= 15)
    ||| (s == t && (s == 22 || s == 23))
}

proof fn lemma_default_trigger_id(t: int, id: u32)
    requires
        8 <= t <= 15 || t == 22 || t == 23,
        crate::device::xinput_name(id) is Some,
        crate::slots::slot_table(t).default_trigger == "GAMEPAD_045E_"@ + crate::device::xinput_name(id)->0,
    ensures
        8 <= t <= 11 ==> 0x10 <= id <= 0x13,
        12 <= t <= 15 ==> 0x14 <= id <= 0x17,
        t == 22 ==> id == XI_LS_CLICK,
        t == 23 ==> id == XI_RS_CLICK,
{
    reveal_strlit("GAMEPAD_045E_");
    let d = crate::slots::slot_table(t).default_trigger;
    let n = crate::device::xinput_name(id)->0;
    assert("GAMEPAD_045E_"@.len() == 13);
    assert(n =~= d.skip(13));
    crate::device::lemma_xinput_names_read_back(id);
    if t == 8 {
        reveal_strlit("GAMEPAD_045E_LS_Up");
        reveal_strlit("LS_Up");
        assert(d.skip(13) =~= "LS_Up"@);
        assert(crate::device::xinput_name(0x12u32)->0 == "LS_Up"@);
        crate::device::lemma_xinput_names_read_back(0x12u32);
    } else if t == 9 {
        reveal_strlit("GAMEPAD_045E_LS_Down");
        reveal_strlit("LS_Down");
        assert(d.skip(13) =~= "LS_Down"@);
        assert(crate::device::xinput_name(0x13u32)->0 == "LS_Down"@);
        crate::device::lemma_xinput_names_read_back(0x13u32);
    } else if t == 10 {
        reveal_strlit("GAMEPAD_045E_LS_Left");
        reveal_strlit("LS_Left");
        assert(d.skip(13) =~= "LS_Left"@);
        assert(crate::device::xinput_name(0x11u32)->0 == "LS_Left"@);
        crate::device::lemma_xinput_names_read_back(0x11u32);
    } else if t == 11 {
        reveal_strlit("GAMEPAD_045E_LS_Right");
        reveal_strlit("LS_Right");
        assert(d.skip(13) =~= "LS_Right"@);
        assert(crate::device::xinput_name(0x10u32)->0 == "LS_Right"@);
        crate::device::lemma_xinput_names_read_back(0x10u32);
    } else if t == 12 {
        reveal_strlit("GAMEPAD_045E_RS_Up");
        reveal_strlit("RS_Up");
        assert(d.skip(13) =~= "RS_Up"@);
        assert(crate::device::xinput_name(0x16u32)->0 == "RS_Up"@);
        crate::device::lemma_xinput_names_read_back(0x16u32);
    } else if t == 13 {
        reveal_strlit("GAMEPAD_045E_RS_Down");
        reveal_strlit("RS_Down");
        assert(d.skip(13) =~= "RS_Down"@);
        assert(crate::device::xinput_name(0x17u32)->0 == "RS_Down"@);
        crate::device::lemma_xinput_names_read_back(0x17u32);
    } else if t == 14 {
        reveal_strlit("GAMEPAD_045E_RS_Left");
        reveal_strlit("RS_Left");
        assert(d.skip(13) =~= "RS_Left"@);
        assert(crate::device::xinput_name(0x15u32)->0 == "RS_Left"@);
        crate::device::lemma_xinput_names_read_back(0x15u32);
    } else if t == 15 {
        reveal_strlit("GAMEPAD_045E_RS_Right");
        reveal_strlit("RS_Right");
        assert(d.skip(13) =~= "RS_Right"@);
        assert(crate::device::xinput_name(0x14u32)->0 == "RS_Right"@);
        crate::device::lemma_xinput_names_read_back(0x14u32);
    } else if t == 22 {
        reveal_strlit("GAMEPAD_045E_LS_Click");
        reveal_strlit("LS_Click");
        assert(d.skip(13) =~= "LS_Click"@);
        assert(crate::device::xinput_name(0x7u32)->0 == "LS_Click"@);
        crate::device::lemma_xinput_names_read_back(0x7u32);
    } else if t == 23 {
        reveal_strlit("GAMEPAD_045E_RS_Click");
        reveal_strlit("RS_Click");
        assert(d.skip(13) =~= "RS_Click"@);
        assert(crate::device::xinput_name(0x8u32)->0 == "RS_Click"@);
        crate::device::lemma_xinput_names_read_back(0x8u32);
    }
}

/// A stick slot accepts the directions of its own stick: whenever slot `t` of the same
/// stick has as default trigger the XInput input `id` of the standard pad, slot `s`
/// accepts `id`, and a press of exactly that input is recorded for `s` as it came.
pub proof fn law_stick_slot_accepts_its_stick(s: int, t: int, id: u32, device_type: crate::device::DeviceType)
    requires
        same_stick(s, t),
        crate::device::xinput_name(id) is Some,
        crate::slots::slot_table(t).default_trigger == "GAMEPAD_045E_"@ + crate::device::xinput_name(id)->0,
    ensures
        expected_ids(s as usize).contains(id),
        pick_spec(
            crate::slots::slot_table(s),
            CandidatesView { raw: None, xinput: Some(DeviceView::XInputCombo { device_type, button_ids: seq![id] }) },
        ) == Ok::<DeviceView, Seq<char>>(DeviceView::XInputCombo { device_type, button_ids: seq![id] }),
{
    lemma_default_trigger_id(t, id);
    let e = expected_ids(s as usize);
    if 8 <= s <= 11 {
        assert(e[(id - 0x10) as int] == id);
    } else if 12 <= s <= 15 {
        assert(e[(id - 0x14) as int] == id);
    } else {
        assert(e[0] == id);
    }
    let ids = seq![id];
    reveal(Seq::filter);
    assert(ids.drop_last() =~= Seq::<u32>::empty());
    assert(kept_ids(s as usize, ids) =~= ids);
}

/// Whatever the slot, a press seen only on the raw channel is recorded as it came (pads
/// without XInput are calibrated through their raw reports); and a slot that is not a
/// stick records the raw input whenever there is one.
pub proof fn law_raw_press_is_recorded(slot: SlotView, c: CandidatesView, d: DeviceView)
    requires
        c.raw == Some(d),
        c.xinput is None || (slot.kind != SlotKind::Stick && slot.kind != SlotKind::StickClick),
    ensures
        pick_spec(slot, c) == Ok::<DeviceView, Seq<char>>(d),
{
}

proof fn lemma_expected_id_is_a_default(s: int, id: u32)
    requires
        8 <= s <= 15 || s == 22 || s == 23,
        expected_ids(s as usize).contains(id),
    ensures
        crate::device::xinput_name(id) is Some,
        exists|t: int| same_stick(s, t) && #[trigger] crate::slots::slot_table(t).default_trigger
            == "GAMEPAD_045E_"@ + crate::device::xinput_name(id)->0,
{
    reveal_strlit("GAMEPAD_045E_");
    let e = expected_ids(s as usize);
    let k = choose|k: int| 0 <= k < e.len() && e[k] == id;
    assert(e[k] == id);
    if id == 0x12 {
        reveal_strlit("GAMEPAD_045E_LS_Up");
        reveal_strlit("LS_Up");
        assert(crate::slots::slot_table(8).default_trigger =~= "GAMEPAD_045E_"@ + crate::device::xinput_name(id)->0);
        assert(same_stick(s, 8));
    } else if id == 0x13 {
        reveal_strlit("GAMEPAD_045E_LS_Down");
        reveal_strlit("LS_Down");
        assert(crate::slots::slot_table(9).default_trigger =~= "GAMEPAD_045E_"@ + crate::device::xinput_name(id)->0);
        assert(same_stick(s, 9));
    } else if id == 0x11 {
        reveal_strlit("GAMEPAD_045E_LS_Left");
        reveal_strlit("LS_Left");
        assert(crate::slots::slot_table(10).default_trigger =~= "GAMEPAD_045E_"@ + crate::device::xinput_name(id)->0);
        assert(same_stick(s, 10));
    } else if id == 0x10 {
        reveal_strlit("GAMEPAD_045E_LS_Right");
        reveal_strlit("LS_Right");
        assert(crate::slots::slot_table(11).default_trigger =~= "GAMEPAD_045E_"@ + crate::device::xinput_name(id)->0);
        assert(same_stick(s, 11));
    } else if id == 0x16 {
        reveal_strlit("GAMEPAD_045E_RS_Up");
        reveal_strlit("RS_Up");
        assert(crate::slots::slot_table(12).default_trigger =~= "GAMEPAD_045E_"@ + crate::device::xinput_name(id)->0);
        assert(same_stick(s, 12));
    } else if id == 0x17 {
        reveal_strlit("GAMEPAD_045E_RS_Down");
        reveal_strlit("RS_Down");
        assert(crate::slots::slot_table(13).default_trigger =~= "GAMEPAD_045E_"@ + crate::device::xinput_name(id)->0);
        assert(same_stick(s, 13));
    } else if id == 0x15 {
        reveal_strlit("GAMEPAD_045E_RS_Left");
        reveal_strlit("RS_Left");
        assert(crate::slots::slot_table(14).default_trigger =~= "GAMEPAD_045E_"@ + crate::device::xinput_name(id)->0);
        assert(same_stick(s, 14));
    } else if id == 0x14 {
        reveal_strlit("GAMEPAD_045E_RS_Right");
        reveal_strlit("RS_Right");
        assert(crate::slots::slot_table(15).default_trigger =~= "GAMEPAD_045E_"@ + crate::device::xinput_name(id)->0);
        assert(same_stick(s, 15));
    } else if id == 0x7 {
        reveal_strlit("GAMEPAD_045E_LS_Click");
        reveal_strlit("LS_Click");
        assert(crate::slots::slot_table(22).default_trigger =~= "GAMEPAD_045E_"@ + crate::device::xinput_name(id)->0);
        assert(same_stick(s, 22));
    } else if id == 0x8 {
        reveal_strlit("GAMEPAD_045E_RS_Click");
        reveal_strlit("RS_Click");
        assert(crate::slots::slot_table(23).default_trigger =~= "GAMEPAD_045E_"@ + crate::device::xinput_name(id)->0);
        assert(same_stick(s, 23));
    }
}

/// A stick slot records, from its XInput channel, only a single input of its own
/// stick: one the candidates held, named by the default trigger of a slot of the same
/// stick.
pub proof fn law_stick_slot_records_only_its_stick(s: int, c: CandidatesView)
    requires
        8 <= s <= 15 || s == 22 || s == 23,
        c.xinput matches Some(DeviceView::XInputCombo { .. }),
        pick_spec(crate::slots::slot_table(s), c) is Ok,
    ensures
        pick_spec(crate::slots::slot_table(s), c) matches Ok(DeviceView::XInputCombo { device_type, button_ids })
            && button_ids.len() == 1
            && (c.xinput matches Some(DeviceView::XInputCombo { device_type: dt, button_ids: all })
                && dt == device_type && all.contains(button_ids[0]))
            && exists|t: int| same_stick(s, t) && #[trigger] crate::slots::slot_table(t).default_trigger
                == "GAMEPAD_045E_"@ + crate::device::xinput_name(button_ids[0])->0,
{
    if let Some(DeviceView::XInputCombo { device_type, button_ids }) = c.xinput {
        let kept = kept_ids(s as usize, button_ids);
        let pred = |id: u32| expected_ids(s as usize).contains(id);
        assert(kept.len() == 1);
        assert(kept.contains(kept[0]));
        button_ids.lemma_filter_contains_rev(pred, kept[0]);
        button_ids.lemma_filter_pred(pred, 0);
        lemma_expected_id_is_a_default(s, kept[0]);
    }
}

/// A slot that is not a stick, given only an XInput press, records it when exactly one
/// button was down and asks again otherwise.
pub proof fn law_single_button_recorded_without_raw(slot: SlotView, device_type: crate::device::DeviceType, ids: Seq<u32>)
    requires
        slot.kind != SlotKind::Stick,
        slot.kind != SlotKind::StickClick,
    ensures
        pick_spec(slot, CandidatesView { raw: None, xinput: Some(DeviceView::XInputCombo { device_type, button_ids: ids }) })
            == if ids.len() == 1 {
                Ok::<DeviceView, Seq<char>>(DeviceView::XInputCombo { device_type, button_ids: ids })
            } else {
                Err::<DeviceView, Seq<char>>(msg_several_keys())
            },
{
}

} // verus!
