//! The gamepad's configurable slots, their colours and the order of guided calibration.

use vstd::prelude::*;

verus! {

/// The class of a slot, for hotspot colours and the legend.
#[derive(Debug, Clone, Copy, PartialEq, Eq, Structural)]
pub enum SlotKind {
    /// LT / RT.
    Trigger,
    /// LB / RB.
    Shoulder,
    /// The directional pad.
    Dpad,
    /// A stick direction.
    Stick,
    /// A stick pressed in.
    StickClick,
    /// A, B, X, Y.
    Button,
    /// Back / Start.
    System,
}

/// The legend text of a slot class.
pub open spec fn kind_legend(k: SlotKind) -> Seq<char> {
    match k {
        SlotKind::Trigger => "扳机"@,
        SlotKind::Shoulder => "肩键"@,
        SlotKind::Dpad => "十字键"@,
        SlotKind::Stick => "摇杆方向"@,
        SlotKind::StickClick => "摇杆按下"@,
        SlotKind::Button => "ABXY 面键"@,
        SlotKind::System => "系统键"@,
    }
}

/// The base colour of a slot class's hotspots (the same in both themes).
pub open spec fn kind_rgb(k: SlotKind) -> (u8, u8, u8) {
    match k {
        SlotKind::Trigger => (235, 146, 52),
        SlotKind::Shoulder => (175, 122, 224),
        SlotKind::Dpad => (72, 170, 235),
        SlotKind::Stick => (80, 200, 130),
        SlotKind::StickClick => (235, 200, 80),
        SlotKind::Button => (124, 140, 248),
        SlotKind::System => (150, 165, 180),
    }
}

impl SlotKind {
    /// The legend text.
    pub fn legend(self) -> (r: &'static str)
        ensures
            r@ == kind_legend(self),
    {
        match self {
            SlotKind::Trigger => "扳机",
            SlotKind::Shoulder => "肩键",
            SlotKind::Dpad => "十字键",
            SlotKind::Stick => "摇杆方向",
            SlotKind::StickClick => "摇杆按下",
            SlotKind::Button => "ABXY 面键",
            SlotKind::System => "系统键",
        }
    }

    /// The base hotspot colour.
    pub fn base_rgb(self) -> (r: (u8, u8, u8))
        ensures
            r == kind_rgb(self),
    {
        match self {
            SlotKind::Trigger => (235, 146, 52),
            SlotKind::Shoulder => (175, 122, 224),
            SlotKind::Dpad => (72, 170, 235),
            SlotKind::Stick => (80, 200, 130),
            SlotKind::StickClick => (235, 200, 80),
            SlotKind::Button => (124, 140, 248),
            SlotKind::System => (150, 165, 180),
        }
    }
}

/// One configurable slot of the gamepad (its place on the picture is kept by the
/// program that draws it).
#[derive(Debug, Clone, Copy)]
pub struct GamepadSlot {
    /// The slot's id, its place in the slot table.
    pub id: usize,
    /// Full name.
    pub label: &'static str,
    /// Short label drawn in the hotspot.
    pub short: &'static str,
    /// The XInput name of the slot's input.
    pub default_trigger: &'static str,
    /// Class.
    pub kind: SlotKind,
}

/// A slot as values.
pub struct SlotView {
    pub id: usize,
    pub label: Seq<char>,
    pub short: Seq<char>,
    pub default_trigger: Seq<char>,
    pub kind: SlotKind,
}

impl View for GamepadSlot {
    type V = SlotView;

    open spec fn view(&self) -> SlotView {
        SlotView {
            id: self.id,
            label: self.label@,
            short: self.short@,
            default_trigger: self.default_trigger@,
            kind: self.kind,
        }
    }
}

/// The number of slots.
pub const SLOT_COUNT: usize = 24;

/// The slot with id `id` (below `SLOT_COUNT`).
pub open spec fn slot_table(id: int) -> SlotView {
    if id == 0 {
        SlotView { id: 0, label: "LT"@, short: "LT"@, default_trigger: "GAMEPAD_045E_LT"@, kind: SlotKind::Trigger }
    } else if id == 1 {
        SlotView { id: 1, label: "LB"@, short: "LB"@, default_trigger: "GAMEPAD_045E_LB"@, kind: SlotKind::Shoulder }
    } else if id == 2 {
        SlotView { id: 2, label: "RT"@, short: "RT"@, default_trigger: "GAMEPAD_045E_RT"@, kind: SlotKind::Trigger }
    } else if id == 3 {
        SlotView { id: 3, label: "RB"@, short: "RB"@, default_trigger: "GAMEPAD_045E_RB"@, kind: SlotKind::Shoulder }
    } else if id == 4 {
        SlotView { id: 4, label: "十字键·上"@, short: "↑"@, default_trigger: "GAMEPAD_045E_DPad_Up"@, kind: SlotKind::Dpad }
    } else if id == 5 {
        SlotView { id: 5, label: "十字键·下"@, short: "↓"@, default_trigger: "GAMEPAD_045E_DPad_Down"@, kind: SlotKind::Dpad }
    } else if id == 6 {
        SlotView { id: 6, label: "十字键·左"@, short: "←"@, default_trigger: "GAMEPAD_045E_DPad_Left"@, kind: SlotKind::Dpad }
    } else if id == 7 {
        SlotView { id: 7, label: "十字键·右"@, short: "→"@, default_trigger: "GAMEPAD_045E_DPad_Right"@, kind: SlotKind::Dpad }
    } else if id == 8 {
        SlotView { id: 8, label: "左摇杆·上"@, short: "↑"@, default_trigger: "GAMEPAD_045E_LS_Up"@, kind: SlotKind::Stick }
    } else if id == 9 {
        SlotView { id: 9, label: "左摇杆·下"@, short: "↓"@, default_trigger: "GAMEPAD_045E_LS_Down"@, kind: SlotKind::Stick }
    } else if id == 10 {
        SlotView { id: 10, label: "左摇杆·左"@, short: "←"@, default_trigger: "GAMEPAD_045E_LS_Left"@, kind: SlotKind::Stick }
    } else if id == 11 {
        SlotView { id: 11, label: "左摇杆·右"@, short: "→"@, default_trigger: "GAMEPAD_045E_LS_Right"@, kind: SlotKind::Stick }
    } else if id == 12 {
        SlotView { id: 12, label: "右摇杆·上"@, short: "↑"@, default_trigger: "GAMEPAD_045E_RS_Up"@, kind: SlotKind::Stick }
    } else if id == 13 {
        SlotView { id: 13, label: "右摇杆·下"@, short: "↓"@, default_trigger: "GAMEPAD_045E_RS_Down"@, kind: SlotKind::Stick }
    } else if id == 14 {
        SlotView { id: 14, label: "右摇杆·左"@, short: "←"@, default_trigger: "GAMEPAD_045E_RS_Left"@, kind: SlotKind::Stick }
    } else if id == 15 {
        SlotView { id: 15, label: "右摇杆·右"@, short: "→"@, default_trigger: "GAMEPAD_045E_RS_Right"@, kind: SlotKind::Stick }
    } else if id == 16 {
        SlotView { id: 16, label: "X 键"@, short: "X"@, default_trigger: "GAMEPAD_045E_X"@, kind: SlotKind::Button }
    } else if id == 17 {
        SlotView { id: 17, label: "Y 键"@, short: "Y"@, default_trigger: "GAMEPAD_045E_Y"@, kind: SlotKind::Button }
    } else if id == 18 {
        SlotView { id: 18, label: "B 键"@, short: "B"@, default_trigger: "GAMEPAD_045E_B"@, kind: SlotKind::Button }
    } else if id == 19 {
        SlotView { id: 19, label: "A 键"@, short: "A"@, default_trigger: "GAMEPAD_045E_A"@, kind: SlotKind::Button }
    } else if id == 20 {
        SlotView { id: 20, label: "Back"@, short: "Back"@, default_trigger: "GAMEPAD_045E_Back"@, kind: SlotKind::System }
    } else if id == 21 {
        SlotView { id: 21, label: "Start"@, short: "Start"@, default_trigger: "GAMEPAD_045E_Start"@, kind: SlotKind::System }
    } else if id == 22 {
        SlotView { id: 22, label: "左摇杆·按下"@, short: ""@, default_trigger: "GAMEPAD_045E_LS_Click"@, kind: SlotKind::StickClick }
    } else if id == 23 {
        SlotView { id: 23, label: "右摇杆·按下"@, short: ""@, default_trigger: "GAMEPAD_045E_RS_Click"@, kind: SlotKind::StickClick }
    } else {
        SlotView { id: id as usize, label: "?"@, short: ""@, default_trigger: ""@, kind: SlotKind::System }
    }
}

/// The slot with id `id`.
pub fn get_slot(id: usize) -> (r: Option<&'static GamepadSlot>)
    ensures
        r is Some <==> id < SLOT_COUNT,
        r matches Some(s) ==> s@ == slot_table(id as int),
{
    match id {
        0 => Some(&GamepadSlot { id: 0, label: "LT", short: "LT", default_trigger: "GAMEPAD_045E_LT", kind: SlotKind::Trigger }),
        1 => Some(&GamepadSlot { id: 1, label: "LB", short: "LB", default_trigger: "GAMEPAD_045E_LB", kind: SlotKind::Shoulder }),
        2 => Some(&GamepadSlot { id: 2, label: "RT", short: "RT", default_trigger: "GAMEPAD_045E_RT", kind: SlotKind::Trigger }),
        3 => Some(&GamepadSlot { id: 3, label: "RB", short: "RB", default_trigger: "GAMEPAD_045E_RB", kind: SlotKind::Shoulder }),
        4 => Some(&GamepadSlot { id: 4, label: "十字键·上", short: "↑", default_trigger: "GAMEPAD_045E_DPad_Up", kind: SlotKind::Dpad }),
        5 => Some(&GamepadSlot { id: 5, label: "十字键·下", short: "↓", default_trigger: "GAMEPAD_045E_DPad_Down", kind: SlotKind::Dpad }),
        6 => Some(&GamepadSlot { id: 6, label: "十字键·左", short: "←", default_trigger: "GAMEPAD_045E_DPad_Left", kind: SlotKind::Dpad }),
        7 => Some(&GamepadSlot { id: 7, label: "十字键·右", short: "→", default_trigger: "GAMEPAD_045E_DPad_Right", kind: SlotKind::Dpad }),
        8 => Some(&GamepadSlot { id: 8, label: "左摇杆·上", short: "↑", default_trigger: "GAMEPAD_045E_LS_Up", kind: SlotKind::Stick }),
        9 => Some(&GamepadSlot { id: 9, label: "左摇杆·下", short: "↓", default_trigger: "GAMEPAD_045E_LS_Down", kind: SlotKind::Stick }),
        10 => Some(&GamepadSlot { id: 10, label: "左摇杆·左", short: "←", default_trigger: "GAMEPAD_045E_LS_Left", kind: SlotKind::Stick }),
        11 => Some(&GamepadSlot { id: 11, label: "左摇杆·右", short: "→", default_trigger: "GAMEPAD_045E_LS_Right", kind: SlotKind::Stick }),
        12 => Some(&GamepadSlot { id: 12, label: "右摇杆·上", short: "↑", default_trigger: "GAMEPAD_045E_RS_Up", kind: SlotKind::Stick }),
        13 => Some(&GamepadSlot { id: 13, label: "右摇杆·下", short: "↓", default_trigger: "GAMEPAD_045E_RS_Down", kind: SlotKind::Stick }),
        14 => Some(&GamepadSlot { id: 14, label: "右摇杆·左", short: "←", default_trigger: "GAMEPAD_045E_RS_Left", kind: SlotKind::Stick }),
        15 => Some(&GamepadSlot { id: 15, label: "右摇杆·右", short: "→", default_trigger: "GAMEPAD_045E_RS_Right", kind: SlotKind::Stick }),
        16 => Some(&GamepadSlot { id: 16, label: "X 键", short: "X", default_trigger: "GAMEPAD_045E_X", kind: SlotKind::Button }),
        17 => Some(&GamepadSlot { id: 17, label: "Y 键", short: "Y", default_trigger: "GAMEPAD_045E_Y", kind: SlotKind::Button }),
        18 => Some(&GamepadSlot { id: 18, label: "B 键", short: "B", default_trigger: "GAMEPAD_045E_B", kind: SlotKind::Button }),
        19 => Some(&GamepadSlot { id: 19, label: "A 键", short: "A", default_trigger: "GAMEPAD_045E_A", kind: SlotKind::Button }),
        20 => Some(&GamepadSlot { id: 20, label: "Back", short: "Back", default_trigger: "GAMEPAD_045E_Back", kind: SlotKind::System }),
        21 => Some(&GamepadSlot { id: 21, label: "Start", short: "Start", default_trigger: "GAMEPAD_045E_Start", kind: SlotKind::System }),
        22 => Some(&GamepadSlot { id: 22, label: "左摇杆·按下", short: "", default_trigger: "GAMEPAD_045E_LS_Click", kind: SlotKind::StickClick }),
        23 => Some(&GamepadSlot { id: 23, label: "右摇杆·按下", short: "", default_trigger: "GAMEPAD_045E_RS_Click", kind: SlotKind::StickClick }),
        _ => None,
    }
}

/// Every slot, in id order.
pub fn all_slots() -> (r: Vec<GamepadSlot>)
    ensures
        r@.len() == SLOT_COUNT,
        forall|i: int| 0 <= i < SLOT_COUNT ==> (#[trigger] r@[i])@ == slot_table(i),
{
    let mut r: Vec<GamepadSlot> = Vec::new();
    let mut i: usize = 0;
    while i < SLOT_COUNT
        invariant
            i <= SLOT_COUNT,
            r@.len() == i,
            forall|k: int| 0 <= k < i ==> (#[trigger] r@[k])@ == slot_table(k),
        decreases SLOT_COUNT - i,
    {
        match get_slot(i) {
            Some(s) => r.push(*s),
            None => {}
        }
        i = i + 1;
    }
    r
}

/// The order of guided calibration: face buttons, shoulders, triggers, system keys,
/// stick presses, then the four directions of the pad and of each stick.
pub const CALIBRATION_ORDER: [usize; 24] = [
    19, 18, 16, 17, 1, 3, 0, 2, 20, 21, 22, 23,
    4, 5, 6, 7,
    8, 9, 10, 11,
    12, 13, 14, 15,
];

/// The calibration order.
pub open spec fn calibration_order() -> Seq<usize> {
    seq![19usize, 18, 16, 17, 1, 3, 0, 2, 20, 21, 22, 23, 4, 5, 6, 7, 8, 9, 10, 11, 12, 13, 14, 15]
}

/// The slot to calibrate at step `step`.
pub fn calibration_slot(step: usize) -> (r: Option<usize>)
    ensures
        r == (if step < 24 { Some(calibration_order()[step as int]) } else { None::<usize> }),
{
    let order = CALIBRATION_ORDER;
    assert(order@ =~= calibration_order());
    if step < 24 {
        Some(order[step])
    } else {
        None
    }
}

/// The short name of a slot on the calibration progress line.
pub open spec fn short_label_spec(slot_id: usize) -> Seq<char> {
    if slot_id == 22 { "L3"@ }
    else if slot_id == 23 { "R3"@ }
    else if slot_id == 4 { "十字↑"@ }
    else if slot_id == 5 { "十字↓"@ }
    else if slot_id == 6 { "十字←"@ }
    else if slot_id == 7 { "十字→"@ }
    else if slot_id == 8 { "左摇↑"@ }
    else if slot_id == 9 { "左摇↓"@ }
    else if slot_id == 10 { "左摇←"@ }
    else if slot_id == 11 { "左摇→"@ }
    else if slot_id == 12 { "右摇↑"@ }
    else if slot_id == 13 { "右摇↓"@ }
    else if slot_id == 14 { "右摇←"@ }
    else if slot_id == 15 { "右摇→"@ }
    else if slot_id < SLOT_COUNT { slot_table(slot_id as int).label }
    else { "?"@ }
}

/// The short name of a slot on the calibration progress line.
pub fn calibration_short_label(slot_id: usize) -> (r: &'static str)
    ensures
        r@ == short_label_spec(slot_id),
{
    match slot_id {
        22 => "L3",
        23 => "R3",
        4 => "十字↑",
        5 => "十字↓",
        6 => "十字←",
        7 => "十字→",
        8 => "左摇↑",
        9 => "左摇↓",
        10 => "左摇←",
        11 => "左摇→",
        12 => "右摇↑",
        13 => "右摇↓",
        14 => "右摇←",
        15 => "右摇→",
        _ => match get_slot(slot_id) {
            Some(s) => s.label,
            None => "?",
        },
    }
}

/// Guided calibration visits every slot exactly once.
pub proof fn law_calibration_covers_every_slot_once()
    ensures
        calibration_order().len() == SLOT_COUNT,
        calibration_order().no_duplicates(),
        forall|id: usize| id < SLOT_COUNT ==> calibration_order().contains(id),
{
    let o = calibration_order();
    assert(o[6] == 0usize && o[4] == 1usize && o[7] == 2usize && o[5] == 3usize);
    assert(o[12] == 4usize && o[13] == 5usize && o[14] == 6usize && o[15] == 7usize);
    assert(o[16] == 8usize && o[17] == 9usize && o[18] == 10usize && o[19] == 11usize);
    assert(o[20] == 12usize && o[21] == 13usize && o[22] == 14usize && o[23] == 15usize);
    assert(o[2] == 16usize && o[3] == 17usize && o[1] == 18usize && o[0] == 19usize);
    assert(o[8] == 20usize && o[9] == 21usize && o[10] == 22usize && o[11] == 23usize);
    assert forall|i: int, j: int| 0 <= i < o.len() && 0 <= j < o.len() && i != j implies o[i] != o[j] by {
        assert(o[i] == (if i == 0 { 19usize } else if i == 1 { 18 } else if i == 2 { 16 } else if i == 3 { 17 }
            else if i == 4 { 1 } else if i == 5 { 3 } else if i == 6 { 0 } else if i == 7 { 2 } else if i == 8 { 20 }
            else if i == 9 { 21 } else if i == 10 { 22 } else if i == 11 { 23 } else { (i - 8) as usize }));
        assert(o[j] == (if j == 0 { 19usize } else if j == 1 { 18 } else if j == 2 { 16 } else if j == 3 { 17 }
            else if j == 4 { 1 } else if j == 5 { 3 } else if j == 6 { 0 } else if j == 7 { 2 } else if j == 8 { 20 }
            else if j == 9 { 21 } else if j == 10 { 22 } else if j == 11 { 23 } else { (j - 8) as usize }));
    }
    assert forall|id: usize| id < SLOT_COUNT implies o.contains(id) by {
        if id < 4 {
            let k: int = if id == 0 { 6 } else if id == 1 { 4 } else if id == 2 { 7 } else { 5 };
            assert(o[k] == id);
        } else if id < 16 {
            assert(o[id + 8] == id);
        } else {
            let k: int = if id == 16 { 2 } else if id == 17 { 3 } else if id == 18 { 1 } else if id == 19 { 0 } else { id - 12 };
            assert(o[k] == id);
        }
    }
}

} // verus!
