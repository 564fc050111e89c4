//! Input devices and the names they are stored under in mappings.
//!
//! A gamepad input is named `GAMEPAD_<VID>_<body>` (a joystick `JOYSTICK_<VID>_<body>`),
//! the vendor id written as four upper-case hex digits. The body of an XInput input is
//! its button names joined with `+` (`GAMEPAD_045E_A+B`); the body of a raw HID input
//! ends in a code segment after its last `_`: `H<n>` for the button id `n`, or `B<a>.<b>`
//! for the bit position `a * 65536 + b` (`GAMEPAD_20BC_5159_DEVAA_B1.7`).

use vstd::prelude::*;
use crate::text::push_char;
use crate::text::chars_of;
use crate::text::chars_eq;
use crate::text::chars_start_with;
use crate::text::seq_starts_with;
use crate::config::join_with;
use crate::config::push_str_chars;

verus! {

/// The kind of device an input comes from, with its vendor id where it has one.
#[derive(Debug, Clone, Copy, PartialEq, Eq, Structural)]
pub enum DeviceType {
    Keyboard,
    Mouse,
    Gamepad(u16),
    Joystick(u16),
}

/// One captured input.
#[derive(Debug)]
pub enum InputDevice {
    /// A keyboard key by virtual-key code.
    Keyboard(u32),
    /// A mouse button by virtual-key code.
    Mouse(u32),
    /// One or more XInput buttons pressed together.
    XInputCombo { device_type: DeviceType, button_ids: Vec<u32> },
    /// A raw HID button (or bit combination) by id.
    GenericDevice { device_type: DeviceType, button_id: u64 },
}

/// An input as values.
pub enum DeviceView {
    Keyboard(u32),
    Mouse(u32),
    XInputCombo { device_type: DeviceType, button_ids: Seq<u32> },
    GenericDevice { device_type: DeviceType, button_id: u64 },
}

impl View for InputDevice {
    type V = DeviceView;

    open spec fn view(&self) -> DeviceView {
        match self {
            InputDevice::Keyboard(k) => DeviceView::Keyboard(*k),
            InputDevice::Mouse(b) => DeviceView::Mouse(*b),
            InputDevice::XInputCombo { device_type, button_ids } => DeviceView::XInputCombo {
                device_type: *device_type,
                button_ids: button_ids@,
            },
            InputDevice::GenericDevice { device_type, button_id } => DeviceView::GenericDevice {
                device_type: *device_type,
                button_id: *button_id,
            },
        }
    }
}

/// An optional input as values.
pub open spec fn opt_device_view(d: Option<InputDevice>) -> Option<DeviceView> {
    match d {
        Some(x) => Some(x@),
        None => None,
    }
}

// ---------------------------------------------------------------------------
// XInput button names.

/// The name of an XInput input id.
pub open spec fn xinput_name(id: u32) -> Option<Seq<char>> {
    if id == 0x01 { Some("DPad_Up"@) }
    else if id == 0x02 { Some("DPad_Down"@) }
    else if id == 0x03 { Some("DPad_Left"@) }
    else if id == 0x04 { Some("DPad_Right"@) }
    else if id == 0x05 { Some("Start"@) }
    else if id == 0x06 { Some("Back"@) }
    else if id == 0x07 { Some("LS_Click"@) }
    else if id == 0x08 { Some("RS_Click"@) }
    else if id == 0x09 { Some("LB"@) }
    else if id == 0x0A { Some("RB"@) }
    else if id == 0x0B { Some("A"@) }
    else if id == 0x0C { Some("B"@) }
    else if id == 0x0D { Some("X"@) }
    else if id == 0x0E { Some("Y"@) }
    else if id == 0x10 { Some("LS_Right"@) }
    else if id == 0x11 { Some("LS_Left"@) }
    else if id == 0x12 { Some("LS_Up"@) }
    else if id == 0x13 { Some("LS_Down"@) }
    else if id == 0x14 { Some("RS_Right"@) }
    else if id == 0x15 { Some("RS_Left"@) }
    else if id == 0x16 { Some("RS_Up"@) }
    else if id == 0x17 { Some("RS_Down"@) }
    else if id == 0x18 { Some("LT"@) }
    else if id == 0x19 { Some("RT"@) }
    else { None }
}

/// The XInput input id a button name stands for.
pub open spec fn xinput_id_of(name: Seq<char>) -> Option<u32> {
    if name == "DPad_Up"@ { Some(0x01u32) }
    else if name == "DPad_Down"@ { Some(0x02u32) }
    else if name == "DPad_Left"@ { Some(0x03u32) }
    else if name == "DPad_Right"@ { Some(0x04u32) }
    else if name == "Start"@ { Some(0x05u32) }
    else if name == "Back"@ { Some(0x06u32) }
    else if name == "LS_Click"@ { Some(0x07u32) }
    else if name == "RS_Click"@ { Some(0x08u32) }
    else if name == "LB"@ { Some(0x09u32) }
    else if name == "RB"@ { Some(0x0Au32) }
    else if name == "A"@ { Some(0x0Bu32) }
    else if name == "B"@ { Some(0x0Cu32) }
    else if name == "X"@ { Some(0x0Du32) }
    else if name == "Y"@ { Some(0x0Eu32) }
    else if name == "LS_Right"@ { Some(0x10u32) }
    else if name == "LS_Left"@ { Some(0x11u32) }
    else if name == "LS_Up"@ { Some(0x12u32) }
    else if name == "LS_Down"@ { Some(0x13u32) }
    else if name == "RS_Right"@ { Some(0x14u32) }
    else if name == "RS_Left"@ { Some(0x15u32) }
    else if name == "RS_Up"@ { Some(0x16u32) }
    else if name == "RS_Down"@ { Some(0x17u32) }
    else if name == "LT"@ { Some(0x18u32) }
    else if name == "RT"@ { Some(0x19u32) }
    else { None }
}

/// The name an XInput id is written as (`?` for an id without a name).
pub open spec fn xinput_label(id: u32) -> Seq<char> {
    match xinput_name(id) {
        Some(n) => n,
        None => "?"@,
    }
}

/// The name of an XInput input id.
pub fn xinput_id_name(id: u32) -> (r: Option<&'static str>)
    ensures
        match r {
            Some(s) => xinput_name(id) == Some(s@),
            None => xinput_name(id) is None,
        },
{
    match id {
        0x01 => Some("DPad_Up"),
        0x02 => Some("DPad_Down"),
        0x03 => Some("DPad_Left"),
        0x04 => Some("DPad_Right"),
        0x05 => Some("Start"),
        0x06 => Some("Back"),
        0x07 => Some("LS_Click"),
        0x08 => Some("RS_Click"),
        0x09 => Some("LB"),
        0x0A => Some("RB"),
        0x0B => Some("A"),
        0x0C => Some("B"),
        0x0D => Some("X"),
        0x0E => Some("Y"),
        0x10 => Some("LS_Right"),
        0x11 => Some("LS_Left"),
        0x12 => Some("LS_Up"),
        0x13 => Some("LS_Down"),
        0x14 => Some("RS_Right"),
        0x15 => Some("RS_Left"),
        0x16 => Some("RS_Up"),
        0x17 => Some("RS_Down"),
        0x18 => Some("LT"),
        0x19 => Some("RT"),
        _ => None,
    }
}

/// Whether `s` is the literal `lit`.
fn chars_are(s: &[char], lit: &str) -> (r: bool)
    ensures
        r == (s@ == lit@),
{
    let l = chars_of(lit);
    chars_eq(s, l.as_slice())
}

/// The XInput input id a button name stands for.
pub fn xinput_id_from_chars(name: &[char]) -> (r: Option<u32>)
    ensures
        r == xinput_id_of(name@),
{
    if chars_are(name, "DPad_Up") { Some(0x01) }
    else if chars_are(name, "DPad_Down") { Some(0x02) }
    else if chars_are(name, "DPad_Left") { Some(0x03) }
    else if chars_are(name, "DPad_Right") { Some(0x04) }
    else if chars_are(name, "Start") { Some(0x05) }
    else if chars_are(name, "Back") { Some(0x06) }
    else if chars_are(name, "LS_Click") { Some(0x07) }
    else if chars_are(name, "RS_Click") { Some(0x08) }
    else if chars_are(name, "LB") { Some(0x09) }
    else if chars_are(name, "RB") { Some(0x0A) }
    else if chars_are(name, "A") { Some(0x0B) }
    else if chars_are(name, "B") { Some(0x0C) }
    else if chars_are(name, "X") { Some(0x0D) }
    else if chars_are(name, "Y") { Some(0x0E) }
    else if chars_are(name, "LS_Right") { Some(0x10) }
    else if chars_are(name, "LS_Left") { Some(0x11) }
    else if chars_are(name, "LS_Up") { Some(0x12) }
    else if chars_are(name, "LS_Down") { Some(0x13) }
    else if chars_are(name, "RS_Right") { Some(0x14) }
    else if chars_are(name, "RS_Left") { Some(0x15) }
    else if chars_are(name, "RS_Up") { Some(0x16) }
    else if chars_are(name, "RS_Down") { Some(0x17) }
    else if chars_are(name, "LT") { Some(0x18) }
    else if chars_are(name, "RT") { Some(0x19) }
    else { None }
}

// ---------------------------------------------------------------------------
// Digits.

/// The value of a decimal digit.
pub open spec fn dec_digit_val(c: char) -> Option<nat> {
    if '0' <= c && c <= '9' { Some((c as nat - '0' as nat) as nat) } else { None }
}

/// All characters are decimal digits.
pub open spec fn all_dec(s: Seq<char>) -> bool {
    forall|i: int| 0 <= i < s.len() ==> (#[trigger] dec_digit_val(s[i])) is Some
}

/// The value of a string of decimal digits (most significant first).
pub open spec fn dec_val(s: Seq<char>) -> nat
    decreases s.len(),
{
    if s.len() == 0 {
        0
    } else {
        let d = match dec_digit_val(s.last()) { Some(v) => v, None => 0 };
        dec_val(s.drop_last()) * 10 + d
    }
}

/// The character of a decimal digit value.
pub open spec fn dec_char(d: nat) -> char {
    ('0' as nat + d) as char
}

/// `n` in decimal, without leading zeros.
pub open spec fn dec_str(n: nat) -> Seq<char>
    decreases n,
{
    if n < 10 {
        seq![dec_char(n)]
    } else {
        dec_str(n / 10).push(dec_char(n % 10))
    }
}

/// The value of a hexadecimal digit (either case).
pub open spec fn hex_digit_val(c: char) -> Option<nat> {
    if '0' <= c && c <= '9' {
        Some((c as nat - '0' as nat) as nat)
    } else if 'A' <= c && c <= 'F' {
        Some((c as nat - 'A' as nat + 10) as nat)
    } else if 'a' <= c && c <= 'f' {
        Some((c as nat - 'a' as nat + 10) as nat)
    } else {
        None
    }
}

/// The upper-case hex digit of a value below 16.
pub open spec fn hex_char(d: nat) -> char {
    if d < 10 { ('0' as nat + d) as char } else { ('A' as nat + (d - 10)) as char }
}

/// `v` as four upper-case hex digits.
pub open spec fn hex4(v: u16) -> Seq<char> {
    seq![
        hex_char(((v as nat) / 4096) % 16),
        hex_char(((v as nat) / 256) % 16),
        hex_char(((v as nat) / 16) % 16),
        hex_char((v as nat) % 16),
    ]
}

/// The value of four hex digits.
pub open spec fn hex4_val(s: Seq<char>) -> Option<u16> {
    if s.len() == 4 && hex_digit_val(s[0]) is Some && hex_digit_val(s[1]) is Some
        && hex_digit_val(s[2]) is Some && hex_digit_val(s[3]) is Some {
        Some((hex_digit_val(s[0])->0 * 4096 + hex_digit_val(s[1])->0 * 256
            + hex_digit_val(s[2])->0 * 16 + hex_digit_val(s[3])->0) as u16)
    } else {
        None
    }
}

// ---------------------------------------------------------------------------
// Splitting.

/// `s` cut at every `sep` (an empty `s` gives one empty part).
pub open spec fn split_on(s: Seq<char>, sep: char) -> Seq<Seq<char>>
    decreases s.len(),
{
    if s.len() == 0 {
        seq![Seq::empty()]
    } else {
        let rest = split_on(s.drop_last(), sep);
        if s.last() == sep {
            rest.push(Seq::empty())
        } else {
            rest.update(rest.len() - 1, rest.last().push(s.last()))
        }
    }
}

/// `split_on` never gives an empty list.
pub proof fn lemma_split_nonempty(s: Seq<char>, sep: char)
    ensures
        split_on(s, sep).len() >= 1,
    decreases s.len(),
{
    if s.len() > 0 {
        lemma_split_nonempty(s.drop_last(), sep);
    }
}

/// `s` cut at every `sep`.
pub fn split_chars(s: &[char], sep: char) -> (r: Vec<Vec<char>>)
    ensures
        r@.map_values(|p: Vec<char>| p@) == split_on(s@, sep),
{
    let mut parts: Vec<Vec<char>> = Vec::new();
    let mut cur: Vec<char> = Vec::new();
    let mut i: usize = 0;
    assert(s@.subrange(0, 0) =~= Seq::<char>::empty());
    assert(parts@.map_values(|p: Vec<char>| p@).push(cur@) =~= split_on(Seq::<char>::empty(), sep));
    while i < s.len()
        invariant
            i <= s@.len(),
            parts@.map_values(|p: Vec<char>| p@).push(cur@) == split_on(s@.subrange(0, i as int), sep),
        decreases s@.len() - i,
    {
        let ghost prefix = s@.subrange(0, i as int);
        let ghost next = s@.subrange(0, i + 1);
        assert(next.drop_last() =~= prefix);
        assert(next.last() == s@[i as int]);
        let c = s[i];
        if c == sep {
            let done = cur;
            parts.push(done);
            cur = Vec::new();
            assert(parts@.map_values(|p: Vec<char>| p@).push(cur@) =~= split_on(next, sep));
        } else {
            let ghost pv = parts@.map_values(|p: Vec<char>| p@);
            cur.push(c);
            assert(pv.push(cur@) =~= split_on(prefix, sep).update(
                split_on(prefix, sep).len() - 1,
                split_on(prefix, sep).last().push(c),
            ));
        }
        i = i + 1;
    }
    assert(s@.subrange(0, s@.len() as int) =~= s@);
    let ghost pv = parts@.map_values(|p: Vec<char>| p@);
    parts.push(cur);
    assert(parts@.map_values(|p: Vec<char>| p@) =~= pv.push(parts@.last()@));
    parts
}

// ---------------------------------------------------------------------------
// Digits, executable.

/// The character of a decimal digit.
fn digit_char(d: u64) -> (c: char)
    requires
        d < 10,
    ensures
        c == dec_char(d as nat),
{
    match d {
        0 => '0',
        1 => '1',
        2 => '2',
        3 => '3',
        4 => '4',
        5 => '5',
        6 => '6',
        7 => '7',
        8 => '8',
        _ => '9',
    }
}

/// The upper-case character of a hex digit.
fn hex_digit_char(d: u16) -> (c: char)
    requires
        d < 16,
    ensures
        c == hex_char(d as nat),
{
    match d {
        0 => '0',
        1 => '1',
        2 => '2',
        3 => '3',
        4 => '4',
        5 => '5',
        6 => '6',
        7 => '7',
        8 => '8',
        9 => '9',
        10 => 'A',
        11 => 'B',
        12 => 'C',
        13 => 'D',
        14 => 'E',
        _ => 'F',
    }
}

/// Appends `n` in decimal.
pub fn push_dec(out: &mut String, n: u64)
    ensures
        final(out)@ == old(out)@ + dec_str(n as nat),
    decreases n,
{
    if n >= 10 {
        push_dec(out, n / 10);
    }
    push_char(out, digit_char(n % 10));
    proof {
        if n < 10 {
            assert(n % 10 == n);
            assert(dec_str(n as nat) =~= seq![dec_char(n as nat)]);
            assert(old(out)@ + dec_str(n as nat) =~= old(out)@.push(dec_char(n as nat)));
        } else {
            assert(old(out)@ + dec_str(n as nat) =~= (old(out)@ + dec_str((n / 10) as nat)).push(dec_char((n % 10) as nat)));
        }
    }
}

/// Appends `v` as four upper-case hex digits.
pub fn push_hex4(out: &mut String, v: u16)
    ensures
        final(out)@ == old(out)@ + hex4(v),
{
    push_char(out, hex_digit_char((v / 4096) % 16));
    push_char(out, hex_digit_char((v / 256) % 16));
    push_char(out, hex_digit_char((v / 16) % 16));
    push_char(out, hex_digit_char(v % 16));
    assert(final(out)@ =~= old(out)@ + hex4(v));
}

/// The value of a decimal digit.
fn dec_digit(c: char) -> (r: Option<u64>)
    ensures
        match r {
            Some(v) => dec_digit_val(c) == Some(v as nat) && v < 10,
            None => dec_digit_val(c) is None,
        },
{
    if '0' <= c && c <= '9' {
        Some((c as u32 - '0' as u32) as u64)
    } else {
        None
    }
}

/// The value of a hex digit.
pub fn hex_digit(c: char) -> (r: Option<u16>)
    ensures
        match r {
            Some(v) => hex_digit_val(c) == Some(v as nat) && v < 16,
            None => hex_digit_val(c) is None,
        },
{
    if '0' <= c && c <= '9' {
        Some((c as u32 - '0' as u32) as u16)
    } else if 'A' <= c && c <= 'F' {
        Some((c as u32 - 'A' as u32 + 10) as u16)
    } else if 'a' <= c && c <= 'f' {
        Some((c as u32 - 'a' as u32 + 10) as u16)
    } else {
        None
    }
}

/// The value of a prefix never exceeds the value of the whole.
pub proof fn lemma_dec_prefix_le(s: Seq<char>, k: int)
    requires
        0 <= k <= s.len(),
    ensures
        dec_val(s.subrange(0, k)) <= dec_val(s),
    decreases s.len() - k,
{
    if k < s.len() {
        lemma_dec_prefix_le(s, k + 1);
        assert(s.subrange(0, k + 1).drop_last() =~= s.subrange(0, k));
    } else {
        assert(s.subrange(0, k) =~= s);
    }
}

/// The value of a non-empty string of decimal digits that fits in a `u64`.
pub fn parse_dec(s: &[char]) -> (r: Option<u64>)
    ensures
        r == (if s@.len() > 0 && all_dec(s@) && dec_val(s@) <= u64::MAX {
            Some(dec_val(s@) as u64)
        } else {
            None
        }),
{
    if s.len() == 0 {
        return None;
    }
    let mut acc: u64 = 0;
    let mut i: usize = 0;
    assert(s@.subrange(0, 0) =~= Seq::<char>::empty());
    while i < s.len()
        invariant
            i <= s@.len(),
            all_dec(s@.subrange(0, i as int)),
            acc == dec_val(s@.subrange(0, i as int)),
        decreases s@.len() - i,
    {
        let ghost prefix = s@.subrange(0, i as int);
        let ghost next = s@.subrange(0, i + 1);
        assert(next.drop_last() =~= prefix);
        match dec_digit(s[i]) {
            None => {
                assert(!all_dec(s@)) by {
                    assert(dec_digit_val(s@[i as int]) is None);
                }
                return None;
            }
            Some(d) => {
                proof {
                    assert(dec_val(next) == dec_val(prefix) * 10 + d);
                }
                if acc > (u64::MAX - d) / 10 {
                    proof {
                        assert(dec_val(next) > u64::MAX);
                        lemma_dec_prefix_le(s@, i + 1);
                    }
                    return None;
                }
                acc = acc * 10 + d;
                assert(all_dec(next)) by {
                    assert forall|j: int| 0 <= j < next.len() implies (#[trigger] dec_digit_val(next[j])) is Some by {
                        if j < i {
                            assert(next[j] == prefix[j]);
                        }
                    }
                }
            }
        }
        i = i + 1;
    }
    assert(s@.subrange(0, s@.len() as int) =~= s@);
    Some(acc)
}

/// The value of four hex digits.
pub fn parse_hex4(s: &[char]) -> (r: Option<u16>)
    ensures
        r == hex4_val(s@),
{
    if s.len() != 4 {
        return None;
    }
    let a = hex_digit(s[0]);
    let b = hex_digit(s[1]);
    let c = hex_digit(s[2]);
    let d = hex_digit(s[3]);
    match (a, b, c, d) {
        (Some(a), Some(b), Some(c), Some(d)) => Some(a * 4096 + b * 256 + c * 16 + d),
        _ => None,
    }
}

// ---------------------------------------------------------------------------
// Names.

/// The prefix of a device kind's input names.
pub open spec fn type_prefix(dt: DeviceType) -> Seq<char> {
    match dt {
        DeviceType::Keyboard => "KEYBOARD_"@,
        DeviceType::Mouse => "MOUSE_"@,
        DeviceType::Gamepad(_) => "GAMEPAD_"@,
        DeviceType::Joystick(_) => "JOYSTICK_"@,
    }
}

/// The vendor id of a device kind (0 where it has none).
pub open spec fn type_vid(dt: DeviceType) -> u16 {
    match dt {
        DeviceType::Gamepad(v) => v,
        DeviceType::Joystick(v) => v,
        _ => 0,
    }
}

/// The button names of a list of XInput ids.
pub open spec fn xinput_labels(ids: Seq<u32>) -> Seq<Seq<char>> {
    ids.map_values(|id: u32| xinput_label(id))
}

/// The name an input is stored under.
pub open spec fn device_name(d: DeviceView) -> Seq<char> {
    match d {
        DeviceView::Keyboard(k) => "VK_"@ + dec_str(k as nat),
        DeviceView::Mouse(b) => "MOUSEBUTTON_"@ + dec_str(b as nat),
        DeviceView::XInputCombo { device_type, button_ids } =>
            type_prefix(device_type) + hex4(type_vid(device_type)) + "_"@
                + join_with(xinput_labels(button_ids), "+"@),
        DeviceView::GenericDevice { device_type, button_id } =>
            type_prefix(device_type) + hex4(type_vid(device_type)) + "_H"@
                + dec_str(button_id as nat),
    }
}

fn type_prefix_str(dt: DeviceType) -> (r: &'static str)
    ensures
        r@ == type_prefix(dt),
{
    match dt {
        DeviceType::Keyboard => "KEYBOARD_",
        DeviceType::Mouse => "MOUSE_",
        DeviceType::Gamepad(_) => "GAMEPAD_",
        DeviceType::Joystick(_) => "JOYSTICK_",
    }
}

fn type_vid_of(dt: DeviceType) -> (r: u16)
    ensures
        r == type_vid(dt),
{
    match dt {
        DeviceType::Gamepad(v) => v,
        DeviceType::Joystick(v) => v,
        _ => 0,
    }
}

/// Appends the button names of `ids` joined with `+`.
fn push_xinput_labels(out: &mut String, ids: &[u32])
    ensures
        final(out)@ == old(out)@ + join_with(xinput_labels(ids@), "+"@),
{
    let mut i: usize = 0;
    assert(xinput_labels(ids@.subrange(0, 0)) =~= Seq::<Seq<char>>::empty());
    assert(old(out)@ + join_with(Seq::<Seq<char>>::empty(), "+"@) =~= old(out)@);
    while i < ids.len()
        invariant
            i <= ids@.len(),
            out@ == old(out)@ + join_with(xinput_labels(ids@.subrange(0, i as int)), "+"@),
        decreases ids@.len() - i,
    {
        let ghost before = xinput_labels(ids@.subrange(0, i as int));
        let ghost now = xinput_labels(ids@.subrange(0, i + 1));
        assert(now.drop_last() =~= before);
        assert(now.last() == xinput_label(ids@[i as int]));
        if i > 0 {
            push_char(out, '+');
        }
        match xinput_id_name(ids[i]) {
            Some(n) => push_str_chars(out, n),
            None => push_char(out, '?'),
        }
        proof {
            reveal_strlit("+");
            reveal_strlit("?");
            if i == 0 {
                assert(now =~= seq![xinput_label(ids@[0])]);
            }
            assert(out@ =~= old(out)@ + join_with(now, "+"@));
        }
        i = i + 1;
    }
    assert(ids@.subrange(0, ids@.len() as int) =~= ids@);
}

impl InputDevice {
    /// An independent copy.
    pub fn duplicate(&self) -> (r: InputDevice)
        ensures
            r@ == self@,
    {
        match self {
            InputDevice::Keyboard(k) => InputDevice::Keyboard(*k),
            InputDevice::Mouse(b) => InputDevice::Mouse(*b),
            InputDevice::XInputCombo { device_type, button_ids } => InputDevice::XInputCombo {
                device_type: *device_type,
                button_ids: button_ids.clone(),
            },
            InputDevice::GenericDevice { device_type, button_id } => InputDevice::GenericDevice {
                device_type: *device_type,
                button_id: *button_id,
            },
        }
    }

    /// The name the input is stored under.
    pub fn to_name(&self) -> (r: String)
        ensures
            r@ == device_name(self@),
    {
        let mut out = String::new();
        match self {
            InputDevice::Keyboard(k) => {
                push_str_chars(&mut out, "VK_");
                push_dec(&mut out, *k as u64);
                assert(out@ =~= device_name(self@));
            }
            InputDevice::Mouse(b) => {
                push_str_chars(&mut out, "MOUSEBUTTON_");
                push_dec(&mut out, *b as u64);
                assert(out@ =~= device_name(self@));
            }
            InputDevice::XInputCombo { device_type, button_ids } => {
                push_str_chars(&mut out, type_prefix_str(*device_type));
                push_hex4(&mut out, type_vid_of(*device_type));
                push_char(&mut out, '_');
                push_xinput_labels(&mut out, button_ids.as_slice());
                proof {
                    reveal_strlit("_");
                }
                assert(out@ =~= device_name(self@));
            }
            InputDevice::GenericDevice { device_type, button_id } => {
                push_str_chars(&mut out, type_prefix_str(*device_type));
                push_hex4(&mut out, type_vid_of(*device_type));
                push_str_chars(&mut out, "_H");
                push_dec(&mut out, *button_id);
                assert(out@ =~= device_name(self@));
            }
        }
        out
    }
}

impl Clone for InputDevice {
    fn clone(&self) -> Self {
        self.duplicate()
    }
}

// ---------------------------------------------------------------------------
// Parsing names.

/// The device kind and the body of a gamepad or joystick input name.
pub open spec fn name_body(s: Seq<char>) -> Option<(DeviceType, Seq<char>)> {
    if seq_starts_with(s, "GAMEPAD_"@) {
        let rest = s.skip(8);
        if rest.len() >= 5 && hex4_val(rest.take(4)) is Some && rest[4] == '_' {
            Some((DeviceType::Gamepad(hex4_val(rest.take(4))->0), rest.skip(5)))
        } else {
            None
        }
    } else if seq_starts_with(s, "JOYSTICK_"@) {
        let rest = s.skip(9);
        if rest.len() >= 5 && hex4_val(rest.take(4)) is Some && rest[4] == '_' {
            Some((DeviceType::Joystick(hex4_val(rest.take(4))->0), rest.skip(5)))
        } else {
            None
        }
    } else {
        None
    }
}

/// Every part is an XInput button name.
pub open spec fn all_xinput_names(parts: Seq<Seq<char>>) -> bool {
    forall|i: int| 0 <= i < parts.len() ==> (#[trigger] xinput_id_of(parts[i])) is Some
}

/// The ids of a list of XInput button names.
pub open spec fn xinput_ids_of(parts: Seq<Seq<char>>) -> Seq<u32> {
    parts.map_values(|p: Seq<char>| xinput_id_of(p)->0)
}

/// The button id a raw code segment stands for: `H<n>` is `n`, `B<a>.<b>` is
/// `a * 65536 + b` (both parts below 65536).
pub open spec fn parse_code(seg: Seq<char>) -> Option<u64> {
    if seg.len() >= 2 && seg[0] == 'H' {
        let digits = seg.skip(1);
        if all_dec(digits) && dec_val(digits) <= u64::MAX {
            Some(dec_val(digits) as u64)
        } else {
            None
        }
    } else if seg.len() >= 2 && seg[0] == 'B' {
        let ab = split_on(seg.skip(1), '.');
        if ab.len() == 2 && ab[0].len() > 0 && ab[1].len() > 0 && all_dec(ab[0]) && all_dec(ab[1])
            && dec_val(ab[0]) < 65536 && dec_val(ab[1]) < 65536 {
            Some((dec_val(ab[0]) * 65536 + dec_val(ab[1])) as u64)
        } else {
            None
        }
    } else {
        None
    }
}

/// The input a name stands for: a gamepad or joystick name whose body is a list of
/// XInput button names is an XInput combination; otherwise its last `_` segment must
/// be a raw code.
pub open spec fn parse_device_name(s: Seq<char>) -> Option<DeviceView> {
    match name_body(s) {
        None => None,
        Some((dt, body)) => {
            let parts = split_on(body, '+');
            if all_xinput_names(parts) {
                Some(DeviceView::XInputCombo { device_type: dt, button_ids: xinput_ids_of(parts) })
            } else {
                match parse_code(split_on(body, '_').last()) {
                    Some(c) => Some(DeviceView::GenericDevice { device_type: dt, button_id: c }),
                    None => None,
                }
            }
        }
    }
}

/// The button id a raw code segment stands for.
fn code_from_chars(seg: &[char]) -> (r: Option<u64>)
    ensures
        r == parse_code(seg@),
{
    if seg.len() < 2 {
        return None;
    }
    let tail = slice_from(seg, 1);
    if seg[0] == 'H' {
        parse_dec(tail.as_slice())
    } else if seg[0] == 'B' {
        let ab = split_chars(tail.as_slice(), '.');
        proof {
            assert(ab@.len() == split_on(seg@.skip(1), '.').len());
        }
        if ab.len() != 2 {
            return None;
        }
        proof {
            assert(ab@[0]@ == split_on(seg@.skip(1), '.')[0]);
            assert(ab@[1]@ == split_on(seg@.skip(1), '.')[1]);
        }
        let a = parse_dec(ab[0].as_slice());
        let b = parse_dec(ab[1].as_slice());
        match (a, b) {
            (Some(a), Some(b)) => {
                if a < 65536 && b < 65536 {
                    Some(a * 65536 + b)
                } else {
                    None
                }
            }
            _ => None,
        }
    } else {
        None
    }
}

/// The characters of `s` from `k` on.
fn slice_from(s: &[char], k: usize) -> (r: Vec<char>)
    requires
        k <= s@.len(),
    ensures
        r@ == s@.skip(k as int),
{
    let mut r: Vec<char> = Vec::new();
    let mut i: usize = k;
    while i < s.len()
        invariant
            k <= i <= s@.len(),
            r@ == s@.subrange(k as int, i as int),
        decreases s@.len() - i,
    {
        r.push(s[i]);
        assert(s@.subrange(k as int, i + 1) =~= s@.subrange(k as int, i as int).push(s@[i as int]));
        i = i + 1;
    }
    assert(s@.subrange(k as int, s@.len() as int) =~= s@.skip(k as int));
    r
}

/// The characters of `s` from `a` up to `b`.
fn slice_range(s: &[char], a: usize, b: usize) -> (r: Vec<char>)
    requires
        a <= b <= s@.len(),
    ensures
        r@ == s@.subrange(a as int, b as int),
{
    let mut r: Vec<char> = Vec::new();
    let mut i: usize = a;
    while i < b
        invariant
            a <= i <= b,
            b <= s@.len(),
            r@ == s@.subrange(a as int, i as int),
        decreases b - i,
    {
        r.push(s[i]);
        assert(s@.subrange(a as int, i + 1) =~= s@.subrange(a as int, i as int).push(s@[i as int]));
        i = i + 1;
    }
    r
}

/// The device kind and body of a gamepad or joystick input name.
fn body_of(s: &[char]) -> (r: Option<(DeviceType, Vec<char>)>)
    ensures
        match r {
            Some((dt, body)) => name_body(s@) == Some((dt, body@)),
            None => name_body(s@) is None,
        },
{
    let gp = chars_of("GAMEPAD_");
    let js = chars_of("JOYSTICK_");
    let (is_gamepad, skip): (bool, usize) = if chars_start_with(s, gp.as_slice()) {
        (true, 8)
    } else if chars_start_with(s, js.as_slice()) {
        (false, 9)
    } else {
        return None;
    };
    proof {
        reveal_strlit("GAMEPAD_");
        reveal_strlit("JOYSTICK_");
    }
    if s.len() < skip + 5 {
        return None;
    }
    let hex = slice_range(s, skip, skip + 4);
    assert(hex@ =~= s@.skip(skip as int).take(4));
    let v = match parse_hex4(hex.as_slice()) {
        Some(v) => v,
        None => return None,
    };
    if s[skip + 4] != '_' {
        return None;
    }
    let body = slice_from(s, skip + 5);
    assert(body@ =~= s@.skip(skip as int).skip(5));
    if is_gamepad {
        Some((DeviceType::Gamepad(v), body))
    } else {
        Some((DeviceType::Joystick(v), body))
    }
}

/// The input a stored name stands for (`None` when it names no gamepad input).
pub fn input_name_to_device(name: &str) -> (r: Option<InputDevice>)
    ensures
        opt_device_view(r) == parse_device_name(name@),
{
    let s = chars_of(name);
    let (dt, body) = match body_of(s.as_slice()) {
        Some(x) => x,
        None => return None,
    };
    let parts = split_chars(body.as_slice(), '+');
    let ghost pv = parts@.map_values(|p: Vec<char>| p@);
    let mut ids: Vec<u32> = Vec::new();
    let mut all = true;
    let mut i: usize = 0;
    while i < parts.len()
        invariant
            i <= parts@.len(),
            pv == parts@.map_values(|p: Vec<char>| p@),
            all ==> ids@ == xinput_ids_of(pv.subrange(0, i as int)),
            all ==> all_xinput_names(pv.subrange(0, i as int)),
            !all ==> !all_xinput_names(pv),
        decreases parts@.len() - i,
    {
        if all {
            match xinput_id_from_chars(parts[i].as_slice()) {
                Some(id) => {
                    let ghost before = pv.subrange(0, i as int);
                    ids.push(id);
                    proof {
                        let next = pv.subrange(0, i + 1);
                        assert(next =~= before.push(pv[i as int]));
                        assert(ids@ =~= xinput_ids_of(next));
                        assert(all_xinput_names(next)) by {
                            assert forall|j: int| 0 <= j < next.len() implies (#[trigger] xinput_id_of(next[j])) is Some by {
                                if j < i {
                                    assert(next[j] == before[j]);
                                }
                            }
                        }
                    }
                }
                None => {
                    all = false;
                    assert(xinput_id_of(pv[i as int]) is None);
                }
            }
        }
        i = i + 1;
    }
    assert(pv.subrange(0, pv.len() as int) =~= pv);
    if all {
        return Some(InputDevice::XInputCombo { device_type: dt, button_ids: ids });
    }
    let segs = split_chars(body.as_slice(), '_');
    proof {
        lemma_split_nonempty(body@, '_');
    }
    let last = segs.len() - 1;
    let ghost sv = segs@.map_values(|p: Vec<char>| p@);
    assert(segs@[last as int]@ == sv.last());
    match code_from_chars(segs[last].as_slice()) {
        Some(c) => Some(InputDevice::GenericDevice { device_type: dt, button_id: c }),
        None => None,
    }
}

// ---------------------------------------------------------------------------
// What is written reads back.

/// Every XInput button name reads back as its id, is not empty and holds no `+`.
pub proof fn lemma_xinput_names_read_back(id: u32)
    requires
        xinput_name(id) is Some,
    ensures
        xinput_id_of(xinput_name(id)->0) == Some(id),
        !xinput_name(id)->0.contains('+'),
        xinput_name(id)->0.len() > 0,
{
    reveal_strlit("DPad_Up");
    reveal_strlit("DPad_Down");
    reveal_strlit("DPad_Left");
    reveal_strlit("DPad_Right");
    reveal_strlit("Start");
    reveal_strlit("Back");
    reveal_strlit("LS_Click");
    reveal_strlit("RS_Click");
    reveal_strlit("LB");
    reveal_strlit("RB");
    reveal_strlit("A");
    reveal_strlit("B");
    reveal_strlit("X");
    reveal_strlit("Y");
    reveal_strlit("LS_Right");
    reveal_strlit("LS_Left");
    reveal_strlit("LS_Up");
    reveal_strlit("LS_Down");
    reveal_strlit("RS_Right");
    reveal_strlit("RS_Left");
    reveal_strlit("RS_Up");
    reveal_strlit("RS_Down");
    reveal_strlit("LT");
    reveal_strlit("RT");
    if id == 1 {
        assert(xinput_id_of("DPad_Up"@) == Some(1u32));
    }
    if id == 2 {
        assert("DPad_Down"@.len() != "DPad_Up"@.len());
        assert(xinput_id_of("DPad_Down"@) == Some(2u32));
    }
    if id == 3 {
        assert("DPad_Left"@.len() != "DPad_Up"@.len());
        assert("DPad_Left"@[5] != "DPad_Down"@[5]);
        assert(xinput_id_of("DPad_Left"@) == Some(3u32));
    }
    if id == 4 {
        assert("DPad_Right"@.len() != "DPad_Up"@.len());
        assert("DPad_Right"@.len() != "DPad_Down"@.len());
        assert("DPad_Right"@.len() != "DPad_Left"@.len());
        assert(xinput_id_of("DPad_Right"@) == Some(4u32));
    }
    if id == 5 {
        assert("Start"@.len() != "DPad_Up"@.len());
        assert("Start"@.len() != "DPad_Down"@.len());
        assert("Start"@.len() != "DPad_Left"@.len());
        assert("Start"@.len() != "DPad_Right"@.len());
        assert(xinput_id_of("Start"@) == Some(5u32));
    }
    if id == 6 {
        assert("Back"@.len() != "DPad_Up"@.len());
        assert("Back"@.len() != "DPad_Down"@.len());
        assert("Back"@.len() != "DPad_Left"@.len());
        assert("Back"@.len() != "DPad_Right"@.len());
        assert("Back"@.len() != "Start"@.len());
        assert(xinput_id_of("Back"@) == Some(6u32));
    }
    if id == 7 {
        assert("LS_Click"@.len() != "DPad_Up"@.len());
        assert("LS_Click"@.len() != "DPad_Down"@.len());
        assert("LS_Click"@.len() != "DPad_Left"@.len());
        assert("LS_Click"@.len() != "DPad_Right"@.len());
        assert("LS_Click"@.len() != "Start"@.len());
        assert("LS_Click"@.len() != "Back"@.len());
        assert(xinput_id_of("LS_Click"@) == Some(7u32));
    }
    if id == 8 {
        assert("RS_Click"@.len() != "DPad_Up"@.len());
        assert("RS_Click"@.len() != "DPad_Down"@.len());
        assert("RS_Click"@.len() != "DPad_Left"@.len());
        assert("RS_Click"@.len() != "DPad_Right"@.len());
        assert("RS_Click"@.len() != "Start"@.len());
        assert("RS_Click"@.len() != "Back"@.len());
        assert("RS_Click"@[0] != "LS_Click"@[0]);
        assert(xinput_id_of("RS_Click"@) == Some(8u32));
    }
    if id == 9 {
        assert("LB"@.len() != "DPad_Up"@.len());
        assert("LB"@.len() != "DPad_Down"@.len());
        assert("LB"@.len() != "DPad_Left"@.len());
        assert("LB"@.len() != "DPad_Right"@.len());
        assert("LB"@.len() != "Start"@.len());
        assert("LB"@.len() != "Back"@.len());
        assert("LB"@.len() != "LS_Click"@.len());
        assert("LB"@.len() != "RS_Click"@.len());
        assert(xinput_id_of("LB"@) == Some(9u32));
    }
    if id == 10 {
        assert("RB"@.len() != "DPad_Up"@.len());
        assert("RB"@.len() != "DPad_Down"@.len());
        assert("RB"@.len() != "DPad_Left"@.len());
        assert("RB"@.len() != "DPad_Right"@.len());
        assert("RB"@.len() != "Start"@.len());
        assert("RB"@.len() != "Back"@.len());
        assert("RB"@.len() != "LS_Click"@.len());
        assert("RB"@.len() != "RS_Click"@.len());
        assert("RB"@[0] != "LB"@[0]);
        assert(xinput_id_of("RB"@) == Some(10u32));
    }
    if id == 11 {
        assert("A"@.len() != "DPad_Up"@.len());
        assert("A"@.len() != "DPad_Down"@.len());
        assert("A"@.len() != "DPad_Left"@.len());
        assert("A"@.len() != "DPad_Right"@.len());
        assert("A"@.len() != "Start"@.len());
        assert("A"@.len() != "Back"@.len());
        assert("A"@.len() != "LS_Click"@.len());
        assert("A"@.len() != "RS_Click"@.len());
        assert("A"@.len() != "LB"@.len());
        assert("A"@.len() != "RB"@.len());
        assert(xinput_id_of("A"@) == Some(11u32));
    }
    if id == 12 {
        assert("B"@.len() != "DPad_Up"@.len());
        assert("B"@.len() != "DPad_Down"@.len());
        assert("B"@.len() != "DPad_Left"@.len());
        assert("B"@.len() != "DPad_Right"@.len());
        assert("B"@.len() != "Start"@.len());
        assert("B"@.len() != "Back"@.len());
        assert("B"@.len() != "LS_Click"@.len());
        assert("B"@.len() != "RS_Click"@.len());
        assert("B"@.len() != "LB"@.len());
        assert("B"@.len() != "RB"@.len());
        assert("B"@[0] != "A"@[0]);
        assert(xinput_id_of("B"@) == Some(12u32));
    }
    if id == 13 {
        assert("X"@.len() != "DPad_Up"@.len());
        assert("X"@.len() != "DPad_Down"@.len());
        assert("X"@.len() != "DPad_Left"@.len());
        assert("X"@.len() != "DPad_Right"@.len());
        assert("X"@.len() != "Start"@.len());
        assert("X"@.len() != "Back"@.len());
        assert("X"@.len() != "LS_Click"@.len());
        assert("X"@.len() != "RS_Click"@.len());
        assert("X"@.len() != "LB"@.len());
        assert("X"@.len() != "RB"@.len());
        assert("X"@[0] != "A"@[0]);
        assert("X"@[0] != "B"@[0]);
        assert(xinput_id_of("X"@) == Some(13u32));
    }
    if id == 14 {
        assert("Y"@.len() != "DPad_Up"@.len());
        assert("Y"@.len() != "DPad_Down"@.len());
        assert("Y"@.len() != "DPad_Left"@.len());
        assert("Y"@.len() != "DPad_Right"@.len());
        assert("Y"@.len() != "Start"@.len());
        assert("Y"@.len() != "Back"@.len());
        assert("Y"@.len() != "LS_Click"@.len());
        assert("Y"@.len() != "RS_Click"@.len());
        assert("Y"@.len() != "LB"@.len());
        assert("Y"@.len() != "RB"@.len());
        assert("Y"@[0] != "A"@[0]);
        assert("Y"@[0] != "B"@[0]);
        assert("Y"@[0] != "X"@[0]);
        assert(xinput_id_of("Y"@) == Some(14u32));
    }
    if id == 16 {
        assert("LS_Right"@.len() != "DPad_Up"@.len());
        assert("LS_Right"@.len() != "DPad_Down"@.len());
        assert("LS_Right"@.len() != "DPad_Left"@.len());
        assert("LS_Right"@.len() != "DPad_Right"@.len());
        assert("LS_Right"@.len() != "Start"@.len());
        assert("LS_Right"@.len() != "Back"@.len());
        assert("LS_Right"@[3] != "LS_Click"@[3]);
        assert("LS_Right"@[0] != "RS_Click"@[0]);
        assert("LS_Right"@.len() != "LB"@.len());
        assert("LS_Right"@.len() != "RB"@.len());
        assert("LS_Right"@.len() != "A"@.len());
        assert("LS_Right"@.len() != "B"@.len());
        assert("LS_Right"@.len() != "X"@.len());
        assert("LS_Right"@.len() != "Y"@.len());
        assert(xinput_id_of("LS_Right"@) == Some(16u32));
    }
    if id == 17 {
        assert("LS_Left"@[0] != "DPad_Up"@[0]);
        assert("LS_Left"@.len() != "DPad_Down"@.len());
        assert("LS_Left"@.len() != "DPad_Left"@.len());
        assert("LS_Left"@.len() != "DPad_Right"@.len());
        assert("LS_Left"@.len() != "Start"@.len());
        assert("LS_Left"@.len() != "Back"@.len());
        assert("LS_Left"@.len() != "LS_Click"@.len());
        assert("LS_Left"@.len() != "RS_Click"@.len());
        assert("LS_Left"@.len() != "LB"@.len());
        assert("LS_Left"@.len() != "RB"@.len());
        assert("LS_Left"@.len() != "A"@.len());
        assert("LS_Left"@.len() != "B"@.len());
        assert("LS_Left"@.len() != "X"@.len());
        assert("LS_Left"@.len() != "Y"@.len());
        assert("LS_Left"@.len() != "LS_Right"@.len());
        assert(xinput_id_of("LS_Left"@) == Some(17u32));
    }
    if id == 18 {
        assert("LS_Up"@.len() != "DPad_Up"@.len());
        assert("LS_Up"@.len() != "DPad_Down"@.len());
        assert("LS_Up"@.len() != "DPad_Left"@.len());
        assert("LS_Up"@.len() != "DPad_Right"@.len());
        assert("LS_Up"@[0] != "Start"@[0]);
        assert("LS_Up"@.len() != "Back"@.len());
        assert("LS_Up"@.len() != "LS_Click"@.len());
        assert("LS_Up"@.len() != "RS_Click"@.len());
        assert("LS_Up"@.len() != "LB"@.len());
        assert("LS_Up"@.len() != "RB"@.len());
        assert("LS_Up"@.len() != "A"@.len());
        assert("LS_Up"@.len() != "B"@.len());
        assert("LS_Up"@.len() != "X"@.len());
        assert("LS_Up"@.len() != "Y"@.len());
        assert("LS_Up"@.len() != "LS_Right"@.len());
        assert("LS_Up"@.len() != "LS_Left"@.len());
        assert(xinput_id_of("LS_Up"@) == Some(18u32));
    }
    if id == 19 {
        assert("LS_Down"@[0] != "DPad_Up"@[0]);
        assert("LS_Down"@.len() != "DPad_Down"@.len());
        assert("LS_Down"@.len() != "DPad_Left"@.len());
        assert("LS_Down"@.len() != "DPad_Right"@.len());
        assert("LS_Down"@.len() != "Start"@.len());
        assert("LS_Down"@.len() != "Back"@.len());
        assert("LS_Down"@.len() != "LS_Click"@.len());
        assert("LS_Down"@.len() != "RS_Click"@.len());
        assert("LS_Down"@.len() != "LB"@.len());
        assert("LS_Down"@.len() != "RB"@.len());
        assert("LS_Down"@.len() != "A"@.len());
        assert("LS_Down"@.len() != "B"@.len());
        assert("LS_Down"@.len() != "X"@.len());
        assert("LS_Down"@.len() != "Y"@.len());
        assert("LS_Down"@.len() != "LS_Right"@.len());
        assert("LS_Down"@[3] != "LS_Left"@[3]);
        assert("LS_Down"@.len() != "LS_Up"@.len());
        assert(xinput_id_of("LS_Down"@) == Some(19u32));
    }
    if id == 20 {
        assert("RS_Right"@.len() != "DPad_Up"@.len());
        assert("RS_Right"@.len() != "DPad_Down"@.len());
        assert("RS_Right"@.len() != "DPad_Left"@.len());
        assert("RS_Right"@.len() != "DPad_Right"@.len());
        assert("RS_Right"@.len() != "Start"@.len());
        assert("RS_Right"@.len() != "Back"@.len());
        assert("RS_Right"@[0] != "LS_Click"@[0]);
        assert("RS_Right"@[3] != "RS_Click"@[3]);
        assert("RS_Right"@.len() != "LB"@.len());
        assert("RS_Right"@.len() != "RB"@.len());
        assert("RS_Right"@.len() != "A"@.len());
        assert("RS_Right"@.len() != "B"@.len());
        assert("RS_Right"@.len() != "X"@.len());
        assert("RS_Right"@.len() != "Y"@.len());
        assert("RS_Right"@[0] != "LS_Right"@[0]);
        assert("RS_Right"@.len() != "LS_Left"@.len());
        assert("RS_Right"@.len() != "LS_Up"@.len());
        assert("RS_Right"@.len() != "LS_Down"@.len());
        assert(xinput_id_of("RS_Right"@) == Some(20u32));
    }
    if id == 21 {
        assert("RS_Left"@[0] != "DPad_Up"@[0]);
        assert("RS_Left"@.len() != "DPad_Down"@.len());
        assert("RS_Left"@.len() != "DPad_Left"@.len());
        assert("RS_Left"@.len() != "DPad_Right"@.len());
        assert("RS_Left"@.len() != "Start"@.len());
        assert("RS_Left"@.len() != "Back"@.len());
        assert("RS_Left"@.len() != "LS_Click"@.len());
        assert("RS_Left"@.len() != "RS_Click"@.len());
        assert("RS_Left"@.len() != "LB"@.len());
        assert("RS_Left"@.len() != "RB"@.len());
        assert("RS_Left"@.len() != "A"@.len());
        assert("RS_Left"@.len() != "B"@.len());
        assert("RS_Left"@.len() != "X"@.len());
        assert("RS_Left"@.len() != "Y"@.len());
        assert("RS_Left"@.len() != "LS_Right"@.len());
        assert("RS_Left"@[0] != "LS_Left"@[0]);
        assert("RS_Left"@.len() != "LS_Up"@.len());
        assert("RS_Left"@[0] != "LS_Down"@[0]);
        assert("RS_Left"@.len() != "RS_Right"@.len());
        assert(xinput_id_of("RS_Left"@) == Some(21u32));
    }
    if id == 22 {
        assert("RS_Up"@.len() != "DPad_Up"@.len());
        assert("RS_Up"@.len() != "DPad_Down"@.len());
        assert("RS_Up"@.len() != "DPad_Left"@.len());
        assert("RS_Up"@.len() != "DPad_Right"@.len());
        assert("RS_Up"@[0] != "Start"@[0]);
        assert("RS_Up"@.len() != "Back"@.len());
        assert("RS_Up"@.len() != "LS_Click"@.len());
        assert("RS_Up"@.len() != "RS_Click"@.len());
        assert("RS_Up"@.len() != "LB"@.len());
        assert("RS_Up"@.len() != "RB"@.len());
        assert("RS_Up"@.len() != "A"@.len());
        assert("RS_Up"@.len() != "B"@.len());
        assert("RS_Up"@.len() != "X"@.len());
        assert("RS_Up"@.len() != "Y"@.len());
        assert("RS_Up"@.len() != "LS_Right"@.len());
        assert("RS_Up"@.len() != "LS_Left"@.len());
        assert("RS_Up"@[0] != "LS_Up"@[0]);
        assert("RS_Up"@.len() != "LS_Down"@.len());
        assert("RS_Up"@.len() != "RS_Right"@.len());
        assert("RS_Up"@.len() != "RS_Left"@.len());
        assert(xinput_id_of("RS_Up"@) == Some(22u32));
    }
    if id == 23 {
        assert("RS_Down"@[0] != "DPad_Up"@[0]);
        assert("RS_Down"@.len() != "DPad_Down"@.len());
        assert("RS_Down"@.len() != "DPad_Left"@.len());
        assert("RS_Down"@.len() != "DPad_Right"@.len());
        assert("RS_Down"@.len() != "Start"@.len());
        assert("RS_Down"@.len() != "Back"@.len());
        assert("RS_Down"@.len() != "LS_Click"@.len());
        assert("RS_Down"@.len() != "RS_Click"@.len());
        assert("RS_Down"@.len() != "LB"@.len());
        assert("RS_Down"@.len() != "RB"@.len());
        assert("RS_Down"@.len() != "A"@.len());
        assert("RS_Down"@.len() != "B"@.len());
        assert("RS_Down"@.len() != "X"@.len());
        assert("RS_Down"@.len() != "Y"@.len());
        assert("RS_Down"@.len() != "LS_Right"@.len());
        assert("RS_Down"@[0] != "LS_Left"@[0]);
        assert("RS_Down"@.len() != "LS_Up"@.len());
        assert("RS_Down"@[0] != "LS_Down"@[0]);
        assert("RS_Down"@.len() != "RS_Right"@.len());
        assert("RS_Down"@[3] != "RS_Left"@[3]);
        assert("RS_Down"@.len() != "RS_Up"@.len());
        assert(xinput_id_of("RS_Down"@) == Some(23u32));
    }
    if id == 24 {
        assert("LT"@.len() != "DPad_Up"@.len());
        assert("LT"@.len() != "DPad_Down"@.len());
        assert("LT"@.len() != "DPad_Left"@.len());
        assert("LT"@.len() != "DPad_Right"@.len());
        assert("LT"@.len() != "Start"@.len());
        assert("LT"@.len() != "Back"@.len());
        assert("LT"@.len() != "LS_Click"@.len());
        assert("LT"@.len() != "RS_Click"@.len());
        assert("LT"@[1] != "LB"@[1]);
        assert("LT"@[0] != "RB"@[0]);
        assert("LT"@.len() != "A"@.len());
        assert("LT"@.len() != "B"@.len());
        assert("LT"@.len() != "X"@.len());
        assert("LT"@.len() != "Y"@.len());
        assert("LT"@.len() != "LS_Right"@.len());
        assert("LT"@.len() != "LS_Left"@.len());
        assert("LT"@.len() != "LS_Up"@.len());
        assert("LT"@.len() != "LS_Down"@.len());
        assert("LT"@.len() != "RS_Right"@.len());
        assert("LT"@.len() != "RS_Left"@.len());
        assert("LT"@.len() != "RS_Up"@.len());
        assert("LT"@.len() != "RS_Down"@.len());
        assert(xinput_id_of("LT"@) == Some(24u32));
    }
    if id == 25 {
        assert("RT"@.len() != "DPad_Up"@.len());
        assert("RT"@.len() != "DPad_Down"@.len());
        assert("RT"@.len() != "DPad_Left"@.len());
        assert("RT"@.len() != "DPad_Right"@.len());
        assert("RT"@.len() != "Start"@.len());
        assert("RT"@.len() != "Back"@.len());
        assert("RT"@.len() != "LS_Click"@.len());
        assert("RT"@.len() != "RS_Click"@.len());
        assert("RT"@[0] != "LB"@[0]);
        assert("RT"@[1] != "RB"@[1]);
        assert("RT"@.len() != "A"@.len());
        assert("RT"@.len() != "B"@.len());
        assert("RT"@.len() != "X"@.len());
        assert("RT"@.len() != "Y"@.len());
        assert("RT"@.len() != "LS_Right"@.len());
        assert("RT"@.len() != "LS_Left"@.len());
        assert("RT"@.len() != "LS_Up"@.len());
        assert("RT"@.len() != "LS_Down"@.len());
        assert("RT"@.len() != "RS_Right"@.len());
        assert("RT"@.len() != "RS_Left"@.len());
        assert("RT"@.len() != "RS_Up"@.len());
        assert("RT"@.len() != "RS_Down"@.len());
        assert("RT"@[0] != "LT"@[0]);
        assert(xinput_id_of("RT"@) == Some(25u32));
    }
    let n = xinput_name(id)->0;
    assert(!n.contains('+')) by {
        if n.contains('+') {
            let k = choose|k: int| 0 <= k < n.len() && n[k] == '+';
            assert(n[k] != '+');
        }
    }
}

/// No string starting with `H` is an XInput button name.
pub proof fn lemma_h_is_no_button(s: Seq<char>)
    requires
        s.len() > 0,
        s[0] == 'H',
    ensures
        xinput_id_of(s) is None,
{
    reveal_strlit("DPad_Up");
    reveal_strlit("DPad_Down");
    reveal_strlit("DPad_Left");
    reveal_strlit("DPad_Right");
    reveal_strlit("Start");
    reveal_strlit("Back");
    reveal_strlit("LS_Click");
    reveal_strlit("RS_Click");
    reveal_strlit("LB");
    reveal_strlit("RB");
    reveal_strlit("A");
    reveal_strlit("B");
    reveal_strlit("X");
    reveal_strlit("Y");
    reveal_strlit("LS_Right");
    reveal_strlit("LS_Left");
    reveal_strlit("LS_Up");
    reveal_strlit("LS_Down");
    reveal_strlit("RS_Right");
    reveal_strlit("RS_Left");
    reveal_strlit("RS_Up");
    reveal_strlit("RS_Down");
    reveal_strlit("LT");
    reveal_strlit("RT");
}

/// Cutting at `sep` a string that holds no `sep` gives the string itself.
pub proof fn lemma_split_plain(s: Seq<char>, sep: char)
    requires
        !s.contains(sep),
    ensures
        split_on(s, sep) == seq![s],
    decreases s.len(),
{
    if s.len() > 0 {
        assert(!s.drop_last().contains(sep)) by {
            if s.drop_last().contains(sep) {
                let k = choose|k: int| 0 <= k < s.drop_last().len() && s.drop_last()[k] == sep;
                assert(s[k] == sep);
            }
        }
        lemma_split_plain(s.drop_last(), sep);
        assert(s.last() != sep) by {
            if s.last() == sep {
                assert(s[s.len() - 1] == sep);
            }
        }
        assert(s.drop_last().push(s.last()) =~= s);
        assert(seq![s.drop_last()].update(0, s.drop_last().push(s.last())) =~= seq![s]);
    } else {
        assert(s =~= Seq::<char>::empty());
    }
}

/// Cutting `a + sep + t`, where `t` holds no `sep`, gives the parts of `a` and then `t`.
pub proof fn lemma_split_append(a: Seq<char>, sep: char, t: Seq<char>)
    requires
        !t.contains(sep),
    ensures
        split_on(a + seq![sep] + t, sep) == split_on(a, sep).push(t),
    decreases t.len(),
{
    if t.len() == 0 {
        assert(t =~= Seq::<char>::empty());
        assert(a + seq![sep] + t =~= a.push(sep));
        assert((a + seq![sep] + t).drop_last() =~= a);
    } else {
        assert(!t.drop_last().contains(sep)) by {
            if t.drop_last().contains(sep) {
                let k = choose|k: int| 0 <= k < t.drop_last().len() && t.drop_last()[k] == sep;
                assert(t[k] == sep);
            }
        }
        lemma_split_append(a, sep, t.drop_last());
        let s = a + seq![sep] + t;
        assert(s.drop_last() =~= a + seq![sep] + t.drop_last());
        assert(s.last() == t.last());
        assert(t.last() != sep) by {
            if t.last() == sep {
                assert(t[t.len() - 1] == sep);
            }
        }
        let rest = split_on(s.drop_last(), sep);
        lemma_split_nonempty(a, sep);
        assert(t.drop_last().push(t.last()) =~= t);
        assert(rest == split_on(a, sep).push(t.drop_last()));
        assert(rest.last() == t.drop_last());
        assert(rest.update(rest.len() - 1, rest.last().push(s.last())) =~= split_on(a, sep).push(t));
    }
}

/// Cutting names joined with `sep` gives the names back, when none holds `sep` and
/// there is at least one.
pub proof fn lemma_split_join(parts: Seq<Seq<char>>, sep: char)
    requires
        parts.len() > 0,
        forall|i: int| 0 <= i < parts.len() ==> !(#[trigger] parts[i]).contains(sep),
    ensures
        split_on(join_with(parts, seq![sep]), sep) == parts,
    decreases parts.len(),
{
    if parts.len() == 1 {
        assert(join_with(parts, seq![sep]) == parts[0]);
        lemma_split_plain(parts[0], sep);
        assert(seq![parts[0]] =~= parts);
    } else {
        let init = parts.drop_last();
        assert forall|i: int| 0 <= i < init.len() implies !(#[trigger] init[i]).contains(sep) by {
            assert(init[i] == parts[i]);
        }
        lemma_split_join(init, sep);
        assert(!parts.last().contains(sep)) by {
            assert(parts.last() == parts[parts.len() - 1]);
        }
        lemma_split_append(join_with(init, seq![sep]), sep, parts.last());
        assert(init.push(parts.last()) =~= parts);
    }
}

/// The digits of `n` are decimal digits, read back as `n`, and hold neither `+` nor `_`.
pub proof fn lemma_dec_round_trip(n: nat)
    ensures
        all_dec(dec_str(n)),
        dec_val(dec_str(n)) == n,
        dec_str(n).len() > 0,
        !dec_str(n).contains('+'),
        !dec_str(n).contains('_'),
    decreases n,
{
    let s = dec_str(n);
    if n < 10 {
        assert(s =~= seq![dec_char(n)]);
        assert(dec_digit_val(dec_char(n)) == Some(n));
        assert(s.drop_last() =~= Seq::<char>::empty());
        assert(s.last() == dec_char(n));
        assert(dec_val(s) == dec_val(s.drop_last()) * 10 + n);
        assert(!s.contains('+') && !s.contains('_')) by {
            if s.contains('+') || s.contains('_') {
                let k = choose|k: int| 0 <= k < s.len() && (s[k] == '+' || s[k] == '_');
                assert(s[k] == dec_char(n));
            }
        }
    } else {
        lemma_dec_round_trip(n / 10);
        let p = dec_str(n / 10);
        assert(s == p.push(dec_char(n % 10)));
        assert(s.drop_last() =~= p);
        assert(dec_digit_val(dec_char(n % 10)) == Some(n % 10));
        assert(s.last() == dec_char(n % 10));
        assert(dec_val(s) == dec_val(p) * 10 + n % 10);
        assert(all_dec(s)) by {
            assert forall|i: int| 0 <= i < s.len() implies (#[trigger] dec_digit_val(s[i])) is Some by {
                if i < p.len() {
                    assert(s[i] == p[i]);
                }
            }
        }
        assert(!s.contains('+') && !s.contains('_')) by {
            if s.contains('+') || s.contains('_') {
                let k = choose|k: int| 0 <= k < s.len() && (s[k] == '+' || s[k] == '_');
                if k < p.len() {
                    assert(s[k] == p[k]);
                    assert(p.contains(s[k]));
                } else {
                    assert(s[k] == dec_char(n % 10));
                }
            }
        }
    }
}

/// A hex digit reads back as its value.
proof fn lemma_hex_char_round_trip(d: nat)
    requires
        d < 16,
    ensures
        hex_digit_val(hex_char(d)) == Some(d),
{
}

/// Four hex digits read back as the value they were written from.
pub proof fn lemma_hex4_round_trip(v: u16)
    ensures
        hex4_val(hex4(v)) == Some(v),
{
    let x = v as nat;
    assert(((v / 4096) % 16) * 4096 + ((v / 256) % 16) * 256 + ((v / 16) % 16) * 16 + v % 16 == v) by (bit_vector);
    assert((v / 4096) % 16 < 16 && (v / 256) % 16 < 16 && (v / 16) % 16 < 16 && v % 16 < 16) by (bit_vector);
    let a = (x / 4096) % 16;
    let b = (x / 256) % 16;
    let c = (x / 16) % 16;
    let d = x % 16;
    lemma_hex_char_round_trip(a);
    lemma_hex_char_round_trip(b);
    lemma_hex_char_round_trip(c);
    lemma_hex_char_round_trip(d);
    let h = hex4(v);
    assert(h[0] == hex_char(a) && h[1] == hex_char(b) && h[2] == hex_char(c) && h[3] == hex_char(d));
    assert(a * 4096 + b * 256 + c * 16 + d == x);
}

/// The inputs whose names read back: XInput combinations of named buttons and raw
/// inputs, both from a gamepad or joystick.
pub open spec fn readable_device(d: DeviceView) -> bool {
    match d {
        DeviceView::XInputCombo { device_type, button_ids } => {
            &&& (device_type is Gamepad || device_type is Joystick)
            &&& button_ids.len() > 0
            &&& forall|i: int| 0 <= i < button_ids.len() ==> (#[trigger] xinput_name(button_ids[i])) is Some
        },
        DeviceView::GenericDevice { device_type, .. } => device_type is Gamepad || device_type is Joystick,
        _ => false,
    }
}

proof fn lemma_body_reads_back(dt: DeviceType, body: Seq<char>)
    requires
        dt is Gamepad || dt is Joystick,
    ensures
        name_body(type_prefix(dt) + hex4(type_vid(dt)) + "_"@ + body) == Some((dt, body)),
{
    reveal_strlit("GAMEPAD_");
    reveal_strlit("JOYSTICK_");
    reveal_strlit("_");
    lemma_hex4_round_trip(type_vid(dt));
    let s = type_prefix(dt) + hex4(type_vid(dt)) + "_"@ + body;
    let k: int = if dt is Gamepad { 8 } else { 9 };
    assert(s.subrange(0, k) =~= type_prefix(dt));
    assert(s.skip(k) =~= hex4(type_vid(dt)) + "_"@ + body);
    assert(s.skip(k).take(4) =~= hex4(type_vid(dt)));
    assert(s.skip(k).skip(5) =~= body);
    if dt is Joystick {
        assert(!seq_starts_with(s, "GAMEPAD_"@)) by {
            assert(s[0] == 'J');
        }
    }
}

/// What a name is written as reads back as the same input.
pub proof fn law_device_name_round_trip(d: DeviceView)
    requires
        readable_device(d),
    ensures
        parse_device_name(device_name(d)) == Some(d),
{
    reveal_strlit("_H");
    reveal_strlit("+");
    reveal_strlit("_");
    match d {
        DeviceView::XInputCombo { device_type, button_ids } => {
            let labels = xinput_labels(button_ids);
            assert forall|i: int| 0 <= i < labels.len() implies !(#[trigger] labels[i]).contains('+') by {
                lemma_xinput_names_read_back(button_ids[i]);
            }
            let body = join_with(labels, "+"@);
            assert("+"@ =~= seq!['+']);
            lemma_split_join(labels, '+');
            lemma_body_reads_back(device_type, body);
            assert(all_xinput_names(labels)) by {
                assert forall|i: int| 0 <= i < labels.len() implies (#[trigger] xinput_id_of(labels[i])) is Some by {
                    lemma_xinput_names_read_back(button_ids[i]);
                }
            }
            assert(xinput_ids_of(labels) =~= button_ids) by {
                assert forall|i: int| 0 <= i < button_ids.len() implies xinput_ids_of(labels)[i] == button_ids[i] by {
                    lemma_xinput_names_read_back(button_ids[i]);
                }
            }
        },
        DeviceView::GenericDevice { device_type, button_id } => {
            let digits = dec_str(button_id as nat);
            lemma_dec_round_trip(button_id as nat);
            let body = seq!['H'] + digits;
            assert("_H"@ + digits =~= "_"@ + body) by {
                reveal_strlit("_");
            }
            assert(device_name(d) =~= type_prefix(device_type) + hex4(type_vid(device_type)) + "_"@ + body);
            lemma_body_reads_back(device_type, body);
            assert(!body.contains('+') && !body.contains('_')) by {
                if body.contains('+') || body.contains('_') {
                    let k = choose|k: int| 0 <= k < body.len() && (body[k] == '+' || body[k] == '_');
                    if k > 0 {
                        assert(body[k] == digits[k - 1]);
                        assert(digits.contains(body[k]));
                    }
                }
            }
            lemma_split_plain(body, '+');
            lemma_split_plain(body, '_');
            lemma_h_is_no_button(body);
            assert(!all_xinput_names(seq![body])) by {
                assert(xinput_id_of(seq![body][0]) is None);
            }
            assert(body.skip(1) =~= digits);
            assert(parse_code(body) == Some(button_id));
        },
        _ => {},
    }
}

} // verus!
