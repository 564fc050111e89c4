//! Reading and writing the mapping that belongs to each gamepad slot.
//!
//! A slot's mapping is found by its system note (`手柄<label>（系统）`) and by nothing
//! else: matching by the default XInput name as well would let one physical key fire two
//! mappings.

use vstd::prelude::*;
use crate::config::AppConfig;
use crate::config::ConfigView;
use crate::config::KeyMapping;
use crate::config::MappingView;
use crate::config::mapping_views;
use crate::config::string_views;
use crate::config::join_with;
use crate::config::push_str_chars;
use crate::device::DeviceType;
use crate::device::DeviceView;
use crate::device::InputDevice;
use crate::device::hex4;
use crate::device::parse_device_name;
use crate::device::input_name_to_device;
use crate::device::push_hex4;
use crate::device::split_on;
use crate::device::split_chars;
use crate::keys::TargetKeys;
use crate::seq_util::first_index_where;
use crate::seq_util::is_first_where;
use crate::seq_util::lemma_first_index_at;
use crate::seq_util::lemma_first_index_none;
use crate::slots::GamepadSlot;
use crate::slots::get_slot;
use crate::slots::slot_table;
use crate::slots::SLOT_COUNT;
use crate::text::chars_of;
use crate::text::chars_eq;
use crate::text::chars_start_with;
use crate::text::owned;
use crate::text::push_char;
use crate::text::seq_starts_with;
use crate::text::str_eq;
use crate::text::string_from_chars;

verus! {

// ---------------------------------------------------------------------------
// Names.

/// A trigger name without its device prefix: a raw name
/// `GAMEPAD_<vid>_<pid>_DEV<serial>_<code...>` keeps what follows the serial, another
/// gamepad name drops `GAMEPAD_`, any other name stays as it is.
pub open spec fn short_trigger_spec(s: Seq<char>) -> Seq<char> {
    if seq_starts_with(s, "GAMEPAD_"@) {
        let rest = s.skip(8);
        let parts = split_on(rest, '_');
        if parts.len() >= 4 && seq_starts_with(parts[2], "DEV"@) {
            join_with(parts.skip(3), "_"@)
        } else {
            rest
        }
    } else {
        s
    }
}

/// The parts from `from` on, joined with `sep`.
fn join_parts_from(parts: &Vec<Vec<char>>, from: usize, sep: char) -> (r: String)
    requires
        from <= parts@.len(),
    ensures
        r@ == join_with(parts@.map_values(|p: Vec<char>| p@).skip(from as int), seq![sep]),
{
    let ghost all = parts@.map_values(|p: Vec<char>| p@);
    let mut r = String::new();
    let mut i: usize = from;
    assert(all.subrange(from as int, from as int) =~= Seq::<Seq<char>>::empty());
    while i < parts.len()
        invariant
            from <= i <= parts@.len(),
            all == parts@.map_values(|p: Vec<char>| p@),
            r@ == join_with(all.subrange(from as int, i as int), seq![sep]),
        decreases parts@.len() - i,
    {
        let ghost before = all.subrange(from as int, i as int);
        let ghost now = all.subrange(from as int, i + 1);
        assert(now.drop_last() =~= before);
        assert(now.last() == parts@[i as int]@);
        if i > from {
            push_char(&mut r, sep);
        }
        let piece = string_from_chars(parts[i].as_slice());
        push_str_chars(&mut r, piece.as_str());
        proof {
            if i == from {
                assert(now =~= seq![parts@[i as int]@]);
            }
            assert(r@ =~= join_with(now, seq![sep]));
        }
        i = i + 1;
    }
    assert(all.subrange(from as int, parts@.len() as int) =~= all.skip(from as int));
    r
}

/// A trigger name without its device prefix, for listing calibrated keys.
pub fn short_trigger_name(name: &str) -> (r: String)
    ensures
        r@ == short_trigger_spec(name@),
{
    let s = chars_of(name);
    let gp = chars_of("GAMEPAD_");
    if !chars_start_with(s.as_slice(), gp.as_slice()) {
        return owned(name);
    }
    proof {
        reveal_strlit("GAMEPAD_");
        reveal_strlit("DEV");
        reveal_strlit("_");
    }
    let mut rest: Vec<char> = Vec::new();
    let mut i: usize = 8;
    while i < s.len()
        invariant
            8 <= i <= s@.len(),
            rest@ == s@.subrange(8, i as int),
        decreases s@.len() - i,
    {
        rest.push(s[i]);
        assert(s@.subrange(8, i + 1) =~= s@.subrange(8, i as int).push(s@[i as int]));
        i = i + 1;
    }
    assert(rest@ =~= s@.skip(8));
    let parts = split_chars(rest.as_slice(), '_');
    let ghost pv = parts@.map_values(|p: Vec<char>| p@);
    let dev = chars_of("DEV");
    assert("_"@ =~= seq!['_']);
    if parts.len() >= 4 {
        assert(parts@[2]@ == pv[2]);
        if chars_start_with(parts[2].as_slice(), dev.as_slice()) {
            return join_parts_from(&parts, 3, '_');
        }
    }
    string_from_chars(rest.as_slice())
}

/// A slot's system note, the key its mapping is found by.
pub open spec fn slot_note_spec(label: Seq<char>) -> Seq<char> {
    "手柄"@ + label + "（系统）"@
}

/// The note format of earlier versions.
pub open spec fn legacy_note_spec(label: Seq<char>) -> Seq<char> {
    "手柄·"@ + label
}

/// A slot's system note.
pub fn slot_note(label: &str) -> (r: String)
    ensures
        r@ == slot_note_spec(label@),
{
    let mut r = owned("手柄");
    push_str_chars(&mut r, label);
    push_str_chars(&mut r, "（系统）");
    r
}

/// A slot's note in the format of earlier versions.
pub fn legacy_slot_note(label: &str) -> (r: String)
    ensures
        r@ == legacy_note_spec(label@),
{
    let mut r = owned("手柄·");
    push_str_chars(&mut r, label);
    r
}

/// The mapping has note `n`.
pub open spec fn note_is(n: Seq<char>) -> spec_fn(MappingView) -> bool {
    |m: MappingView| m.note == n
}

/// The index of the mapping of the slot labelled `label`.
pub open spec fn slot_index(ms: Seq<MappingView>, label: Seq<char>) -> Option<int> {
    first_index_where(ms, note_is(slot_note_spec(label)))
}

/// The index of the first mapping with note `note`.
fn index_of_note(ms: &Vec<KeyMapping>, note: &str) -> (r: Option<usize>)
    ensures
        match r {
            None => first_index_where(mapping_views(ms@), note_is(note@)) is None,
            Some(j) => first_index_where(mapping_views(ms@), note_is(note@)) == Some(j as int),
        },
        r matches Some(i) ==> i < ms@.len() && ms@[i as int].note@ == note@,
{
    let ghost vs = mapping_views(ms@);
    let mut i: usize = 0;
    while i < ms.len()
        invariant
            vs == mapping_views(ms@),
            i <= ms@.len(),
            forall|j: int| 0 <= j < i ==> !(note_is(note@))(#[trigger] vs[j]),
        decreases ms@.len() - i,
    {
        if str_eq(ms[i].note.as_str(), note) {
            proof {
                assert(is_first_where(vs, note_is(note@), i as int));
                lemma_first_index_at(vs, note_is(note@), i as int);
            }
            return Some(i);
        }
        i = i + 1;
    }
    proof {
        lemma_first_index_none(vs, note_is(note@));
    }
    None
}

/// The index of the slot's mapping, found by its system note only.
pub fn find_slot_mapping_index(config: &AppConfig, slot: &GamepadSlot) -> (r: Option<usize>)
    ensures
        match r {
            None => slot_index(config@.mappings, slot@.label) is None,
            Some(j) => slot_index(config@.mappings, slot@.label) == Some(j as int),
        },
        r matches Some(i) ==> i < config@.mappings.len(),
{
    let note = slot_note(slot.label);
    index_of_note(&config.mappings, note.as_str())
}

// ---------------------------------------------------------------------------
// Matching live input.

/// A character in upper case (ASCII letters only).
pub open spec fn upper_char(c: char) -> char {
    if 'a' <= c && c <= 'z' { ((c as u32) - 32) as char } else { c }
}

/// A string in upper case (ASCII letters only).
pub open spec fn upper(s: Seq<char>) -> Seq<char> {
    s.map_values(|c: char| upper_char(c))
}

fn upper_char_exec(c: char) -> (r: char)
    ensures
        r == upper_char(c),
{
    if 'a' <= c && c <= 'z' {
        match c {
            'a' => 'A', 'b' => 'B', 'c' => 'C', 'd' => 'D', 'e' => 'E', 'f' => 'F', 'g' => 'G',
            'h' => 'H', 'i' => 'I', 'j' => 'J', 'k' => 'K', 'l' => 'L', 'm' => 'M', 'n' => 'N',
            'o' => 'O', 'p' => 'P', 'q' => 'Q', 'r' => 'R', 's' => 'S', 't' => 'T', 'u' => 'U',
            'v' => 'V', 'w' => 'W', 'x' => 'X', 'y' => 'Y', _ => 'Z',
        }
    } else {
        c
    }
}

/// `s` in upper case.
fn upper_chars(s: &[char]) -> (r: Vec<char>)
    ensures
        r@ == upper(s@),
{
    let mut r: Vec<char> = Vec::new();
    let mut i: usize = 0;
    while i < s.len()
        invariant
            i <= s@.len(),
            r@ == upper(s@.subrange(0, i as int)),
        decreases s@.len() - i,
    {
        r.push(upper_char_exec(s[i]));
        assert(upper(s@.subrange(0, i + 1)) =~= upper(s@.subrange(0, i as int)).push(upper_char(s@[i as int])));
        i = i + 1;
    }
    assert(s@.subrange(0, s@.len() as int) =~= s@);
    r
}

/// The name prefix of the raw inputs of device `vid:pid`.
pub open spec fn raw_prefix(vid: u16, pid: u16) -> Seq<char> {
    "GAMEPAD_"@ + hex4(vid) + "_"@ + hex4(pid) + "_"@
}

/// Whether a trigger names the raw bit position `pos` (not 0) of device `vid:pid`:
/// its name (in upper case) starts with the device's prefix and it reads as a raw
/// input whose low 32 bits are `pos`.
pub open spec fn matches_raw_spec(trigger: Seq<char>, vid: u16, pid: u16, pos: u32) -> bool {
    &&& pos != 0
    &&& seq_starts_with(upper(trigger), raw_prefix(vid, pid))
    &&& parse_device_name(trigger) matches Some(DeviceView::GenericDevice { button_id, .. })
        && button_id % 0x1_0000_0000 == pos
}

/// Whether a trigger names the raw bit position `pos` of device `vid:pid`.
pub fn trigger_matches_raw(trigger: &str, vid: u16, pid: u16, pos: u32) -> (r: bool)
    ensures
        r == matches_raw_spec(trigger@, vid, pid, pos),
{
    if pos == 0 {
        return false;
    }
    let t = chars_of(trigger);
    let up = upper_chars(t.as_slice());
    let mut prefix = owned("GAMEPAD_");
    push_hex4(&mut prefix, vid);
    push_char(&mut prefix, '_');
    push_hex4(&mut prefix, pid);
    push_char(&mut prefix, '_');
    proof {
        reveal_strlit("_");
        assert(prefix@ =~= raw_prefix(vid, pid));
    }
    let p = chars_of(prefix.as_str());
    if !chars_start_with(up.as_slice(), p.as_slice()) {
        return false;
    }
    match input_name_to_device(trigger) {
        Some(InputDevice::GenericDevice { button_id, .. }) => button_id % 0x1_0000_0000 == pos as u64,
        _ => false,
    }
}

/// Whether every id of `ids` is set in `mask`.
pub open spec fn all_ids_in_mask(ids: Seq<u32>, mask: u32) -> bool {
    forall|i: int| 0 <= i < ids.len() ==> mask & (1u32 << (#[trigger] ids[i] & 31u32)) != 0
}

/// The vendor id of a gamepad or joystick.
pub open spec fn pad_vendor(dt: DeviceType) -> Option<u16> {
    match dt {
        DeviceType::Gamepad(v) => Some(v),
        DeviceType::Joystick(v) => Some(v),
        _ => None,
    }
}

/// Whether a trigger's XInput buttons are all down in the live XInput bitmap `mask`
/// (bit `id` set: input `id` is down), on a device of vendor `vid`.
pub open spec fn matches_xinput_spec(trigger: Seq<char>, vid: u16, mask: u32) -> bool {
    &&& mask != 0
    &&& parse_device_name(trigger) matches Some(DeviceView::XInputCombo { device_type, button_ids })
        && pad_vendor(device_type) == Some(vid)
        && button_ids.len() > 0
        && all_ids_in_mask(button_ids, mask)
}

/// Whether a trigger's XInput buttons are all down in the live bitmap.
pub fn trigger_matches_xinput(trigger: &str, vid: u16, mask: u32) -> (r: bool)
    ensures
        r == matches_xinput_spec(trigger@, vid, mask),
{
    if mask == 0 {
        return false;
    }
    let (device_type, ids) = match input_name_to_device(trigger) {
        Some(InputDevice::XInputCombo { device_type, button_ids }) => (device_type, button_ids),
        _ => return false,
    };
    let v = match device_type {
        DeviceType::Gamepad(v) => v,
        DeviceType::Joystick(v) => v,
        _ => return false,
    };
    if v != vid || ids.len() == 0 {
        return false;
    }
    let mut i: usize = 0;
    assert(matches_xinput_spec(trigger@, vid, mask) == all_ids_in_mask(ids@, mask));
    while i < ids.len()
        invariant
            i <= ids@.len(),
            matches_xinput_spec(trigger@, vid, mask) == all_ids_in_mask(ids@, mask),
            forall|k: int| 0 <= k < i ==> mask & (1u32 << (#[trigger] ids@[k] & 31u32)) != 0,
        decreases ids@.len() - i,
    {
        let id = ids[i];
        assert((id & 31u32) < 32u32) by (bit_vector);
        if mask & (1u32 << (id & 31u32)) == 0 {
            assert(!all_ids_in_mask(ids@, mask)) by {
                assert(mask & (1u32 << (ids@[i as int] & 31u32)) == 0);
            }
            return false;
        }
        i = i + 1;
    }
    true
}

/// A gamepad slot whose trigger was written for an XInput button combination of the
/// pad with vendor `vid` is live exactly when the live bitmap is not empty and has every
/// one of its buttons down.
pub proof fn law_written_combo_matches_live_bitmap(device_type: DeviceType, ids: Seq<u32>, vid: u16, mask: u32)
    requires
        pad_vendor(device_type) == Some(vid),
        crate::device::readable_device(DeviceView::XInputCombo { device_type, button_ids: ids }),
    ensures
        matches_xinput_spec(
            crate::device::device_name(DeviceView::XInputCombo { device_type, button_ids: ids }),
            vid,
            mask,
        ) == (mask != 0 && all_ids_in_mask(ids, mask)),
{
    crate::device::law_device_name_round_trip(DeviceView::XInputCombo { device_type, button_ids: ids });
}

/// Which slot the raw channel newly presses: nothing when no bit position is down or
/// the position did not change; otherwise the slot reported is lit by the position and
/// no slot with a lower id is, and when nothing is reported no slot is lit.
pub proof fn law_newly_pressed_raw(ms: Seq<MappingView>, prev_pos: u32, vid: u16, pid: u16, pos: u32)
    ensures
        (pos == 0 || pos == prev_pos) ==> newly_pressed_raw_spec(ms, prev_pos, vid, pid, pos) is None,
        match newly_pressed_raw_spec(ms, prev_pos, vid, pid, pos) {
            Some(id) => {
                &&& pos != 0 && pos != prev_pos
                &&& 0 <= id < SLOT_COUNT
                &&& slot_live_raw_spec(ms, id, vid, pid, pos)
                &&& forall|j: int| 0 <= j < id ==> !#[trigger] slot_live_raw_spec(ms, j, vid, pid, pos)
            },
            None => pos != 0 && pos != prev_pos ==> forall|j: int| 0 <= j < SLOT_COUNT
                ==> !#[trigger] slot_live_raw_spec(ms, j, vid, pid, pos),
        },
{
    let p = |id: int| slot_live_raw_spec(ms, id, vid, pid, pos);
    lemma_first_slot_from(p, 0);
    match first_slot_from(p, 0) {
        Some(id) => {
            assert forall|j: int| 0 <= j < id implies !#[trigger] slot_live_raw_spec(ms, j, vid, pid, pos) by {
                assert(!p(j));
            }
        },
        None => {
            assert forall|j: int| 0 <= j < SLOT_COUNT implies !#[trigger] slot_live_raw_spec(ms, j, vid, pid, pos) by {
                assert(!p(j));
            }
        },
    }
}

/// Which slot the XInput bitmap newly presses: the slot reported is live in `mask`
/// and was not already live in the previous bitmap of the same device, and no slot
/// with a lower id is live now without having been live before; when nothing is
/// reported, every slot live now was already live in the previous bitmap of the same
/// device.
pub proof fn law_newly_pressed_xinput(ms: Seq<MappingView>, vid: u16, mask: u32, prev: Option<(u16, u32)>)
    ensures
        match newly_pressed_xinput_spec(ms, vid, mask, prev) {
            Some(id) => {
                &&& 0 <= id < SLOT_COUNT
                &&& slot_live_xinput_spec(ms, id, vid, mask)
                &&& !(prev matches Some((pv, pm)) && pv == vid && slot_live_xinput_spec(ms, id, vid, pm))
                &&& forall|j: int| 0 <= j < id && #[trigger] slot_live_xinput_spec(ms, j, vid, mask)
                    ==> (prev matches Some((pv, pm)) && pv == vid && slot_live_xinput_spec(ms, j, vid, pm))
            },
            None => forall|j: int| 0 <= j < SLOT_COUNT && #[trigger] slot_live_xinput_spec(ms, j, vid, mask)
                ==> (prev matches Some((pv, pm)) && pv == vid && slot_live_xinput_spec(ms, j, vid, pm)),
        },
{
    let p = |id: int| slot_live_xinput_spec(ms, id, vid, mask) && !(prev matches Some((pv, pm))
        && pv == vid && slot_live_xinput_spec(ms, id, vid, pm));
    lemma_first_slot_from(p, 0);
    assert(newly_pressed_xinput_spec(ms, vid, mask, prev) == first_slot_from(p, 0));
    match first_slot_from(p, 0) {
        Some(id) => {
            assert(p(id));
            assert forall|j: int| 0 <= j < id && #[trigger] slot_live_xinput_spec(ms, j, vid, mask)
                implies (prev matches Some((pv, pm)) && pv == vid && slot_live_xinput_spec(ms, j, vid, pm)) by {
                assert(!p(j));
            }
        },
        None => {
            assert forall|j: int| 0 <= j < SLOT_COUNT && #[trigger] slot_live_xinput_spec(ms, j, vid, mask)
                implies (prev matches Some((pv, pm)) && pv == vid && slot_live_xinput_spec(ms, j, vid, pm)) by {
                assert(!p(j));
            }
        },
    }
}

/// Whether a virtual key is a mouse button (left, right, middle, X1, X2); the gamepad
/// page's key capture leaves these out.
pub fn is_mouse_vk(vk: u32) -> (r: bool)
    ensures
        r == (vk == 0x01 || vk == 0x02 || vk == 0x04 || vk == 0x05 || vk == 0x06),
{
    vk == 0x01 || vk == 0x02 || vk == 0x04 || vk == 0x05 || vk == 0x06
}

// ---------------------------------------------------------------------------
// Key combinations.

/// The non-empty parts of `s` cut at `sep`.
pub open spec fn nonempty_parts(s: Seq<char>, sep: char) -> Seq<Seq<char>> {
    split_on(s, sep).filter(|p: Seq<char>| p.len() > 0)
}

/// `s` with every repeated element after its first occurrence removed.
pub open spec fn dedup_keep_first(s: Seq<Seq<char>>) -> Seq<Seq<char>>
    decreases s.len(),
{
    if s.len() == 0 {
        s
    } else {
        let d = dedup_keep_first(s.drop_last());
        if d.contains(s.last()) {
            d
        } else {
            d.push(s.last())
        }
    }
}

/// A key combination with empty parts and repeated keys dropped (first occurrence
/// kept), joined with `+`.
pub open spec fn normalized_combo(s: Seq<char>) -> Seq<char> {
    join_with(dedup_keep_first(nonempty_parts(s, '+')), "+"@)
}

/// The keys of a `+`-joined target combination, in upper case, repeats kept (a
/// repeated key is pressed again in sequence).
pub open spec fn target_list(s: Seq<char>) -> Seq<Seq<char>> {
    nonempty_parts(s, '+').map_values(|p: Seq<char>| upper(p))
}

/// Whether `v` holds a part equal to `p`.
fn parts_contain(v: &Vec<Vec<char>>, p: &Vec<char>) -> (r: bool)
    ensures
        r == v@.map_values(|x: Vec<char>| x@).contains(p@),
{
    let ghost vv = v@.map_values(|x: Vec<char>| x@);
    let mut i: usize = 0;
    while i < v.len()
        invariant
            i <= v@.len(),
            vv == v@.map_values(|x: Vec<char>| x@),
            forall|k: int| 0 <= k < i ==> vv[k] != p@,
        decreases v@.len() - i,
    {
        if chars_eq(v[i].as_slice(), p.as_slice()) {
            assert(vv[i as int] == p@);
            return true;
        }
        i = i + 1;
    }
    false
}

/// The non-empty parts of `s` cut at `sep`, each once when `dedup` holds.
fn clean_parts(s: &[char], sep: char, dedup: bool) -> (r: Vec<Vec<char>>)
    ensures
        r@.map_values(|x: Vec<char>| x@) == (if dedup {
            dedup_keep_first(nonempty_parts(s@, sep))
        } else {
            nonempty_parts(s@, sep)
        }),
{
    let parts = split_chars(s, sep);
    let ghost pv = parts@.map_values(|x: Vec<char>| x@);
    let ghost keep = |p: Seq<char>| p.len() > 0;
    let mut r: Vec<Vec<char>> = Vec::new();
    let mut i: usize = 0;
    assert(pv.subrange(0, 0).filter(keep) =~= Seq::<Seq<char>>::empty()) by {
        reveal(Seq::filter);
    }
    while i < parts.len()
        invariant
            i <= parts@.len(),
            pv == parts@.map_values(|x: Vec<char>| x@),
            pv == split_on(s@, sep),
            keep == (|p: Seq<char>| p.len() > 0),
            r@.map_values(|x: Vec<char>| x@) == (if dedup {
                dedup_keep_first(pv.subrange(0, i as int).filter(keep))
            } else {
                pv.subrange(0, i as int).filter(keep)
            }),
        decreases parts@.len() - i,
    {
        let ghost before = pv.subrange(0, i as int);
        let ghost rv = r@.map_values(|x: Vec<char>| x@);
        assert(pv.subrange(0, i + 1) =~= before.push(pv[i as int]));
        proof {
            before.lemma_filter_push(pv[i as int], keep);
        }
        assert(parts@[i as int]@ == pv[i as int]);
        let ghost f = before.filter(keep);
        if parts[i].len() > 0 {
            assert(keep(pv[i as int]));
            assert(pv.subrange(0, i + 1).filter(keep) == f.push(pv[i as int]));
            assert(f.push(pv[i as int]).drop_last() =~= f);
            let dup = dedup && parts_contain(&r, &parts[i]);
            if !dup {
                let piece = parts[i].clone();
                r.push(piece);
                assert(r@.map_values(|x: Vec<char>| x@) =~= rv.push(pv[i as int]));
            }
        } else {
            assert(!keep(pv[i as int]));
            assert(pv.subrange(0, i + 1).filter(keep) == f);
        }
        i = i + 1;
    }
    assert(pv.subrange(0, pv.len() as int) =~= pv);
    r
}

/// Normalizes a trigger key combination: empty parts and repeated keys are dropped.
pub fn normalize_key_combo(s: &str) -> (r: String)
    ensures
        r@ == normalized_combo(s@),
{
    let cs = chars_of(s);
    let parts = clean_parts(cs.as_slice(), '+', true);
    proof {
        reveal_strlit("+");
        assert("+"@ =~= seq!['+']);
        assert(parts@.map_values(|x: Vec<char>| x@).skip(0) =~= parts@.map_values(|x: Vec<char>| x@));
    }
    join_parts_from(&parts, 0, '+')
}

/// The target keys of a `+`-joined combination, in upper case.
pub fn parse_target_list(s: &str) -> (r: Vec<String>)
    ensures
        string_views(r@) == target_list(s@),
{
    let cs = chars_of(s);
    let parts = clean_parts(cs.as_slice(), '+', false);
    let ghost pv = parts@.map_values(|x: Vec<char>| x@);
    let mut r: Vec<String> = Vec::new();
    let mut i: usize = 0;
    while i < parts.len()
        invariant
            i <= parts@.len(),
            pv == parts@.map_values(|x: Vec<char>| x@),
            string_views(r@) == pv.subrange(0, i as int).map_values(|p: Seq<char>| upper(p)),
        decreases parts@.len() - i,
    {
        let up = upper_chars(parts[i].as_slice());
        let word = string_from_chars(up.as_slice());
        let ghost before = string_views(r@);
        r.push(word);
        assert(string_views(r@) =~= before.push(upper(pv[i as int])));
        assert(pv.subrange(0, i + 1).map_values(|p: Seq<char>| upper(p))
            =~= pv.subrange(0, i as int).map_values(|p: Seq<char>| upper(p)).push(upper(pv[i as int])));
        i = i + 1;
    }
    assert(pv.subrange(0, pv.len() as int) =~= pv);
    r
}

// ---------------------------------------------------------------------------
// Writing a slot's mapping.

/// The mapping created for a slot that had none: no targets and no repeat (one press,
/// one action), with the slot's system note.
pub open spec fn new_slot_mapping(trigger: Seq<char>, note: Seq<char>) -> MappingView {
    MappingView {
        trigger_key: trigger,
        target_keys: Seq::empty(),
        interval: None,
        event_duration: None,
        turbo_enabled: false,
        move_speed: 5,
        double_tap_enabled: false,
        double_tap_gap_ms: 50,
        note,
    }
}

/// The mappings after writing `trigger` (normalized) as the trigger of the slot
/// labelled `label`, and the index of the slot's mapping: an existing mapping is
/// updated, otherwise one is appended.
pub open spec fn set_trigger_spec(ms: Seq<MappingView>, label: Seq<char>, trigger: Seq<char>) -> (Seq<MappingView>, int) {
    let t = normalized_combo(trigger);
    match slot_index(ms, label) {
        Some(i) => (ms.update(i, MappingView { trigger_key: t, ..ms[i] }), i),
        None => (ms.push(new_slot_mapping(t, slot_note_spec(label))), ms.len() as int),
    }
}

/// The configuration with other mappings.
pub open spec fn with_mappings(c: ConfigView, ms: Seq<MappingView>) -> ConfigView {
    ConfigView { mappings: ms, ..c }
}

/// Writes the slot's trigger (normalized), creating the slot's mapping if it has none;
/// returns the index of the slot's mapping.
#[verifier::rlimit(80)]
pub fn set_slot_trigger(config: &mut AppConfig, slot: &GamepadSlot, trigger: String) -> (r: usize)
    ensures
        final(config)@ == with_mappings(old(config)@, set_trigger_spec(old(config)@.mappings, slot@.label, trigger@).0),
        r == set_trigger_spec(old(config)@.mappings, slot@.label, trigger@).1,
{
    let t = normalize_key_combo(trigger.as_str());
    let ghost old_ms = mapping_views(config.mappings@);
    match find_slot_mapping_index(config, slot) {
        Some(idx) => {
            let mut m = config.mappings[idx].duplicate();
            m.trigger_key = t;
            let ghost mv = m@;
            config.mappings.set(idx, m);
            assert(mapping_views(config.mappings@) =~= old_ms.update(idx as int, mv));
            assert(mv == MappingView { trigger_key: normalized_combo(trigger@), ..old_ms[idx as int] });
            assert(config@ == with_mappings(old(config)@, old_ms.update(idx as int, mv)));
            idx
        }
        None => {
            let note = slot_note(slot.label);
            let m = KeyMapping {
                trigger_key: t,
                target_keys: TargetKeys::new(),
                interval: None,
                event_duration: None,
                turbo_enabled: false,
                move_speed: 5,
                double_tap_enabled: false,
                double_tap_gap_ms: 50,
                note,
            };
            let ghost mv = m@;
            config.mappings.push(m);
            assert(mapping_views(config.mappings@) =~= old_ms.push(mv));
            config.mappings.len() - 1
        }
    }
}

/// The mapping of the slot labelled `label` has exactly this trigger.
pub open spec fn holds_trigger(ms: Seq<MappingView>, label: Seq<char>, trigger: Seq<char>) -> bool {
    slot_index(ms, label) matches Some(i) && ms[i].trigger_key == trigger
}

/// The first slot, from id `k` on and other than `slot_id`, whose mapping's trigger is
/// exactly `trigger`.
pub open spec fn victim_from(ms: Seq<MappingView>, slot_id: usize, trigger: Seq<char>, k: int) -> Option<int>
    decreases SLOT_COUNT - k,
{
    if k < 0 || k >= SLOT_COUNT {
        None
    } else if k != slot_id && holds_trigger(ms, slot_table(k).label, trigger) {
        Some(k)
    } else {
        victim_from(ms, slot_id, trigger, k + 1)
    }
}

/// The mappings after writing `trigger` to the slot, first taking it away from the
/// first other slot whose trigger it is; and the label of that slot, if any.
pub open spec fn moving_spec(ms: Seq<MappingView>, slot: crate::slots::SlotView, trigger: Seq<char>) -> (Seq<MappingView>, Option<Seq<char>>) {
    match victim_from(ms, slot.id, trigger, 0) {
        Some(k) => {
            let cleared = ms.remove(slot_index(ms, slot_table(k).label)->0);
            (set_trigger_spec(cleared, slot.label, trigger).0, Some(slot_table(k).label))
        },
        None => (set_trigger_spec(ms, slot.label, trigger).0, None),
    }
}

/// Writes the slot's trigger; a physical key belongs to one slot only, so another slot
/// holding exactly this trigger loses its mapping first. Returns that slot's label.
pub fn set_slot_trigger_moving(config: &mut AppConfig, slot: &GamepadSlot, trigger: String) -> (r: Option<String>)
    ensures
        final(config)@ == with_mappings(old(config)@, moving_spec(old(config)@.mappings, slot@, trigger@).0),
        match moving_spec(old(config)@.mappings, slot@, trigger@).1 {
            Some(l) => r matches Some(s) && s@ == l,
            None => r is None,
        },
{
    let ghost ms = mapping_views(config.mappings@);
    let mut moved_from: Option<String> = None;
    let mut k: usize = 0;
    while k < SLOT_COUNT
        invariant
            k <= SLOT_COUNT,
            mapping_views(config.mappings@) == ms,
            config@ == old(config)@,
            victim_from(ms, slot.id, trigger@, 0) == victim_from(ms, slot.id, trigger@, k as int),
            moved_from is None,
        decreases SLOT_COUNT - k,
    {
        if k != slot.id {
            let other = match get_slot(k) {
                Some(o) => o,
                None => {
                    k = k + 1;
                    continue;
                }
            };
            match find_slot_mapping_index(config, &other) {
                Some(i) => {
                    if str_eq(config.mappings[i].trigger_key.as_str(), trigger.as_str()) {
                        config.mappings.remove(i);
                        assert(mapping_views(config.mappings@) =~= ms.remove(i as int));
                        moved_from = Some(owned(other.label));
                        set_slot_trigger(config, slot, trigger);
                        return moved_from;
                    }
                }
                None => {}
            }
        }
        k = k + 1;
    }
    set_slot_trigger(config, slot, trigger);
    moved_from
}

/// Adds a target key to the slot's mapping unless it is there; the slot must have been
/// calibrated (have a mapping), else nothing changes. Returns whether anything changed.
#[verifier::rlimit(30)]
pub fn add_slot_target(config: &mut AppConfig, slot: &GamepadSlot, target: String) -> (r: bool)
    ensures
        match slot_index(old(config)@.mappings, slot@.label) {
            None => !r && final(config)@ == old(config)@,
            Some(i) => {
                let m = old(config)@.mappings[i];
                &&& r == !m.target_keys.contains(target@)
                &&& final(config)@ == with_mappings(old(config)@, old(config)@.mappings.update(i, MappingView {
                    target_keys: if r { m.target_keys.push(target@) } else { m.target_keys },
                    ..m
                }))
            },
        },
{
    let ghost ms = mapping_views(config.mappings@);
    match find_slot_mapping_index(config, slot) {
        None => false,
        Some(idx) => {
            let mut m = config.mappings[idx].duplicate();
            let ghost m0 = m@;
            let ghost had = m0.target_keys.contains(target@);
            let before = m.target_keys.len();
            m.add_target_key(target);
            let after = m.target_keys.len();
            let ghost mv = m@;
            assert(mv == MappingView {
                target_keys: if !had { m0.target_keys.push(target@) } else { m0.target_keys },
                ..m0
            });
            assert((before != after) == !had);
            config.mappings.set(idx, m);
            assert(mapping_views(config.mappings@) =~= ms.update(idx as int, mv));
            assert(config@ == with_mappings(old(config)@, ms.update(idx as int, mv)));
            before != after
        }
    }
}

/// Replaces the slot's target keys with those of a `+`-joined combination (upper case,
/// repeats kept); the slot must have a mapping, else nothing changes. Returns whether
/// the targets changed.
pub fn set_slot_targets(config: &mut AppConfig, slot: &GamepadSlot, target: String) -> (r: bool)
    ensures
        match slot_index(old(config)@.mappings, slot@.label) {
            None => !r && final(config)@ == old(config)@,
            Some(i) => {
                let m = old(config)@.mappings[i];
                &&& r == (target_list(target@) != m.target_keys)
                &&& final(config)@ == with_mappings(old(config)@, old(config)@.mappings.update(i, MappingView {
                    target_keys: target_list(target@),
                    ..m
                }))
            },
        },
{
    let ghost ms = mapping_views(config.mappings@);
    match find_slot_mapping_index(config, slot) {
        None => false,
        Some(idx) => {
            let mut m = config.mappings[idx].duplicate();
            let keys = parse_target_list(target.as_str());
            let fresh = TargetKeys::from_vec(keys);
            let changed = !fresh.same_keys(&m.target_keys);
            m.target_keys = fresh;
            let ghost mv = m@;
            config.mappings.set(idx, m);
            assert(mapping_views(config.mappings@) =~= ms.update(idx as int, mv));
            changed
        }
    }
}

/// Removes every target key of the slot's mapping.
pub fn clear_slot_targets(config: &mut AppConfig, slot: &GamepadSlot)
    ensures
        match slot_index(old(config)@.mappings, slot@.label) {
            None => final(config)@ == old(config)@,
            Some(i) => final(config)@ == with_mappings(old(config)@, old(config)@.mappings.update(i, MappingView {
                target_keys: Seq::empty(),
                ..old(config)@.mappings[i]
            })),
        },
{
    let ghost ms = mapping_views(config.mappings@);
    match find_slot_mapping_index(config, slot) {
        None => {}
        Some(idx) => {
            let mut m = config.mappings[idx].duplicate();
            m.clear_target_keys();
            let ghost mv = m@;
            config.mappings.set(idx, m);
            assert(mapping_views(config.mappings@) =~= ms.update(idx as int, mv));
        }
    }
}

/// Deletes the slot's mapping.
pub fn remove_slot_mapping(config: &mut AppConfig, slot: &GamepadSlot)
    ensures
        match slot_index(old(config)@.mappings, slot@.label) {
            None => final(config)@ == old(config)@,
            Some(i) => final(config)@ == with_mappings(old(config)@, old(config)@.mappings.remove(i)),
        },
{
    let ghost ms = mapping_views(config.mappings@);
    match find_slot_mapping_index(config, slot) {
        None => {}
        Some(idx) => {
            config.mappings.remove(idx);
            assert(mapping_views(config.mappings@) =~= ms.remove(idx as int));
        }
    }
}

/// The slot's trigger (empty when the slot has no mapping).
pub fn slot_trigger_display(config: &AppConfig, slot: &GamepadSlot) -> (r: String)
    ensures
        r@ == (match slot_index(config@.mappings, slot@.label) {
            Some(i) => config@.mappings[i].trigger_key,
            None => Seq::<char>::empty(),
        }),
{
    match find_slot_mapping_index(config, slot) {
        Some(idx) => owned(config.mappings[idx].trigger_key.as_str()),
        None => String::new(),
    }
}

/// The slot's target keys (none when the slot has no mapping).
pub fn slot_targets(config: &AppConfig, slot: &GamepadSlot) -> (r: Vec<String>)
    ensures
        string_views(r@) == (match slot_index(config@.mappings, slot@.label) {
            Some(i) => config@.mappings[i].target_keys,
            None => Seq::<Seq<char>>::empty(),
        }),
{
    match find_slot_mapping_index(config, slot) {
        Some(idx) => config.mappings[idx].target_keys.to_vec(),
        None => {
            let r: Vec<String> = Vec::new();
            assert(string_views(r@) =~= Seq::<Seq<char>>::empty());
            r
        }
    }
}

// ---------------------------------------------------------------------------
// Migrating notes of the earlier format.

/// The mapping's note is not `n`.
pub open spec fn note_is_not(n: Seq<char>) -> spec_fn(MappingView) -> bool {
    |m: MappingView| m.note != n
}

/// No mapping has note `n`.
pub open spec fn no_note(ms: Seq<MappingView>, n: Seq<char>) -> bool {
    forall|i: int| 0 <= i < ms.len() ==> (#[trigger] ms[i]).note != n
}

/// One slot's migration: when some mapping carries the slot's note of the earlier
/// format, either (the slot already has a mapping with its system note) every such
/// mapping is dropped, or the first one takes the system note and the others are
/// dropped. The flag tells whether anything changed.
pub open spec fn migrate_step(ms: Seq<MappingView>, label: Seq<char>) -> (Seq<MappingView>, bool) {
    let new_note = slot_note_spec(label);
    let old_note = legacy_note_spec(label);
    match first_index_where(ms, note_is(old_note)) {
        None => (ms, false),
        Some(k) => if first_index_where(ms, note_is(new_note)) is Some {
            (ms.filter(note_is_not(old_note)), true)
        } else {
            (ms.update(k, MappingView { note: new_note, ..ms[k] }).filter(note_is_not(old_note)), true)
        },
    }
}

/// The migration of the slots with id below `n`, in id order.
pub open spec fn migrate_upto(ms: Seq<MappingView>, n: nat) -> (Seq<MappingView>, bool)
    decreases n,
{
    if n == 0 {
        (ms, false)
    } else {
        let before = migrate_upto(ms, (n - 1) as nat);
        let step = migrate_step(before.0, slot_table(n - 1).label);
        (step.0, before.1 || step.1)
    }
}

/// The mappings whose note is not `note`.
fn without_note(ms: &Vec<KeyMapping>, note: &str) -> (r: Vec<KeyMapping>)
    ensures
        mapping_views(r@) == mapping_views(ms@).filter(note_is_not(note@)),
{
    let ghost vs = mapping_views(ms@);
    let mut r: Vec<KeyMapping> = Vec::new();
    let mut i: usize = 0;
    assert(vs.subrange(0, 0).filter(note_is_not(note@)) =~= Seq::<MappingView>::empty()) by {
        reveal(Seq::filter);
    }
    while i < ms.len()
        invariant
            i <= ms@.len(),
            vs == mapping_views(ms@),
            mapping_views(r@) == vs.subrange(0, i as int).filter(note_is_not(note@)),
        decreases ms@.len() - i,
    {
        let ghost before = vs.subrange(0, i as int);
        assert(vs.subrange(0, i + 1) =~= before.push(vs[i as int]));
        proof {
            before.lemma_filter_push(vs[i as int], note_is_not(note@));
        }
        if !str_eq(ms[i].note.as_str(), note) {
            let ghost rv = mapping_views(r@);
            let m = ms[i].duplicate();
            r.push(m);
            assert(mapping_views(r@) =~= rv.push(vs[i as int]));
        }
        i = i + 1;
    }
    assert(vs.subrange(0, vs.len() as int) =~= vs);
    r
}

/// One slot's migration step.
fn migrate_one(ms: &mut Vec<KeyMapping>, label: &str) -> (r: bool)
    ensures
        mapping_views(final(ms)@) == migrate_step(mapping_views(old(ms)@), label@).0,
        r == migrate_step(mapping_views(old(ms)@), label@).1,
{
    let ghost vs = mapping_views(ms@);
    let new_note = slot_note(label);
    let old_note = legacy_slot_note(label);
    match index_of_note(ms, old_note.as_str()) {
        None => false,
        Some(first) => {
            if index_of_note(ms, new_note.as_str()).is_some() {
                let kept = without_note(ms, old_note.as_str());
                *ms = kept;
            } else {
                let mut m = ms[first].duplicate();
                m.note = new_note;
                let ghost mv = m@;
                ms.set(first, m);
                assert(mapping_views(ms@) =~= vs.update(first as int, mv));
                let kept = without_note(ms, old_note.as_str());
                *ms = kept;
            }
            true
        }
    }
}

/// Rewrites notes of the earlier format (`手柄·<label>`) to system notes once, keeping
/// triggers and targets; where a slot ends up with several mappings only one stays.
/// Returns whether anything changed (and needs saving).
pub fn migrate_slot_notes(config: &mut AppConfig) -> (r: bool)
    ensures
        final(config)@ == with_mappings(old(config)@, migrate_upto(old(config)@.mappings, SLOT_COUNT as nat).0),
        r == migrate_upto(old(config)@.mappings, SLOT_COUNT as nat).1,
{
    let ghost start = mapping_views(config.mappings@);
    let mut ms: Vec<KeyMapping> = Vec::new();
    std::mem::swap(&mut ms, &mut config.mappings);
    let mut changed = false;
    let mut k: usize = 0;
    while k < SLOT_COUNT
        invariant
            k <= SLOT_COUNT,
            mapping_views(ms@) == migrate_upto(start, k as nat).0,
            changed == migrate_upto(start, k as nat).1,
        decreases SLOT_COUNT - k,
    {
        match get_slot(k) {
            Some(slot) => {
                let step = migrate_one(&mut ms, slot.label);
                changed = changed || step;
            }
            None => {}
        }
        k = k + 1;
    }
    let ghost done = mapping_views(ms@);
    config.mappings = ms;
    assert(config@ == with_mappings(old(config)@, done));
    changed
}

/// Every slot label starts with a character other than `·`.
pub proof fn lemma_labels_start_plain(k: int)
    requires
        0 <= k < SLOT_COUNT,
    ensures
        slot_table(k).label.len() > 0,
        slot_table(k).label[0] != '·',
{
    reveal_strlit("LT");
    reveal_strlit("LB");
    reveal_strlit("RT");
    reveal_strlit("RB");
    reveal_strlit("十字键·上");
    reveal_strlit("十字键·下");
    reveal_strlit("十字键·左");
    reveal_strlit("十字键·右");
    reveal_strlit("左摇杆·上");
    reveal_strlit("左摇杆·下");
    reveal_strlit("左摇杆·左");
    reveal_strlit("左摇杆·右");
    reveal_strlit("右摇杆·上");
    reveal_strlit("右摇杆·下");
    reveal_strlit("右摇杆·左");
    reveal_strlit("右摇杆·右");
    reveal_strlit("X 键");
    reveal_strlit("Y 键");
    reveal_strlit("B 键");
    reveal_strlit("A 键");
    reveal_strlit("Back");
    reveal_strlit("Start");
    reveal_strlit("左摇杆·按下");
    reveal_strlit("右摇杆·按下");
}

/// No slot's system note is any slot's note in the earlier format.
pub proof fn lemma_system_note_never_legacy(k: int, j: int)
    requires
        0 <= k < SLOT_COUNT,
        0 <= j < SLOT_COUNT,
    ensures
        slot_note_spec(slot_table(k).label) != legacy_note_spec(slot_table(j).label),
{
    reveal_strlit("手柄");
    reveal_strlit("手柄·");
    lemma_labels_start_plain(k);
    let a = slot_note_spec(slot_table(k).label);
    let b = legacy_note_spec(slot_table(j).label);
    assert(a[2] == slot_table(k).label[0]);
    assert(b[2] == '·');
}

/// When no mapping is found with note `n`, no mapping has it.
proof fn lemma_none_means_no_note(ms: Seq<MappingView>, n: Seq<char>)
    requires
        first_index_where(ms, note_is(n)) is None,
    ensures
        no_note(ms, n),
{
    assert forall|i: int| 0 <= i < ms.len() implies (#[trigger] ms[i]).note != n by {
        if ms[i].note == n {
            crate::seq_util::lemma_first_where_exists(ms, note_is(n), i);
        }
    }
}

/// After a slot's step, no mapping has that slot's note of the earlier format.
proof fn lemma_step_clears(ms: Seq<MappingView>, label: Seq<char>)
    ensures
        no_note(migrate_step(ms, label).0, legacy_note_spec(label)),
{
    let old_note = legacy_note_spec(label);
    let r = migrate_step(ms, label).0;
    match first_index_where(ms, note_is(old_note)) {
        None => {
            lemma_none_means_no_note(ms, old_note);
        },
        Some(k) => {
            let src = if first_index_where(ms, note_is(slot_note_spec(label))) is Some {
                ms
            } else {
                ms.update(k, MappingView { note: slot_note_spec(label), ..ms[k] })
            };
            assert(r == src.filter(note_is_not(old_note)));
            assert forall|i: int| 0 <= i < r.len() implies (#[trigger] r[i]).note != old_note by {
                src.lemma_filter_pred(note_is_not(old_note), i);
            }
        },
    }
}

/// A slot's step adds no note other than the slot's system note.
proof fn lemma_step_keeps(ms: Seq<MappingView>, label: Seq<char>, n: Seq<char>)
    requires
        no_note(ms, n),
        n != slot_note_spec(label),
    ensures
        no_note(migrate_step(ms, label).0, n),
{
    let old_note = legacy_note_spec(label);
    let r = migrate_step(ms, label).0;
    match first_index_where(ms, note_is(old_note)) {
        None => {},
        Some(k) => {
            let src = if first_index_where(ms, note_is(slot_note_spec(label))) is Some {
                ms
            } else {
                ms.update(k, MappingView { note: slot_note_spec(label), ..ms[k] })
            };
            assert(no_note(src, n)) by {
                assert forall|i: int| 0 <= i < src.len() implies (#[trigger] src[i]).note != n by {
                    if i != k {
                        assert(src[i] == ms[i]);
                    } else {
                        assert(src[i] == ms[i] || src[i].note == slot_note_spec(label));
                    }
                }
            }
            assert(r == src.filter(note_is_not(old_note)));
            assert forall|i: int| 0 <= i < r.len() implies (#[trigger] r[i]).note != n by {
                assert(r.contains(r[i]));
                src.lemma_filter_contains_rev(note_is_not(old_note), r[i]);
                let j = choose|j: int| 0 <= j < src.len() && src[j] == r[i];
                assert(src[j].note != n);
            }
        },
    }
}

/// No mapping carries a note of the earlier format for the slots below `n`.
pub open spec fn no_legacy_below(ms: Seq<MappingView>, n: int) -> bool {
    forall|j: int| 0 <= j < n ==> no_note(ms, #[trigger] legacy_note_spec(slot_table(j).label))
}

proof fn lemma_pass_clears(ms: Seq<MappingView>, n: nat)
    requires
        n <= SLOT_COUNT,
    ensures
        no_legacy_below(migrate_upto(ms, n).0, n as int),
    decreases n,
{
    if n > 0 {
        let m = (n - 1) as nat;
        lemma_pass_clears(ms, m);
        let before = migrate_upto(ms, m).0;
        let label = slot_table(m as int).label;
        assert forall|j: int| 0 <= j < n implies no_note(migrate_upto(ms, n).0, #[trigger] legacy_note_spec(slot_table(j).label)) by {
            if j == m {
                lemma_step_clears(before, label);
            } else {
                lemma_system_note_never_legacy(m as int, j);
                lemma_step_keeps(before, label, legacy_note_spec(slot_table(j).label));
            }
        }
    }
}

proof fn lemma_pass_identity(ms: Seq<MappingView>, n: nat)
    requires
        n <= SLOT_COUNT,
        no_legacy_below(ms, SLOT_COUNT as int),
    ensures
        migrate_upto(ms, n) == (ms, false),
    decreases n,
{
    if n > 0 {
        let m = (n - 1) as nat;
        lemma_pass_identity(ms, m);
        let label = slot_table(m as int).label;
        assert(no_note(ms, legacy_note_spec(label)));
        lemma_first_index_none(ms, note_is(legacy_note_spec(label)));
    }
}

/// Migrating notes twice changes nothing the second time: after one pass no mapping
/// carries a note of the earlier format, so a second pass reports no change and leaves
/// the mappings as they are.
pub proof fn law_note_migration_is_idempotent(ms: Seq<MappingView>)
    ensures
        migrate_upto(migrate_upto(ms, SLOT_COUNT as nat).0, SLOT_COUNT as nat)
            == (migrate_upto(ms, SLOT_COUNT as nat).0, false),
{
    lemma_pass_clears(ms, SLOT_COUNT as nat);
    lemma_pass_identity(migrate_upto(ms, SLOT_COUNT as nat).0, SLOT_COUNT as nat);
}

// ---------------------------------------------------------------------------
// Which slot is being pressed.

/// Slot `id`'s own mapping names the raw bit position `pos` of device `vid:pid`
/// (a slot without a mapping never lights up).
pub open spec fn slot_live_raw_spec(ms: Seq<MappingView>, id: int, vid: u16, pid: u16, pos: u32) -> bool {
    &&& 0 <= id < SLOT_COUNT
    &&& slot_index(ms, slot_table(id).label) matches Some(i)
        && matches_raw_spec(ms[i].trigger_key, vid, pid, pos)
}

/// Slot `id`'s own mapping names XInput buttons all down in `mask`.
pub open spec fn slot_live_xinput_spec(ms: Seq<MappingView>, id: int, vid: u16, mask: u32) -> bool {
    &&& 0 <= id < SLOT_COUNT
    &&& slot_index(ms, slot_table(id).label) matches Some(i)
        && matches_xinput_spec(ms[i].trigger_key, vid, mask)
}

/// Whether slot `slot_id` is pressed by the raw bit position `pos` of device `vid:pid`.
pub fn slot_is_live(config: &AppConfig, slot_id: usize, vid: u16, pid: u16, pos: u32) -> (r: bool)
    ensures
        r == slot_live_raw_spec(config@.mappings, slot_id as int, vid, pid, pos),
{
    let slot = match get_slot(slot_id) {
        Some(s) => s,
        None => return false,
    };
    match find_slot_mapping_index(config, &slot) {
        Some(i) => trigger_matches_raw(config.mappings[i].trigger_key.as_str(), vid, pid, pos),
        None => false,
    }
}

/// Whether slot `slot_id` is pressed in the live XInput bitmap.
pub fn slot_is_live_xinput(config: &AppConfig, slot_id: usize, vid: u16, mask: u32) -> (r: bool)
    ensures
        r == slot_live_xinput_spec(config@.mappings, slot_id as int, vid, mask),
{
    let slot = match get_slot(slot_id) {
        Some(s) => s,
        None => return false,
    };
    match find_slot_mapping_index(config, &slot) {
        Some(i) => trigger_matches_xinput(config.mappings[i].trigger_key.as_str(), vid, mask),
        None => false,
    }
}

/// The first slot (by id) from `k` on that satisfies `p`.
pub open spec fn first_slot_from(p: spec_fn(int) -> bool, k: int) -> Option<int>
    decreases SLOT_COUNT - k,
{
    if k < 0 || k >= SLOT_COUNT {
        None
    } else if p(k) {
        Some(k)
    } else {
        first_slot_from(p, k + 1)
    }
}

/// The slot newly pressed this frame by the raw channel: none when nothing is down or
/// the bit position did not change, else the first slot the position lights up.
pub open spec fn newly_pressed_raw_spec(ms: Seq<MappingView>, prev_pos: u32, vid: u16, pid: u16, pos: u32) -> Option<int> {
    if pos == 0 || pos == prev_pos {
        None
    } else {
        first_slot_from(|id: int| slot_live_raw_spec(ms, id, vid, pid, pos), 0)
    }
}

/// The slot newly pressed this frame (raw channel), if any.
pub fn newly_pressed_slot(config: &AppConfig, prev_pos: u32, vid: u16, pid: u16, pos: u32) -> (r: Option<usize>)
    ensures
        match r {
            Some(id) => newly_pressed_raw_spec(config@.mappings, prev_pos, vid, pid, pos) == Some(id as int),
            None => newly_pressed_raw_spec(config@.mappings, prev_pos, vid, pid, pos) is None,
        },
{
    if pos == 0 || pos == prev_pos {
        return None;
    }
    let ghost p = |id: int| slot_live_raw_spec(config@.mappings, id, vid, pid, pos);
    let mut k: usize = 0;
    while k < SLOT_COUNT
        invariant
            k <= SLOT_COUNT,
            p == (|id: int| slot_live_raw_spec(config@.mappings, id, vid, pid, pos)),
            pos != 0 && pos != prev_pos,
            first_slot_from(p, 0) == first_slot_from(p, k as int),
        decreases SLOT_COUNT - k,
    {
        if slot_is_live(config, k, vid, pid, pos) {
            return Some(k);
        }
        k = k + 1;
    }
    None
}

/// `first_slot_from` finds the first slot from `k` on that satisfies `p`.
pub proof fn lemma_first_slot_from(p: spec_fn(int) -> bool, k: int)
    requires
        0 <= k,
    ensures
        match first_slot_from(p, k) {
            Some(i) => k <= i < SLOT_COUNT && p(i) && forall|j: int| k <= j < i ==> !#[trigger] p(j),
            None => forall|j: int| k <= j < SLOT_COUNT ==> !#[trigger] p(j),
        },
    decreases SLOT_COUNT - k,
{
    if k < SLOT_COUNT && !p(k) {
        lemma_first_slot_from(p, k + 1);
    }
}

/// The slot newly pressed this frame in the live XInput bitmap: the first slot down in
/// `mask` that was not already down in the previous frame's bitmap of the same device.
pub open spec fn newly_pressed_xinput_spec(ms: Seq<MappingView>, vid: u16, mask: u32, prev: Option<(u16, u32)>) -> Option<int> {
    first_slot_from(
        |id: int| slot_live_xinput_spec(ms, id, vid, mask) && !(prev matches Some((pv, pm))
            && pv == vid && slot_live_xinput_spec(ms, id, vid, pm)),
        0,
    )
}

/// The slot newly pressed this frame in the live XInput bitmap, if any.
pub fn newly_pressed_slot_xinput(config: &AppConfig, vid: u16, mask: u32, prev: Option<(u16, u32)>) -> (r: Option<usize>)
    ensures
        match r {
            Some(id) => newly_pressed_xinput_spec(config@.mappings, vid, mask, prev) == Some(id as int),
            None => newly_pressed_xinput_spec(config@.mappings, vid, mask, prev) is None,
        },
{
    let ghost p = |id: int| slot_live_xinput_spec(config@.mappings, id, vid, mask) && !(prev matches Some((pv, pm))
        && pv == vid && slot_live_xinput_spec(config@.mappings, id, vid, pm));
    let mut k: usize = 0;
    while k < SLOT_COUNT
        invariant
            k <= SLOT_COUNT,
            p == (|id: int| slot_live_xinput_spec(config@.mappings, id, vid, mask) && !(prev matches Some((pv, pm))
                && pv == vid && slot_live_xinput_spec(config@.mappings, id, vid, pm))),
            first_slot_from(p, 0) == first_slot_from(p, k as int),
        decreases SLOT_COUNT - k,
    {
        if slot_is_live_xinput(config, k, vid, mask) {
            let was = match prev {
                Some((pv, pm)) => pv == vid && slot_is_live_xinput(config, k, vid, pm),
                None => false,
            };
            if !was {
                return Some(k);
            }
        }
        k = k + 1;
    }
    None
}

/// What confirming a capture did.
#[derive(Debug, Clone, Copy, PartialEq, Eq, Structural)]
pub enum CaptureOutcome {
    /// The slot's trigger was written.
    TriggerSet,
    /// The slot's target keys were replaced.
    TargetsSet,
    /// Target keys for a slot that has not been calibrated: nothing written.
    NotCalibrated,
}

/// Confirms a capture for a slot: a captured trigger is written (creating the slot's
/// mapping if needed); captured target keys replace the slot's targets, which requires
/// the slot to be calibrated.
pub fn apply_capture(config: &mut AppConfig, slot: &GamepadSlot, is_trigger: bool, value: String) -> (r: CaptureOutcome)
    ensures
        is_trigger ==> r == CaptureOutcome::TriggerSet
            && final(config)@ == with_mappings(old(config)@, set_trigger_spec(old(config)@.mappings, slot@.label, value@).0),
        !is_trigger ==> match slot_index(old(config)@.mappings, slot@.label) {
            None => r == CaptureOutcome::NotCalibrated && final(config)@ == old(config)@,
            Some(i) => r == CaptureOutcome::TargetsSet
                && final(config)@ == with_mappings(old(config)@, old(config)@.mappings.update(i, MappingView {
                    target_keys: target_list(value@),
                    ..old(config)@.mappings[i]
                })),
        },
{
    if is_trigger {
        set_slot_trigger(config, slot, value);
        return CaptureOutcome::TriggerSet;
    }
    if find_slot_mapping_index(config, slot).is_none() {
        return CaptureOutcome::NotCalibrated;
    }
    set_slot_targets(config, slot, value);
    CaptureOutcome::TargetsSet
}

// ---------------------------------------------------------------------------
// Laws of a slot's mapping.

proof fn lemma_slot_index_found(ms: Seq<MappingView>, label: Seq<char>)
    ensures
        slot_index(ms, label) matches Some(i) ==> is_first_where(ms, note_is(slot_note_spec(label)), i),
        slot_index(ms, label) is None ==> no_note(ms, slot_note_spec(label)),
{
    if slot_index(ms, label) is None {
        assert forall|j: int| 0 <= j < ms.len() implies (#[trigger] ms[j]).note != slot_note_spec(label) by {
            if ms[j].note == slot_note_spec(label) {
                crate::seq_util::lemma_first_where_exists(ms, note_is(slot_note_spec(label)), j);
            }
        }
    }
}

/// A slot keeps one mapping: writing its trigger a second time finds the mapping the
/// first write created or updated (same index, nothing appended).
pub proof fn law_slot_trigger_written_once(ms: Seq<MappingView>, label: Seq<char>, t1: Seq<char>, t2: Seq<char>)
    ensures
        ({
            let (after, i) = set_trigger_spec(ms, label, t1);
            let (again, j) = set_trigger_spec(after, label, t2);
            j == i && again.len() == after.len() && after.len() <= ms.len() + 1
        }),
{
    lemma_slot_index_found(ms, label);
    let note = slot_note_spec(label);
    let (after, i) = set_trigger_spec(ms, label, t1);
    match slot_index(ms, label) {
        Some(k) => {
            assert(after == ms.update(k, MappingView { trigger_key: normalized_combo(t1), ..ms[k] }));
            assert(is_first_where(after, note_is(note), k)) by {
                assert forall|j: int| 0 <= j < k implies !(note_is(note))(#[trigger] after[j]) by {
                    assert(after[j] == ms[j]);
                }
            }
            lemma_first_index_at(after, note_is(note), k);
        },
        None => {
            assert(after == ms.push(new_slot_mapping(normalized_combo(t1), note)));
            assert(is_first_where(after, note_is(note), ms.len() as int)) by {
                assert forall|j: int| 0 <= j < ms.len() implies !(note_is(note))(#[trigger] after[j]) by {
                    assert(after[j] == ms[j]);
                }
            }
            lemma_first_index_at(after, note_is(note), ms.len() as int);
        },
    }
}

/// Setting a slot's targets is a replacement: setting the same combination again right
/// after reports no change.
pub proof fn law_same_targets_twice_is_no_change(ms: Seq<MappingView>, label: Seq<char>, target: Seq<char>)
    requires
        slot_index(ms, label) is Some,
    ensures
        ({
            let i = slot_index(ms, label)->0;
            let after = ms.update(i, MappingView { target_keys: target_list(target), ..ms[i] });
            slot_index(after, label) == Some(i) && after[i].target_keys == target_list(target)
        }),
{
    lemma_slot_index_found(ms, label);
    let note = slot_note_spec(label);
    let i = slot_index(ms, label)->0;
    let after = ms.update(i, MappingView { target_keys: target_list(target), ..ms[i] });
    assert(is_first_where(after, note_is(note), i)) by {
        assert forall|j: int| 0 <= j < i implies !(note_is(note))(#[trigger] after[j]) by {
            assert(after[j] == ms[j]);
        }
    }
    lemma_first_index_at(after, note_is(note), i);
}

} // verus!
