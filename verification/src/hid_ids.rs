//! Device identifiers of activated HID devices: the "VID:PID" and "VID:PID:Serial"
//! names their baselines are stored under, reading vendor and product back out of
//! them, and keeping the stored baselines and per-device API choices in step with
//! the device manager.

use vstd::prelude::*;
use crate::config::{DeviceApiPreference, DevicePrefs, HidDeviceBaseline, pref_set};
use crate::device::{hex4, hex_digit, hex_digit_val, push_hex4};
use crate::seq_util::{first_index_where, is_first_where, lemma_first_index_at, lemma_first_index_none};
use crate::text::{chars_of, chars_start_with, owned, push_char, seq_starts_with, str_eq, string_from_chars};

verus! {

// ---------------------------------------------------------------------------
// Hexadecimal numbers as `u16::from_str_radix` reads them.

/// Every character is a hex digit (either case).
pub open spec fn all_hex(d: Seq<char>) -> bool {
    forall|i: int| 0 <= i < d.len() ==> (#[trigger] hex_digit_val(d[i])) is Some
}

/// The value of a string of hex digits, most significant first.
pub open spec fn hex_val(d: Seq<char>) -> nat
    decreases d.len(),
{
    if d.len() == 0 {
        0
    } else {
        hex_val(d.drop_last()) * 16 + match hex_digit_val(d.last()) {
            Some(v) => v,
            None => 0,
        }
    }
}

/// The digits of a number text: the text after one leading `+`, if there is one.
pub open spec fn unsigned_digits(s: Seq<char>) -> Seq<char> {
    if s.len() > 0 && s[0] == '+' {
        s.skip(1)
    } else {
        s
    }
}

/// What `u16::from_str_radix(s, 16)` reads: an optional `+` and then one or more hex
/// digits whose value fits in a `u16`; anything else is an error.
pub open spec fn hex_u16(s: Seq<char>) -> Option<u16> {
    let d = unsigned_digits(s);
    if d.len() > 0 && all_hex(d) && hex_val(d) <= 0xFFFF {
        Some(hex_val(d) as u16)
    } else {
        None
    }
}

/// The value of a prefix of a digit string never exceeds the value of the whole.
proof fn lemma_hex_prefix_le(d: Seq<char>, k: int)
    requires
        0 <= k <= d.len(),
    ensures
        hex_val(d.take(k)) <= hex_val(d),
    decreases d.len() - k,
{
    if k < d.len() {
        lemma_hex_prefix_le(d, k + 1);
        assert(d.take(k + 1).drop_last() =~= d.take(k));
    } else {
        assert(d.take(k) =~= d);
    }
}

/// Reads a hexadecimal `u16` as `u16::from_str_radix(s, 16)` does (see `hex_u16`).
pub fn parse_hex_u16(s: &str) -> (r: Option<u16>)
    ensures
        r == hex_u16(s@),
{
    let cs = chars_of(s);
    let start: usize = if cs.len() > 0 && cs[0] == '+' { 1 } else { 0 };
    let ghost d = unsigned_digits(s@);
    assert(d =~= cs@.skip(start as int));
    if start == cs.len() {
        return None;
    }
    let mut acc: u32 = 0;
    let mut i: usize = start;
    assert(d.take(0) =~= Seq::<char>::empty());
    while i < cs.len()
        invariant
            start <= i <= cs@.len(),
            start < cs@.len(),
            d == cs@.skip(start as int),
            d == unsigned_digits(s@),
            all_hex(d.take(i - start)),
            acc == hex_val(d.take(i - start)),
            acc <= 0xFFFF,
        decreases cs@.len() - i,
    {
        let ghost k = i - start;
        assert(d[k] == cs@[i as int]);
        assert(d.take(k + 1).drop_last() =~= d.take(k));
        match hex_digit(cs[i]) {
            None => {
                assert(!all_hex(d)) by {
                    assert(hex_digit_val(d[k]) is None);
                }
                return None;
            },
            Some(v) => {
                assert(hex_val(d.take(k + 1)) == hex_val(d.take(k)) * 16 + v);
                if acc > (0xFFFF - v as u32) / 16 {
                    proof {
                        let a = acc as int;
                        let w = v as int;
                        assert(a * 16 + w > 0xFFFF) by (nonlinear_arith)
                            requires
                                a > (0xFFFF - w) / 16,
                                0 <= w < 16,
                        ;
                        lemma_hex_prefix_le(d, k + 1);
                    }
                    return None;
                }
                assert(acc * 16 + v <= 0xFFFF) by (nonlinear_arith)
                    requires
                        acc <= (0xFFFF - v as u32) / 16,
                        v < 16,
                ;
                acc = acc * 16 + v as u32;
                assert(all_hex(d.take(k + 1))) by {
                    assert forall|j: int| 0 <= j < k + 1 implies (#[trigger] hex_digit_val(d.take(k + 1)[j])) is Some by {
                        if j < k {
                            assert(d.take(k + 1)[j] == d.take(k)[j]);
                        }
                    }
                }
            },
        }
        i = i + 1;
    }
    assert(d.take(d.len() as int) =~= d);
    Some(acc as u16)
}

// ---------------------------------------------------------------------------
// Building identifiers.

/// The identifier a device's baseline is stored under: vendor and product as four
/// upper-case hex digits each, joined by `:`, then `:` and the serial number when the
/// device reports one.
pub open spec fn device_id_spec(vid: u16, pid: u16, serial: Option<Seq<char>>) -> Seq<char> {
    let base = hex4(vid) + ":"@ + hex4(pid);
    match serial {
        Some(s) => base + ":"@ + s,
        None => base,
    }
}

/// The identifier a device's baseline is stored under (see `device_id_spec`).
pub fn hid_device_id(vid: u16, pid: u16, serial: Option<&str>) -> (r: String)
    ensures
        r@ == device_id_spec(vid, pid, match serial {
            Some(s) => Some(s@),
            None => None,
        }),
{
    proof { reveal_strlit(":"); }
    let mut out = String::new();
    push_hex4(&mut out, vid);
    push_char(&mut out, ':');
    push_hex4(&mut out, pid);
    let ghost base = out@;
    assert(base =~= hex4(vid) + ":"@ + hex4(pid));
    match serial {
        Some(s) => {
            push_char(&mut out, ':');
            let cs = chars_of(s);
            let mut i: usize = 0;
            while i < cs.len()
                invariant
                    i <= cs@.len(),
                    cs@ == s@,
                    out@ == base + ":"@ + s@.subrange(0, i as int),
                decreases cs@.len() - i,
            {
                push_char(&mut out, cs[i]);
                assert(s@.subrange(0, i + 1) =~= s@.subrange(0, i as int).push(s@[i as int]));
                i = i + 1;
            }
            assert(s@.subrange(0, s@.len() as int) =~= s@);
        },
        None => {},
    }
    out
}

// ---------------------------------------------------------------------------
// Reading vendor and product back.

/// Being a colon.
pub open spec fn is_colon() -> spec_fn(char) -> bool {
    |c: char| c == ':'
}

/// Vendor and product of a stored baseline identifier ("VID:PID" or
/// "VID:PID:Serial"): the hex number before the first `:`, and the one after it, up
/// to a second `:` when there is one. Nothing when there is no `:` or either number
/// does not read.
pub open spec fn baseline_vid_pid_spec(id: Seq<char>) -> Option<(u16, u16)> {
    match first_index_where(id, is_colon()) {
        None => None,
        Some(c) => {
            let rest = id.skip(c + 1);
            let pid_text = match first_index_where(rest, is_colon()) {
                Some(c2) => rest.take(c2),
                None => rest,
            };
            match (hex_u16(id.take(c)), hex_u16(pid_text)) {
                (Some(v), Some(p)) => Some((v, p)),
                _ => None,
            }
        },
    }
}

/// Vendor and product of a preference key ("VID:PID"): the hex numbers before and
/// after the first `:`. Nothing when there is no `:` or either number does not read.
pub open spec fn pref_key_vid_pid_spec(key: Seq<char>) -> Option<(u16, u16)> {
    match first_index_where(key, is_colon()) {
        None => None,
        Some(c) => match (hex_u16(key.take(c)), hex_u16(key.skip(c + 1))) {
            (Some(v), Some(p)) => Some((v, p)),
            _ => None,
        },
    }
}

/// Where the first `:` of `cs` at or after `from` stands.
fn find_colon(cs: &Vec<char>, from: usize) -> (r: Option<usize>)
    requires
        from <= cs@.len(),
    ensures
        r == (match first_index_where(cs@.skip(from as int), is_colon()) {
            Some(k) => Some((k + from) as usize),
            None => None::<usize>,
        }),
{
    let ghost t = cs@.skip(from as int);
    let mut i: usize = from;
    while i < cs.len()
        invariant
            from <= i <= cs@.len(),
            t == cs@.skip(from as int),
            forall|j: int| 0 <= j < i - from ==> !(is_colon())(#[trigger] t[j]),
        decreases cs@.len() - i,
    {
        if cs[i] == ':' {
            proof {
                assert(t[i - from] == cs@[i as int]);
                assert(is_first_where(t, is_colon(), i - from));
                lemma_first_index_at(t, is_colon(), i - from);
            }
            return Some(i);
        }
        proof {
            assert(t[i - from] == cs@[i as int]);
        }
        i = i + 1;
    }
    proof {
        lemma_first_index_none(t, is_colon());
    }
    None
}

/// The characters of `cs` from `a` up to `b`, as a string.
fn text_between(cs: &Vec<char>, a: usize, b: usize) -> (r: String)
    requires
        a <= b <= cs@.len(),
    ensures
        r@ == cs@.subrange(a as int, b as int),
{
    let mut out = String::new();
    let mut i: usize = a;
    while i < b
        invariant
            a <= i <= b <= cs@.len(),
            out@ == cs@.subrange(a as int, i as int),
        decreases b - i,
    {
        push_char(&mut out, cs[i]);
        assert(cs@.subrange(a as int, i + 1) =~= cs@.subrange(a as int, i as int).push(cs@[i as int]));
        i = i + 1;
    }
    out
}

/// Vendor and product of a stored baseline identifier (see `baseline_vid_pid_spec`).
pub fn baseline_vid_pid(id: &str) -> (r: Option<(u16, u16)>)
    ensures
        r == baseline_vid_pid_spec(id@),
{
    let cs = chars_of(id);
    assert(cs@.skip(0) =~= cs@);
    match find_colon(&cs, 0) {
        None => None,
        Some(c) => {
            let n = cs.len();
            let ghost rest = cs@.skip(c + 1);
            let vid_text = text_between(&cs, 0, c);
            assert(vid_text@ =~= id@.take(c as int));
            let pid_text = match find_colon(&cs, c + 1) {
                Some(c2) => {
                    let p = text_between(&cs, c + 1, c2);
                    assert(p@ =~= rest.take(c2 - (c + 1)));
                    p
                },
                None => {
                    let p = text_between(&cs, c + 1, n);
                    assert(p@ =~= rest);
                    p
                },
            };
            match (parse_hex_u16(vid_text.as_str()), parse_hex_u16(pid_text.as_str())) {
                (Some(v), Some(p)) => Some((v, p)),
                _ => None,
            }
        },
    }
}

/// Vendor and product of a preference key (see `pref_key_vid_pid_spec`).
pub fn pref_key_vid_pid(key: &str) -> (r: Option<(u16, u16)>)
    ensures
        r == pref_key_vid_pid_spec(key@),
{
    let cs = chars_of(key);
    assert(cs@.skip(0) =~= cs@);
    match find_colon(&cs, 0) {
        None => None,
        Some(c) => {
            let n = cs.len();
            let vid_text = text_between(&cs, 0, c);
            assert(vid_text@ =~= key@.take(c as int));
            let pid_text = text_between(&cs, c + 1, n);
            assert(pid_text@ =~= key@.skip(c + 1));
            match (parse_hex_u16(vid_text.as_str()), parse_hex_u16(pid_text.as_str())) {
                (Some(v), Some(p)) => Some((v, p)),
                _ => None,
            }
        },
    }
}

// ---------------------------------------------------------------------------
// Stored baselines.

/// A stored baseline as values: its identifier and its idle report.
pub open spec fn baseline_view(b: HidDeviceBaseline) -> (Seq<char>, Seq<u8>) {
    (b.device_id@, b.baseline_data@)
}

/// The stored baselines as values.
pub open spec fn baseline_views(s: Seq<HidDeviceBaseline>) -> Seq<(Seq<char>, Seq<u8>)> {
    s.map_values(|b: HidDeviceBaseline| baseline_view(b))
}

/// Some stored baseline carries the identifier `id`.
pub open spec fn has_baseline(s: Seq<(Seq<char>, Seq<u8>)>, id: Seq<char>) -> bool {
    exists|i: int| 0 <= i < s.len() && (#[trigger] s[i]).0 == id
}

/// Stores the baseline of a freshly activated device, unless a baseline with that
/// identifier is already stored. Returns whether it was stored.
pub fn add_hid_baseline(baselines: &mut Vec<HidDeviceBaseline>, device_id: String, baseline_data: Vec<u8>) -> (added: bool)
    ensures
        added == !has_baseline(baseline_views(old(baselines)@), device_id@),
        baseline_views(final(baselines)@) == if added {
            baseline_views(old(baselines)@).push((device_id@, baseline_data@))
        } else {
            baseline_views(old(baselines)@)
        },
{
    let ghost v = baseline_views(baselines@);
    let mut i: usize = 0;
    while i < baselines.len()
        invariant
            i <= baselines@.len(),
            v == baseline_views(baselines@),
            forall|j: int| 0 <= j < i ==> (#[trigger] v[j]).0 != device_id@,
        decreases baselines@.len() - i,
    {
        if str_eq(baselines[i].device_id.as_str(), device_id.as_str()) {
            assert(v[i as int].0 == device_id@);
            return false;
        }
        i = i + 1;
    }
    let ghost entry = (device_id@, baseline_data@);
    baselines.push(HidDeviceBaseline { device_id, baseline_data });
    assert(baseline_views(baselines@) =~= v.push(entry));
    true
}

/// The devices the stored baselines belong to, one per baseline whose identifier
/// reads (see `baseline_vid_pid_spec`), in order.
pub open spec fn activated_spec(ids: Seq<Seq<char>>) -> Seq<(u16, u16)>
    decreases ids.len(),
{
    if ids.len() == 0 {
        Seq::empty()
    } else {
        let before = activated_spec(ids.drop_last());
        match baseline_vid_pid_spec(ids.last()) {
            Some(d) => before.push(d),
            None => before,
        }
    }
}

/// The identifiers of the stored baselines.
pub open spec fn baseline_ids(s: Seq<HidDeviceBaseline>) -> Seq<Seq<char>> {
    s.map_values(|b: HidDeviceBaseline| b.device_id@)
}

/// The devices that have a stored baseline, as the device manager marks them.
pub fn activated_devices(baselines: &Vec<HidDeviceBaseline>) -> (r: Vec<(u16, u16)>)
    ensures
        r@ == activated_spec(baseline_ids(baselines@)),
{
    let ghost ids = baseline_ids(baselines@);
    let mut r: Vec<(u16, u16)> = Vec::new();
    let mut i: usize = 0;
    while i < baselines.len()
        invariant
            i <= baselines@.len(),
            ids == baseline_ids(baselines@),
            r@ == activated_spec(ids.take(i as int)),
        decreases baselines@.len() - i,
    {
        assert(ids.take(i + 1).drop_last() =~= ids.take(i as int));
        assert(ids.take(i + 1).last() == baselines@[i as int].device_id@);
        match baseline_vid_pid(baselines[i].device_id.as_str()) {
            Some(d) => r.push(d),
            None => {},
        }
        i = i + 1;
    }
    assert(ids.take(ids.len() as int) =~= ids);
    r
}

/// The baselines that do not belong to the device `vid`:`pid` (their identifier does
/// not start with its "VID:PID").
pub open spec fn not_of_device(vid: u16, pid: u16) -> spec_fn((Seq<char>, Seq<u8>)) -> bool {
    |b: (Seq<char>, Seq<u8>)| !seq_starts_with(b.0, device_id_spec(vid, pid, None))
}

/// Forgets every stored baseline of the device `vid`:`pid` (any serial), so that it is
/// activated afresh; the others keep their order.
pub fn forget_device_baselines(baselines: &mut Vec<HidDeviceBaseline>, vid: u16, pid: u16)
    ensures
        baseline_views(final(baselines)@) == baseline_views(old(baselines)@).filter(not_of_device(vid, pid)),
{
    let prefix = hid_device_id(vid, pid, None);
    let pcs = chars_of(prefix.as_str());
    let ghost v = baseline_views(baselines@);
    let mut rest: Vec<HidDeviceBaseline> = Vec::new();
    std::mem::swap(&mut rest, baselines);
    let n0 = rest.len();
    let ghost n = n0 as nat;
    let mut k: usize = 0;
    assert(v.take(0).filter(not_of_device(vid, pid)) =~= Seq::<(Seq<char>, Seq<u8>)>::empty()) by {
        reveal(Seq::filter);
    }
    assert(baseline_views(baselines@) =~= Seq::<(Seq<char>, Seq<u8>)>::empty());
    assert(baseline_views(rest@) =~= v.skip(0));
    while rest.len() > 0
        invariant
            pcs@ == device_id_spec(vid, pid, None),
            k + rest@.len() == n,
            n == v.len(),
            n <= usize::MAX,
            baseline_views(rest@) == v.skip(k as int),
            baseline_views(baselines@) == v.take(k as int).filter(not_of_device(vid, pid)),
        decreases rest@.len(),
    {
        let ghost rv = rest@;
        let b = rest.remove(0);
        assert(rest@ =~= rv.skip(1));
        let ghost e = baseline_view(b);
        assert(v[k as int] == e) by {
            assert(v.skip(k as int)[0] == v[k as int]);
        }
        assert(v.take(k + 1) =~= v.take(k as int).push(e));
        proof { v.take(k as int).lemma_filter_push(e, not_of_device(vid, pid)); }
        let ids = chars_of(b.device_id.as_str());
        let belongs = chars_start_with(ids.as_slice(), pcs.as_slice());
        let ghost before = baseline_views(baselines@);
        if !belongs {
            baselines.push(b);
            assert(baseline_views(baselines@) =~= before.push(e));
        }
        assert(baseline_views(rest@) =~= baseline_views(rv).skip(1));
        assert(v.skip(k as int).skip(1) =~= v.skip(k + 1));
        k = k + 1;
    }
    assert(v.take(v.len() as int) =~= v);
}

// ---------------------------------------------------------------------------
// Per-device API choices made in the device manager.

/// The preferences after storing each changed choice in turn.
pub open spec fn prefs_after(s: Seq<(Seq<char>, DeviceApiPreference)>, changed: Seq<(Seq<char>, DeviceApiPreference)>) -> Seq<(Seq<char>, DeviceApiPreference)>
    decreases changed.len(),
{
    if changed.len() == 0 {
        s
    } else {
        let c = changed.last();
        pref_set(prefs_after(s, changed.drop_last()), c.0, c.1)
    }
}

/// The devices whose input manager is told of a changed choice: those whose key reads
/// as "VID:PID" (see `pref_key_vid_pid_spec`), in order, with the new choice.
pub open spec fn pref_notices(changed: Seq<(Seq<char>, DeviceApiPreference)>) -> Seq<((u16, u16), DeviceApiPreference)>
    decreases changed.len(),
{
    if changed.len() == 0 {
        Seq::empty()
    } else {
        let c = changed.last();
        let before = pref_notices(changed.drop_last());
        match pref_key_vid_pid_spec(c.0) {
            Some(d) => before.push((d, c.1)),
            None => before,
        }
    }
}

/// The changed entries as values.
pub open spec fn changed_views(s: Seq<(String, DeviceApiPreference)>) -> Seq<(Seq<char>, DeviceApiPreference)> {
    s.map_values(|e: (String, DeviceApiPreference)| (e.0@, e.1))
}

/// Stores the choices the device manager reports as changed, in order, and returns the
/// devices (with their new choice) whose input handling is to be switched over.
pub fn apply_changed_prefs(prefs: &mut DevicePrefs, changed: &Vec<(String, DeviceApiPreference)>) -> (r: Vec<((u16, u16), DeviceApiPreference)>)
    ensures
        final(prefs)@ == prefs_after(old(prefs)@, changed_views(changed@)),
        r@ == pref_notices(changed_views(changed@)),
{
    let ghost s0 = prefs@;
    let ghost cv = changed_views(changed@);
    let mut r: Vec<((u16, u16), DeviceApiPreference)> = Vec::new();
    let mut i: usize = 0;
    while i < changed.len()
        invariant
            i <= changed@.len(),
            cv == changed_views(changed@),
            prefs@ == prefs_after(s0, cv.take(i as int)),
            r@ == pref_notices(cv.take(i as int)),
        decreases changed@.len() - i,
    {
        assert(cv.take(i + 1).drop_last() =~= cv.take(i as int));
        assert(cv.take(i + 1).last() == (changed@[i as int].0@, changed@[i as int].1));
        let key = owned(changed[i].0.as_str());
        let pref = changed[i].1;
        prefs.set(key, pref);
        match pref_key_vid_pid(changed[i].0.as_str()) {
            Some(d) => r.push((d, pref)),
            None => {},
        }
        i = i + 1;
    }
    assert(cv.take(cv.len() as int) =~= cv);
    r
}

} // verus!
