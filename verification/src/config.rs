//! Application settings: key mappings, presets, capture modes and the rules that a
//! freshly read configuration is brought under.

use vstd::prelude::*;
use crate::keys::TargetKeys;
use crate::keys::target_keys_contents;
use crate::text::push_char;
use crate::text::owned;
use crate::text::str_eq;
use crate::text::str_less;
use crate::text::lex_less;
use crate::text::strictly_sorted;
use crate::text::lemma_lex_trichotomy;
use crate::text::lemma_lex_transitive;

verus! {

/// Which input API a device is read through.
#[derive(Debug, Clone, Copy, PartialEq, Eq, Structural)]
pub enum DeviceApiPreference {
    /// Pick the best API automatically.
    Auto,
    /// Always XInput.
    XInput,
    /// Always Raw Input.
    RawInput,
}

impl Default for DeviceApiPreference {
    fn default() -> (r: Self)
        ensures
            r == DeviceApiPreference::Auto,
    {
        DeviceApiPreference::Auto
    }
}

/// Interface language.
#[derive(Debug, Clone, Copy, PartialEq, Eq, Structural)]
pub enum Language {
    English,
    SimplifiedChinese,
    TraditionalChinese,
    Japanese,
}

impl Default for Language {
    fn default() -> (r: Self)
        ensures
            r == Language::SimplifiedChinese,
    {
        Language::SimplifiedChinese
    }
}

/// How XInput capture settles on one input.
#[derive(Debug, Clone, Copy, PartialEq, Eq, Structural)]
pub enum XInputCaptureMode {
    /// The most sustained input pattern.
    MostSustained,
    /// The last stable input before release.
    LastStable,
    /// Diagonals before straight directions, with combo keys.
    DiagonalPriority,
}

impl Default for XInputCaptureMode {
    fn default() -> (r: Self)
        ensures
            r == XInputCaptureMode::DiagonalPriority,
    {
        XInputCaptureMode::DiagonalPriority
    }
}

/// The name a capture mode is stored under.
pub open spec fn capture_mode_name(m: XInputCaptureMode) -> Seq<char> {
    match m {
        XInputCaptureMode::MostSustained => "MostSustained"@,
        XInputCaptureMode::LastStable => "LastStable"@,
        XInputCaptureMode::DiagonalPriority => "DiagonalPriority"@,
    }
}

/// The mode a stored name stands for: each mode's own name gives that mode, any
/// other text gives the default.
pub open spec fn capture_mode_from_name(s: Seq<char>) -> XInputCaptureMode {
    if s == "MostSustained"@ {
        XInputCaptureMode::MostSustained
    } else if s == "LastStable"@ {
        XInputCaptureMode::LastStable
    } else {
        XInputCaptureMode::DiagonalPriority
    }
}

/// Every capture mode reads back as itself from the name it is stored under.
pub proof fn law_capture_mode_name_round_trip(m: XInputCaptureMode)
    ensures
        capture_mode_from_name(capture_mode_name(m)) == m,
{
    reveal_strlit("MostSustained");
    reveal_strlit("LastStable");
    reveal_strlit("DiagonalPriority");
    assert("LastStable"@.len() != "MostSustained"@.len());
    assert("DiagonalPriority"@.len() != "MostSustained"@.len());
    assert("DiagonalPriority"@.len() != "LastStable"@.len());
}

impl XInputCaptureMode {
    /// The name the mode is stored under.
    pub fn as_str(&self) -> (r: &'static str)
        ensures
            r@ == capture_mode_name(*self),
    {
        match self {
            XInputCaptureMode::MostSustained => "MostSustained",
            XInputCaptureMode::LastStable => "LastStable",
            XInputCaptureMode::DiagonalPriority => "DiagonalPriority",
        }
    }

    /// Every mode, in the order the settings list them.
    pub fn all_modes() -> (r: &'static [XInputCaptureMode])
        ensures
            r@ == seq![
                XInputCaptureMode::MostSustained,
                XInputCaptureMode::LastStable,
                XInputCaptureMode::DiagonalPriority,
            ],
    {
        let r: &'static [XInputCaptureMode] = &[
            XInputCaptureMode::MostSustained,
            XInputCaptureMode::LastStable,
            XInputCaptureMode::DiagonalPriority,
        ];
        assert(r@ =~= seq![
            XInputCaptureMode::MostSustained,
            XInputCaptureMode::LastStable,
            XInputCaptureMode::DiagonalPriority,
        ]);
        r
    }

    /// The mode a stored name stands for (unknown names give the default).
    pub fn from_name(s: &str) -> (r: XInputCaptureMode)
        ensures
            r == capture_mode_from_name(s@),
    {
        if str_eq(s, "MostSustained") {
            XInputCaptureMode::MostSustained
        } else if str_eq(s, "LastStable") {
            XInputCaptureMode::LastStable
        } else {
            XInputCaptureMode::DiagonalPriority
        }
    }
}

impl core::str::FromStr for XInputCaptureMode {
    type Err = core::convert::Infallible;

    fn from_str(s: &str) -> (r: Result<Self, Self::Err>)
        ensures
            r == Ok::<XInputCaptureMode, core::convert::Infallible>(capture_mode_from_name(s@)),
    {
        Ok(XInputCaptureMode::from_name(s))
    }
}

/// A trigger key and the keys it sends.
#[derive(Debug)]
pub struct KeyMapping {
    /// The trigger key's name.
    pub trigger_key: String,
    /// The keys to send, pressed together.
    pub target_keys: TargetKeys,
    /// Repeat interval override.
    pub interval: Option<u64>,
    /// Press duration override.
    pub event_duration: Option<u64>,
    /// Auto-repeat.
    pub turbo_enabled: bool,
    /// Mouse move speed, pixels per move.
    pub move_speed: i32,
    /// Double-tap on the first press.
    pub double_tap_enabled: bool,
    /// Gap between the two taps, ms.
    pub double_tap_gap_ms: u64,
    /// The user's note.
    pub note: String,
}

/// A key mapping as values.
pub struct MappingView {
    pub trigger_key: Seq<char>,
    pub target_keys: Seq<Seq<char>>,
    pub interval: Option<u64>,
    pub event_duration: Option<u64>,
    pub turbo_enabled: bool,
    pub move_speed: i32,
    pub double_tap_enabled: bool,
    pub double_tap_gap_ms: u64,
    pub note: Seq<char>,
}

impl View for KeyMapping {
    type V = MappingView;

    open spec fn view(&self) -> MappingView {
        MappingView {
            trigger_key: self.trigger_key@,
            target_keys: target_keys_contents(self.target_keys),
            interval: self.interval,
            event_duration: self.event_duration,
            turbo_enabled: self.turbo_enabled,
            move_speed: self.move_speed,
            double_tap_enabled: self.double_tap_enabled,
            double_tap_gap_ms: self.double_tap_gap_ms,
            note: self.note@,
        }
    }
}

/// The views of a list of mappings.
pub open spec fn mapping_views(s: Seq<KeyMapping>) -> Seq<MappingView> {
    s.map_values(|m: KeyMapping| m@)
}

/// The views of a list of strings.
pub open spec fn string_views(s: Seq<String>) -> Seq<Seq<char>> {
    s.map_values(|x: String| x@)
}

/// `parts` joined with `sep` between neighbours.
pub open spec fn join_with(parts: Seq<Seq<char>>, sep: Seq<char>) -> Seq<char>
    decreases parts.len(),
{
    if parts.len() == 0 {
        Seq::empty()
    } else if parts.len() == 1 {
        parts[0]
    } else {
        join_with(parts.drop_last(), sep) + sep + parts.last()
    }
}

/// Appends every character of `t` to `s`.
pub fn push_str_chars(s: &mut String, t: &str)
    ensures
        final(s)@ == old(s)@ + t@,
{
    let cs = crate::text::chars_of(t);
    let mut i: usize = 0;
    while i < cs.len()
        invariant
            cs@ == t@,
            i <= cs@.len(),
            s@ == old(s)@ + t@.subrange(0, i as int),
        decreases cs@.len() - i,
    {
        push_char(s, cs[i]);
        assert(t@.subrange(0, i + 1) == t@.subrange(0, i as int).push(t@[i as int]));
        i = i + 1;
    }
    assert(t@.subrange(0, t@.len() as int) == t@);
}

/// `parts` joined with `sep`.
pub fn join_strings(parts: &[String], sep: &str) -> (r: String)
    ensures
        r@ == join_with(string_views(parts@), sep@),
{
    let mut r = String::new();
    let mut i: usize = 0;
    while i < parts.len()
        invariant
            i <= parts@.len(),
            r@ == join_with(string_views(parts@.subrange(0, i as int)), sep@),
        decreases parts@.len() - i,
    {
        let ghost before = string_views(parts@.subrange(0, i as int));
        if i > 0 {
            push_str_chars(&mut r, sep);
        }
        push_str_chars(&mut r, parts[i].as_str());
        proof {
            let now = string_views(parts@.subrange(0, i + 1));
            assert(now.drop_last() =~= before);
            assert(now.last() == parts@[i as int]@);
            if i == 0 {
                assert(now.len() == 1);
                assert(r@ =~= now[0]);
            }
        }
        i = i + 1;
    }
    assert(parts@.subrange(0, parts@.len() as int) =~= parts@);
    r
}

impl KeyMapping {
    /// An independent copy.
    pub fn duplicate(&self) -> (r: KeyMapping)
        ensures
            r@ == self@,
    {
        KeyMapping {
            trigger_key: owned(self.trigger_key.as_str()),
            target_keys: self.target_keys.duplicate(),
            interval: self.interval,
            event_duration: self.event_duration,
            turbo_enabled: self.turbo_enabled,
            move_speed: self.move_speed,
            double_tap_enabled: self.double_tap_enabled,
            double_tap_gap_ms: self.double_tap_gap_ms,
            note: owned(self.note.as_str()),
        }
    }

    /// The target keys.
    pub fn get_target_keys(&self) -> (r: &[String])
        ensures
            string_views(r@) == self@.target_keys,
    {
        self.target_keys.as_slice()
    }

    /// Adds `key` unless it is already a target.
    pub fn add_target_key(&mut self, key: String)
        ensures
            final(self)@ == (MappingView {
                target_keys: if old(self)@.target_keys.contains(key@) {
                    old(self)@.target_keys
                } else {
                    old(self)@.target_keys.push(key@)
                },
                ..old(self)@
            }),
    {
        if !self.target_keys.contains(key.as_str()) {
            self.target_keys.push(key);
        }
    }

    /// Removes every target equal to `key`.
    pub fn remove_target_key(&mut self, key: &str)
        ensures
            final(self)@ == (MappingView {
                target_keys: old(self)@.target_keys.filter(|k: Seq<char>| k != key@),
                ..old(self)@
            }),
    {
        self.target_keys.retain_not_equal(key);
    }

    /// Removes every target.
    pub fn clear_target_keys(&mut self)
        ensures
            final(self)@ == (MappingView { target_keys: Seq::empty(), ..old(self)@ }),
    {
        self.target_keys.clear();
    }

    /// The targets joined with ", " (empty when there is none).
    pub fn target_keys_display(&self) -> (r: String)
        ensures
            r@ == join_with(self@.target_keys, ", "@),
    {
        let keys = self.target_keys.as_slice();
        join_strings(keys, ", ")
    }
}

impl Clone for KeyMapping {
    fn clone(&self) -> Self {
        self.duplicate()
    }
}

/// Inserts `x` into a strictly increasing list, unless it is there already.
pub fn insert_sorted_unique(v: &mut Vec<String>, x: String)
    requires
        strictly_sorted(string_views(old(v)@)),
    ensures
        strictly_sorted(string_views(final(v)@)),
        string_views(final(v)@).to_set() == string_views(old(v)@).to_set().insert(x@),
{
    let ghost old_views = string_views(v@);
    let mut i: usize = 0;
    while i < v.len() && str_less(v[i].as_str(), x.as_str())
        invariant
            i <= v@.len(),
            string_views(v@) == old_views,
            strictly_sorted(old_views),
            forall|k: int| 0 <= k < i ==> lex_less(#[trigger] old_views[k], x@),
        decreases v@.len() - i,
    {
        i = i + 1;
    }
    if i < v.len() && str_eq(v[i].as_str(), x.as_str()) {
        assert(old_views[i as int] == x@);
        assert(old_views.to_set().insert(x@) =~= old_views.to_set());
        return;
    }
    proof {
        if i < old_views.len() {
            lemma_lex_trichotomy(old_views[i as int], x@);
            assert(lex_less(x@, old_views[i as int]));
            assert forall|k: int| i < k < old_views.len() implies lex_less(x@, #[trigger] old_views[k]) by {
                assert(lex_less(old_views[i as int], old_views[k]));
                lemma_lex_transitive(x@, old_views[i as int], old_views[k]);
            }
        }
    }
    v.insert(i, x);
    proof {
        let nv = string_views(v@);
        assert(nv =~= old_views.insert(i as int, x@));
        assert forall|a: int, b: int| 0 <= a < b < nv.len() implies lex_less(#[trigger] nv[a], #[trigger] nv[b]) by {
            if b < i {
                assert(nv[a] == old_views[a] && nv[b] == old_views[b]);
            } else if b == i {
                assert(nv[a] == old_views[a]);
            } else if a < i {
                assert(nv[a] == old_views[a] && nv[b] == old_views[b - 1]);
                assert(lex_less(old_views[a], x@));
                if b - 1 == i {
                    assert(lex_less(x@, old_views[b - 1]));
                } else {
                    assert(lex_less(x@, old_views[b - 1]));
                }
                lemma_lex_transitive(old_views[a], x@, old_views[b - 1]);
            } else if a == i {
                assert(nv[b] == old_views[b - 1]);
            } else {
                assert(nv[a] == old_views[a - 1] && nv[b] == old_views[b - 1]);
            }
        }
        assert(nv.to_set() =~= old_views.to_set().insert(x@)) by {
            assert forall|e: Seq<char>| nv.to_set().contains(e) implies old_views.to_set().insert(x@).contains(e) by {
                let k = choose|k: int| 0 <= k < nv.len() && nv[k] == e;
                if k < i {
                    assert(old_views[k] == e);
                } else if k > i {
                    assert(old_views[k - 1] == e);
                }
            }
            assert forall|e: Seq<char>| old_views.to_set().insert(x@).contains(e) implies nv.to_set().contains(e) by {
                if e == x@ {
                    assert(nv[i as int] == e);
                } else {
                    let k = choose|k: int| 0 <= k < old_views.len() && old_views[k] == e;
                    if k < i {
                        assert(nv[k] == e);
                    } else {
                        assert(nv[k + 1] == e);
                    }
                }
            }
        }
    }
}

/// The strings of `list`, each once, in code-point order.
pub fn sorted_unique(list: &Vec<String>) -> (r: Vec<String>)
    ensures
        strictly_sorted(string_views(r@)),
        string_views(r@).to_set() == string_views(list@).to_set(),
{
    let mut r: Vec<String> = Vec::new();
    let mut i: usize = 0;
    while i < list.len()
        invariant
            i <= list@.len(),
            strictly_sorted(string_views(r@)),
            string_views(r@).to_set() == string_views(list@.subrange(0, i as int)).to_set(),
        decreases list@.len() - i,
    {
        let ghost before = string_views(list@.subrange(0, i as int));
        insert_sorted_unique(&mut r, owned(list[i].as_str()));
        proof {
            let after = string_views(list@.subrange(0, i + 1));
            assert(after =~= before.push(list@[i as int]@));
            assert(before.push(list@[i as int]@) =~= before + seq![list@[i as int]@]);
            Seq::lemma_to_set_insert_commutes(before, list@[i as int]@);
            assert(after.to_set() =~= before.to_set().insert(list@[i as int]@));
        }
        i = i + 1;
    }
    assert(list@.subrange(0, list@.len() as int) =~= list@);
    r
}

/// A device preference entry as values.
pub open spec fn pref_view(e: (String, DeviceApiPreference)) -> (Seq<char>, DeviceApiPreference) {
    (e.0@, e.1)
}

/// The views of a list of device preference entries.
pub open spec fn pref_views(s: Seq<(String, DeviceApiPreference)>) -> Seq<(Seq<char>, DeviceApiPreference)> {
    s.map_values(|e: (String, DeviceApiPreference)| pref_view(e))
}

/// The device names of a list of preference entries.
pub open spec fn pref_keys(s: Seq<(String, DeviceApiPreference)>) -> Seq<Seq<char>> {
    s.map_values(|e: (String, DeviceApiPreference)| e.0@)
}

/// No device name occurs twice.
pub open spec fn keys_distinct(s: Seq<(String, DeviceApiPreference)>) -> bool {
    forall|i: int, j: int| 0 <= i < j < s.len() ==> (#[trigger] s[i]).0@ != (#[trigger] s[j]).0@
}

/// Inserts an entry whose device is not yet listed into a list ordered by device name.
fn insert_pref_sorted(v: &mut Vec<(String, DeviceApiPreference)>, e: (String, DeviceApiPreference))
    requires
        strictly_sorted(pref_keys(old(v)@)),
        !pref_keys(old(v)@).contains(e.0@),
    ensures
        strictly_sorted(pref_keys(final(v)@)),
        pref_views(final(v)@).to_set() == pref_views(old(v)@).to_set().insert(pref_view(e)),
        pref_keys(final(v)@).to_set() == pref_keys(old(v)@).to_set().insert(e.0@),
        final(v)@.len() == old(v)@.len() + 1,
{
    let ghost old_keys = pref_keys(v@);
    let ghost old_views = pref_views(v@);
    let mut i: usize = 0;
    while i < v.len() && str_less(v[i].0.as_str(), e.0.as_str())
        invariant
            i <= v@.len(),
            pref_keys(v@) == old_keys,
            pref_views(v@) == old_views,
            strictly_sorted(old_keys),
            forall|k: int| 0 <= k < i ==> lex_less(#[trigger] old_keys[k], e.0@),
        decreases v@.len() - i,
    {
        i = i + 1;
    }
    proof {
        if i < old_keys.len() {
            lemma_lex_trichotomy(old_keys[i as int], e.0@);
            assert(old_keys[i as int] != e.0@);
            assert(lex_less(e.0@, old_keys[i as int]));
            assert forall|k: int| i < k < old_keys.len() implies lex_less(e.0@, #[trigger] old_keys[k]) by {
                assert(lex_less(old_keys[i as int], old_keys[k]));
                lemma_lex_transitive(e.0@, old_keys[i as int], old_keys[k]);
            }
        }
    }
    let ghost ev = pref_view(e);
    let ghost ek = e.0@;
    v.insert(i, e);
    proof {
        let nk = pref_keys(v@);
        let nv = pref_views(v@);
        assert(nk =~= old_keys.insert(i as int, ek));
        assert(nv =~= old_views.insert(i as int, ev));
        assert forall|a: int, b: int| 0 <= a < b < nk.len() implies lex_less(#[trigger] nk[a], #[trigger] nk[b]) by {
            if b < i {
                assert(nk[a] == old_keys[a] && nk[b] == old_keys[b]);
            } else if b == i {
                assert(nk[a] == old_keys[a]);
            } else if a < i {
                assert(nk[a] == old_keys[a] && nk[b] == old_keys[b - 1]);
                assert(lex_less(ek, old_keys[b - 1]));
                lemma_lex_transitive(old_keys[a], ek, old_keys[b - 1]);
            } else if a == i {
                assert(nk[b] == old_keys[b - 1]);
            } else {
                assert(nk[a] == old_keys[a - 1] && nk[b] == old_keys[b - 1]);
            }
        }
        assert(nv.to_set() =~= old_views.to_set().insert(ev)) by {
            assert forall|x| nv.to_set().contains(x) implies old_views.to_set().insert(ev).contains(x) by {
                let k = choose|k: int| 0 <= k < nv.len() && nv[k] == x;
                if k < i {
                    assert(old_views[k] == x);
                } else if k > i {
                    assert(old_views[k - 1] == x);
                }
            }
            assert forall|x| old_views.to_set().insert(ev).contains(x) implies nv.to_set().contains(x) by {
                if x == ev {
                    assert(nv[i as int] == x);
                } else {
                    let k = choose|k: int| 0 <= k < old_views.len() && old_views[k] == x;
                    if k < i {
                        assert(nv[k] == x);
                    } else {
                        assert(nv[k + 1] == x);
                    }
                }
            }
        }
        assert(nk.to_set() =~= old_keys.to_set().insert(ek)) by {
            assert forall|x| nk.to_set().contains(x) implies old_keys.to_set().insert(ek).contains(x) by {
                let k = choose|k: int| 0 <= k < nk.len() && nk[k] == x;
                if k < i {
                    assert(old_keys[k] == x);
                } else if k > i {
                    assert(old_keys[k - 1] == x);
                }
            }
            assert forall|x| old_keys.to_set().insert(ek).contains(x) implies nk.to_set().contains(x) by {
                if x == ek {
                    assert(nk[i as int] == x);
                } else {
                    let k = choose|k: int| 0 <= k < old_keys.len() && old_keys[k] == x;
                    if k < i {
                        assert(nk[k] == x);
                    } else {
                        assert(nk[k + 1] == x);
                    }
                }
            }
        }
    }
}

/// The device preferences ordered by device name, as they are written out.
fn sorted_device_prefs(entries: &Vec<(String, DeviceApiPreference)>) -> (r: Vec<(String, DeviceApiPreference)>)
    requires
        keys_distinct(entries@),
    ensures
        strictly_sorted(pref_keys(r@)),
        pref_views(r@).to_set() == pref_views(entries@).to_set(),
        r@.len() == entries@.len(),
{
    let mut r: Vec<(String, DeviceApiPreference)> = Vec::new();
    let mut i: usize = 0;
    while i < entries.len()
        invariant
            i <= entries@.len(),
            keys_distinct(entries@),
            r@.len() == i,
            strictly_sorted(pref_keys(r@)),
            pref_views(r@).to_set() == pref_views(entries@.subrange(0, i as int)).to_set(),
            pref_keys(r@).to_set() == pref_keys(entries@.subrange(0, i as int)).to_set(),
        decreases entries@.len() - i,
    {
        let ghost bv = pref_views(entries@.subrange(0, i as int));
        let ghost bk = pref_keys(entries@.subrange(0, i as int));
        let ghost e = entries@[i as int];
        let key = owned(entries[i].0.as_str());
        let item = (key, entries[i].1);
        proof {
            assert(!pref_keys(r@).contains(e.0@)) by {
                if pref_keys(r@).contains(e.0@) {
                    assert(pref_keys(r@).to_set().contains(e.0@));
                    assert(bk.to_set().contains(e.0@));
                    let k = choose|k: int| 0 <= k < bk.len() && bk[k] == e.0@;
                    assert(entries@[k].0@ == e.0@);
                    assert(false);
                }
            }
        }
        insert_pref_sorted(&mut r, item);
        proof {
            let av = pref_views(entries@.subrange(0, i + 1));
            let ak = pref_keys(entries@.subrange(0, i + 1));
            assert(av =~= bv.push(pref_view(e)));
            assert(ak =~= bk.push(e.0@));
            assert(bv.push(pref_view(e)) =~= bv + seq![pref_view(e)]);
            assert(bk.push(e.0@) =~= bk + seq![e.0@]);
            Seq::lemma_to_set_insert_commutes(bv, pref_view(e));
            Seq::lemma_to_set_insert_commutes(bk, e.0@);
        }
        i = i + 1;
    }
    assert(entries@.subrange(0, entries@.len() as int) =~= entries@);
    r
}

/// No device occurs twice among preference entries given as values.
pub open spec fn pref_keys_once(s: Seq<(Seq<char>, DeviceApiPreference)>) -> bool {
    forall|i: int, j: int| 0 <= i < j < s.len() ==> (#[trigger] s[i]).0 != (#[trigger] s[j]).0
}

/// Where the entry for device `k` stands, if there is one.
pub open spec fn pref_key_index(s: Seq<(Seq<char>, DeviceApiPreference)>, k: Seq<char>) -> Option<int> {
    if exists|i: int| 0 <= i < s.len() && (#[trigger] s[i]).0 == k {
        Some(choose|i: int| 0 <= i < s.len() && (#[trigger] s[i]).0 == k)
    } else {
        None
    }
}

/// The preference stored for device `k`, if any.
pub open spec fn pref_lookup(s: Seq<(Seq<char>, DeviceApiPreference)>, k: Seq<char>) -> Option<DeviceApiPreference> {
    match pref_key_index(s, k) {
        Some(i) => Some(s[i].1),
        None => None,
    }
}

/// The entries after storing `p` for device `k`: an existing entry for `k` takes the
/// new value in place, otherwise the entry is added at the end.
pub open spec fn pref_set(s: Seq<(Seq<char>, DeviceApiPreference)>, k: Seq<char>, p: DeviceApiPreference) -> Seq<(Seq<char>, DeviceApiPreference)> {
    match pref_key_index(s, k) {
        Some(i) => s.update(i, (k, p)),
        None => s.push((k, p)),
    }
}

/// The input API chosen per device ("VID:PID"), each device at most once.
#[derive(Debug)]
pub struct DevicePrefs {
    entries: Vec<(String, DeviceApiPreference)>,
}

impl View for DevicePrefs {
    type V = Seq<(Seq<char>, DeviceApiPreference)>;

    closed spec fn view(&self) -> Seq<(Seq<char>, DeviceApiPreference)> {
        pref_views(self.entries@)
    }
}

impl DevicePrefs {
    #[verifier::type_invariant]
    closed spec fn each_device_once(self) -> bool {
        keys_distinct(self.entries@)
    }

    /// No preference yet.
    pub fn new() -> (r: Self)
        ensures
            r@ == Seq::<(Seq<char>, DeviceApiPreference)>::empty(),
    {
        let r = DevicePrefs { entries: Vec::new() };
        assert(r@ =~= Seq::<(Seq<char>, DeviceApiPreference)>::empty());
        r
    }

    fn index_of(&self, key: &str) -> (r: Option<usize>)
        ensures
            keys_distinct(self.entries@),
            r == (match pref_key_index(self@, key@) {
                Some(i) => Some(i as usize),
                None => None::<usize>,
            }),
            r matches Some(i) ==> i < self.entries@.len() && self@[i as int].0 == key@,
            r is None ==> forall|j: int| 0 <= j < self@.len() ==> (#[trigger] self@[j]).0 != key@,
    {
        proof { use_type_invariant(self); }
        let ghost v = self@;
        let mut i: usize = 0;
        while i < self.entries.len()
            invariant
                v == pref_views(self.entries@),
                keys_distinct(self.entries@),
                i <= self.entries@.len(),
                forall|j: int| 0 <= j < i ==> (#[trigger] v[j]).0 != key@,
            decreases self.entries@.len() - i,
        {
            if str_eq(self.entries[i].0.as_str(), key) {
                proof {
                    assert(v[i as int].0 == key@);
                    let c = choose|c: int| 0 <= c < v.len() && (#[trigger] v[c]).0 == key@;
                    if c != i as int {
                        if c < i as int {
                            assert(self.entries@[c].0@ != self.entries@[i as int].0@);
                        } else {
                            assert(self.entries@[i as int].0@ != self.entries@[c].0@);
                        }
                    }
                }
                return Some(i);
            }
            i = i + 1;
        }
        None
    }

    /// The preference stored for `key`, if any.
    pub fn get(&self, key: &str) -> (r: Option<DeviceApiPreference>)
        ensures
            r == pref_lookup(self@, key@),
            pref_keys_once(self@),
    {
        let found = self.index_of(key);
        proof {
            assert forall|i: int, j: int| 0 <= i < j < self@.len() implies (#[trigger] self@[i]).0 != (#[trigger] self@[j]).0 by {
                assert(self.entries@[i].0@ != self.entries@[j].0@);
            }
        }
        match found {
            Some(i) => Some(self.entries[i].1),
            None => None,
        }
    }

    /// Stores `pref` for `key`, replacing the earlier choice for that device.
    pub fn set(&mut self, key: String, pref: DeviceApiPreference)
        ensures
            final(self)@ == pref_set(old(self)@, key@, pref),
            pref_keys_once(final(self)@),
    {
        let found = self.index_of(key.as_str());
        let ghost v = self@;
        let ghost k = key@;
        let mut e: Vec<(String, DeviceApiPreference)> = Vec::new();
        std::mem::swap(&mut e, &mut self.entries);
        match found {
            Some(i) => {
                e.set(i, (key, pref));
                proof {
                    assert(pref_views(e@) =~= v.update(i as int, (k, pref)));
                    assert forall|a: int, b: int| 0 <= a < b < e@.len() implies (#[trigger] e@[a]).0@ != (#[trigger] e@[b]).0@ by {
                        if a != i as int && b != i as int {
                            assert(e@[a].0@ == v[a].0 && e@[b].0@ == v[b].0);
                        } else if a == i as int {
                            assert(e@[b].0@ == v[b].0);
                            assert(v[a].0 == k);
                        } else {
                            assert(e@[a].0@ == v[a].0);
                            assert(v[b].0 == k);
                        }
                    }
                }
            },
            None => {
                e.push((key, pref));
                proof {
                    assert(pref_views(e@) =~= v.push((k, pref)));
                    assert forall|a: int, b: int| 0 <= a < b < e@.len() implies (#[trigger] e@[a]).0@ != (#[trigger] e@[b]).0@ by {
                        assert(e@[a].0@ == v[a].0);
                        if b == e@.len() - 1 {
                            if v[a].0 == k {
                                assert(exists|c: int| 0 <= c < v.len() && (#[trigger] v[c]).0 == k);
                            }
                        } else {
                            assert(e@[b].0@ == v[b].0);
                        }
                    }
                }
            },
        }
        self.entries = e;
        proof {
            assert forall|a: int, b: int| 0 <= a < b < self@.len() implies (#[trigger] self@[a]).0 != (#[trigger] self@[b]).0 by {
                assert(self.entries@[a].0@ != self.entries@[b].0@);
            }
        }
    }

    /// The number of devices with a stored preference.
    pub fn len(&self) -> (n: usize)
        ensures
            n == self@.len(),
    {
        self.entries.len()
    }

    /// The entries, in the order the devices were first given a preference.
    pub fn entries(&self) -> (r: &[(String, DeviceApiPreference)])
        ensures
            pref_views(r@) == self@,
    {
        self.entries.as_slice()
    }

    /// The entries ordered by device name, as they are written out.
    pub fn sorted(&self) -> (r: Vec<(String, DeviceApiPreference)>)
        ensures
            strictly_sorted(pref_keys(r@)),
            pref_views(r@).to_set() == self@.to_set(),
            r@.len() == self@.len(),
    {
        proof { use_type_invariant(self); }
        sorted_device_prefs(&self.entries)
    }
}

/// The idle state of a HID device, against which button presses are detected.
#[derive(Debug)]
pub struct HidDeviceBaseline {
    /// Device identifier (vendor, product, serial or handle).
    pub device_id: String,
    /// The report read while nothing is pressed.
    pub baseline_data: Vec<u8>,
}

/// A named snapshot of mappings.
#[derive(Debug)]
pub struct Preset {
    /// Display name.
    pub name: String,
    /// The mappings of the snapshot.
    pub mappings: Vec<KeyMapping>,
    /// Key combination that switches to this preset (empty: none).
    pub switch_key: String,
}

/// A mapping preset as values.
pub struct MappingPresetView {
    pub name: Seq<char>,
    pub mappings: Seq<MappingView>,
    pub switch_key: Seq<char>,
}

impl View for Preset {
    type V = MappingPresetView;

    open spec fn view(&self) -> MappingPresetView {
        MappingPresetView {
            name: self.name@,
            mappings: mapping_views(self.mappings@),
            switch_key: self.switch_key@,
        }
    }
}

/// Mouse move speed of a new mapping.
pub fn default_move_speed() -> (r: i32)
    ensures
        r == 5,
{
    5
}

/// Gap between the two taps of a double tap, ms.
pub fn default_double_tap_gap_ms() -> (r: u64)
    ensures
        r == 50,
{
    50
}

/// Whether a new mapping repeats.
pub fn default_turbo_enabled() -> (r: bool)
    ensures
        r,
{
    true
}

/// The target keys of a mapping read without any.
pub fn default_target_keys() -> (r: TargetKeys)
    ensures
        target_keys_contents(r) == Seq::<Seq<char>>::empty(),
{
    TargetKeys::new()
}

/// Input timeout, ms.
pub fn default_input_timeout() -> (r: u64)
    ensures
        r == 5,
{
    5
}

/// Repeat interval, ms.
pub fn default_interval() -> (r: u64)
    ensures
        r == 5,
{
    5
}

/// Press duration, ms.
pub fn default_event_duration() -> (r: u64)
    ensures
        r == 5,
{
    5
}

/// Worker threads (0: one per core).
pub fn default_worker_count() -> (r: usize)
    ensures
        r == 0,
{
    0
}

/// Raw Input capture strategy.
pub fn default_capture_mode() -> (r: String)
    ensures
        r@ == "MostSustained"@,
{
    owned("MostSustained")
}

/// XInput capture strategy as stored.
pub fn default_xinput_capture_mode() -> (r: String)
    ensures
        r@ == "MostSustained"@,
{
    owned("MostSustained")
}

/// Whether the user plays DFO.
pub fn default_dfo_player() -> (r: bool)
    ensures
        r,
{
    true
}

/// Whether the classic window is the start-up mode.
pub fn default_classic_mode() -> (r: bool)
    ensures
        r,
{
    true
}

/// Whether the process whitelist filters.
pub fn default_whitelist_enabled() -> (r: bool)
    ensures
        r,
{
    true
}

/// The application settings (window geometry and interface language are kept by
/// the program around the library).
#[derive(Debug)]
pub struct AppConfig {
    /// Show the tray icon.
    pub show_tray_icon: bool,
    /// Show notifications.
    pub show_notifications: bool,
    /// Keep the window on top.
    pub always_on_top: bool,
    /// Dark theme.
    pub dark_mode: bool,
    /// Interface language.
    pub language: Language,
    /// The first-run guide has been read.
    pub guide_seen: bool,
    /// Start in the minimal window.
    pub minimal_mode: bool,
    /// Start in the classic window.
    pub classic_mode: bool,
    /// The minimal window's vibration presets come from the per-class set.
    pub minimal_vib_preset_job: bool,
    /// The user plays DFO.
    pub dfo_player: bool,
    /// The vibration engine follows the old client's event semantics.
    pub vib_legacy_client: bool,
    /// The client edition question has been asked.
    pub vib_edition_asked: bool,
    /// Toggle hotkey.
    pub switch_key: String,
    /// Key mappings.
    pub mappings: Vec<KeyMapping>,
    /// Input timeout, ms.
    pub input_timeout: u64,
    /// Repeat interval, ms.
    pub interval: u64,
    /// Press duration, ms.
    pub event_duration: u64,
    /// Worker threads (0: automatic).
    pub worker_count: usize,
    /// Processes the mappings apply to (empty: all).
    pub process_whitelist: Vec<String>,
    /// Whether the whitelist filters.
    pub whitelist_enabled: bool,
    /// HID idle baselines.
    pub hid_baselines: Vec<HidDeviceBaseline>,
    /// Raw Input capture strategy.
    pub rawinput_capture_mode: String,
    /// XInput capture strategy.
    pub xinput_capture_mode: String,
    /// Input API per device (VID:PID), each device once.
    pub device_api_preferences: DevicePrefs,
    /// Saved mapping presets.
    pub presets: Vec<Preset>,
    /// The active preset (empty: none).
    pub current_preset: String,
    /// Vibration settings.
    pub vibration: crate::vibration::VibrationConfig,
    /// Named vibration presets.
    pub vibration_presets: Vec<crate::presets::VibrationPreset>,
}

/// The settings as values.
pub struct ConfigView {
    pub show_tray_icon: bool,
    pub show_notifications: bool,
    pub always_on_top: bool,
    pub dark_mode: bool,
    pub language: Language,
    pub guide_seen: bool,
    pub minimal_mode: bool,
    pub classic_mode: bool,
    pub minimal_vib_preset_job: bool,
    pub dfo_player: bool,
    pub vib_legacy_client: bool,
    pub vib_edition_asked: bool,
    pub switch_key: Seq<char>,
    pub mappings: Seq<MappingView>,
    pub input_timeout: u64,
    pub interval: u64,
    pub event_duration: u64,
    pub worker_count: usize,
    pub process_whitelist: Seq<Seq<char>>,
    pub whitelist_enabled: bool,
    pub hid_baselines: Seq<(Seq<char>, Seq<u8>)>,
    pub rawinput_capture_mode: Seq<char>,
    pub xinput_capture_mode: Seq<char>,
    pub device_api_preferences: Seq<(Seq<char>, DeviceApiPreference)>,
    pub presets: Seq<MappingPresetView>,
    pub current_preset: Seq<char>,
    pub vibration: crate::vibration::VibrationConfig,
    pub vibration_presets: Seq<crate::presets::PresetView>,
}

impl View for AppConfig {
    type V = ConfigView;

    open spec fn view(&self) -> ConfigView {
        ConfigView {
            show_tray_icon: self.show_tray_icon,
            show_notifications: self.show_notifications,
            always_on_top: self.always_on_top,
            dark_mode: self.dark_mode,
            language: self.language,
            guide_seen: self.guide_seen,
            minimal_mode: self.minimal_mode,
            classic_mode: self.classic_mode,
            minimal_vib_preset_job: self.minimal_vib_preset_job,
            dfo_player: self.dfo_player,
            vib_legacy_client: self.vib_legacy_client,
            vib_edition_asked: self.vib_edition_asked,
            switch_key: self.switch_key@,
            mappings: mapping_views(self.mappings@),
            input_timeout: self.input_timeout,
            interval: self.interval,
            event_duration: self.event_duration,
            worker_count: self.worker_count,
            process_whitelist: string_views(self.process_whitelist@),
            whitelist_enabled: self.whitelist_enabled,
            hid_baselines: self.hid_baselines@.map_values(|b: HidDeviceBaseline| (b.device_id@, b.baseline_data@)),
            rawinput_capture_mode: self.rawinput_capture_mode@,
            xinput_capture_mode: self.xinput_capture_mode@,
            device_api_preferences: self.device_api_preferences@,
            presets: self.presets@.map_values(|p: Preset| p@),
            current_preset: self.current_preset@,
            vibration: self.vibration,
            vibration_presets: crate::presets::views(self.vibration_presets@),
        }
    }
}

/// The mapping a fresh configuration starts with: Q repeats Q.
pub open spec fn starter_mapping() -> MappingView {
    MappingView {
        trigger_key: "Q"@,
        target_keys: seq!["Q"@],
        interval: None,
        event_duration: None,
        turbo_enabled: true,
        move_speed: 10,
        double_tap_enabled: false,
        double_tap_gap_ms: 50,
        note: Seq::empty(),
    }
}

/// The preset a fresh configuration starts with: empty and named 默认.
pub open spec fn starter_preset() -> MappingPresetView {
    MappingPresetView { name: "默认"@, mappings: Seq::empty(), switch_key: Seq::empty() }
}

/// The settings of a fresh configuration, vibration settings aside.
pub open spec fn is_default_config(c: ConfigView) -> bool {
    &&& c.show_tray_icon
    &&& c.show_notifications
    &&& !c.always_on_top
    &&& !c.dark_mode
    &&& c.language == Language::SimplifiedChinese
    &&& !c.guide_seen
    &&& !c.minimal_mode
    &&& c.classic_mode
    &&& !c.minimal_vib_preset_job
    &&& c.dfo_player
    &&& !c.vib_legacy_client
    &&& !c.vib_edition_asked
    &&& c.switch_key == "DELETE"@
    &&& c.mappings == seq![starter_mapping()]
    &&& c.input_timeout == 5
    &&& c.interval == 5
    &&& c.event_duration == 5
    &&& c.worker_count == 0
    &&& c.process_whitelist == Seq::<Seq<char>>::empty()
    &&& c.whitelist_enabled
    &&& c.hid_baselines == Seq::<(Seq<char>, Seq<u8>)>::empty()
    &&& c.rawinput_capture_mode == "MostSustained"@
    &&& c.xinput_capture_mode == "MostSustained"@
    &&& c.device_api_preferences == Seq::<(Seq<char>, DeviceApiPreference)>::empty()
    &&& c.presets == seq![starter_preset()]
    &&& c.current_preset == Seq::<char>::empty()
    &&& crate::vibration::is_default_vibration(c.vibration)
    &&& c.vibration_presets == crate::presets::builtin_presets()
}

/// The values a configuration read from disk is brought under: the timings are
/// raised to their minimums (input timeout 2, interval 5, press duration 2) and the
/// whitelist is sorted with each process once; nothing else changes.
pub open spec fn load_rules_hold(old_c: ConfigView, new_c: ConfigView) -> bool {
    &&& new_c.input_timeout == (if old_c.input_timeout < 2 { 2 } else { old_c.input_timeout })
    &&& new_c.interval == (if old_c.interval < 5 { 5 } else { old_c.interval })
    &&& new_c.event_duration == (if old_c.event_duration < 2 { 2 } else { old_c.event_duration })
    &&& strictly_sorted(new_c.process_whitelist)
    &&& new_c.process_whitelist.to_set() == old_c.process_whitelist.to_set()
    &&& new_c == (ConfigView {
        input_timeout: new_c.input_timeout,
        interval: new_c.interval,
        event_duration: new_c.event_duration,
        process_whitelist: new_c.process_whitelist,
        ..old_c
    })
}

/// What a saved configuration reads back as, once the load rules have run: when its
/// timings were already at or above their minimums, every setting (the interface
/// language among them) is the saved one, except that the whitelist comes back sorted
/// with each process once.
pub proof fn law_saved_settings_survive_loading(saved: ConfigView, loaded: ConfigView)
    requires
        load_rules_hold(saved, loaded),
        saved.input_timeout >= 2,
        saved.interval >= 5,
        saved.event_duration >= 2,
    ensures
        loaded == (ConfigView { process_whitelist: loaded.process_whitelist, ..saved }),
        loaded.language == saved.language,
        strictly_sorted(loaded.process_whitelist),
        loaded.process_whitelist.to_set() == saved.process_whitelist.to_set(),
{
}

/// Whether the vibration section of a vibration file is taken over: it is, unless it
/// is the all-zero section an empty file reads as (no attack gain, no master gain,
/// advanced tuning off) and the file holds no preset.
pub open spec fn vibration_file_counts(v: crate::vibration::VibrationConfig, n_presets: nat) -> bool {
    v.attack_gain != 0 || v.master_gain != 0 || v.advanced_enabled || n_presets > 0
}

impl AppConfig {
    /// A fresh configuration.
    pub fn default_config() -> (r: AppConfig)
        ensures
            is_default_config(r@),
    {
        let mut targets = TargetKeys::new();
        targets.push(owned("Q"));
        let mut mappings: Vec<KeyMapping> = Vec::new();
        mappings.push(KeyMapping {
            trigger_key: owned("Q"),
            target_keys: targets,
            interval: None,
            event_duration: None,
            turbo_enabled: true,
            move_speed: 10,
            double_tap_enabled: false,
            double_tap_gap_ms: default_double_tap_gap_ms(),
            note: String::new(),
        });
        let mut presets: Vec<Preset> = Vec::new();
        presets.push(Preset { name: owned("默认"), mappings: Vec::new(), switch_key: String::new() });
        let r = AppConfig {
            show_tray_icon: true,
            show_notifications: true,
            always_on_top: false,
            dark_mode: false,
            language: Language::SimplifiedChinese,
            guide_seen: false,
            minimal_mode: false,
            classic_mode: default_classic_mode(),
            minimal_vib_preset_job: false,
            dfo_player: default_dfo_player(),
            vib_legacy_client: false,
            vib_edition_asked: false,
            switch_key: owned("DELETE"),
            mappings,
            input_timeout: default_input_timeout(),
            interval: default_interval(),
            event_duration: default_event_duration(),
            worker_count: default_worker_count(),
            process_whitelist: Vec::new(),
            whitelist_enabled: default_whitelist_enabled(),
            hid_baselines: Vec::new(),
            rawinput_capture_mode: default_capture_mode(),
            xinput_capture_mode: default_xinput_capture_mode(),
            device_api_preferences: DevicePrefs::new(),
            presets,
            current_preset: String::new(),
            vibration: crate::vibration::VibrationConfig::default_config(),
            vibration_presets: crate::presets::default_vibration_presets(),
        };
        assert(r@.mappings =~= seq![starter_mapping()]);
        assert(r.presets@[0]@.mappings =~= Seq::<MappingView>::empty());
        assert(r@.presets =~= seq![starter_preset()]);
        assert(r@.process_whitelist =~= Seq::<Seq<char>>::empty());
        assert(r@.hid_baselines =~= Seq::<(Seq<char>, Seq<u8>)>::empty());
        assert(r@.device_api_preferences =~= Seq::<(Seq<char>, DeviceApiPreference)>::empty());
        r
    }

    /// Brings a configuration just read from disk under the load rules.
    #[verifier::rlimit(50)]
    pub fn apply_load_rules(&mut self)
        ensures
            load_rules_hold(old(self)@, final(self)@),
    {
        let ghost o = self@;
        let list = sorted_unique(&self.process_whitelist);
        let timeout: u64 = if self.input_timeout < 2 { 2 } else { self.input_timeout };
        let interval: u64 = if self.interval < 5 { 5 } else { self.interval };
        let duration: u64 = if self.event_duration < 2 { 2 } else { self.event_duration };
        self.input_timeout = timeout;
        self.interval = interval;
        self.event_duration = duration;
        self.process_whitelist = list;
        assert(self@ == (ConfigView {
            input_timeout: timeout,
            interval: interval,
            event_duration: duration,
            process_whitelist: string_views(list@),
            ..o
        }));
    }

    /// Takes over what a vibration file holds; returns whether its vibration section
    /// was taken over. The presets are replaced only when the file holds some.
    pub fn adopt_vibration_file(
        &mut self,
        vibration: crate::vibration::VibrationConfig,
        presets: Vec<crate::presets::VibrationPreset>,
    ) -> (r: bool)
        ensures
            r == vibration_file_counts(vibration, presets@.len()),
            final(self)@ == (if r {
                ConfigView {
                    vibration,
                    vibration_presets: if presets@.len() > 0 {
                        crate::presets::views(presets@)
                    } else {
                        old(self)@.vibration_presets
                    },
                    ..old(self)@
                }
            } else {
                old(self)@
            }),
    {
        if vibration.attack_gain != 0 || vibration.master_gain != 0 || vibration.advanced_enabled
            || presets.len() > 0 {
            self.vibration = vibration;
            if presets.len() > 0 {
                self.vibration_presets = presets;
            }
            true
        } else {
            false
        }
    }
}

impl Default for AppConfig {
    fn default() -> (r: Self)
        ensures
            is_default_config(r@),
    {
        AppConfig::default_config()
    }
}

} // verus!
