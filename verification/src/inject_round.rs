//! The bookkeeping of the injection service between two polls: which client instances
//! were injected, which were warned about, which failure was last reported, and the
//! candidate list of one client.
//!
//! The service polls the running clients; for each instance it decides, from the
//! book, whether to try; the program around the library scans processes, checks files
//! and injects, and hands the outcomes back here.

use vstd::prelude::*;
use crate::capture::merge_ids;
use crate::inject::DllCand;
use crate::text::seq_ends_with;
use crate::text::str_ends_with;
use crate::text::str_eq;

verus! {

/// What the service remembers between polls.
#[derive(Debug)]
pub struct InjectBook {
    /// Instances (process ids) injected and still running.
    pub injected: Vec<u32>,
    /// Instances warned about (identity conflict), warned once each.
    pub warned: Vec<u32>,
    /// The last failure reported: the instance and the error.
    pub last_fail: Option<(u32, String)>,
}

/// The book as values.
pub struct BookView {
    pub injected: Seq<u32>,
    pub warned: Seq<u32>,
    pub last_fail: Option<(u32, Seq<char>)>,
}

impl View for InjectBook {
    type V = BookView;

    open spec fn view(&self) -> BookView {
        BookView {
            injected: self.injected@,
            warned: self.warned@,
            last_fail: match self.last_fail {
                Some((p, e)) => Some((p, e@)),
                None => None,
            },
        }
    }
}

/// The ids of `s` that are in `present`, in order.
pub open spec fn still_present(s: Seq<u32>, present: Seq<u32>) -> Seq<u32> {
    s.filter(|p: u32| present.contains(p))
}

/// Whether `v` holds `x`.
fn holds(v: &Vec<u32>, x: u32) -> (r: bool)
    ensures
        r == v@.contains(x),
{
    let mut i: usize = 0;
    while i < v.len()
        invariant
            i <= v@.len(),
            forall|k: int| 0 <= k < i ==> v@[k] != x,
        decreases v@.len() - i,
    {
        if v[i] == x {
            assert(v@[i as int] == x);
            return true;
        }
        i = i + 1;
    }
    false
}

/// The ids of `s` that are in `present`.
fn keep_present(s: &Vec<u32>, present: &Vec<u32>) -> (r: Vec<u32>)
    ensures
        r@ == still_present(s@, present@),
{
    let mut r: Vec<u32> = Vec::new();
    let mut i: usize = 0;
    assert(s@.subrange(0, 0).filter(|p: u32| present@.contains(p)) =~= Seq::<u32>::empty()) by {
        reveal(Seq::filter);
    }
    while i < s.len()
        invariant
            i <= s@.len(),
            r@ == s@.subrange(0, i as int).filter(|p: u32| present@.contains(p)),
        decreases s@.len() - i,
    {
        let ghost before = s@.subrange(0, i as int);
        assert(s@.subrange(0, i + 1) =~= before.push(s@[i as int]));
        proof {
            before.lemma_filter_push(s@[i as int], |p: u32| present@.contains(p));
        }
        if holds(present, s[i]) {
            r.push(s[i]);
        }
        i = i + 1;
    }
    assert(s@.subrange(0, s@.len() as int) =~= s@);
    r
}

impl InjectBook {
    /// Nothing injected, warned about or failed yet.
    pub fn new() -> (r: InjectBook)
        ensures
            r@.injected == Seq::<u32>::empty(),
            r@.warned == Seq::<u32>::empty(),
            r@.last_fail is None,
    {
        InjectBook { injected: Vec::new(), warned: Vec::new(), last_fail: None }
    }

    /// Whether instance `pid` still has to be injected.
    pub fn needs_injection(&self, pid: u32) -> (r: bool)
        ensures
            r == !self@.injected.contains(pid),
    {
        !holds(&self.injected, pid)
    }

    /// Records that no DLL was chosen for instance `pid`; returns whether to warn. A
    /// refusal is an identity conflict, worth a warning, when the client does not load
    /// the collector itself and some candidate existed; each instance is warned once.
    pub fn note_rejected(&mut self, pid: u32, us_extend: bool, has_candidates: bool) -> (warn: bool)
        ensures
            warn == (!us_extend && has_candidates && !old(self)@.warned.contains(pid)),
            final(self)@ == (BookView {
                warned: if warn { old(self)@.warned.push(pid) } else { old(self)@.warned },
                ..old(self)@
            }),
    {
        if us_extend || !has_candidates {
            return false;
        }
        if holds(&self.warned, pid) {
            return false;
        }
        self.warned.push(pid);
        true
    }

    /// Records a failed injection of `pid`; returns whether to report it. The same
    /// failure (same instance, same error) is reported once.
    pub fn note_failure(&mut self, pid: u32, error: String) -> (fresh: bool)
        ensures
            fresh == (old(self)@.last_fail != Some((pid, error@))),
            final(self)@ == (BookView {
                last_fail: if fresh { Some((pid, error@)) } else { old(self)@.last_fail },
                ..old(self)@
            }),
    {
        let same = match &self.last_fail {
            Some((p, e)) => *p == pid && str_eq(e.as_str(), error.as_str()),
            None => false,
        };
        if same {
            false
        } else {
            self.last_fail = Some((pid, error));
            true
        }
    }

    /// Records a successful injection of `pid`: a failure remembered for it is
    /// forgotten.
    pub fn note_success(&mut self, pid: u32)
        ensures
            final(self)@ == (BookView {
                last_fail: match old(self)@.last_fail {
                    Some((p, e)) => if p == pid { None } else { Some((p, e)) },
                    None => None,
                },
                ..old(self)@
            }),
    {
        let clear = match &self.last_fail {
            Some((p, _)) => *p == pid,
            None => false,
        };
        if clear {
            self.last_fail = None;
        }
    }

    /// Closes a poll: instances no longer running are forgotten (so a restarted client
    /// is injected again), and the instances injected in this poll are added once.
    pub fn end_round(&mut self, present: &Vec<u32>, ok_new: &Vec<u32>)
        ensures
            final(self)@ == (BookView {
                injected: merge_ids(still_present(old(self)@.injected, present@), ok_new@),
                warned: still_present(old(self)@.warned, present@),
                ..old(self)@
            }),
    {
        let mut kept = keep_present(&self.injected, present);
        let ghost start = kept@;
        let mut i: usize = 0;
        assert(ok_new@.subrange(0, 0) =~= Seq::<u32>::empty());
        while i < ok_new.len()
            invariant
                i <= ok_new@.len(),
                kept@ == merge_ids(start, ok_new@.subrange(0, i as int)),
            decreases ok_new@.len() - i,
        {
            assert(ok_new@.subrange(0, i + 1).drop_last() =~= ok_new@.subrange(0, i as int));
            if !holds(&kept, ok_new[i]) {
                kept.push(ok_new[i]);
            }
            i = i + 1;
        }
        assert(ok_new@.subrange(0, ok_new@.len() as int) =~= ok_new@);
        self.injected = kept;
        let warned = keep_present(&self.warned, present);
        self.warned = warned;
    }
}

/// `merge_ids` keeps what was there and adds what came.
pub proof fn lemma_merge_contains(old: Seq<u32>, new: Seq<u32>, x: u32)
    ensures
        merge_ids(old, new).contains(x) == (old.contains(x) || new.contains(x)),
    decreases new.len(),
{
    if new.len() > 0 {
        lemma_merge_contains(old, new.drop_last(), x);
        let m = merge_ids(old, new.drop_last());
        assert(new.contains(x) == (new.drop_last().contains(x) || new.last() == x)) by {
            if new.contains(x) {
                let k = choose|k: int| 0 <= k < new.len() && new[k] == x;
                if k < new.len() - 1 {
                    assert(new.drop_last()[k] == x);
                }
            }
            if new.drop_last().contains(x) {
                let k = choose|k: int| 0 <= k < new.drop_last().len() && new.drop_last()[k] == x;
                assert(new[k] == x);
            }
        }
        if !m.contains(new.last()) {
            assert(m.push(new.last()).contains(x) == (m.contains(x) || new.last() == x)) by {
                if m.push(new.last()).contains(x) {
                    let k = choose|k: int| 0 <= k < m.len() + 1 && m.push(new.last())[k] == x;
                    if k < m.len() {
                        assert(m[k] == x);
                    }
                }
                if m.contains(x) {
                    let k = choose|k: int| 0 <= k < m.len() && m[k] == x;
                    assert(m.push(new.last())[k] == x);
                }
                if new.last() == x {
                    assert(m.push(new.last())[m.len() as int] == x);
                }
            }
        }
    }
}

/// `still_present` keeps exactly the present ones.
pub proof fn lemma_still_present_contains(s: Seq<u32>, present: Seq<u32>, x: u32)
    ensures
        still_present(s, present).contains(x) == (s.contains(x) && present.contains(x)),
{
    let f = still_present(s, present);
    if f.contains(x) {
        s.lemma_filter_contains_rev(|p: u32| present.contains(p), x);
        let k = choose|k: int| 0 <= k < f.len() && f[k] == x;
        s.lemma_filter_pred(|p: u32| present.contains(p), k);
    }
    if s.contains(x) && present.contains(x) {
        let k = choose|k: int| 0 <= k < s.len() && s[k] == x;
        s.lemma_filter_contains(|p: u32| present.contains(p), k);
    }
}

/// A client instance is injected once while it runs: once a poll has injected it (and
/// it was running), later polls no longer try it; once it has gone, it is forgotten
/// unless that very poll injected it.
pub proof fn law_injected_instance_is_not_retried(book: BookView, present: Seq<u32>, ok_new: Seq<u32>, pid: u32)
    ensures
        merge_ids(still_present(book.injected, present), ok_new).contains(pid)
            == ((book.injected.contains(pid) && present.contains(pid)) || ok_new.contains(pid)),
{
    lemma_merge_contains(still_present(book.injected, present), ok_new, pid);
    lemma_still_present_contains(book.injected, present, pid);
}

/// An instance is warned about once: after a warning, further refusals of the same
/// running instance stay silent.
pub proof fn law_instance_warned_once(warned: Seq<u32>, pid: u32, present: Seq<u32>)
    requires
        present.contains(pid),
    ensures
        still_present(warned.push(pid), present).contains(pid),
{
    lemma_still_present_contains(warned.push(pid), present, pid);
    assert(warned.push(pid)[warned.len() as int] == pid);
}

/// The generation label written to the log for an injected DLL.
pub open spec fn generation_label_spec(dll_name: Seq<char>) -> Seq<char> {
    if seq_ends_with(dll_name, "_OLD.dll"@) { "老一代/ACT"@ } else { "新一代/S4+"@ }
}

/// The generation label of an injected DLL.
pub fn generation_label(dll_name: &str) -> (r: &'static str)
    ensures
        r@ == generation_label_spec(dll_name@),
{
    if str_ends_with(dll_name, "_OLD.dll") { "老一代/ACT" } else { "新一代/S4+" }
}

/// Whether the injected DLL's generation differs from the vibration route (vibration
/// then works, but with the other generation's semantics; worth a hint).
pub fn route_mismatch(dll_name: &str, legacy_route: bool) -> (r: bool)
    ensures
        r == (seq_ends_with(dll_name@, "_OLD.dll"@) != legacy_route),
{
    str_ends_with(dll_name, "_OLD.dll") != legacy_route
}

/// Whether the candidate chosen (by name and directory) carries no identity tag, so
/// that the client version could not be checked.
pub fn chosen_untagged(cands: &[DllCand], name: &str, from_host: bool) -> (r: bool)
    ensures
        r == (exists|i: int| 0 <= i < cands@.len() && cands@[i].name@ == name@ && cands@[i].from_host == from_host
            && (forall|j: int| 0 <= j < i ==> !(#[trigger] cands@[j].name@ == name@ && cands@[j].from_host == from_host))
            && cands@[i].tag is None),
{
    let mut i: usize = 0;
    while i < cands.len()
        invariant
            i <= cands@.len(),
            forall|j: int| 0 <= j < i ==> !(#[trigger] cands@[j].name@ == name@ && cands@[j].from_host == from_host),
        decreases cands@.len() - i,
    {
        if str_eq(cands[i].name, name) && cands[i].from_host == from_host {
            return cands[i].tag.is_none();
        }
        i = i + 1;
    }
    false
}

/// Which DLL files exist for one client: in the client's directory the older and the
/// newer generation, and the older one in the host's directory, each with the
/// identity tag read from it (outer `None`: the file is not there).
pub open spec fn candidates_spec(
    dir_old: Option<Option<&'static str>>,
    dir_new: Option<Option<&'static str>>,
    host_old: Option<Option<&'static str>>,
) -> Seq<DllCand> {
    let a = match dir_old {
        Some(t) => seq![DllCand { name: "DfoVibration_OLD.dll", from_host: false, tag: t }],
        None => Seq::empty(),
    };
    let b = match dir_new {
        Some(t) => seq![DllCand { name: "DfoVibration.dll", from_host: false, tag: t }],
        None => Seq::empty(),
    };
    let c = match host_old {
        Some(t) => seq![DllCand { name: "DfoVibration_OLD.dll", from_host: true, tag: t }],
        None => Seq::empty(),
    };
    a + b + c
}

/// The candidate list of one client, in the order the choice considers them.
pub fn gather_candidates(
    dir_old: Option<Option<&'static str>>,
    dir_new: Option<Option<&'static str>>,
    host_old: Option<Option<&'static str>>,
) -> (r: Vec<DllCand>)
    ensures
        r@ == candidates_spec(dir_old, dir_new, host_old),
{
    let mut r: Vec<DllCand> = Vec::new();
    if let Some(t) = dir_old {
        r.push(DllCand { name: "DfoVibration_OLD.dll", from_host: false, tag: t });
    }
    if let Some(t) = dir_new {
        r.push(DllCand { name: "DfoVibration.dll", from_host: false, tag: t });
    }
    if let Some(t) = host_old {
        r.push(DllCand { name: "DfoVibration_OLD.dll", from_host: true, tag: t });
    }
    assert(r@ =~= candidates_spec(dir_old, dir_new, host_old));
    r
}

} // verus!
