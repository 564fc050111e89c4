//! Which collector DLL to load into a running game client, and how to tell the
//! builds apart by the identity tag compiled into their bytes.

use vstd::prelude::*;
use vstd::string::StringSliceAdditionalSpecFns;
use crate::seq_util::{first_where, is_first_where, lemma_first_where_at, lemma_first_where_none};
use crate::text::{chars_eq, chars_of, seq_ends_with, str_ends_with, str_eq};

verus! {

/// A collector DLL that exists on disk and may be injected.
#[derive(Debug, Clone, Copy)]
pub struct DllCand {
    /// File name (`DfoVibration_OLD.dll` or `DfoVibration.dll`).
    pub name: &'static str,
    /// Taken from the host program's directory rather than the client's.
    pub from_host: bool,
    /// Identity tag found in the DLL's bytes; `None` = untagged build.
    pub tag: Option<&'static str>,
}

/// The characters of an optional tag.
pub open spec fn tag_view(t: Option<&'static str>) -> Option<Seq<char>> {
    match t {
        Some(s) => Some(s@),
        None => None,
    }
}

/// The DLL is of the older generation (its name ends in `_OLD.dll`).
pub open spec fn is_old_dll(c: DllCand) -> bool {
    seq_ends_with(c.name@, "_OLD.dll"@)
}

/// Sorting key: candidates of the route's own generation first, host-directory
/// candidates always after those of the client directory.
pub open spec fn cand_rank(c: DllCand, legacy: bool) -> int {
    (if c.from_host { 2int } else { 0int }) + (if is_old_dll(c) != legacy { 1int } else { 0int })
}

/// The candidates of rank `k`, in the order given.
pub open spec fn rank_class(s: Seq<DllCand>, legacy: bool, k: int) -> Seq<DllCand> {
    s.filter(rank_pred(legacy, k))
}

pub open spec fn rank_pred(legacy: bool, k: int) -> spec_fn(DllCand) -> bool {
    |c: DllCand| cand_rank(c, legacy) == k
}

/// The candidates of rank below `k`, grouped by rank, each group in the order given.
pub open spec fn classes_below(s: Seq<DllCand>, legacy: bool, k: nat) -> Seq<DllCand>
    decreases k,
{
    if k == 0 {
        Seq::empty()
    } else {
        classes_below(s, legacy, (k - 1) as nat) + rank_class(s, legacy, k - 1)
    }
}

/// The candidates stably sorted by `cand_rank` (ranks are 0 to 3).
pub open spec fn route_order(s: Seq<DllCand>, legacy: bool) -> Seq<DllCand> {
    classes_below(s, legacy, 4)
}

/// The client identity: the process name decides when it can; for `DNF.exe` the
/// deployment decides, but only when a single generation is deployed.
pub open spec fn client_kind(
    process_kind: Option<Seq<char>>,
    dir_has_new: bool,
    dir_old_tag: Option<Seq<char>>,
) -> Option<Seq<char>> {
    match process_kind {
        Some(k) => Some(k),
        None => match dir_old_tag {
            Some(t) => if !dir_has_new { Some(t) } else { None },
            None => if dir_has_new { Some("90CN"@) } else { None },
        },
    }
}

/// The candidate's tag equals the known client identity.
pub open spec fn tag_matches(c: DllCand, kind: Option<Seq<char>>) -> bool {
    match (c.tag, kind) {
        (Some(t), Some(k)) => t@ == k,
        _ => false,
    }
}

pub open spec fn match_pred(kind: Option<Seq<char>>) -> spec_fn(DllCand) -> bool {
    |c: DllCand| tag_matches(c, kind)
}

/// An untagged candidate from the client directory (deployment is the truth).
pub open spec fn untagged_in_dir_pred() -> spec_fn(DllCand) -> bool {
    |c: DllCand| c.tag is None && !c.from_host
}

/// A candidate acceptable as a tie-break: untagged, or any when the identity is unknown.
pub open spec fn fallback_pred(kind: Option<Seq<char>>) -> spec_fn(DllCand) -> bool {
    |c: DllCand| c.tag is None || kind is None
}

/// Some tagged candidate contradicts a known identity.
pub open spec fn any_conflict(o: Seq<DllCand>, kind: Option<Seq<char>>) -> bool {
    kind is Some && exists|i: int| 0 <= i < o.len() && (#[trigger] o[i]).tag is Some && !tag_matches(o[i], kind)
}

/// The identity is unknown and two candidates carry different tags.
pub open spec fn tags_disagree(o: Seq<DllCand>, kind: Option<Seq<char>>) -> bool {
    kind is None && exists|i: int, j: int|
        0 <= i < o.len() && 0 <= j < o.len() && (#[trigger] o[i]).tag is Some && (#[trigger] o[j]).tag is Some
            && tag_view(o[i].tag) != tag_view(o[j].tag)
}

/// The injection decision.
///  1. a self-mounting client (`us_extend`) or no candidate: inject nothing;
///  2. the first candidate (in route order) whose tag equals the client identity;
///  3. else the first untagged candidate of the client directory;
///  4. else refuse when a tag contradicts the known identity, or when the identity
///     is unknown and the tags disagree;
///  5. else the first candidate that is untagged, or the first at all when the identity is unknown.
pub open spec fn dll_choice(
    cands: Seq<DllCand>,
    us_extend: bool,
    process_kind: Option<Seq<char>>,
    dir_has_new: bool,
    dir_old_tag: Option<Seq<char>>,
    legacy: bool,
) -> Option<DllCand> {
    if us_extend || cands.len() == 0 {
        None
    } else {
        let kind = client_kind(process_kind, dir_has_new, dir_old_tag);
        let o = route_order(cands, legacy);
        if first_where(o, match_pred(kind)) is Some {
            first_where(o, match_pred(kind))
        } else if first_where(o, untagged_in_dir_pred()) is Some {
            first_where(o, untagged_in_dir_pred())
        } else if any_conflict(o, kind) {
            None
        } else if tags_disagree(o, kind) {
            None
        } else {
            first_where(o, fallback_pred(kind))
        }
    }
}

/// Executable rank of a candidate.
fn rank_of(c: &DllCand, legacy: bool) -> (r: usize)
    ensures
        r == cand_rank(*c, legacy),
{
    let old = str_ends_with(c.name, "_OLD.dll");
    (if c.from_host { 2 } else { 0 }) + (if old != legacy { 1 } else { 0 })
}

/// The candidates stably sorted by rank.
fn order_by_route(cands: &[DllCand], legacy: bool) -> (r: Vec<DllCand>)
    ensures
        r@ == route_order(cands@, legacy),
{
    let mut ordered: Vec<DllCand> = Vec::new();
    let mut k: usize = 0;
    while k < 4
        invariant
            k <= 4,
            ordered@ == classes_below(cands@, legacy, k as nat),
        decreases 4 - k,
    {
        let mut j: usize = 0;
        while j < cands.len()
            invariant
                k < 4,
                j <= cands@.len(),
                ordered@ == classes_below(cands@, legacy, k as nat) + rank_class(cands@.take(j as int), legacy, k as int),
            decreases cands@.len() - j,
        {
            let c = cands[j];
            let ghost before = ordered@;
            proof {
                cands@.lemma_take_succ_push(j as int);
                cands@.take(j as int).lemma_filter_push(c, rank_pred(legacy, k as int));
            }
            if rank_of(&c, legacy) == k {
                ordered.push(c);
            }
            assert(ordered@ == classes_below(cands@, legacy, k as nat) + rank_class(cands@.take(j + 1), legacy, k as int));
            j = j + 1;
        }
        assert(cands@.take(cands@.len() as int) == cands@);
        k = k + 1;
    }
    ordered
}

/// Decides which collector DLL to inject (see `dll_choice`): returns the DLL's file
/// name and whether it comes from the host directory; `None` = inject nothing.
/// The route (`route_legacy`) orders the candidates only; it never overrides an identity match.
pub fn pick_dll_to_inject(
    cands: &[DllCand],
    us_extend: bool,
    process_kind: Option<&str>,
    dir_has_new: bool,
    dir_old_tag: Option<&'static str>,
    route_legacy: bool,
) -> (r: Option<(&'static str, bool)>)
    ensures
        match r {
            None => dll_choice(cands@, us_extend, opt_str_view(process_kind), dir_has_new, tag_view(dir_old_tag), route_legacy) is None,
            Some((n, h)) => dll_choice(cands@, us_extend, opt_str_view(process_kind), dir_has_new, tag_view(dir_old_tag), route_legacy) matches Some(c)
                && c.name == n && c.from_host == h,
        },
{
    if us_extend || cands.len() == 0 {
        return None;
    }
    let ghost kind = client_kind(opt_str_view(process_kind), dir_has_new, tag_view(dir_old_tag));
    /* The known identity; `kind_str` holds its characters. */
    let mut kind_str: Vec<char> = Vec::new();
    let kind_known: bool;
    match process_kind {
        Some(k) => {
            kind_str = chars_of(k);
            kind_known = true;
        },
        None => match dir_old_tag {
            Some(t) => {
                if !dir_has_new {
                    kind_str = chars_of(t);
                    kind_known = true;
                } else {
                    kind_known = false;
                }
            },
            None => {
                if dir_has_new {
                    kind_str = chars_of("90CN");
                    kind_known = true;
                } else {
                    kind_known = false;
                }
            },
        },
    }
    assert(kind_known == kind is Some);
    assert(kind_known ==> kind == Some(kind_str@));

    let ordered = order_by_route(cands, route_legacy);
    let ghost o = ordered@;

    let mut dir_untagged: Option<(&'static str, bool)> = None;
    let mut any_untagged: Option<(&'static str, bool)> = None;
    let mut saw_conflict = false;
    /* With the identity unknown: the first tag seen, and whether a later one differs. */
    let mut first_tag: Option<&'static str> = None;
    let mut disagree = false;
    let ghost mut dir_idx: int = 0;
    let ghost mut any_idx: int = 0;
    let ghost mut first_tag_idx: int = 0;
    let mut i: usize = 0;
    while i < ordered.len()
        invariant
            o == ordered@,
            o == route_order(cands@, route_legacy),
            !us_extend,
            cands@.len() > 0,
            kind == client_kind(opt_str_view(process_kind), dir_has_new, tag_view(dir_old_tag)),
            kind_known == kind is Some,
            kind_known ==> kind == Some(kind_str@),
            i <= o.len(),
            forall|j: int| 0 <= j < i ==> !tag_matches(#[trigger] o[j], kind),
            saw_conflict == (kind is Some && exists|j: int| 0 <= j < i && (#[trigger] o[j]).tag is Some),
            dir_untagged is None ==> forall|j: int| 0 <= j < i ==> !(untagged_in_dir_pred())(#[trigger] o[j]),
            dir_untagged matches Some((n, h)) ==> 0 <= dir_idx < i && is_first_where(o, untagged_in_dir_pred(), dir_idx)
                && o[dir_idx].name == n && o[dir_idx].from_host == h,
            any_untagged is None ==> forall|j: int| 0 <= j < i ==> !(fallback_pred(kind))(#[trigger] o[j]),
            any_untagged matches Some((n, h)) ==> 0 <= any_idx < i && is_first_where(o, fallback_pred(kind), any_idx)
                && o[any_idx].name == n && o[any_idx].from_host == h,
            kind is Some ==> first_tag is None && !disagree,
            kind is None && first_tag is None ==> forall|j: int| 0 <= j < i ==> (#[trigger] o[j]).tag is None,
            first_tag matches Some(ft) ==> 0 <= first_tag_idx < i && o[first_tag_idx].tag is Some
                && o[first_tag_idx].tag->0@ == ft@,
            kind is None && first_tag is Some ==> disagree == exists|j: int| 0 <= j < i && (#[trigger] o[j]).tag is Some
                && o[j].tag->0@ != first_tag->0@,
            first_tag is None ==> !disagree,
        decreases o.len() - i,
    {
        let c = ordered[i];
        assert(c == o[i as int]);
        match c.tag {
            Some(t) => {
                if kind_known {
                    let tc = chars_of(t);
                    if chars_eq(tc.as_slice(), kind_str.as_slice()) {
                        proof {
                            assert(tag_matches(o[i as int], kind));
                            assert(is_first_where(o, match_pred(kind), i as int));
                            lemma_first_where_at(o, match_pred(kind), i as int);
                            assert(first_where(o, match_pred(kind)) == Some(c));
                            assert(dll_choice(cands@, us_extend, opt_str_view(process_kind), dir_has_new, tag_view(dir_old_tag), route_legacy) == Some(c));
                        }
                        return Some((c.name, c.from_host));
                    }
                    saw_conflict = true;
                } else {
                    match first_tag {
                        None => {
                            first_tag = Some(t);
                            proof { first_tag_idx = i as int; }
                        },
                        Some(ft) => {
                            if !str_eq(ft, t) {
                                disagree = true;
                            }
                        },
                    }
                    if any_untagged.is_none() {
                        any_untagged = Some((c.name, c.from_host));
                        proof { any_idx = i as int; }
                    }
                }
            },
            None => {
                if !c.from_host && dir_untagged.is_none() {
                    dir_untagged = Some((c.name, c.from_host));
                    proof { dir_idx = i as int; }
                }
                if any_untagged.is_none() {
                    any_untagged = Some((c.name, c.from_host));
                    proof { any_idx = i as int; }
                }
            },
        }
        i = i + 1;
    }
    proof {
        lemma_first_where_none(o, match_pred(kind));
    }
    if let Some(d) = dir_untagged {
        proof { lemma_first_where_at(o, untagged_in_dir_pred(), dir_idx); }
        return Some(d);
    }
    proof { lemma_first_where_none(o, untagged_in_dir_pred()); }
    if saw_conflict {
        return None;
    }
    assert(!any_conflict(o, kind));
    if disagree {
        proof {
            let j = choose|j: int| 0 <= j < i && (#[trigger] o[j]).tag is Some && o[j].tag->0@ != first_tag->0@;
            assert(tag_view(o[j].tag) != tag_view(o[first_tag_idx].tag));
            assert(tags_disagree(o, kind));
        }
        return None;
    }
    proof {
        if tags_disagree(o, kind) {
            let (a, b) = choose|a: int, b: int|
                0 <= a < o.len() && 0 <= b < o.len() && (#[trigger] o[a]).tag is Some && (#[trigger] o[b]).tag is Some
                    && tag_view(o[a].tag) != tag_view(o[b].tag);
            assert(first_tag is Some);
            assert(o[a].tag->0@ != first_tag->0@ || o[b].tag->0@ != first_tag->0@);
            assert(false);
        }
    }
    match any_untagged {
        Some(a) => {
            proof { lemma_first_where_at(o, fallback_pred(kind), any_idx); }
        },
        None => {
            proof { lemma_first_where_none(o, fallback_pred(kind)); }
        },
    }
    any_untagged
}

/// The characters of an optional string.
pub open spec fn opt_str_view(s: Option<&str>) -> Option<Seq<char>> {
    match s {
        Some(x) => Some(x@),
        None => None,
    }
}

/// A candidate is in the route order exactly when it is among the candidates.
pub proof fn lemma_route_order_members(s: Seq<DllCand>, legacy: bool, c: DllCand)
    ensures
        route_order(s, legacy).contains(c) <==> s.contains(c),
{
    broadcast use vstd::seq_lib::lemma_seq_concat_contains_all_elements;
    reveal_with_fuel(classes_below, 5);
    let p0 = rank_pred(legacy, 0);
    let p1 = rank_pred(legacy, 1);
    let p2 = rank_pred(legacy, 2);
    let p3 = rank_pred(legacy, 3);
    assert(route_order(s, legacy) == Seq::<DllCand>::empty() + s.filter(p0) + s.filter(p1) + s.filter(p2) + s.filter(p3));
    if s.contains(c) {
        let i = choose|i: int| 0 <= i < s.len() && s[i] == c;
        if cand_rank(c, legacy) == 0 { s.lemma_filter_contains(p0, i); }
        else if cand_rank(c, legacy) == 1 { s.lemma_filter_contains(p1, i); }
        else if cand_rank(c, legacy) == 2 { s.lemma_filter_contains(p2, i); }
        else { s.lemma_filter_contains(p3, i); }
    }
    if route_order(s, legacy).contains(c) {
        if s.filter(p0).contains(c) { s.lemma_filter_contains_rev(p0, c); }
        if s.filter(p1).contains(c) { s.lemma_filter_contains_rev(p1, c); }
        if s.filter(p2).contains(c) { s.lemma_filter_contains_rev(p2, c); }
        if s.filter(p3).contains(c) { s.lemma_filter_contains_rev(p3, c); }
    }
}

/// A client that mounts the collector itself (`us_extend`) is never injected into.
pub proof fn law_self_mounted_client_is_never_injected(
    cands: Seq<DllCand>,
    process_kind: Option<Seq<char>>,
    dir_has_new: bool,
    dir_old_tag: Option<Seq<char>>,
    legacy: bool,
)
    ensures
        dll_choice(cands, true, process_kind, dir_has_new, dir_old_tag, legacy) is None,
{
}

/// The injected DLL is always one of the candidates found on disk.
pub proof fn law_choice_is_a_candidate(
    cands: Seq<DllCand>,
    us_extend: bool,
    process_kind: Option<Seq<char>>,
    dir_has_new: bool,
    dir_old_tag: Option<Seq<char>>,
    legacy: bool,
)
    ensures
        dll_choice(cands, us_extend, process_kind, dir_has_new, dir_old_tag, legacy) matches Some(c)
            ==> cands.contains(c),
{
    let choice = dll_choice(cands, us_extend, process_kind, dir_has_new, dir_old_tag, legacy);
    if let Some(c) = choice {
        let kind = client_kind(process_kind, dir_has_new, dir_old_tag);
        let o = route_order(cands, legacy);
        let p = if first_where(o, match_pred(kind)) is Some {
            match_pred(kind)
        } else if first_where(o, untagged_in_dir_pred()) is Some {
            untagged_in_dir_pred()
        } else {
            fallback_pred(kind)
        };
        assert(first_where(o, p) == Some(c));
        let i = choose|i: int| is_first_where(o, p, i);
        assert(o[i] == c);
        assert(o.contains(c));
        lemma_route_order_members(cands, legacy, c);
    }
}

/// When the client identity is known, a DLL whose tag names another client is never
/// injected: the chosen DLL carries that identity's tag or no tag at all.
pub proof fn law_never_injects_a_contradicting_build(
    cands: Seq<DllCand>,
    us_extend: bool,
    process_kind: Option<Seq<char>>,
    dir_has_new: bool,
    dir_old_tag: Option<Seq<char>>,
    legacy: bool,
)
    ensures
        ({
            let kind = client_kind(process_kind, dir_has_new, dir_old_tag);
            dll_choice(cands, us_extend, process_kind, dir_has_new, dir_old_tag, legacy) matches Some(c)
                ==> (kind is Some ==> c.tag is None || tag_matches(c, kind))
        }),
{
    let kind = client_kind(process_kind, dir_has_new, dir_old_tag);
    let o = route_order(cands, legacy);
    if let Some(c) = dll_choice(cands, us_extend, process_kind, dir_has_new, dir_old_tag, legacy) {
        let p = if first_where(o, match_pred(kind)) is Some {
            match_pred(kind)
        } else if first_where(o, untagged_in_dir_pred()) is Some {
            untagged_in_dir_pred()
        } else {
            fallback_pred(kind)
        };
        assert(first_where(o, p) == Some(c));
        let i = choose|i: int| is_first_where(o, p, i);
        assert(p(o[i]));
    }
}

/// When some DLL on disk carries the known client identity's tag, a DLL with that tag
/// is injected, whichever route is chosen.
pub proof fn law_identity_match_wins_over_route(
    cands: Seq<DllCand>,
    process_kind: Option<Seq<char>>,
    dir_has_new: bool,
    dir_old_tag: Option<Seq<char>>,
    legacy: bool,
    i: int,
)
    requires
        0 <= i < cands.len(),
        tag_matches(cands[i], client_kind(process_kind, dir_has_new, dir_old_tag)),
    ensures
        dll_choice(cands, false, process_kind, dir_has_new, dir_old_tag, legacy) matches Some(c)
            && tag_matches(c, client_kind(process_kind, dir_has_new, dir_old_tag)),
{
    let kind = client_kind(process_kind, dir_has_new, dir_old_tag);
    let o = route_order(cands, legacy);
    assert(cands.contains(cands[i]));
    lemma_route_order_members(cands, legacy, cands[i]);
    let k = choose|k: int| 0 <= k < o.len() && o[k] == cands[i];
    crate::seq_util::lemma_first_where_exists(o, match_pred(kind), k);
    let f = choose|f: int| is_first_where(o, match_pred(kind), f);
    lemma_first_where_at(o, match_pred(kind), f);
}

/// Number of positions `i < upto` at which `needle` occurs in `hay`.
pub open spec fn occurrences_before(hay: Seq<u8>, needle: Seq<u8>, upto: int) -> nat
    decreases upto,
{
    if upto <= 0 {
        0
    } else {
        occurrences_before(hay, needle, upto - 1) + (if hay.subrange(upto - 1, upto - 1 + needle.len()) == needle {
            1nat
        } else {
            0nat
        })
    }
}

/// Number of (possibly overlapping) occurrences of a non-empty `needle` in `hay`.
pub open spec fn occurrences(hay: Seq<u8>, needle: Seq<u8>) -> nat {
    if needle.len() == 0 || hay.len() < needle.len() {
        0
    } else {
        occurrences_before(hay, needle, hay.len() - needle.len() + 1)
    }
}

/// Whether `needle` occurs in `hay` at position `at`.
fn occurs_at(hay: &[u8], needle: &[u8], at: usize) -> (r: bool)
    requires
        at + needle@.len() <= hay@.len(),
    ensures
        r == (hay@.subrange(at as int, at + needle@.len()) == needle@),
{
    let hay_len = hay.len();
    let mut k: usize = 0;
    while k < needle.len()
        invariant
            at + needle@.len() <= hay@.len(),
            hay_len == hay@.len(),
            k <= needle@.len(),
            forall|j: int| 0 <= j < k ==> hay@[at + j] == needle@[j],
        decreases needle@.len() - k,
    {
        if hay[at + k] != needle[k] {
            assert(hay@.subrange(at as int, at + needle@.len())[k as int] != needle@[k as int]);
            return false;
        }
        k = k + 1;
    }
    assert(hay@.subrange(at as int, at + needle@.len()) == needle@);
    true
}

/// Counts the occurrences of `needle` in `hay` (0 for an empty needle).
pub fn count_subst(hay: &[u8], needle: &[u8]) -> (n: usize)
    ensures
        n == occurrences(hay@, needle@),
{
    if needle.len() == 0 || hay.len() < needle.len() {
        return 0;
    }
    let last = hay.len() - needle.len();
    let mut n: usize = 0;
    let mut i: usize = 0;
    while i <= last
        invariant
            last + needle@.len() == hay@.len(),
            hay@.len() <= usize::MAX,
            needle@.len() > 0,
            i <= last + 1,
            n == occurrences_before(hay@, needle@, i as int),
            n <= i,
        decreases last + 1 - i,
    {
        if occurs_at(hay, needle, i) {
            n = n + 1;
        }
        i = i + 1;
    }
    n
}

/// The identity tags the collector builds embed.
pub const PROFILE_TAGS: [&'static str; 6] = ["ACT1", "ACT4", "ACT5", "40JP", "90CN", "90US"];

/// The profile tag occurring most often in `data` (earlier tags win ties); `None`
/// when no tag occurs.
pub open spec fn profile_tag_spec(data: Seq<u8>) -> Option<int> {
    best_tag_before(data, 6)
}

/// The best tag index among the first `k` tags.
pub open spec fn best_tag_before(data: Seq<u8>, k: int) -> Option<int>
    decreases k,
{
    if k <= 0 {
        None
    } else {
        let prev = best_tag_before(data, k - 1);
        let n = occurrences(data, PROFILE_TAGS[k - 1].spec_bytes());
        match prev {
            None => if n > 0 { Some(k - 1) } else { None },
            Some(b) => if n > occurrences(data, PROFILE_TAGS[b].spec_bytes()) { Some(k - 1) } else { Some(b) },
        }
    }
}

/// Recognises the client identity a collector build embeds: the tag with the most
/// occurrences in the DLL's bytes (an earlier tag wins a tie); `None` = untagged.
pub fn profile_tag_of(data: &[u8]) -> (r: Option<&'static str>)
    ensures
        match profile_tag_spec(data@) {
            None => r is None,
            Some(k) => r == Some(PROFILE_TAGS[k]),
        },
{
    let mut best: Option<(usize, usize)> = None;
    let mut k: usize = 0;
    while k < 6
        invariant
            k <= 6,
            match best_tag_before(data@, k as int) {
                None => best is None,
                Some(b) => best matches Some((bi, bn)) && bi == b && 0 <= b < k
                    && bn == occurrences(data@, PROFILE_TAGS[b].spec_bytes()),
            },
        decreases 6 - k,
    {
        let t = PROFILE_TAGS[k];
        let n = count_subst(data, t.as_bytes());
        match best {
            None => {
                if n > 0 {
                    best = Some((k, n));
                }
            },
            Some((_, bn)) => {
                if n > bn {
                    best = Some((k, n));
                }
            },
        }
        k = k + 1;
    }
    match best {
        Some((bi, _)) => Some(PROFILE_TAGS[bi]),
        None => None,
    }
}

/// Client identity implied by the process name alone (`DNF.exe` is shared by several
/// clients, so it implies none).
pub open spec fn process_kind_spec(process: Seq<char>) -> Option<Seq<char>> {
    if process == "ARAD.exe"@ {
        Some("40JP"@)
    } else if process == "DNFACT4.exe"@ || process == "DNF ACT4.exe"@ {
        Some("ACT4"@)
    } else if process == "DNFACT5.exe"@ || process == "DNF ACT5.exe"@ {
        Some("ACT5"@)
    } else {
        None
    }
}

/// The client identity that the process name determines.
pub fn client_kind_from_process(process: &str) -> (r: Option<&'static str>)
    ensures
        tag_view(r) == process_kind_spec(process@),
{
    if str_eq(process, "ARAD.exe") {
        Some("40JP")
    } else if str_eq(process, "DNFACT4.exe") || str_eq(process, "DNF ACT4.exe") {
        Some("ACT4")
    } else if str_eq(process, "DNFACT5.exe") || str_eq(process, "DNF ACT5.exe") {
        Some("ACT5")
    } else {
        None
    }
}

} // verus!
