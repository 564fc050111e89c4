use sorahk::inject::DllCand;
use sorahk::inject::pick_dll_to_inject;
use sorahk::inject::count_subst;
use sorahk::inject::profile_tag_of;
use sorahk::inject::client_kind_from_process;
use sorahk::inject_round::InjectBook;
use sorahk::inject_round::gather_candidates;
use sorahk::inject_round::generation_label;
use sorahk::inject_round::route_mismatch;
use sorahk::inject_round::chosen_untagged;
use sorahk::pe_export::ExportWalk;
use sorahk::pe_export::WalkAction;
use sorahk::pe_export::export_walk_start;
use sorahk::pe_export::export_walk_step;

fn cands(list: &[(&'static str, bool, Option<&'static str>)]) -> Vec<DllCand> {
    list.iter()
        .map(|(name, from_host, tag)| DllCand { name, from_host: *from_host, tag: *tag })
        .collect()
}

const OLD: &str = "DfoVibration_OLD.dll";
const NEW: &str = "DfoVibration.dll";

#[test]
fn sa_90cn_new_dll_with_legacy_route_still_injects() {
    let c = cands(&[(NEW, false, Some("90CN"))]);
    assert_eq!(pick_dll_to_inject(&c, false, None, true, None, true), Some((NEW, false)));
}

#[test]
fn sb_act4_old_dll_with_s4_route_still_injects() {
    let c = cands(&[(OLD, false, Some("ACT4"))]);
    assert_eq!(pick_dll_to_inject(&c, false, Some("ACT4"), false, None, false), Some((OLD, false)));
}

#[test]
fn sc_90us_self_mount_never_injects() {
    let c = cands(&[(OLD, false, Some("ACT1")), (NEW, false, Some("90US"))]);
    assert_eq!(pick_dll_to_inject(&c, true, None, true, None, true), None);
}

#[test]
fn sd_act1_portable_host_dir_fallback() {
    let c = cands(&[(OLD, true, None)]);
    assert_eq!(pick_dll_to_inject(&c, false, None, false, None, true), Some((OLD, true)));
}

#[test]
fn se_both_deployed_tagged() {
    let c = cands(&[(OLD, false, Some("ACT4")), (NEW, false, Some("90CN"))]);
    assert_eq!(
        pick_dll_to_inject(&c, false, Some("ACT4"), true, None, false),
        Some((OLD, false)),
        "identity match wins whatever the route"
    );
    assert_eq!(pick_dll_to_inject(&c, false, Some("ACT4"), true, None, true), Some((OLD, false)));
    assert_eq!(
        pick_dll_to_inject(&c, false, None, true, Some("ACT4"), true),
        None,
        "the route does not decide an unknown identity"
    );
    assert_eq!(pick_dll_to_inject(&c, false, None, true, Some("ACT4"), false), None);
}

#[test]
fn se2_both_untagged_route_tiebreak() {
    let c = cands(&[(OLD, false, None), (NEW, false, None)]);
    assert_eq!(pick_dll_to_inject(&c, false, None, true, None, true), Some((OLD, false)));
    assert_eq!(pick_dll_to_inject(&c, false, None, true, None, false), Some((NEW, false)));
}

#[test]
fn se3_dir_untagged_beats_host_conflict() {
    let c = cands(&[(NEW, false, None), (OLD, true, Some("ACT1"))]);
    assert_eq!(pick_dll_to_inject(&c, false, None, true, None, false), Some((NEW, false)));
}

#[test]
fn sf_nothing_deployed_no_injection() {
    assert_eq!(pick_dll_to_inject(&[], false, None, false, None, true), None);
}

#[test]
fn ta_arad_tagged_40jp_matches() {
    let c = cands(&[(OLD, false, Some("40JP"))]);
    assert_eq!(pick_dll_to_inject(&c, false, Some("40JP"), false, None, true), Some((OLD, false)));
}

#[test]
fn tb_profile_conflict_refuses_injection() {
    let c = cands(&[(OLD, false, Some("ACT4"))]);
    assert_eq!(
        pick_dll_to_inject(&c, false, Some("40JP"), false, None, true),
        None,
        "a build for another client must be refused"
    );
}

#[test]
fn tc_untagged_dll_falls_back_to_deployment() {
    let c = cands(&[(OLD, false, None)]);
    assert_eq!(pick_dll_to_inject(&c, false, Some("40JP"), false, None, true), Some((OLD, false)));
}

#[test]
fn td_dnf_exe_kind_from_dir_tag() {
    let c = cands(&[(OLD, false, Some("ACT4"))]);
    assert_eq!(pick_dll_to_inject(&c, false, None, false, Some("ACT4"), true), Some((OLD, false)));
}

#[test]
fn te_dnf_exe_new_dll_tagged_90cn() {
    let c = cands(&[(NEW, false, Some("90CN"))]);
    assert_eq!(pick_dll_to_inject(&c, false, None, true, None, false), Some((NEW, false)));
}

#[test]
fn tf_90us_dll_in_90cn_dir_refused() {
    let c = cands(&[(NEW, false, Some("90US"))]);
    assert_eq!(
        pick_dll_to_inject(&c, false, None, true, None, false),
        None,
        "a 90US build in a 90CN directory must be refused"
    );
}

#[test]
fn tg_conflict_blocks_untagged_fallback() {
    let c = cands(&[(OLD, false, Some("ACT1")), (OLD, true, None)]);
    assert_eq!(pick_dll_to_inject(&c, false, Some("40JP"), false, None, true), None);
}

#[test]
fn count_subst_counts_overlapping_windows() {
    assert_eq!(count_subst(b"aaaa", b"aa"), 3);
    assert_eq!(count_subst(b"target=ACT4 x target=ACT4", b"ACT4"), 2);
    assert_eq!(count_subst(b"abc", b""), 0);
    assert_eq!(count_subst(b"ab", b"abc"), 0);
}

#[test]
fn profile_tag_picks_the_most_frequent_tag() {
    assert_eq!(profile_tag_of(b"..target=ACT4..target=ACT4..90CN.."), Some("ACT4"));
    assert_eq!(profile_tag_of(b"90CN 90CN ACT1"), Some("90CN"));
    assert_eq!(profile_tag_of(b"no identity here"), None);
    // A tie keeps the tag listed first.
    assert_eq!(profile_tag_of(b"40JP ACT1"), Some("ACT1"));
}

#[test]
fn client_kind_from_process_names() {
    assert_eq!(client_kind_from_process("ARAD.exe"), Some("40JP"));
    assert_eq!(client_kind_from_process("DNFACT4.exe"), Some("ACT4"));
    assert_eq!(client_kind_from_process("DNF ACT4.exe"), Some("ACT4"));
    assert_eq!(client_kind_from_process("DNFACT5.exe"), Some("ACT5"));
    assert_eq!(client_kind_from_process("DNF ACT5.exe"), Some("ACT5"));
    assert_eq!(client_kind_from_process("DNF.exe"), None);
}

#[test]
fn book_injects_each_running_instance_once() {
    let mut book = InjectBook::new();
    assert!(book.needs_injection(100));
    book.end_round(&vec![100, 200], &vec![100]);
    assert!(!book.needs_injection(100), "an injected instance is not retried");
    assert!(book.needs_injection(200), "a failed instance is retried");
    // The client restarts: 100 is gone, a new instance 300 appears.
    book.end_round(&vec![300], &vec![]);
    assert!(book.needs_injection(100));
    assert_eq!(book.injected, Vec::<u32>::new());
}

#[test]
fn book_warns_once_per_instance() {
    let mut book = InjectBook::new();
    assert!(book.note_rejected(7, false, true));
    assert!(!book.note_rejected(7, false, true), "second refusal stays silent");
    assert!(!book.note_rejected(8, true, true), "self-mounted clients are not warned about");
    assert!(!book.note_rejected(9, false, false), "nothing deployed is no conflict");
    book.end_round(&vec![], &vec![]);
    assert!(book.note_rejected(7, false, true), "a new instance is warned again");
}

#[test]
fn book_reports_each_failure_once() {
    let mut book = InjectBook::new();
    assert!(book.note_failure(5, "OpenProcess: denied".to_string()));
    assert!(!book.note_failure(5, "OpenProcess: denied".to_string()));
    assert!(book.note_failure(5, "WriteProcessMemory failed".to_string()));
    book.note_success(6);
    assert!(book.last_fail.is_some(), "another instance's success keeps the failure");
    book.note_success(5);
    assert!(book.last_fail.is_none());
    assert!(book.note_failure(5, "WriteProcessMemory failed".to_string()));
}

#[test]
fn candidates_come_in_deployment_order() {
    let c = gather_candidates(Some(Some("ACT4")), Some(None), Some(Some("ACT1")));
    assert_eq!(c.len(), 3);
    assert_eq!((c[0].name, c[0].from_host, c[0].tag), (OLD, false, Some("ACT4")));
    assert_eq!((c[1].name, c[1].from_host, c[1].tag), (NEW, false, None));
    assert_eq!((c[2].name, c[2].from_host, c[2].tag), (OLD, true, Some("ACT1")));
    assert_eq!(gather_candidates(None, None, None).len(), 0);
    assert!(chosen_untagged(&c, NEW, false));
    assert!(!chosen_untagged(&c, OLD, true));
    assert!(!chosen_untagged(&c, NEW, true));
}

#[test]
fn success_notes_name_the_generation() {
    assert_eq!(generation_label(OLD), "老一代/ACT");
    assert_eq!(generation_label(NEW), "新一代/S4+");
    assert!(route_mismatch(OLD, false));
    assert!(!route_mismatch(OLD, true));
    assert!(route_mismatch(NEW, true));
}

fn put32(buf: &mut Vec<u8>, off: usize, v: u32) {
    buf[off..off + 4].copy_from_slice(&v.to_le_bytes());
}

#[test]
fn export_walk_finds_a_name_ignoring_case() {
    let base: u64 = 0x7000_0000;
    let wanted = b"LoadLibraryA";
    let (mut st, mut act) = export_walk_start(base);
    assert_eq!(act, WalkAction::Read { addr: base, len: 0x40 });
    // DOS header: e_lfanew = 0x80.
    let mut dos = vec![0u8; 0x40];
    put32(&mut dos, 0x3C, 0x80);
    (st, act) = export_walk_step(st, base, wanted, Some(dos));
    assert_eq!(act, WalkAction::Read { addr: base + 0x80, len: 0x88 });
    // NT headers: 32-bit magic, export directory at RVA 0x1000.
    let mut nt = vec![0u8; 0x88];
    nt[0x18] = 0x0B;
    nt[0x19] = 0x01;
    put32(&mut nt, 0x78, 0x1000);
    (st, act) = export_walk_step(st, base, wanted, Some(nt));
    assert_eq!(act, WalkAction::Read { addr: base + 0x1000, len: 0x28 });
    // Directory: two names; tables at 0x2000 (functions), 0x3000 (names), 0x4000 (ordinals).
    let mut dir = vec![0u8; 0x28];
    put32(&mut dir, 0x18, 2);
    put32(&mut dir, 0x1C, 0x2000);
    put32(&mut dir, 0x20, 0x3000);
    put32(&mut dir, 0x24, 0x4000);
    (st, act) = export_walk_step(st, base, wanted, Some(dir));
    assert_eq!(act, WalkAction::Read { addr: base + 0x3000, len: 4 });
    // Name 0 is "GetProcAddress".
    (st, act) = export_walk_step(st, base, wanted, Some(0x5000u32.to_le_bytes().to_vec()));
    assert_eq!(act, WalkAction::Read { addr: base + 0x5000, len: 64 });
    (st, act) = export_walk_step(st, base, wanted, Some(b"GetProcAddress\0junk".to_vec()));
    assert_eq!(act, WalkAction::Read { addr: base + 0x3004, len: 4 });
    // Name 1 is "loadlibrarya", different case.
    (st, act) = export_walk_step(st, base, wanted, Some(0x5100u32.to_le_bytes().to_vec()));
    assert_eq!(act, WalkAction::Read { addr: base + 0x5100, len: 64 });
    (st, act) = export_walk_step(st, base, wanted, Some(b"loadlibrarya\0".to_vec()));
    assert_eq!(act, WalkAction::Read { addr: base + 0x4002, len: 2 });
    (st, act) = export_walk_step(st, base, wanted, Some(vec![3, 0]));
    assert_eq!(act, WalkAction::Read { addr: base + 0x2000 + 12, len: 4 });
    (st, act) = export_walk_step(st, base, wanted, Some(0x1234u32.to_le_bytes().to_vec()));
    assert_eq!(act, WalkAction::Found(base + 0x1234));
    assert_eq!(st, ExportWalk::Finished);
}

#[test]
fn export_walk_gives_up_on_bad_headers_and_failed_reads() {
    let base: u64 = 0x1000_0000;
    let (st, _) = export_walk_start(base);
    let (st2, act) = export_walk_step(st, base, b"X", None);
    assert_eq!((st2, act), (ExportWalk::Finished, WalkAction::NotFound));
    // A 64-bit optional header (magic 0x20B) is not walked.
    let (st, _) = export_walk_step(st, base, b"X", Some(vec![0u8; 0x40]));
    let mut nt = vec![0u8; 0x88];
    nt[0x18] = 0x0B;
    nt[0x19] = 0x02;
    put32(&mut nt, 0x78, 0x1000);
    assert_eq!(export_walk_step(st, base, b"X", Some(nt)).1, WalkAction::NotFound);
    // A directory without names ends the walk.
    let (st, _) = export_walk_step(ExportWalk::NtHeaders, base, b"X", Some({
        let mut v = vec![0u8; 0x88];
        v[0x18] = 0x0B;
        v[0x19] = 0x01;
        put32(&mut v, 0x78, 0x1000);
        v
    }));
    assert_eq!(st, ExportWalk::Directory);
    assert_eq!(export_walk_step(st, base, b"X", Some(vec![0u8; 0x28])).1, WalkAction::NotFound);
}
