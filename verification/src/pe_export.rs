//! Finding a function's address in the export table of a 32-bit module loaded in
//! another process, one memory read at a time.
//!
//! The walk reads the DOS header (for `e_lfanew`), the NT headers (a 32-bit optional
//! header, magic `0x10B`, with the export directory's RVA at offset `0x78`), the export
//! directory (name count, and the RVAs of the name, ordinal and function tables), then
//! each name in turn (at most 4096) until one equals the wanted name ignoring ASCII
//! case; that name's ordinal indexes the function table. The program around the library
//! performs each read and hands back the bytes read (or `None` when the read failed);
//! a header read may come back short (the missing bytes count as zero), a table read
//! must return at least one byte.

use vstd::prelude::*;

verus! {

/// Where the export tables are, as RVAs, and how many names to look at.
#[derive(Debug, Clone, Copy, PartialEq, Eq, Structural)]
pub struct ExportDir {
    /// Names to look at (the directory's count, at most 4096).
    pub count: u32,
    /// RVA of the name table (one 4-byte RVA per name).
    pub names: u64,
    /// RVA of the ordinal table (one 2-byte ordinal per name).
    pub ordinals: u64,
    /// RVA of the function table (one 4-byte RVA per ordinal).
    pub functions: u64,
}

/// What the walk waits for.
#[derive(Debug, Clone, Copy, PartialEq, Eq, Structural)]
pub enum ExportWalk {
    /// The DOS header.
    DosHeader,
    /// The NT headers.
    NtHeaders,
    /// The export directory.
    Directory,
    /// The RVA of name `i`.
    NameRva { dir: ExportDir, i: u32 },
    /// The characters of name `i`.
    Name { dir: ExportDir, i: u32 },
    /// The ordinal of name `i`.
    Ordinal { dir: ExportDir, i: u32 },
    /// The function's RVA.
    Function,
    /// Nothing: the walk is over.
    Finished,
}

/// What the walk asks for next.
#[derive(Debug, Clone, Copy, PartialEq, Eq, Structural)]
pub enum WalkAction {
    /// Read `len` bytes at `addr` and hand them to the next step.
    Read { addr: u64, len: usize },
    /// The function is at this address.
    Found(u64),
    /// The function cannot be found.
    NotFound,
}

/// Byte `k` of a read, zero past its end.
pub open spec fn byte_at(d: Seq<u8>, k: int) -> nat {
    if 0 <= k < d.len() { d[k] as nat } else { 0 }
}

/// The little-endian 16-bit value at `off`.
pub open spec fn le16(d: Seq<u8>, off: int) -> nat {
    byte_at(d, off) + byte_at(d, off + 1) * 256
}

/// The little-endian 32-bit value at `off`.
pub open spec fn le32(d: Seq<u8>, off: int) -> nat {
    byte_at(d, off) + byte_at(d, off + 1) * 256 + byte_at(d, off + 2) * 65536 + byte_at(d, off + 3) * 16777216
}

/// An ASCII byte in lower case.
pub open spec fn lower_byte(b: u8) -> u8 {
    if 65 <= b <= 90 { (b + 32) as u8 } else { b }
}

/// The length of the zero-terminated string at the start of `d` (all of `d` when it
/// holds no zero).
pub open spec fn c_str_len(d: Seq<u8>) -> nat
    decreases d.len(),
{
    if d.len() == 0 {
        0
    } else if d[0] == 0 {
        0
    } else {
        1 + c_str_len(d.skip(1))
    }
}

/// The name read equals the wanted name, ASCII case ignored.
pub open spec fn name_matches(d: Seq<u8>, wanted: Seq<u8>) -> bool {
    &&& c_str_len(d) == wanted.len()
    &&& forall|k: int| 0 <= k < wanted.len() ==> lower_byte(#[trigger] d[k]) == lower_byte(wanted[k])
}

/// The step after name `i` was not the one: the next name, or the end.
pub open spec fn next_name(base: u64, dir: ExportDir, i: int) -> (ExportWalk, WalkAction) {
    if i < dir.count {
        (
            ExportWalk::NameRva { dir, i: i as u32 },
            WalkAction::Read { addr: (base + dir.names + i * 4) as u64, len: 4 },
        )
    } else {
        (ExportWalk::Finished, WalkAction::NotFound)
    }
}

/// A table read that returned nothing counts as failed.
pub open spec fn usable(reply: Option<Seq<u8>>) -> Option<Seq<u8>> {
    match reply {
        Some(d) => if d.len() > 0 { Some(d) } else { None },
        None => None,
    }
}

/// The walk's first request: the DOS header at the module's base.
pub open spec fn walk_start(base: u64) -> (ExportWalk, WalkAction) {
    (ExportWalk::DosHeader, WalkAction::Read { addr: base, len: 0x40 })
}

/// One step of the walk: from what it waited for and the bytes read, the next state
/// and request.
pub open spec fn walk_spec(st: ExportWalk, base: u64, wanted: Seq<u8>, reply: Option<Seq<u8>>) -> (ExportWalk, WalkAction) {
    let done = (ExportWalk::Finished, WalkAction::NotFound);
    match st {
        ExportWalk::DosHeader => match reply {
            None => done,
            Some(d) => (ExportWalk::NtHeaders, WalkAction::Read { addr: (base + le32(d, 0x3C)) as u64, len: 0x88 }),
        },
        ExportWalk::NtHeaders => match reply {
            None => done,
            Some(d) => if le16(d, 0x18) != 0x10B || le32(d, 0x78) == 0 {
                done
            } else {
                (ExportWalk::Directory, WalkAction::Read { addr: (base + le32(d, 0x78)) as u64, len: 0x28 })
            },
        },
        ExportWalk::Directory => match reply {
            None => done,
            Some(d) => {
                let count = if le32(d, 0x18) < 4096 { le32(d, 0x18) } else { 4096 };
                let dir = ExportDir {
                    count: count as u32,
                    names: le32(d, 0x20) as u64,
                    ordinals: le32(d, 0x24) as u64,
                    functions: le32(d, 0x1C) as u64,
                };
                next_name(base, dir, 0)
            },
        },
        ExportWalk::NameRva { dir, i } => match usable(reply) {
            None => done,
            Some(d) => (ExportWalk::Name { dir, i }, WalkAction::Read { addr: (base + le32(d, 0)) as u64, len: 64 }),
        },
        ExportWalk::Name { dir, i } => match usable(reply) {
            None => done,
            Some(d) => if name_matches(d, wanted) {
                (ExportWalk::Ordinal { dir, i }, WalkAction::Read { addr: (base + dir.ordinals + i * 2) as u64, len: 2 })
            } else {
                next_name(base, dir, i + 1)
            },
        },
        ExportWalk::Ordinal { dir, i } => match usable(reply) {
            None => done,
            Some(d) => (ExportWalk::Function, WalkAction::Read { addr: (base + dir.functions + le16(d, 0) * 4) as u64, len: 4 }),
        },
        ExportWalk::Function => match usable(reply) {
            None => done,
            Some(d) => (ExportWalk::Finished, WalkAction::Found((base + le32(d, 0)) as u64)),
        },
        ExportWalk::Finished => done,
    }
}

/// The tables' RVAs are 32-bit values and the name index is below the count.
pub open spec fn walk_wf(st: ExportWalk) -> bool {
    match st {
        ExportWalk::NameRva { dir, i } => dir_wf(dir) && i < dir.count,
        ExportWalk::Name { dir, i } => dir_wf(dir) && i < dir.count,
        ExportWalk::Ordinal { dir, i } => dir_wf(dir) && i < dir.count,
        _ => true,
    }
}

/// An export directory as read: 32-bit RVAs, at most 4096 names.
pub open spec fn dir_wf(dir: ExportDir) -> bool {
    &&& dir.count <= 4096
    &&& dir.names <= u32::MAX
    &&& dir.ordinals <= u32::MAX
    &&& dir.functions <= u32::MAX
}

/// The byte at `k`, zero past the end.
fn byte(d: &[u8], k: usize) -> (r: u64)
    ensures
        r == byte_at(d@, k as int),
{
    if k < d.len() { d[k] as u64 } else { 0 }
}

/// The little-endian 16-bit value at `off`.
fn read_le16(d: &[u8], off: usize) -> (r: u64)
    requires
        off < 0x1000,
    ensures
        r == le16(d@, off as int),
{
    byte(d, off) + byte(d, off + 1) * 256
}

/// The little-endian 32-bit value at `off`.
fn read_le32(d: &[u8], off: usize) -> (r: u64)
    requires
        off < 0x1000,
    ensures
        r == le32(d@, off as int),
        r <= u32::MAX,
{
    byte(d, off) + byte(d, off + 1) * 256 + byte(d, off + 2) * 65536 + byte(d, off + 3) * 16777216
}

fn lower(b: u8) -> (r: u8)
    ensures
        r == lower_byte(b),
{
    if 65 <= b && b <= 90 { b + 32 } else { b }
}

/// Whether the name read equals the wanted name, ASCII case ignored.
fn name_equals(d: &[u8], wanted: &[u8]) -> (r: bool)
    ensures
        r == name_matches(d@, wanted@),
{
    let mut n: usize = 0;
    assert(d@.skip(0) =~= d@);
    while n < d.len() && d[n] != 0
        invariant
            n <= d@.len(),
            c_str_len(d@) == n + c_str_len(d@.skip(n as int)),
            forall|k: int| 0 <= k < n ==> d@[k] != 0,
        decreases d@.len() - n,
    {
        assert(d@.skip(n as int).skip(1) =~= d@.skip(n + 1));
        n = n + 1;
    }
    assert(c_str_len(d@.skip(n as int)) == 0);
    assert(c_str_len(d@) == n);
    if n != wanted.len() {
        return false;
    }
    let mut k: usize = 0;
    while k < n
        invariant
            k <= n,
            n == wanted@.len(),
            n <= d@.len(),
            forall|j: int| 0 <= j < k ==> lower_byte(#[trigger] d@[j]) == lower_byte(wanted@[j]),
        decreases n - k,
    {
        if lower(d[k]) != lower(wanted[k]) {
            return false;
        }
        k = k + 1;
    }
    true
}

/// The walk's first state and request.
pub fn export_walk_start(base: u64) -> (r: (ExportWalk, WalkAction))
    ensures
        r == walk_start(base),
{
    (ExportWalk::DosHeader, WalkAction::Read { addr: base, len: 0x40 })
}

/// The step after name `i` was not the one.
fn next_name_exec(base: u64, dir: ExportDir, i: u64) -> (r: (ExportWalk, WalkAction))
    requires
        base <= u32::MAX,
        dir_wf(dir),
        i <= dir.count,
    ensures
        r == next_name(base, dir, i as int),
{
    if i < dir.count as u64 {
        (
            ExportWalk::NameRva { dir, i: i as u32 },
            WalkAction::Read { addr: base + dir.names + i * 4, len: 4 },
        )
    } else {
        (ExportWalk::Finished, WalkAction::NotFound)
    }
}

/// One step of the walk (the module's base is a 32-bit address).
pub fn export_walk_step(st: ExportWalk, base: u64, wanted: &[u8], reply: Option<Vec<u8>>) -> (r: (ExportWalk, WalkAction))
    requires
        base <= u32::MAX,
        walk_wf(st),
    ensures
        r == walk_spec(st, base, wanted@, match reply { Some(d) => Some(d@), None => None }),
        walk_wf(r.0),
{
    let done = (ExportWalk::Finished, WalkAction::NotFound);
    let d = match reply {
        Some(d) => d,
        None => return done,
    };
    match st {
        ExportWalk::DosHeader => {
            let lfanew = read_le32(d.as_slice(), 0x3C);
            (ExportWalk::NtHeaders, WalkAction::Read { addr: base + lfanew, len: 0x88 })
        }
        ExportWalk::NtHeaders => {
            let magic = read_le16(d.as_slice(), 0x18);
            let rva = read_le32(d.as_slice(), 0x78);
            if magic != 0x10B || rva == 0 {
                done
            } else {
                (ExportWalk::Directory, WalkAction::Read { addr: base + rva, len: 0x28 })
            }
        }
        ExportWalk::Directory => {
            let n = read_le32(d.as_slice(), 0x18);
            let count: u64 = if n < 4096 { n } else { 4096 };
            let dir = ExportDir {
                count: count as u32,
                names: read_le32(d.as_slice(), 0x20),
                ordinals: read_le32(d.as_slice(), 0x24),
                functions: read_le32(d.as_slice(), 0x1C),
            };
            next_name_exec(base, dir, 0)
        }
        ExportWalk::NameRva { dir, i } => {
            if d.len() == 0 {
                return done;
            }
            let rva = read_le32(d.as_slice(), 0);
            (ExportWalk::Name { dir, i }, WalkAction::Read { addr: base + rva, len: 64 })
        }
        ExportWalk::Name { dir, i } => {
            if d.len() == 0 {
                return done;
            }
            if name_equals(d.as_slice(), wanted) {
                (ExportWalk::Ordinal { dir, i }, WalkAction::Read { addr: base + dir.ordinals + (i as u64) * 2, len: 2 })
            } else {
                next_name_exec(base, dir, i as u64 + 1)
            }
        }
        ExportWalk::Ordinal { dir, i } => {
            if d.len() == 0 {
                return done;
            }
            let ordinal = read_le16(d.as_slice(), 0);
            (ExportWalk::Function, WalkAction::Read { addr: base + dir.functions + ordinal * 4, len: 4 })
        }
        ExportWalk::Function => {
            if d.len() == 0 {
                return done;
            }
            let rva = read_le32(d.as_slice(), 0);
            (ExportWalk::Finished, WalkAction::Found(base + rva))
        }
        ExportWalk::Finished => done,
    }
}

/// How many steps the walk can still take at most.
pub open spec fn walk_measure(st: ExportWalk) -> nat {
    match st {
        ExportWalk::DosHeader => 8200,
        ExportWalk::NtHeaders => 8199,
        ExportWalk::Directory => 8198,
        ExportWalk::NameRva { i, .. } => (5 + 2 * (4096 - i)) as nat,
        ExportWalk::Name { i, .. } => (4 + 2 * (4096 - i)) as nat,
        ExportWalk::Ordinal { .. } => 2,
        ExportWalk::Function => 1,
        ExportWalk::Finished => 0,
    }
}

/// The walk ends: every step that does not finish it lowers the measure, whatever was
/// read, so a module is done with after at most 8200 reads.
pub proof fn law_export_walk_terminates(st: ExportWalk, base: u64, wanted: Seq<u8>, reply: Option<Seq<u8>>)
    requires
        walk_wf(st),
    ensures
        walk_spec(st, base, wanted, reply).0 == ExportWalk::Finished
            || walk_measure(walk_spec(st, base, wanted, reply).0) < walk_measure(st),
{
}

} // verus!
