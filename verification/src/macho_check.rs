//! Which Mach-O files the parser can be handed: a scan of the bytes that
//! follows the parser's reading of the header, the load commands and the
//! bind opcodes, and refuses every file on which that reading could fail by
//! a panic (a segment or library number that does not exist, an address
//! that does not fit 64 bits, an entry point below its segment's file
//! offset) or by exhausting memory (more bound imports than the file has
//! bytes). Files the parser refuses with an error pass the scan: the parser
//! stops on them without failing.

use vstd::prelude::*;
use crate::emu::{le_value, u64_from_le_at};

verus! {

/// A segment as the scan keeps it: its address, its file offset, and
/// whether its name starts with `__TEXT` and a NUL.
#[derive(Clone, Copy, Debug, PartialEq, Eq, Structural)]
pub struct SegEntry {
    pub vmaddr: u64,
    pub fileoff: u64,
    pub is_text: bool,
}

/// What the load commands tell the scan: the segments in order, the number
/// of libraries (the image itself first), the first entry-point offset, and
/// the bind opcode ranges of the last dyld-info command.
pub struct CmdView {
    pub segs: Seq<SegEntry>,
    pub nlibs: u64,
    pub main: Option<u64>,
    pub dyld: Option<(u64, u64, u64, u64)>,
}

/// The outcome of one part of the scan: the parser stops on an error (no
/// failure), the file is refused, or the scan goes on with the value.
pub enum Scan<T> {
    Stops,
    Refused,
    Next(T),
}

/// The 32-bit little-endian word at `off`.
pub open spec fn le32(b: Seq<u8>, off: int) -> int {
    b[off] + b[off + 1] * 0x100 + b[off + 2] * 0x1_0000 + b[off + 3] * 0x100_0000
}

/// The 64-bit little-endian word at `off`.
pub open spec fn le64(b: Seq<u8>, off: int) -> u64 {
    le_value(b.subrange(off, off + 8)) as u64
}

/// The 32-bit big-endian word at the start (the magic number).
pub open spec fn be32_at0(b: Seq<u8>) -> int {
    b[3] + b[2] * 0x100 + b[1] * 0x1_0000 + b[0] * 0x100_0000
}

/// The commands whose library name the parser adds to the library list.
pub open spec fn is_dylib_command(cmd: int) -> bool {
    cmd == 0xc || cmd == 0x8000_0023 || cmd == 0x8000_001f || cmd == 0x8000_0018 || cmd == 0x20
}

/// The load command at `off` applied to `acc`.
#[verifier::opaque]
pub open spec fn cmd_step(b: Seq<u8>, off: u64, acc: CmdView) -> Scan<(u64, CmdView)> {
    if off + 8 > b.len() {
        Scan::Stops
    } else {
        let cmd = le32(b, off as int);
        let size = le32(b, off + 4);
        let next = (off + size) as u64;
        if off + size > b.len() {
            Scan::Stops
        } else if cmd == 0x1 {
            Scan::Refused
        } else if cmd == 0x19 {
            if off + 72 > b.len() {
                Scan::Stops
            } else {
                let text = b[off + 8] == 0x5f && b[off + 9] == 0x5f && b[off + 10] == 0x54 && b[off + 11]
                    == 0x45 && b[off + 12] == 0x58 && b[off + 13] == 0x54 && b[off + 14] == 0;
                let e = SegEntry { vmaddr: le64(b, off + 24), fileoff: le64(b, off + 40), is_text: text };
                Scan::Next((next, CmdView { segs: acc.segs.push(e), ..acc }))
            }
        } else if is_dylib_command(cmd) {
            if off + 24 > b.len() {
                Scan::Stops
            } else {
                Scan::Next((next, CmdView { nlibs: (acc.nlibs + 1) as u64, ..acc }))
            }
        } else if cmd == 0x22 || cmd == 0x8000_0022 {
            if off + 48 > b.len() {
                Scan::Stops
            } else {
                let d = (
                    le32(b, off + 16) as u64,
                    le32(b, off + 20) as u64,
                    le32(b, off + 32) as u64,
                    le32(b, off + 36) as u64,
                );
                Scan::Next((next, CmdView { dyld: Some(d), ..acc }))
            }
        } else if cmd == 0x8000_0028 {
            if off + 24 > b.len() {
                Scan::Stops
            } else if acc.main is None {
                Scan::Next((next, CmdView { main: Some(le64(b, off + 8)), ..acc }))
            } else {
                Scan::Next((next, acc))
            }
        } else {
            Scan::Next((next, acc))
        }
    }
}

/// What the scan knows before the first load command: no segment, one
/// library (the image itself), no entry point, no bind opcodes.
pub open spec fn cmds_init() -> CmdView {
    CmdView { segs: Seq::empty(), nlibs: 1, main: None, dyld: None }
}

/// The `k` load commands from `off` applied to `acc`.
pub open spec fn cmds_scan(b: Seq<u8>, k: nat, off: u64, acc: CmdView) -> Scan<CmdView>
    decreases k,
{
    if k == 0 {
        Scan::Next(acc)
    } else {
        match cmd_step(b, off, acc) {
            Scan::Stops => Scan::Stops,
            Scan::Refused => Scan::Refused,
            Scan::Next((o, a)) => cmds_scan(b, (k - 1) as nat, o, a),
        }
    }
}

/// The index of the first `__TEXT` segment at or after `i`.
pub open spec fn first_text(segs: Seq<SegEntry>, i: int) -> Option<int>
    decreases segs.len() - i,
{
    if i < 0 || i >= segs.len() {
        None
    } else if segs[i].is_text {
        Some(i)
    } else {
        first_text(segs, i + 1)
    }
}

/// The entry point: the first `__TEXT` segment's address minus its file
/// offset, plus the entry offset, must stay within 64 bits; without such a
/// segment the parser stops with an error.
pub open spec fn main_ok(segs: Seq<SegEntry>, entry: Option<u64>) -> Scan<u64> {
    match entry {
        None => Scan::Next(0),
        Some(e) => match first_text(segs, 0) {
            None => Scan::Stops,
            Some(i) => if segs[i].vmaddr >= segs[i].fileoff && segs[i].vmaddr - segs[i].fileoff + e
                <= u64::MAX {
                Scan::Next(e)
            } else {
                Scan::Refused
            },
        },
    }
}

/// The unsigned LEB128 number at `off` (bytes `i` on read so far, value
/// `acc`): the value and the offset after it, or `None` where reading fails.
pub open spec fn uleb_at(b: Seq<u8>, off: int, i: int, acc: u64) -> Option<(u64, int)>
    decreases 10 - i,
{
    if i < 0 || i >= 10 || off + i >= b.len() {
        None
    } else {
        let byte = b[off + i];
        if i == 9 && byte != 0 && byte != 1 {
            None
        } else {
            let acc2 = acc | (((byte & 0x7f) as u64) << ((7 * i) as u64));
            if byte & 0x80 == 0 {
                Some((acc2, off + i + 1))
            } else {
                uleb_at(b, off, i + 1, acc2)
            }
        }
    }
}

/// The offset after the signed LEB128 number at `off`, counting the bytes
/// up to the first without the continuation bit (at most ten).
pub open spec fn sleb_end(b: Seq<u8>, off: int, i: int) -> Option<int>
    decreases 10 - i,
{
    if i < 0 || i >= 10 || off + i >= b.len() {
        None
    } else if b[off + i] & 0x80 == 0 {
        Some(off + i + 1)
    } else {
        sleb_end(b, off, i + 1)
    }
}

/// The index of the first NUL at or after `j`, or the length.
pub open spec fn nul_from(b: Seq<u8>, j: int) -> int
    decreases b.len() - j,
{
    if j >= b.len() || j < 0 {
        b.len() as int
    } else if b[j] == 0 {
        j
    } else {
        nul_from(b, j + 1)
    }
}

/// The interpreter's record while it reads bind opcodes: where it reads,
/// the segment and the offset in it that the next import lands at, the
/// library it comes from, and how many imports were made so far.
#[derive(Clone, Copy, Debug, PartialEq, Eq, Structural)]
pub struct BindState {
    pub offset: u64,
    pub seg_index: u8,
    pub seg_offset: u64,
    pub ordinal: u8,
    pub total: u64,
}

/// Making one import is safe: its segment and library exist, its file
/// offset and address fit 64 bits, and the imports stay below `budget`.
pub open spec fn bind_ok(segs: Seq<SegEntry>, nlibs: u64, budget: u64, st: BindState) -> bool {
    &&& (st.seg_index as int) < segs.len()
    &&& (st.ordinal as int) < nlibs
    &&& segs[st.seg_index as int].fileoff + st.seg_offset <= u64::MAX
    &&& segs[st.seg_index as int].vmaddr + st.seg_offset <= u64::MAX
    &&& st.total < budget
}

/// `x + y` in 64-bit wrapping arithmetic.
pub open spec fn wadd(x: u64, y: u64) -> u64 {
    if x + y > u64::MAX {
        (x + y - 0x1_0000_0000_0000_0000int) as u64
    } else {
        (x + y) as u64
    }
}

/// The record after an import is made and the offset moves by `step`.
pub open spec fn after_bind(st: BindState, step: u64) -> BindState {
    BindState {
        seg_offset: wadd(st.seg_offset, step),
        total: (st.total + 1) as u64,
        ..st
    }
}

/// `count` imports in a row, the offset moving by `step` after each.
pub open spec fn repeat_binds(
    segs: Seq<SegEntry>,
    nlibs: u64,
    budget: u64,
    st: BindState,
    count: nat,
    step: u64,
) -> Scan<BindState>
    decreases count,
{
    if count == 0 {
        Scan::Next(st)
    } else if !bind_ok(segs, nlibs, budget, st) {
        Scan::Refused
    } else {
        repeat_binds(segs, nlibs, budget, after_bind(st, step), (count - 1) as nat, step)
    }
}

/// One bind opcode at `st.offset`.
#[verifier::opaque]
pub open spec fn bind_step(b: Seq<u8>, segs: Seq<SegEntry>, nlibs: u64, budget: u64, st: BindState) -> Scan<BindState> {
    if st.offset >= b.len() {
        Scan::Stops
    } else {
        let op = b[st.offset as int];
        let imm = op & 0x0f;
        let o = (st.offset + 1) as u64;
        let s = BindState { offset: o, ..st };
        let kind = op & 0xf0;
        if kind == 0x00 {
            Scan::Next(BindState { offset: o, seg_index: 0, seg_offset: 0, ordinal: 0, total: st.total })
        } else if kind == 0x10 {
            Scan::Next(BindState { ordinal: imm, ..s })
        } else if kind == 0x20 {
            match uleb_at(b, o as int, 0, 0) {
                None => Scan::Stops,
                Some((v, e)) => Scan::Next(BindState { offset: e as u64, ordinal: v as u8, ..s }),
            }
        } else if kind == 0x40 {
            if o >= b.len() {
                Scan::Stops
            } else {
                Scan::Next(BindState { offset: (nul_from(b, o as int) + 1) as u64, ..s })
            }
        } else if kind == 0x60 {
            match sleb_end(b, o as int, 0) {
                None => Scan::Stops,
                Some(e) => Scan::Next(BindState { offset: e as u64, ..s }),
            }
        } else if kind == 0x70 {
            match uleb_at(b, o as int, 0, 0) {
                None => Scan::Stops,
                Some((v, e)) => Scan::Next(BindState { offset: e as u64, seg_index: imm, seg_offset: v, ..s }),
            }
        } else if kind == 0x80 {
            match uleb_at(b, o as int, 0, 0) {
                None => Scan::Stops,
                Some((v, e)) => Scan::Next(
                    BindState { offset: e as u64, seg_offset: wadd(s.seg_offset, v), ..s },
                ),
            }
        } else if kind == 0x90 {
            if bind_ok(segs, nlibs, budget, s) {
                Scan::Next(after_bind(s, 8))
            } else {
                Scan::Refused
            }
        } else if kind == 0xa0 {
            if !bind_ok(segs, nlibs, budget, s) {
                Scan::Refused
            } else {
                let t = after_bind(s, 0);
                match uleb_at(b, o as int, 0, 0) {
                    None => Scan::Stops,
                    Some((v, e)) => Scan::Next(
                        BindState { offset: e as u64, seg_offset: wadd(wadd(t.seg_offset, v), 8), ..t },
                    ),
                }
            }
        } else if kind == 0xb0 {
            if bind_ok(segs, nlibs, budget, s) {
                Scan::Next(after_bind(s, (imm * 8 + 8) as u64))
            } else {
                Scan::Refused
            }
        } else if kind == 0xc0 {
            match uleb_at(b, o as int, 0, 0) {
                None => Scan::Stops,
                Some((count, e1)) => match uleb_at(b, e1, 0, 0) {
                    None => Scan::Stops,
                    Some((skip, e2)) => if skip + 8 > u64::MAX || count > budget {
                        Scan::Refused
                    } else {
                        repeat_binds(segs, nlibs, budget, BindState { offset: e2 as u64, ..s }, count as nat, (skip + 8) as u64)
                    },
                },
            }
        } else {
            Scan::Next(s)
        }
    }
}

/// The bind opcodes from `st.offset` up to `end`; `fuel` bounds the steps
/// (each step reads at least one byte).
pub open spec fn bind_run(b: Seq<u8>, segs: Seq<SegEntry>, nlibs: u64, budget: u64, end: u64, st: BindState, fuel: nat) -> Scan<BindState>
    decreases fuel,
{
    if st.offset >= end {
        Scan::Next(st)
    } else if fuel == 0 {
        Scan::Stops
    } else {
        match bind_step(b, segs, nlibs, budget, st) {
            Scan::Stops => Scan::Stops,
            Scan::Refused => Scan::Refused,
            Scan::Next(t) => bind_run(b, segs, nlibs, budget, end, t, (fuel - 1) as nat),
        }
    }
}

/// A fresh record at `offset`, with the imports made so far.
pub open spec fn fresh(offset: u64, total: u64) -> BindState {
    BindState { offset, seg_index: 0, seg_offset: 0, ordinal: 0, total }
}

/// The end of the opcode range of `size` bytes at `off` (the parser adds
/// them without overflow; the values come from 32-bit fields).
pub open spec fn range_end(off: u64, size: u64) -> u64 {
    if off + size <= u64::MAX {
        (off + size) as u64
    } else {
        u64::MAX
    }
}

/// Both bind opcode runs (the non-lazy one, then the lazy one), after the
/// load commands gave `c`.
pub open spec fn binds_scan(b: Seq<u8>, c: CmdView) -> bool {
    match c.dyld {
        None => true,
        Some((off, size, loff, lsize)) => {
            let budget = b.len() as u64;
            let fuel = (b.len() + 1) as nat;
            match bind_run(b, c.segs, c.nlibs, budget, range_end(off, size), fresh(off, 0), fuel) {
                Scan::Stops => true,
                Scan::Refused => false,
                Scan::Next(st) => !(bind_run(b, c.segs, c.nlibs, budget, range_end(loff, lsize), fresh(loff, st.total), fuel) is Refused),
            }
        },
    }
}

/// The parser can be handed `b`: it either stops on an error or reads the
/// file and its imports without failing.
pub open spec fn parser_safe(b: Seq<u8>) -> bool {
    if b.len() < 4 {
        true
    } else if b.len() + 16 > u64::MAX {
        false
    } else {
        let magic = be32_at0(b);
        if magic == 0xcafe_babe {
            true
        } else if magic == 0xfeed_face || magic == 0xcefa_edfe || magic == 0xfeed_facf {
            false
        } else if magic != 0xcffa_edfe {
            true
        } else if b.len() < 32 {
            true
        } else {
            let ncmds = le32(b, 16);
            let sizeofcmds = le32(b, 20);
            if ncmds > sizeofcmds / 8 || sizeofcmds > b.len() {
                true
            } else {
                let init = cmds_init();
                match cmds_scan(b, ncmds as nat, 32, init) {
                    Scan::Stops => true,
                    Scan::Refused => false,
                    Scan::Next(c) => match main_ok(c.segs, c.main) {
                        Scan::Stops => true,
                        Scan::Refused => false,
                        Scan::Next(_) => binds_scan(b, c),
                    },
                }
            }
        }
    }
}

/// The 32-bit little-endian word at `off`.
fn rd32(b: &[u8], off: u64) -> (r: u64)
    requires
        off + 4 <= b@.len(),
    ensures
        r == le32(b@, off as int),
{
    let o = off as usize;
    (b[o] as u64) + (b[o + 1] as u64) * 0x100 + (b[o + 2] as u64) * 0x1_0000 + (b[o + 3] as u64) * 0x100_0000
}

/// The 64-bit little-endian word at `off`.
fn rd64(b: &[u8], off: u64) -> (r: u64)
    requires
        off + 8 <= b@.len(),
    ensures
        r == le64(b@, off as int),
{
    let n = b.len();
    assert(off < n);
    u64_from_le_at(b, off as usize)
}

/// A number read ends after where it starts and within the bytes.
proof fn lemma_uleb_bounds(b: Seq<u8>, off: int, i: int, acc: u64)
    ensures
        uleb_at(b, off, i, acc) matches Some((v, e)) ==> off + i < e <= b.len(),
    decreases 10 - i,
{
    if 0 <= i < 10 && off + i < b.len() {
        lemma_uleb_bounds(b, off, i + 1, acc | (((b[off + i] & 0x7f) as u64) << ((7 * i) as u64)));
    }
}

/// The unsigned LEB128 number at `off`, with the offset after it.
fn read_uleb(b: &[u8], off: u64) -> (r: Option<(u64, u64)>)
    requires
        off + 16 <= u64::MAX,
        b@.len() + 16 <= u64::MAX,
    ensures
        match uleb_at(b@, off as int, 0, 0) {
            None => r is None,
            Some((v, e)) => r == Some((v, e as u64)),
        },
        r matches Some((v, e)) ==> off < e <= b@.len(),
        uleb_at(b@, off as int, 0, 0) matches Some((v, e)) ==> off < e <= b@.len(),
{
    proof {
        lemma_uleb_bounds(b@, off as int, 0, 0);
    }
    let mut i: u64 = 0;
    let mut acc: u64 = 0;
    while i < 10
        invariant
            i <= 10,
            off + 16 <= u64::MAX,
            b@.len() + 16 <= u64::MAX,
            uleb_at(b@, off as int, i as int, acc) == uleb_at(b@, off as int, 0, 0),
        decreases 10 - i,
    {
        if off + i >= b.len() as u64 {
            return None;
        }
        let byte = b[(off + i) as usize];
        if i == 9 && byte != 0 && byte != 1 {
            return None;
        }
        let acc2 = acc | (((byte & 0x7f) as u64) << (7 * i));
        if byte & 0x80 == 0 {
            return Some((acc2, off + i + 1));
        }
        proof {
            assert(byte & 0x80 != 0 ==> byte != 0 && byte != 1) by (bit_vector);
        }
        acc = acc2;
        i = i + 1;
    }
    None
}

/// The offset after the signed LEB128 number at `off`.
fn skip_sleb(b: &[u8], off: u64) -> (r: Option<u64>)
    requires
        off + 16 <= u64::MAX,
        b@.len() + 16 <= u64::MAX,
    ensures
        match sleb_end(b@, off as int, 0) {
            None => r is None,
            Some(e) => r == Some(e as u64),
        },
        r matches Some(e) ==> off < e <= b@.len(),
{
    let mut i: u64 = 0;
    while i < 10
        invariant
            i <= 10,
            off + 16 <= u64::MAX,
            b@.len() + 16 <= u64::MAX,
            sleb_end(b@, off as int, i as int) == sleb_end(b@, off as int, 0),
        decreases 10 - i,
    {
        if off + i >= b.len() as u64 {
            return None;
        }
        if b[(off + i) as usize] & 0x80 == 0 {
            return Some(off + i + 1);
        }
        i = i + 1;
    }
    None
}

/// The index of the first NUL at or after `j` (the length if none).
fn find_nul(b: &[u8], j: u64) -> (r: u64)
    requires
        j < b@.len(),
        b@.len() + 16 <= u64::MAX,
    ensures
        r == nul_from(b@, j as int),
        j <= r <= b@.len(),
{
    let mut k = j;
    while k < b.len() as u64
        invariant
            j <= k <= b@.len(),
            b@.len() + 16 <= u64::MAX,
            nul_from(b@, k as int) == nul_from(b@, j as int),
        decreases b@.len() - k,
    {
        if b[k as usize] == 0 {
            return k;
        }
        k = k + 1;
    }
    k
}

/// What the load commands told the scan so far.
pub struct CmdAcc {
    pub segs: Vec<SegEntry>,
    pub nlibs: u64,
    pub main: Option<u64>,
    pub dyld: Option<(u64, u64, u64, u64)>,
}

impl View for CmdAcc {
    type V = CmdView;

    open spec fn view(&self) -> CmdView {
        CmdView { segs: self.segs@, nlibs: self.nlibs, main: self.main, dyld: self.dyld }
    }
}

/// Applies the load command at `off` to `acc`.
fn scan_command(b: &[u8], off: u64, acc: &mut CmdAcc) -> (r: Scan<u64>)
    requires
        b@.len() + 16 <= u64::MAX,
        old(acc).nlibs < u64::MAX,
    ensures
        r is Stops <==> cmd_step(b@, off, old(acc)@) is Stops,
        r is Refused <==> cmd_step(b@, off, old(acc)@) is Refused,
        r matches Scan::Next(o) ==> cmd_step(b@, off, old(acc)@) == Scan::Next((o, final(acc)@)),
        final(acc).nlibs <= old(acc).nlibs + 1,
{
    reveal(cmd_step);
    let n = b.len() as u64;
    if off > n || n - off < 8 {
        return Scan::Stops;
    }
    let cmd = rd32(b, off);
    let size = rd32(b, off + 4);
    if size > n - off {
        return Scan::Stops;
    }
    let next = off + size;
    let o = off as usize;
    if cmd == 0x1 {
        Scan::Refused
    } else if cmd == 0x19 {
        if n - off < 72 {
            return Scan::Stops;
        }
        let text = b[o + 8] == 0x5f && b[o + 9] == 0x5f && b[o + 10] == 0x54 && b[o + 11] == 0x45
            && b[o + 12] == 0x58 && b[o + 13] == 0x54 && b[o + 14] == 0;
        let e = SegEntry { vmaddr: rd64(b, off + 24), fileoff: rd64(b, off + 40), is_text: text };
        acc.segs.push(e);
        Scan::Next(next)
    } else if cmd == 0xc || cmd == 0x8000_0023 || cmd == 0x8000_001f || cmd == 0x8000_0018 || cmd == 0x20 {
        if n - off < 24 {
            return Scan::Stops;
        }
        acc.nlibs = acc.nlibs + 1;
        Scan::Next(next)
    } else if cmd == 0x22 || cmd == 0x8000_0022 {
        if n - off < 48 {
            return Scan::Stops;
        }
        acc.dyld = Some((rd32(b, off + 16), rd32(b, off + 20), rd32(b, off + 32), rd32(b, off + 36)));
        Scan::Next(next)
    } else if cmd == 0x8000_0028 {
        if n - off < 24 {
            return Scan::Stops;
        }
        if acc.main.is_none() {
            acc.main = Some(rd64(b, off + 8));
        }
        Scan::Next(next)
    } else {
        Scan::Next(next)
    }
}

/// The first `__TEXT` segment.
fn find_text(segs: &Vec<SegEntry>) -> (r: Option<usize>)
    ensures
        r is None <==> first_text(segs@, 0) is None,
        r matches Some(i) ==> first_text(segs@, 0) == Some(i as int),
{
    let mut i: usize = 0;
    while i < segs.len()
        invariant
            i <= segs@.len(),
            first_text(segs@, i as int) == first_text(segs@, 0),
        decreases segs@.len() - i,
    {
        if segs[i].is_text {
            return Some(i);
        }
        i = i + 1;
    }
    None
}

/// The first `__TEXT` segment found is one.
proof fn lemma_first_text(segs: Seq<SegEntry>, i: int)
    ensures
        first_text(segs, i) matches Some(j) ==> 0 <= j < segs.len() && segs[j].is_text,
    decreases segs.len() - i,
{
    if 0 <= i < segs.len() && !segs[i].is_text {
        lemma_first_text(segs, i + 1);
    }
}

/// The entry-point check.
fn check_main(segs: &Vec<SegEntry>, entry: Option<u64>) -> (r: Scan<u64>)
    ensures
        r == main_ok(segs@, entry),
{
    if entry.is_none() {
        return Scan::Next(0);
    }
    let e = entry.unwrap();
    let found = find_text(segs);
    if found.is_none() {
        return Scan::Stops;
    }
    let i = found.unwrap();
    proof {
        lemma_first_text(segs@, 0);
    }
    let s = segs[i];
    assert(s == segs@[i as int]);
    assert(first_text(segs@, 0) == Some(i as int));
    if s.vmaddr >= s.fileoff && e <= u64::MAX - (s.vmaddr - s.fileoff) {
        Scan::Next(e)
    } else {
        Scan::Refused
    }
}

/// All `ncmds` load commands from the first one.
fn scan_commands(b: &[u8], ncmds: u64) -> (r: (Scan<u64>, CmdAcc))
    requires
        b@.len() + 16 <= u64::MAX,
        ncmds <= b@.len(),
    ensures
        r.0 is Stops <==> cmds_scan(b@, ncmds as nat, 32, cmds_init()) is Stops,
        r.0 is Refused <==> cmds_scan(b@, ncmds as nat, 32, cmds_init()) is Refused,
        cmds_scan(b@, ncmds as nat, 32, cmds_init()) matches Scan::Next(c) ==> (r.0 is Next && r.1@ == c),
{
    let ghost init = cmds_init();
    let mut acc = CmdAcc { segs: Vec::new(), nlibs: 1, main: None, dyld: None };
    assert(acc@.segs =~= init.segs);
    assert(acc@ == init);
    let mut off: u64 = 32;
    let mut i: u64 = 0;
    while i < ncmds
        invariant
            i <= ncmds <= b@.len(),
            b@.len() + 16 <= u64::MAX,
            acc.nlibs <= 1 + i,
            init == cmds_init(),
            cmds_scan(b@, (ncmds - i) as nat, off, acc@) == cmds_scan(b@, ncmds as nat, 32, init),
        decreases ncmds - i,
    {
        let ghost a0 = acc@;
        let ghost k = (ncmds - i) as nat;
        assert(cmds_scan(b@, k, off, a0) == match cmd_step(b@, off, a0) {
            Scan::Stops => Scan::Stops,
            Scan::Refused => Scan::Refused,
            Scan::Next((o, a)) => cmds_scan(b@, (k - 1) as nat, o, a),
        });
        match scan_command(b, off, &mut acc) {
            Scan::Stops => return (Scan::Stops, acc),
            Scan::Refused => return (Scan::Refused, acc),
            Scan::Next(o) => {
                off = o;
                i = i + 1;
            },
        }
    }
    (Scan::Next(0), acc)
}

/// Whether one import can be made.
fn can_bind(segs: &Vec<SegEntry>, nlibs: u64, budget: u64, st: BindState) -> (r: bool)
    ensures
        r == bind_ok(segs@, nlibs, budget, st),
{
    let k = st.seg_index as usize;
    if k >= segs.len() || (st.ordinal as u64) >= nlibs || st.total >= budget {
        return false;
    }
    let s = segs[k];
    s.fileoff <= u64::MAX - st.seg_offset && s.vmaddr <= u64::MAX - st.seg_offset
}

/// The record after an import, the offset moving by `step`.
fn bound(st: BindState, step: u64) -> (r: BindState)
    requires
        st.total < u64::MAX,
    ensures
        r == after_bind(st, step),
{
    BindState { seg_offset: st.seg_offset.wrapping_add(step), total: st.total + 1, ..st }
}

/// More imports in a row than the budget leaves are refused.
proof fn lemma_repeat_over_budget(segs: Seq<SegEntry>, nlibs: u64, budget: u64, st: BindState, count: nat, step: u64)
    requires
        st.total <= budget,
        st.total + count > budget,
    ensures
        repeat_binds(segs, nlibs, budget, st, count, step) is Refused,
    decreases count,
{
    if bind_ok(segs, nlibs, budget, st) {
        lemma_repeat_over_budget(segs, nlibs, budget, after_bind(st, step), (count - 1) as nat, step);
    }
}

/// `count` imports in a row.
fn scan_repeat(segs: &Vec<SegEntry>, nlibs: u64, budget: u64, st: BindState, count: u64, step: u64) -> (r: Scan<BindState>)
    requires
        st.total + count <= budget,
    ensures
        r == repeat_binds(segs@, nlibs, budget, st, count as nat, step),
        r matches Scan::Next(t) ==> t.offset == st.offset && t.total <= budget,
{
    let mut cur = st;
    let mut c = count;
    while c > 0
        invariant
            cur.total + c <= budget,
            cur.offset == st.offset,
            repeat_binds(segs@, nlibs, budget, cur, c as nat, step) == repeat_binds(segs@, nlibs, budget, st, count as nat, step),
        decreases c,
    {
        if !can_bind(segs, nlibs, budget, cur) {
            return Scan::Refused;
        }
        cur = bound(cur, step);
        c = c - 1;
    }
    Scan::Next(cur)
}

/// One bind opcode at `st.offset`.
fn scan_bind_step(b: &[u8], segs: &Vec<SegEntry>, nlibs: u64, budget: u64, st: BindState) -> (r: Scan<BindState>)
    requires
        b@.len() + 16 <= u64::MAX,
        budget == b@.len(),
        st.total <= budget,
    ensures
        r == bind_step(b@, segs@, nlibs, budget, st),
        r matches Scan::Next(t) ==> st.offset < t.offset <= b@.len() + 1 && t.total <= budget,
{
    reveal(bind_step);
    let n = b.len() as u64;
    if st.offset >= n {
        return Scan::Stops;
    }
    let idx = st.offset as usize;
    assert(idx as int == st.offset as int);
    let op = b[idx];
    assert(op == b@[st.offset as int]);
    let imm = op & 0x0f;
    let o = st.offset + 1;
    let s = BindState { offset: o, ..st };
    let kind = op & 0xf0;
    if kind == 0x00 {
        Scan::Next(BindState { offset: o, seg_index: 0, seg_offset: 0, ordinal: 0, total: st.total })
    } else if kind == 0x10 {
        Scan::Next(BindState { ordinal: imm, ..s })
    } else if kind == 0x20 {
        match read_uleb(b, o) {
            None => Scan::Stops,
            Some((v, e)) => Scan::Next(BindState { offset: e, ordinal: v as u8, ..s }),
        }
    } else if kind == 0x40 {
        if o >= n {
            Scan::Stops
        } else {
            Scan::Next(BindState { offset: find_nul(b, o) + 1, ..s })
        }
    } else if kind == 0x60 {
        match skip_sleb(b, o) {
            None => Scan::Stops,
            Some(e) => Scan::Next(BindState { offset: e, ..s }),
        }
    } else if kind == 0x70 {
        match read_uleb(b, o) {
            None => Scan::Stops,
            Some((v, e)) => Scan::Next(BindState { offset: e, seg_index: imm, seg_offset: v, ..s }),
        }
    } else if kind == 0x80 {
        match read_uleb(b, o) {
            None => Scan::Stops,
            Some((v, e)) => Scan::Next(BindState { offset: e, seg_offset: s.seg_offset.wrapping_add(v), ..s }),
        }
    } else if kind == 0x90 {
        if can_bind(segs, nlibs, budget, s) {
            Scan::Next(bound(s, 8))
        } else {
            Scan::Refused
        }
    } else if kind == 0xa0 {
        if !can_bind(segs, nlibs, budget, s) {
            Scan::Refused
        } else {
            let t = bound(s, 0);
            match read_uleb(b, o) {
                None => Scan::Stops,
                Some((v, e)) => Scan::Next(
                    BindState { offset: e, seg_offset: t.seg_offset.wrapping_add(v).wrapping_add(8), ..t },
                ),
            }
        }
    } else if kind == 0xb0 {
        if can_bind(segs, nlibs, budget, s) {
            Scan::Next(bound(s, (imm as u64) * 8 + 8))
        } else {
            Scan::Refused
        }
    } else if kind == 0xc0 {
        match read_uleb(b, o) {
            None => Scan::Stops,
            Some((count, e1)) => match read_uleb(b, e1) {
                None => Scan::Stops,
                Some((skip, e2)) => if skip > u64::MAX - 8 || count > budget {
                    Scan::Refused
                } else if count > budget - st.total {
                    proof {
                        lemma_repeat_over_budget(segs@, nlibs, budget, BindState { offset: e2, ..s }, count as nat, (skip + 8) as u64);
                    }
                    Scan::Refused
                } else {
                    scan_repeat(segs, nlibs, budget, BindState { offset: e2, ..s }, count, skip + 8)
                },
            },
        }
    } else {
        Scan::Next(s)
    }
}

/// The bind opcodes from `st.offset` up to `end`.
fn scan_binds(b: &[u8], segs: &Vec<SegEntry>, nlibs: u64, budget: u64, end: u64, st: BindState, fuel: u64) -> (r: Scan<BindState>)
    requires
        b@.len() + 16 <= u64::MAX,
        budget == b@.len(),
        st.total <= budget,
    ensures
        r == bind_run(b@, segs@, nlibs, budget, end, st, fuel as nat),
        r matches Scan::Next(t) ==> t.total <= budget,
{
    let mut cur = st;
    let mut f = fuel;
    loop
        invariant
            b@.len() + 16 <= u64::MAX,
            budget == b@.len(),
            cur.total <= budget,
            bind_run(b@, segs@, nlibs, budget, end, cur, f as nat) == bind_run(b@, segs@, nlibs, budget, end, st, fuel as nat),
        decreases f,
    {
        if cur.offset >= end {
            return Scan::Next(cur);
        }
        if f == 0 {
            return Scan::Stops;
        }
        match scan_bind_step(b, segs, nlibs, budget, cur) {
            Scan::Stops => return Scan::Stops,
            Scan::Refused => return Scan::Refused,
            Scan::Next(t) => {
                cur = t;
                f = f - 1;
            },
        }
    }
}

/// The end of an opcode range.
fn end_of(off: u64, size: u64) -> (r: u64)
    ensures
        r == range_end(off, size),
{
    if off <= u64::MAX - size {
        off + size
    } else {
        u64::MAX
    }
}

/// Whether the parser can be handed `file`: it either stops on an error or
/// reads the file and its imports without failing.
pub fn parser_can_read(file: &[u8]) -> (r: bool)
    ensures
        r == parser_safe(file@),
{
    let b = file;
    let n = b.len() as u64;
    if b.len() < 4 {
        return true;
    }
    if n > u64::MAX - 16 {
        return false;
    }
    let magic = (b[3] as u64) + (b[2] as u64) * 0x100 + (b[1] as u64) * 0x1_0000 + (b[0] as u64) * 0x100_0000;
    if magic == 0xcafe_babe {
        return true;
    }
    if magic == 0xfeed_face || magic == 0xcefa_edfe || magic == 0xfeed_facf {
        return false;
    }
    if magic != 0xcffa_edfe {
        return true;
    }
    if n < 32 {
        return true;
    }
    let ncmds = rd32(b, 16);
    let sizeofcmds = rd32(b, 20);
    if ncmds > sizeofcmds / 8 || sizeofcmds > n {
        return true;
    }
    let (verdict, acc) = scan_commands(b, ncmds);
    match verdict {
        Scan::Stops => true,
        Scan::Refused => false,
        Scan::Next(_) => match check_main(&acc.segs, acc.main) {
            Scan::Stops => true,
            Scan::Refused => false,
            Scan::Next(_) => match acc.dyld {
                None => true,
                Some((off, size, loff, lsize)) => {
                    let fuel = n + 1;
                    match scan_binds(b, &acc.segs, acc.nlibs, n, end_of(off, size), fresh_state(off, 0), fuel) {
                        Scan::Stops => true,
                        Scan::Refused => false,
                        Scan::Next(t) => match scan_binds(b, &acc.segs, acc.nlibs, n, end_of(loff, lsize), fresh_state(loff, t.total), fuel) {
                            Scan::Refused => false,
                            _ => true,
                        },
                    }
                },
            },
        },
    }
}

/// A fresh record.
fn fresh_state(offset: u64, total: u64) -> (r: BindState)
    ensures
        r == fresh(offset, total),
{
    BindState { offset, seg_index: 0, seg_offset: 0, ordinal: 0, total }
}

} // verus!
