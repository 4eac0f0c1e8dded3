//! Loading the Mach-O image: where it lives, which bytes of the file go
//! where, which pointers the imports receive, and how relocated words are
//! rebased once the image sits at its load address.

use vstd::prelude::*;
use goblin::mach::Mach;
use crate::patch::emulator::{register_fn, import_address};
use crate::emu::{le_value, u64_from_le_at};
use crate::macho_check::{parser_can_read, parser_safe};
use vstd::string::StringExecFns;

verus! {

/// Address at which the image expects to be loaded.
pub const IMAGE_BASE: u64 = 0x1_0000_0000;

/// A segment: its address in the image, and the file bytes that fill it.
#[derive(Clone, Copy, Debug, PartialEq, Eq, Structural)]
pub struct SegmentInfo {
    pub vmaddr: u64,
    pub fileoff: u64,
    pub filesize: u64,
}

/// An imported symbol: the library and name it is looked up by, whether it
/// is bound lazily, the address of its pointer slot in the image, and the
/// addend to apply to the symbol's address.
pub struct ImportInfo {
    pub dylib: String,
    pub name: String,
    pub is_lazy: bool,
    pub address: u64,
    pub addend: i64,
}

/// The text and numbers of an import.
pub struct ImportView {
    pub dylib: Seq<char>,
    pub name: Seq<char>,
    pub is_lazy: bool,
    pub address: u64,
    pub addend: i64,
}

impl View for ImportInfo {
    type V = ImportView;

    open spec fn view(&self) -> ImportView {
        ImportView {
            dylib: self.dylib@,
            name: self.name@,
            is_lazy: self.is_lazy,
            address: self.address,
            addend: self.addend,
        }
    }
}

/// What a Mach-O file holds for loading: its segments and its imports.
pub struct MachLayout {
    pub segments: Vec<SegmentInfo>,
    pub imports: Vec<ImportInfo>,
}

/// Why a Mach-O file could not be read.
#[derive(Debug)]
pub enum MachError {
    /// A multi-architecture file, which is not supported.
    Fat,
    /// A file the parser refused, with its message.
    Malformed(String),
}

/// The outcome of reading a Mach-O file.
pub enum MachParse {
    /// A single-architecture file: its segments and imports.
    Binary(Seq<SegmentInfo>, Seq<ImportView>),
    /// A multi-architecture file.
    Fat,
    /// A file the parser refuses, with its message.
    Malformed(Seq<char>),
}

/// What `goblin` does with the bytes of a Mach-O file.
pub uninterp spec fn macho_layout(file: Seq<u8>) -> MachParse;

/// A multi-architecture file: the big-endian magic `0xcafebabe` and room
/// for the rest of the fat header (the architecture count).
pub open spec fn multi_arch(file: Seq<u8>) -> bool {
    &&& file.len() >= 8
    &&& file[0] == 0xcau8
    &&& file[1] == 0xfeu8
    &&& file[2] == 0xbau8
    &&& file[3] == 0xbeu8
}

/// Whether `file` is a multi-architecture file, which the loader does not
/// support.
pub fn is_multi_arch(file: &[u8]) -> (r: bool)
    ensures
        r == multi_arch(file@),
{
    file.len() >= 8 && file[0] == 0xca && file[1] == 0xfe && file[2] == 0xba && file[3] == 0xbe
}

/// The outcome `r` as plain values.
pub open spec fn parse_outcome(r: Result<MachLayout, MachError>) -> MachParse {
    match r {
        Ok(l) => MachParse::Binary(l.segments@, l.imports@.map_values(|i: ImportInfo| i@)),
        Err(MachError::Fat) => MachParse::Fat,
        Err(MachError::Malformed(m)) => MachParse::Malformed(m@),
    }
}

/// `goblin::mach::Mach::parse`, then `MachO::imports`: the segments and the
/// imports of a single-architecture file, in the order the parser lists
/// them. The contract names the outcome; what it is for given bytes is the
/// parser's, but for one fact its source shows plainly: the outcome is a
/// multi-architecture file exactly when the bytes start with the fat magic
/// (read big-endian) and hold the 8-byte fat header. It is called only on
/// bytes that `parser_safe` admits:
/// on other bytes goblin can panic (its import reader indexes the segment
/// and library tables with numbers taken from the bind opcodes, unchecked;
/// its entry-point arithmetic can overflow). That it does not on the
/// admitted bytes is what this contract claims.
#[verifier::external_body]
fn parse_macho(file: &[u8]) -> (r: Result<MachLayout, MachError>)
    requires
        parser_safe(file@),
    ensures
        parse_outcome(r) == macho_layout(file@),
        (r matches Err(MachError::Fat)) <==> multi_arch(file@),
{
    let m = match Mach::parse(file) {
        Ok(Mach::Binary(m)) => m,
        Ok(Mach::Fat(_)) => return Err(MachError::Fat),
        Err(e) => return Err(MachError::Malformed(e.to_string())),
    };
    let imps = m.imports().map_err(|e| MachError::Malformed(e.to_string()))?;
    Ok(MachLayout {
        segments: m.segments.iter().map(|s| SegmentInfo { vmaddr: s.vmaddr, fileoff: s.fileoff, filesize: s.filesize }).collect(),
        imports: imps.iter().map(|i| ImportInfo { dylib: i.dylib.into(), name: i.name.into(), is_lazy: i.is_lazy, address: i.address, addend: i.addend }).collect(),
    })
}

/// Why an image cannot be loaded.
#[derive(Debug)]
pub enum LoadError {
    /// A file the parser refused, with its message.
    Malformed(String),
    /// A segment whose file bytes lie past the end of the file.
    SegmentOutsideFile,
    /// A segment whose end address does not fit 64 bits.
    AddressOverflow,
    /// A file the parser cannot be handed (`parser_safe` refuses it): its
    /// load commands or bind opcodes name a segment or library that does
    /// not exist, or lead to an address past 64 bits or to more imports
    /// than the file has bytes; or it is a 32-bit or big-endian file.
    Unreadable,
}

/// The segment's file bytes lie within a file of `file_len` bytes.
pub open spec fn segment_in_file(s: SegmentInfo, file_len: int) -> bool {
    s.fileoff + s.filesize <= file_len
}

/// The segment's end address fits 64 bits.
pub open spec fn segment_end_fits(s: SegmentInfo) -> bool {
    s.vmaddr + s.filesize <= u64::MAX
}

/// The end of the image: the highest end address of a segment with file
/// bytes, and at least `base`.
pub open spec fn image_end(base: u64, segs: Seq<SegmentInfo>) -> int
    decreases segs.len(),
{
    if segs.len() == 0 {
        base as int
    } else {
        let e = image_end(base, segs.drop_last());
        let s = segs.last();
        if s.filesize != 0 && s.vmaddr + s.filesize > e {
            s.vmaddr + s.filesize
        } else {
            e
        }
    }
}

/// The image end bounds every segment with file bytes from above, and is
/// the end of one of them unless it is `base`.
pub proof fn lemma_image_end_bounds(base: u64, segs: Seq<SegmentInfo>)
    ensures
        image_end(base, segs) >= base,
        forall|i: int|
            0 <= i < segs.len() && (#[trigger] segs[i]).filesize != 0 ==> segs[i].vmaddr
                + segs[i].filesize <= image_end(base, segs),
        image_end(base, segs) == base || exists|i: int|
            0 <= i < segs.len() && (#[trigger] segs[i]).filesize != 0 && image_end(base, segs)
                == segs[i].vmaddr + segs[i].filesize,
    decreases segs.len(),
{
    if segs.len() > 0 {
        let init = segs.drop_last();
        lemma_image_end_bounds(base, init);
        assert forall|i: int|
            0 <= i < segs.len() && (#[trigger] segs[i]).filesize != 0 implies segs[i].vmaddr
            + segs[i].filesize <= image_end(base, segs) by {
            if i < segs.len() - 1 {
                assert(segs[i] == init[i]);
            }
        }
        if image_end(base, segs) != base {
            if image_end(base, segs) == image_end(base, init) {
                let i = choose|i: int|
                    0 <= i < init.len() && (#[trigger] init[i]).filesize != 0 && image_end(
                        base,
                        init,
                    ) == init[i].vmaddr + init[i].filesize;
                assert(segs[i] == init[i]);
            } else {
                assert(segs[segs.len() - 1] == segs.last());
            }
        }
    }
}

/// The size of the image that `segs` describe, for loading at `base`:
/// `image_end - base`; refused when a segment's end does not fit 64 bits.
pub fn image_size(base: u64, segs: &Vec<SegmentInfo>) -> (r: Result<u64, LoadError>)
    ensures
        r is Ok <==> forall|i: int| 0 <= i < segs@.len() ==> segment_end_fits(#[trigger] segs@[i]),
        r matches Ok(n) ==> n == image_end(base, segs@) - base,
        r matches Err(e) ==> e is AddressOverflow,
{
    let mut end = base;
    let mut i: usize = 0;
    while i < segs.len()
        invariant
            i <= segs@.len(),
            end == image_end(base, segs@.take(i as int)),
            forall|j: int| 0 <= j < i ==> segment_end_fits(#[trigger] segs@[j]),
        decreases segs@.len() - i,
    {
        let s = segs[i];
        proof {
            assert(segs@.take(i + 1).drop_last() =~= segs@.take(i as int));
            assert(segs@.take(i + 1).last() == s);
        }
        if s.filesize > u64::MAX - s.vmaddr {
            return Err(LoadError::AddressOverflow);
        }
        if s.filesize != 0 {
            let e = s.vmaddr + s.filesize;
            if e > end {
                end = e;
            }
        }
        i = i + 1;
    }
    proof {
        assert(segs@.take(i as int) =~= segs@);
        lemma_image_end_bounds(base, segs@);
    }
    Ok(end - base)
}

/// Every segment's file bytes lie within a file of `file_len` bytes.
pub fn segments_in_file(file_len: u64, segs: &Vec<SegmentInfo>) -> (r: bool)
    ensures
        r == forall|i: int| 0 <= i < segs@.len() ==> segment_in_file(#[trigger] segs@[i], file_len as int),
{
    let mut i: usize = 0;
    while i < segs.len()
        invariant
            i <= segs@.len(),
            forall|j: int| 0 <= j < i ==> segment_in_file(#[trigger] segs@[j], file_len as int),
        decreases segs@.len() - i,
    {
        let s = segs[i];
        if s.fileoff > file_len || s.filesize > file_len - s.fileoff {
            assert(!segment_in_file(segs@[i as int], file_len as int));
            return false;
        }
        i = i + 1;
    }
    true
}

/// A pointer to store in the image: the image address of its slot and the
/// value.
#[derive(Clone, Copy, Debug, PartialEq, Eq, Structural)]
pub struct PointerWrite {
    pub address: u64,
    pub value: u64,
}

/// The value an import's slot receives when its symbol is at `symbol`:
/// the symbol address plus the addend, in 64-bit two's complement.
pub open spec fn bound_value(symbol: u64, addend: i64) -> u64 {
    ((symbol + addend) % 0x1_0000_0000_0000_0000int) as u64
}

/// The pointer that import `imp` receives when its symbol resolved to
/// `symbol`: none for a lazily bound import.
pub open spec fn import_write(imp: ImportView, symbol: u64) -> Option<PointerWrite> {
    if imp.is_lazy {
        None
    } else {
        Some(PointerWrite { address: imp.address, value: bound_value(symbol, imp.addend) })
    }
}

/// The pointers the imports receive, one entry per import, when import `i`
/// resolved to `resolved[i]`.
pub fn import_writes(imports: &Vec<ImportInfo>, resolved: &Vec<u64>) -> (r: Vec<Option<PointerWrite>>)
    requires
        resolved@.len() == imports@.len(),
    ensures
        r@.len() == imports@.len(),
        forall|i: int|
            0 <= i < imports@.len() ==> #[trigger] r@[i] == import_write(imports@[i]@, resolved@[i]),
{
    let mut r: Vec<Option<PointerWrite>> = Vec::new();
    let mut i: usize = 0;
    while i < imports.len()
        invariant
            i <= imports@.len(),
            resolved@.len() == imports@.len(),
            r@.len() == i,
            forall|j: int|
                0 <= j < i ==> #[trigger] r@[j] == import_write(imports@[j]@, resolved@[j]),
        decreases imports@.len() - i,
    {
        let imp = &imports[i];
        if imp.is_lazy {
            r.push(None);
        } else {
            let value = resolved[i].wrapping_add_signed(imp.addend);
            r.push(Some(PointerWrite { address: imp.address, value }));
        }
        i = i + 1;
    }
    r
}

/// How to lay out the image: its base and size, the segments whose file
/// bytes are copied to their addresses (in order), and the pointer each
/// import receives (one entry per import, none for a lazy one).
pub struct LoadPlan {
    pub image_base: u64,
    pub image_size: u64,
    pub segments: Vec<SegmentInfo>,
    pub pointers: Vec<Option<PointerWrite>>,
}

/// `p` lays out the segments `segs` and imports `imps` of a file, with
/// import `i` resolved to `resolved[i]`.
pub open spec fn is_plan_of(
    p: LoadPlan,
    segs: Seq<SegmentInfo>,
    imps: Seq<ImportView>,
    resolved: Seq<u64>,
) -> bool {
    &&& p.image_base == IMAGE_BASE
    &&& p.image_size == image_end(IMAGE_BASE, segs) - IMAGE_BASE
    &&& p.segments@ == segs
    &&& p.pointers@.len() == imps.len()
    &&& forall|i: int| 0 <= i < imps.len() ==> #[trigger] p.pointers@[i] == import_write(imps[i], resolved[i])
}

/// The layout can be loaded from a file of `file_len` bytes: every segment
/// ends within 64 bits and lies within the file.
pub open spec fn loadable(file_len: int, segs: Seq<SegmentInfo>) -> bool {
    &&& forall|i: int| 0 <= i < segs.len() ==> segment_end_fits(#[trigger] segs[i])
    &&& forall|i: int| 0 <= i < segs.len() ==> segment_in_file(#[trigger] segs[i], file_len)
}

/// The plan for loading `layout`, read from a file of `file_len` bytes,
/// with import `i` resolved to `resolved[i]`. A segment whose end does not
/// fit 64 bits is refused first, then one whose bytes lie past the file.
pub fn plan_image(file_len: u64, layout: MachLayout, resolved: &Vec<u64>) -> (r: Result<LoadPlan, LoadError>)
    requires
        resolved@.len() == layout.imports@.len(),
    ensures
        r is Ok <==> loadable(file_len as int, layout.segments@),
        r matches Ok(p) ==> is_plan_of(p, layout.segments@, layout.imports@.map_values(|i: ImportInfo| i@), resolved@),
        r matches Err(e) ==> (e is AddressOverflow <==> exists|i: int| 0 <= i < layout.segments@.len() && !segment_end_fits(#[trigger] layout.segments@[i])),
        r matches Err(e) ==> (e is AddressOverflow || e is SegmentOutsideFile),
{
    let size = match image_size(IMAGE_BASE, &layout.segments) {
        Ok(n) => n,
        Err(e) => return Err(e),
    };
    if !segments_in_file(file_len, &layout.segments) {
        return Err(LoadError::SegmentOutsideFile);
    }
    let pointers = import_writes(&layout.imports, resolved);
    let ghost imps = layout.imports@.map_values(|i: ImportInfo| i@);
    let p = LoadPlan { image_base: IMAGE_BASE, image_size: size, segments: layout.segments, pointers };
    assert forall|i: int| 0 <= i < imps.len() implies #[trigger] p.pointers@[i] == import_write(imps[i], resolved@[i]) by {
        assert(imps[i] == layout.imports@[i]@);
    }
    Ok(p)
}

/// The segments and imports of a single-architecture Mach-O file, or the
/// parser's refusal. A multi-architecture file is not supported: loading
/// one ends the program, so it is left out here (callers test
/// `is_multi_arch` first). A file that the parser cannot be handed without
/// failing is refused as `Unreadable` before it is parsed.
pub fn read_layout(file: &[u8]) -> (r: Result<MachLayout, LoadError>)
    requires
        !multi_arch(file@),
    ensures
        !parser_safe(file@) ==> (r matches Err(e) && e is Unreadable),
        r matches Ok(l) ==> macho_layout(file@) == MachParse::Binary(l.segments@, l.imports@.map_values(|i: ImportInfo| i@)),
        parser_safe(file@) ==> (macho_layout(file@) matches MachParse::Malformed(n) ==> (r matches Err(LoadError::Malformed(m)) && m@ == n)),
        r is Ok <==> parser_safe(file@) && macho_layout(file@) is Binary,
        parser_safe(file@) ==> !(macho_layout(file@) is Fat),
{
    if !parser_can_read(file) {
        return Err(LoadError::Unreadable);
    }
    match parse_macho(file) {
        Ok(l) => Ok(l),
        Err(MachError::Malformed(m)) => Err(LoadError::Malformed(m)),
        // Not reached: `multi_arch` files are left out above.
        Err(MachError::Fat) => Err(LoadError::Unreadable),
    }
}

/// The addresses that the emulated system binds the imports to.
pub open spec fn emulator_resolution(imps: Seq<ImportView>) -> Seq<u64> {
    imps.map_values(|i: ImportView| import_address(i.name))
}

/// Resolves every import as the emulated system binds it.
pub fn resolve_for_emulator(imports: &Vec<ImportInfo>) -> (r: Vec<u64>)
    ensures
        r@ == emulator_resolution(imports@.map_values(|i: ImportInfo| i@)),
{
    let mut r: Vec<u64> = Vec::new();
    let mut i: usize = 0;
    while i < imports.len()
        invariant
            i <= imports@.len(),
            r@ == emulator_resolution(imports@.map_values(|i: ImportInfo| i@).take(i as int)),
        decreases imports@.len() - i,
    {
        let a = register_fn(imports[i].dylib.as_str(), imports[i].name.as_str());
        r.push(a);
        i = i + 1;
        assert(r@ =~= emulator_resolution(imports@.map_values(|i: ImportInfo| i@).take(i as int)));
    }
    assert(imports@.map_values(|i: ImportInfo| i@).take(i as int) =~= imports@.map_values(|i: ImportInfo| i@));
    r
}

/// The plan for loading the single-architecture image in `file` into the
/// emulator, with every import bound as the emulated system binds it; a
/// file the parser cannot be handed is refused as `Unreadable`.
pub fn plan_emulator_image(file: &[u8]) -> (r: Result<LoadPlan, LoadError>)
    requires
        !multi_arch(file@),
    ensures
        !parser_safe(file@) ==> (r matches Err(e) && e is Unreadable),
        parser_safe(file@) ==> (macho_layout(file@) matches MachParse::Malformed(m) ==> (r matches Err(LoadError::Malformed(n)) && n@ == m)),
        parser_safe(file@) ==> (macho_layout(file@) matches MachParse::Binary(segs, imps) ==> {
            &&& r is Ok <==> loadable(file@.len() as int, segs)
            &&& r matches Ok(p) ==> is_plan_of(p, segs, imps, emulator_resolution(imps))
        }),
{
    let layout = match read_layout(file) {
        Ok(l) => l,
        Err(e) => return Err(e),
    };
    let resolved = resolve_for_emulator(&layout.imports);
    plan_image(file.len() as u64, layout, &resolved)
}

/// Where the image sits in memory: the base it expects, the base it was
/// placed at, and whether it has been placed at all.
#[derive(Clone, Copy, Debug, PartialEq, Eq, Structural)]
pub struct MachoLoader {
    pub image_base: u64,
    pub base_addr: u64,
    pub mapped: bool,
}

/// `addr + base - image_base`, in 64-bit wrapping arithmetic.
pub open spec fn rebase(addr: u64, base: u64, image_base: u64) -> u64 {
    ((addr + base - image_base) % 0x1_0000_0000_0000_0000int) as u64
}

impl MachoLoader {
    /// The loader of the emulator, where the image sits at its own base.
    pub fn emulated() -> (r: MachoLoader)
        ensures
            r.image_base == IMAGE_BASE,
            r.base_addr == IMAGE_BASE,
            r.mapped,
    {
        MachoLoader { image_base: IMAGE_BASE, base_addr: IMAGE_BASE, mapped: true }
    }

    /// The loader of an image placed at `base_addr` in this process.
    pub fn native(base_addr: u64) -> (r: MachoLoader)
        ensures
            r.image_base == IMAGE_BASE,
            r.base_addr == base_addr,
            r.mapped,
    {
        MachoLoader { image_base: IMAGE_BASE, base_addr, mapped: true }
    }

    /// A loader whose image has not been placed yet.
    pub fn unmapped() -> (r: MachoLoader)
        ensures
            !r.mapped,
            r.image_base == 0,
            r.base_addr == 0,
    {
        MachoLoader { image_base: 0, base_addr: 0, mapped: false }
    }

    /// Where the image address `addr` lies in memory: moved by the distance
    /// between the load base and the image base; 0 while nothing is placed.
    pub fn get_offset(&self, addr: u64) -> (r: u64)
        ensures
            self.mapped ==> r == rebase(addr, self.base_addr, self.image_base),
            !self.mapped ==> r == 0,
    {
        if self.mapped {
            self.base_addr.wrapping_sub(self.image_base).wrapping_add(addr)
        } else {
            0
        }
    }

    /// Where the word named by relocation entry `v` (an offset into the
    /// image) lies in memory.
    pub fn reloc_address(&self, v: u64) -> (r: u64)
        ensures
            self.mapped ==> r == rebase(((v + self.image_base) % 0x1_0000_0000_0000_0000int) as u64, self.base_addr, self.image_base),
            !self.mapped ==> r == 0,
    {
        self.get_offset(v.wrapping_add(self.image_base))
    }

    /// The relocated value of a word: an image address above the base is
    /// first made an offset, then the load base is added.
    pub fn relocated_word(&self, word: u64) -> (r: u64)
        ensures
            word > self.image_base ==> r == ((word - self.image_base + self.base_addr) % 0x1_0000_0000_0000_0000int) as u64,
            word <= self.image_base ==> r == ((word + self.base_addr) % 0x1_0000_0000_0000_0000int) as u64,
    {
        let w = if word > self.image_base {
            word - self.image_base
        } else {
            word
        };
        w.wrapping_add(self.base_addr)
    }
}

/// A load plan's image holds every segment that has file bytes: its bytes
/// end within `image_size` bytes of the image base, so copying them to
/// their place (from a segment at or above the base) stays inside the image.
pub proof fn lemma_plan_holds_segments(
    p: LoadPlan,
    segs: Seq<SegmentInfo>,
    imps: Seq<ImportView>,
    resolved: Seq<u64>,
)
    requires
        is_plan_of(p, segs, imps, resolved),
    ensures
        forall|i: int|
            0 <= i < p.segments@.len() && (#[trigger] p.segments@[i]).filesize != 0 ==> p.segments@[i].vmaddr
                + p.segments@[i].filesize <= p.image_base + p.image_size,
{
    lemma_image_end_bounds(IMAGE_BASE, segs);
}

/// Relocating a word that holds an image address gives that address's
/// place in memory, and the emulator's loader leaves addresses unchanged.
pub proof fn lemma_relocation_is_rebase(l: MachoLoader, word: u64)
    requires
        l.mapped,
        word > l.image_base,
    ensures
        ((word - l.image_base + l.base_addr) % 0x1_0000_0000_0000_0000int) as u64 == rebase(word, l.base_addr, l.image_base),
        l.base_addr == l.image_base ==> rebase(word, l.base_addr, l.image_base) == word,
{
}

/// `bincode` reading a sequence of words from `bytes` with the standard
/// configuration: the words, or the decoder's message.
pub uninterp spec fn bincode_words(bytes: Seq<u8>) -> Result<Seq<usize>, Seq<char>>;

/// The outcome `r` as plain values.
pub open spec fn words_outcome(r: Result<Vec<usize>, String>) -> Result<Seq<usize>, Seq<char>> {
    match r {
        Ok(v) => Ok(v@),
        Err(m) => Err(m@),
    }
}

/// The element count that a `bincode` sequence in the standard
/// configuration starts with: a variable-length integer, one byte up to 250,
/// or a marker byte 251, 252 or 253 followed by 2, 4 or 8 little-endian
/// bytes; `None` where the first bytes hold no such count.
pub open spec fn sequence_count(b: Seq<u8>) -> Option<int> {
    if b.len() >= 1 && b[0] <= 250 {
        Some(b[0] as int)
    } else if b.len() >= 3 && b[0] == 251 {
        Some(b[1] + 0x100 * b[2])
    } else if b.len() >= 5 && b[0] == 252 {
        Some(b[1] + 0x100 * b[2] + 0x1_0000 * b[3] + 0x100_0000 * b[4])
    } else if b.len() >= 9 && b[0] == 253 {
        Some(le_value(b.subrange(1, 9)))
    } else {
        None
    }
}

/// The count a sequence starts with is no larger than the sequence's own
/// byte length (every element takes at least one byte, so a larger count
/// can only be refused).
pub open spec fn count_fits(b: Seq<u8>) -> bool {
    match sequence_count(b) {
        Some(n) => n <= b.len(),
        None => true,
    }
}

/// Whether the count that `b` starts with fits its length.
fn sequence_count_fits(b: &[u8]) -> (r: bool)
    ensures
        r == count_fits(b@),
{
    let n = b.len() as u64;
    if b.len() >= 1 && b[0] <= 250 {
        (b[0] as u64) <= n
    } else if b.len() >= 3 && b[0] == 251 {
        (b[1] as u64) + 0x100 * (b[2] as u64) <= n
    } else if b.len() >= 5 && b[0] == 252 {
        (b[1] as u64) + 0x100 * (b[2] as u64) + 0x1_0000 * (b[3] as u64) + 0x100_0000 * (b[4] as u64) <= n
    } else if b.len() >= 9 && b[0] == 253 {
        u64_from_le_at(b, 1) <= n
    } else {
        true
    }
}

/// `bincode::decode_from_slice` of a `Vec<usize>` with the standard
/// configuration; the count of bytes read is dropped. It is called only on
/// bytes whose leading count fits their length: the decoder reserves room
/// for that many elements before reading them, which for a larger count
/// (read from a few bytes) fails with a capacity overflow.
#[verifier::external_body]
fn decode_words(bytes: &[u8]) -> (r: Result<Vec<usize>, String>)
    requires
        count_fits(bytes@),
    ensures
        words_outcome(r) == bincode_words(bytes@),
{
    bincode::decode_from_slice::<Vec<usize>, _>(bytes, bincode::config::standard()).map(|(v, _)| v).map_err(|e| e.to_string())
}

impl MachoLoader {
    /// The memory addresses of the words named by the encoded relocation
    /// table `table`, in table order, or the decoder's message. A table
    /// whose leading count exceeds its length is refused before decoding.
    pub fn reloc_addresses(&self, table: &[u8]) -> (r: Result<Vec<u64>, String>)
        ensures
            !count_fits(table@) ==> r is Err,
            count_fits(table@) ==> (bincode_words(table@) matches Err(m) ==> (r matches Err(n) && n@ == m)),
            count_fits(table@) ==> (bincode_words(table@) matches Ok(w) ==> (r matches Ok(v) && v@.len() == w.len() && forall|i: int| 0 <= i < w.len() ==> #[trigger] v@[i] == (if self.mapped { rebase(((w[i] + self.image_base) % 0x1_0000_0000_0000_0000int) as u64, self.base_addr, self.image_base) } else { 0u64 }))),
    {
        if !sequence_count_fits(table) {
            return Err(String::from_str("the table's element count exceeds its length"));
        }
        match decode_words(table) {
            Err(m) => Err(m),
            Ok(words) => {
                let mut v: Vec<u64> = Vec::new();
                let mut i: usize = 0;
                while i < words.len()
                    invariant
                        i <= words@.len(),
                        v@.len() == i,
                        forall|j: int| 0 <= j < i ==> #[trigger] v@[j] == (if self.mapped { rebase(((words@[j] + self.image_base) % 0x1_0000_0000_0000_0000int) as u64, self.base_addr, self.image_base) } else { 0u64 }),
                    decreases words@.len() - i,
                {
                    v.push(self.reloc_address(words[i] as u64));
                    i = i + 1;
                }
                Ok(v)
            },
        }
    }
}

} // verus!
