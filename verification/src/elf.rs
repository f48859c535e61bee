//! 64-bit ELF loading: header validation, program-header walking, and the
//! extraction of loadable segments with their zero-filled BSS tails.
//!
//! The contract of `load_elf` pins the parse down completely: for a
//! well-formed image, parsing preserves the entry point and, per `PT_LOAD`
//! program header, the virtual address, the memory size, the permission
//! flags, and the file-resident bytes followed by zero padding.

use vstd::prelude::*;

verus! {

/// Execute permission bit of a program header's `p_flags`.
pub const PF_X: u32 = 1;

/// Write permission bit of a program header's `p_flags`.
pub const PF_W: u32 = 2;

/// Read permission bit of a program header's `p_flags`.
pub const PF_R: u32 = 4;

// --- little-endian field readers -----------------------------------------

/// Little-endian 16-bit value at byte offset `o`.
pub open spec fn le16(b: Seq<u8>, o: int) -> u16 {
    (b[o] + 0x100 * b[o + 1]) as u16
}

/// Little-endian 32-bit value at byte offset `o`.
pub open spec fn le32(b: Seq<u8>, o: int) -> u32 {
    (le16(b, o) + 0x1_0000 * le16(b, o + 2)) as u32
}

/// Little-endian 64-bit value at byte offset `o`.
pub open spec fn le64(b: Seq<u8>, o: int) -> u64 {
    (le32(b, o) + 0x1_0000_0000 * le32(b, o + 4)) as u64
}

fn read_le16(data: &[u8], o: usize) -> (r: u16)
    requires
        o + 2 <= data@.len(),
    ensures
        r == le16(data@, o as int),
{
    let n = data.len();
    data[o] as u16 + 0x100 * (data[o + 1] as u16)
}

fn read_le32(data: &[u8], o: usize) -> (r: u32)
    requires
        o + 4 <= data@.len(),
    ensures
        r == le32(data@, o as int),
{
    let n = data.len();
    read_le16(data, o) as u32 + 0x1_0000 * (read_le16(data, o + 2) as u32)
}

fn read_le64(data: &[u8], o: usize) -> (r: u64)
    requires
        o + 8 <= data@.len(),
    ensures
        r == le64(data@, o as int),
{
    let n = data.len();
    read_le32(data, o) as u64 + 0x1_0000_0000 * (read_le32(data, o + 4) as u64)
}

// --- machine and segment types -------------------------------------------

/// Machines this loader accepts.
#[derive(Clone, Copy, PartialEq, Eq, Structural, Debug)]
pub enum Machine {
    X86_64,
}

impl Machine {
    /// The `e_machine` code of this machine.
    pub fn code(self) -> (c: u16)
        ensures
            c == 0x3e,
    {
        match self {
            Machine::X86_64 => 0x3e,
        }
    }
}

/// Program-header types named by the ELF format.
#[derive(Clone, Copy, PartialEq, Eq, Structural, Debug)]
pub enum SegmentType {
    Null,
    Load,
    Dynamic,
    Interp,
    Note,
    Shlib,
    Phdr,
    Tls,
}

impl SegmentType {
    /// The `p_type` code of this segment type.
    pub fn code(self) -> (c: u32)
        ensures
            c == match self {
                SegmentType::Null => 0u32,
                SegmentType::Load => 1u32,
                SegmentType::Dynamic => 2u32,
                SegmentType::Interp => 3u32,
                SegmentType::Note => 4u32,
                SegmentType::Shlib => 5u32,
                SegmentType::Phdr => 6u32,
                SegmentType::Tls => 7u32,
            },
    {
        match self {
            SegmentType::Null => 0,
            SegmentType::Load => 1,
            SegmentType::Dynamic => 2,
            SegmentType::Interp => 3,
            SegmentType::Note => 4,
            SegmentType::Shlib => 5,
            SegmentType::Phdr => 6,
            SegmentType::Tls => 7,
        }
    }
}

// --- header model ----------------------------------------------------------

/// The first four bytes are 0x7F 'E' 'L' 'F'.
pub open spec fn magic_ok(b: Seq<u8>) -> bool {
    &&& b[0] == 0x7f
    &&& b[1] == 0x45
    &&& b[2] == 0x4c
    &&& b[3] == 0x46
}

pub open spec fn spec_entry(b: Seq<u8>) -> u64 {
    le64(b, 24)
}

pub open spec fn spec_phoff(b: Seq<u8>) -> u64 {
    le64(b, 32)
}

pub open spec fn spec_phentsize(b: Seq<u8>) -> u16 {
    le16(b, 54)
}

pub open spec fn spec_phnum(b: Seq<u8>) -> u16 {
    le16(b, 56)
}

/// The fixed 64-byte header is present, carries the magic bytes, declares a
/// 64-bit image and the x86_64 machine.
pub open spec fn header_ok(b: Seq<u8>) -> bool {
    &&& b.len() >= 64
    &&& magic_ok(b)
    &&& b[4] == 2
    &&& le16(b, 18) == 0x3e
}

/// The program-header table lies inside the buffer and each entry is large
/// enough to carry the 56 bytes of a 64-bit program header.
pub open spec fn table_ok(b: Seq<u8>) -> bool {
    &&& header_ok(b)
    &&& spec_phoff(b) + spec_phnum(b) * spec_phentsize(b) <= b.len()
    &&& spec_phnum(b) > 0 ==> spec_phentsize(b) >= 56
}

/// Byte offset of program header `i`.
pub open spec fn ph_base(b: Seq<u8>, i: int) -> int {
    spec_phoff(b) + i * spec_phentsize(b)
}

pub open spec fn spec_p_type(b: Seq<u8>, i: int) -> u32 {
    le32(b, ph_base(b, i))
}

pub open spec fn spec_p_flags(b: Seq<u8>, i: int) -> u32 {
    le32(b, ph_base(b, i) + 4)
}

pub open spec fn spec_p_offset(b: Seq<u8>, i: int) -> u64 {
    le64(b, ph_base(b, i) + 8)
}

pub open spec fn spec_p_vaddr(b: Seq<u8>, i: int) -> u64 {
    le64(b, ph_base(b, i) + 16)
}

pub open spec fn spec_p_filesz(b: Seq<u8>, i: int) -> u64 {
    le64(b, ph_base(b, i) + 32)
}

pub open spec fn spec_p_memsz(b: Seq<u8>, i: int) -> u64 {
    le64(b, ph_base(b, i) + 40)
}

/// Program header `i` asks to be loaded into memory.
pub open spec fn is_load(b: Seq<u8>, i: int) -> bool {
    spec_p_type(b, i) == 1
}

/// The file-resident bytes of load segment `i` lie inside the buffer and the
/// claimed memory size covers them.
pub open spec fn seg_ok(b: Seq<u8>, i: int) -> bool {
    &&& spec_p_offset(b, i) + spec_p_filesz(b, i) <= b.len()
    &&& spec_p_memsz(b, i) >= spec_p_filesz(b, i)
}

/// Every load segment of the image is well-formed.
pub open spec fn segs_ok(b: Seq<u8>) -> bool {
    forall|i: int|
        0 <= i < spec_phnum(b) && is_load(b, i) ==> #[trigger] seg_ok(b, i)
}

/// A buffer that `load_elf` accepts.
pub open spec fn wf_elf(b: Seq<u8>) -> bool {
    table_ok(b) && segs_ok(b)
}

/// Indices of the load segments among the first `n` program headers, in file
/// order.
pub open spec fn load_indices(b: Seq<u8>, n: int) -> Seq<int>
    decreases n,
{
    if n <= 0 {
        Seq::empty()
    } else if is_load(b, n - 1) {
        load_indices(b, n - 1).push(n - 1)
    } else {
        load_indices(b, n - 1)
    }
}

/// What load segment `i` puts in memory: its file bytes, then zeroes up to
/// the memory size.
pub open spec fn spec_segment_bytes(b: Seq<u8>, i: int) -> Seq<u8> {
    b.subrange(
        spec_p_offset(b, i) as int,
        spec_p_offset(b, i) + spec_p_filesz(b, i),
    ) + Seq::new((spec_p_memsz(b, i) - spec_p_filesz(b, i)) as nat, |j: int| 0u8)
}

// --- parsed representations ------------------------------------------------

/// The fixed 64-byte ELF header, with every field decoded.
pub struct Elf64Header {
    pub e_ident: Vec<u8>,
    pub e_type: u16,
    pub e_machine: u16,
    pub e_version: u32,
    pub e_entry: u64,
    pub e_phoff: u64,
    pub e_shoff: u64,
    pub e_flags: u32,
    pub e_ehsize: u16,
    pub e_phentsize: u16,
    pub e_phnum: u16,
    pub e_shentsize: u16,
    pub e_shnum: u16,
    pub e_shstrndx: u16,
}

/// One decoded program header.
pub struct ProgramHeader {
    pub p_type: u32,
    pub p_flags: u32,
    pub p_offset: u64,
    pub p_vaddr: u64,
    pub p_paddr: u64,
    pub p_filesz: u64,
    pub p_memsz: u64,
    pub p_align: u64,
}

/// Permission flags of a loadable segment.
#[derive(Clone, Copy, PartialEq, Eq, Structural, Debug)]
pub struct SegmentFlags {
    pub readable: bool,
    pub writable: bool,
    pub executable: bool,
}

/// A segment ready to be mapped: where it goes, how big it is in memory,
/// its permissions, and its full in-memory contents (file bytes plus zeroes).
#[derive(Debug, PartialEq, Eq)]
pub struct LoadableSegment {
    pub virtual_address: u64,
    pub size: u64,
    pub flags: SegmentFlags,
    pub data: Vec<u8>,
}

/// Result of loading an ELF image.
#[derive(Debug, PartialEq, Eq)]
pub struct LoadedImage {
    pub entry_point: u64,
    pub segments: Vec<LoadableSegment>,
}

/// Why an image was rejected.
#[derive(Clone, Copy, PartialEq, Eq, Structural, Debug)]
pub enum ElfError {
    FileTooSmall,
    BadMagic,
    NotElf64,
    WrongMachine,
    HeadersTruncated,
    SegmentTruncated,
}

impl ElfError {
    /// A one-line diagnostic for each rejection.
    pub fn message(&self) -> &'static str {
        match self {
            ElfError::FileTooSmall => "File too small",
            ElfError::BadMagic => "ELF magic doesn't match",
            ElfError::NotElf64 => "Not 64-bit ELF",
            ElfError::WrongMachine => "Machine not x86_64",
            ElfError::HeadersTruncated => "Program headers truncated",
            ElfError::SegmentTruncated => "Segment truncated",
        }
    }
}

/// A loadable segment decoded exactly from program header `i` of buffer `b`.
pub open spec fn segment_matches(seg: LoadableSegment, b: Seq<u8>, i: int) -> bool {
    &&& seg.virtual_address == spec_p_vaddr(b, i)
    &&& seg.size == spec_p_memsz(b, i)
    &&& seg.flags.readable == (spec_p_flags(b, i) & PF_R != 0)
    &&& seg.flags.writable == (spec_p_flags(b, i) & PF_W != 0)
    &&& seg.flags.executable == (spec_p_flags(b, i) & PF_X != 0)
    &&& seg.data@ == spec_segment_bytes(b, i)
}

impl Elf64Header {
    /// The header's fields decode buffer `b`.
    pub open spec fn decodes(self, b: Seq<u8>) -> bool {
        &&& self.e_ident@ == b.subrange(0, 16)
        &&& self.e_type == le16(b, 16)
        &&& self.e_machine == le16(b, 18)
        &&& self.e_version == le32(b, 20)
        &&& self.e_entry == le64(b, 24)
        &&& self.e_phoff == le64(b, 32)
        &&& self.e_shoff == le64(b, 40)
        &&& self.e_flags == le32(b, 48)
        &&& self.e_ehsize == le16(b, 52)
        &&& self.e_phentsize == le16(b, 54)
        &&& self.e_phnum == le16(b, 56)
        &&& self.e_shentsize == le16(b, 58)
        &&& self.e_shnum == le16(b, 60)
        &&& self.e_shstrndx == le16(b, 62)
    }

    /// Decode the fixed header from the front of `data`.
    pub fn parse(data: &[u8]) -> (h: Elf64Header)
        requires
            data@.len() >= 64,
        ensures
            h.decodes(data@),
    {
        let mut ident: Vec<u8> = Vec::new();
        let mut k: usize = 0;
        while k < 16
            invariant
                k <= 16,
                data@.len() >= 64,
                ident@ == data@.subrange(0, k as int),
            decreases 16 - k,
        {
            ident.push(data[k]);
            assert(ident@ =~= data@.subrange(0, k + 1 as int));
            k += 1;
        }
        Elf64Header {
            e_ident: ident,
            e_type: read_le16(data, 16),
            e_machine: read_le16(data, 18),
            e_version: read_le32(data, 20),
            e_entry: read_le64(data, 24),
            e_phoff: read_le64(data, 32),
            e_shoff: read_le64(data, 40),
            e_flags: read_le32(data, 48),
            e_ehsize: read_le16(data, 52),
            e_phentsize: read_le16(data, 54),
            e_phnum: read_le16(data, 56),
            e_shentsize: read_le16(data, 58),
            e_shnum: read_le16(data, 60),
            e_shstrndx: read_le16(data, 62),
        }
    }

    /// Accept only 64-bit x86_64 images carrying the ELF magic; report the
    /// first check that fails.
    pub fn validate(&self) -> (r: Result<(), ElfError>)
        requires
            self.e_ident@.len() == 16,
        ensures
            ({
                let id = self.e_ident@;
                match r {
                    Ok(()) => magic_ok(id) && id[4] == 2 && self.e_machine == 0x3e,
                    Err(e) => match e {
                        ElfError::BadMagic => !magic_ok(id),
                        ElfError::NotElf64 => magic_ok(id) && id[4] != 2,
                        ElfError::WrongMachine => magic_ok(id) && id[4] == 2
                            && self.e_machine != 0x3e,
                        _ => false,
                    },
                }
            }),
    {
        if !(self.e_ident[0] == 0x7f && self.e_ident[1] == 0x45 && self.e_ident[2] == 0x4c
            && self.e_ident[3] == 0x46) {
            return Err(ElfError::BadMagic);
        }
        if self.e_ident[4] != 2 {
            return Err(ElfError::NotElf64);
        }
        if self.e_machine != Machine::X86_64.code() {
            return Err(ElfError::WrongMachine);
        }
        Ok(())
    }
}

/// Decode program header `i` of the table.
fn read_program_header(data: &[u8], base: usize) -> (ph: ProgramHeader)
    requires
        base + 56 <= data@.len(),
    ensures
        ph.p_type == le32(data@, base as int),
        ph.p_flags == le32(data@, base + 4),
        ph.p_offset == le64(data@, base + 8),
        ph.p_vaddr == le64(data@, base + 16),
        ph.p_paddr == le64(data@, base + 24),
        ph.p_filesz == le64(data@, base + 32),
        ph.p_memsz == le64(data@, base + 40),
        ph.p_align == le64(data@, base + 48),
{
    let n = data.len();
    ProgramHeader {
        p_type: read_le32(data, base),
        p_flags: read_le32(data, base + 4),
        p_offset: read_le64(data, base + 8),
        p_vaddr: read_le64(data, base + 16),
        p_paddr: read_le64(data, base + 24),
        p_filesz: read_le64(data, base + 32),
        p_memsz: read_le64(data, base + 40),
        p_align: read_le64(data, base + 48),
    }
}

/// Parse a 64-bit ELF image and emit its entry point and loadable segments.
///
/// Succeeds exactly on well-formed images; each rejection names the first
/// failed check. On success the entry point and the sequence of load
/// segments are pinned to the bytes of the image, so parsing loses nothing:
/// per segment the virtual address, memory size, permission flags, and the
/// file bytes followed by zero fill are all preserved.
pub fn load_elf(data: &[u8]) -> (r: Result<LoadedImage, ElfError>)
    ensures
        ({
            let b = data@;
            match r {
                Ok(img) => {
                    &&& wf_elf(b)
                    &&& img.entry_point == spec_entry(b)
                    &&& img.segments@.len() == load_indices(b, spec_phnum(b) as int).len()
                    &&& forall|k: int|
                        0 <= k < img.segments@.len() ==> #[trigger] segment_matches(
                            img.segments@[k],
                            b,
                            load_indices(b, spec_phnum(b) as int)[k],
                        )
                },
                Err(e) => {
                    &&& !wf_elf(b)
                    &&& match e {
                        ElfError::FileTooSmall => b.len() < 64,
                        ElfError::BadMagic => b.len() >= 64 && !magic_ok(b),
                        ElfError::NotElf64 => b.len() >= 64 && magic_ok(b) && b[4] != 2,
                        ElfError::WrongMachine => b.len() >= 64 && magic_ok(b) && b[4] == 2
                            && le16(b, 18) != 0x3e,
                        ElfError::HeadersTruncated => header_ok(b) && !table_ok(b),
                        ElfError::SegmentTruncated => table_ok(b) && !segs_ok(b),
                    }
                },
            }
        }),
{
    if data.len() < 64 {
        return Err(ElfError::FileTooSmall);
    }
    let header = Elf64Header::parse(data);
    proof {
        assert(header.e_ident@[0] == data@.subrange(0, 16)[0]);
        assert(header.e_ident@[1] == data@.subrange(0, 16)[1]);
        assert(header.e_ident@[2] == data@.subrange(0, 16)[2]);
        assert(header.e_ident@[3] == data@.subrange(0, 16)[3]);
        assert(header.e_ident@[4] == data@.subrange(0, 16)[4]);
    }
    match header.validate() {
        Err(e) => {
            return Err(e);
        },
        Ok(()) => {},
    }
    let n = data.len();
    let len64 = n as u64;
    let ph_offset = header.e_phoff;
    let ph_count = header.e_phnum;
    let ph_size = header.e_phentsize;
    proof {
        assert((ph_count as u64) * (ph_size as u64) <= 0xffff * 0xffff) by (nonlinear_arith)
            requires
                ph_count as u64 <= 0xffff,
                ph_size as u64 <= 0xffff,
        ;
    }
    let needed = (ph_count as u64) * (ph_size as u64);
    if ph_offset > len64 || needed > len64 - ph_offset || (ph_count > 0 && ph_size < 56) {
        return Err(ElfError::HeadersTruncated);
    }
    let ghost b = data@;
    assert(table_ok(b));
    let mut segments: Vec<LoadableSegment> = Vec::new();
    let mut i: usize = 0;
    while i < ph_count as usize
        invariant
            data@ == b,
            n == b.len(),
            len64 == b.len(),
            table_ok(b),
            header.decodes(b),
            ph_offset == spec_phoff(b),
            ph_count == spec_phnum(b),
            ph_size == spec_phentsize(b),
            i <= ph_count as usize,
            forall|j: int| 0 <= j < i && is_load(b, j) ==> #[trigger] seg_ok(b, j),
            segments@.len() == load_indices(b, i as int).len(),
            forall|k: int|
                0 <= k < segments@.len() ==> #[trigger] segment_matches(
                    segments@[k],
                    b,
                    load_indices(b, i as int)[k],
                ),
        decreases ph_count as int - i as int,
    {
        proof {
            assert(spec_phoff(b) + spec_phnum(b) * spec_phentsize(b) <= b.len());
            assert((i + 1) * spec_phentsize(b) <= spec_phnum(b) as int * spec_phentsize(b))
                by (nonlinear_arith)
                requires
                    i < spec_phnum(b),
                    spec_phentsize(b) >= 0,
            ;
            assert(i * spec_phentsize(b) + 56 <= (i + 1) * spec_phentsize(b))
                by (nonlinear_arith)
                requires
                    spec_phentsize(b) >= 56,
            ;
        }
        let base64: u64 = ph_offset + (i as u64) * (ph_size as u64);
        let base = base64 as usize;
        let ph = read_program_header(data, base);
        assert(ph.p_type == spec_p_type(b, i as int));
        if ph.p_type == 1 {
            assert(is_load(b, i as int));
            if ph.p_offset > len64 || ph.p_filesz > len64 - ph.p_offset || ph.p_memsz
                < ph.p_filesz {
                assert(!seg_ok(b, i as int));
                return Err(ElfError::SegmentTruncated);
            }
            assert(seg_ok(b, i as int));
            let start = ph.p_offset as usize;
            let fsz = ph.p_filesz as usize;
            let mut seg_data: Vec<u8> = Vec::new();
            let mut off: usize = 0;
            while off < fsz
                invariant
                    data@ == b,
                    start + fsz <= n,
                    n == b.len(),
                    off <= fsz,
                    seg_data@ == b.subrange(start as int, start + off),
                decreases fsz - off,
            {
                seg_data.push(data[start + off]);
                assert(seg_data@ =~= b.subrange(start as int, start + off + 1));
                off += 1;
            }
            let zero_fill = ph.p_memsz - ph.p_filesz;
            let mut z: u64 = 0;
            while z < zero_fill
                invariant
                    z <= zero_fill,
                    seg_data@ == b.subrange(start as int, start + fsz) + Seq::new(
                        z as nat,
                        |j: int| 0u8,
                    ),
                decreases zero_fill - z,
            {
                seg_data.push(0u8);
                assert(seg_data@ =~= b.subrange(start as int, start + fsz) + Seq::new(
                    (z + 1) as nat,
                    |j: int| 0u8,
                ));
                z += 1;
            }
            assert(seg_data@ == spec_segment_bytes(b, i as int));
            let seg = LoadableSegment {
                virtual_address: ph.p_vaddr,
                size: ph.p_memsz,
                flags: SegmentFlags {
                    readable: ph.p_flags & PF_R != 0,
                    writable: ph.p_flags & PF_W != 0,
                    executable: ph.p_flags & PF_X != 0,
                },
                data: seg_data,
            };
            assert(segment_matches(seg, b, i as int));
            segments.push(seg);
        }
        proof {
            assert(load_indices(b, i + 1) == if is_load(b, i as int) {
                load_indices(b, i as int).push(i as int)
            } else {
                load_indices(b, i as int)
            });
        }
        i += 1;
    }
    assert(segs_ok(b));
    Ok(LoadedImage { entry_point: header.e_entry, segments })
}

} // verus!
