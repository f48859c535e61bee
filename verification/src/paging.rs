//! Model of a 4-level page table as the kernel uses it through the
//! higher-half direct map: a set of mapped 4 KiB pages, each carrying the
//! backing frame, the hardware flag bits, and the page's contents.
//!
//! The hardware walk itself is not modelled; what matters to the kernel's
//! logic — which pages are mapped, with which permissions, holding which
//! bytes — is, and `map_segment` and friends are verified against it.

use vstd::prelude::*;

use crate::arch;
use crate::elf::LoadableSegment;
use crate::memory::FrameSource;

verus! {

pub const PAGE_SIZE: u64 = 4096;

/// Fresh mappings are filled with this sentinel, standing for whatever the
/// frame happened to hold; an explicit zero fill is required to clear it,
/// exactly as on hardware.
pub const FRESH_BYTE: u8 = 0xcc;

/// One mapped page: its base address, backing frame, hardware flag bits,
/// and contents.
pub struct MappedPage {
    pub page: u64,
    pub frame: u64,
    pub flags: u64,
    pub bytes: Vec<u8>,
}

/// Ghost summary of a mapping.
pub ghost struct PageInfo {
    pub frame: u64,
    pub flags: u64,
    pub bytes: Seq<u8>,
}

impl MappedPage {
    /// The ghost summary of this page.
    pub open spec fn info(&self) -> PageInfo {
        PageInfo { frame: self.frame, flags: self.flags, bytes: self.bytes@ }
    }
}

/// Why a mapping request was refused.
pub enum MapError {
    AlreadyMapped(u64),
}

/// The base of the page containing `a`.
pub open spec fn page_of(a: u64) -> u64 {
    (a - a % 4096) as u64
}

/// The byte visible at address `a` under the mappings `m`.
pub open spec fn byte_at(m: Map<u64, PageInfo>, a: u64) -> u8 {
    m[page_of(a)].bytes[(a % 4096) as int]
}

/// No page base occurs twice.
pub open spec fn unique_pages(s: Seq<MappedPage>) -> bool {
    forall|i: int, j: int| #![trigger s[i], s[j]] 0 <= i < j < s.len() ==> s[i].page != s[j].page
}

/// The mappings of a page list as a map from page base to summary.
pub open spec fn pages_map(s: Seq<MappedPage>) -> Map<u64, PageInfo>
    decreases s.len(),
{
    if s.len() == 0 {
        Map::empty()
    } else {
        pages_map(s.drop_last()).insert(s.last().page, s.last().info())
    }
}

/// Every list entry is visible in the map, and every key of the map comes
/// from a list entry.
pub proof fn lemma_pages_map_index(s: Seq<MappedPage>)
    requires
        unique_pages(s),
    ensures
        forall|i: int|
            0 <= i < s.len() ==> pages_map(s).contains_key(#[trigger] s[i].page) && pages_map(s)[
                s[i].page
            ] == s[i].info(),
        forall|q: u64| #[trigger]
            pages_map(s).contains_key(q) ==> exists|i: int| 0 <= i < s.len() && s[i].page == q,
    decreases s.len(),
{
    if s.len() > 0 {
        assert(unique_pages(s.drop_last()));
        lemma_pages_map_index(s.drop_last());
        assert forall|i: int|
            0 <= i < s.len() implies pages_map(s).contains_key(#[trigger] s[i].page)
            && pages_map(s)[s[i].page] == s[i].info() by {
            if i < s.len() - 1 {
                assert(s.drop_last()[i] == s[i]);
                assert(s[i].page != s.last().page);
            }
        }
        assert forall|q: u64| #[trigger]
            pages_map(s).contains_key(q) implies exists|i: int|
            0 <= i < s.len() && s[i].page == q by {
            if q != s.last().page {
                assert(pages_map(s.drop_last()).contains_key(q));
                let i = choose|i: int| 0 <= i < s.drop_last().len() && s.drop_last()[i].page == q;
                assert(s[i].page == q);
            } else {
                assert(s[s.len() - 1].page == q);
            }
        }
    }
}

/// Updating list entry `i` without changing its base updates the map at that
/// base alone.
pub proof fn lemma_pages_map_update(s: Seq<MappedPage>, i: int, p: MappedPage)
    requires
        unique_pages(s),
        0 <= i < s.len(),
        p.page == s[i].page,
    ensures
        unique_pages(s.update(i, p)),
        pages_map(s.update(i, p)) == pages_map(s).insert(p.page, p.info()),
    decreases s.len(),
{
    let t = s.update(i, p);
    if i == s.len() - 1 {
        assert(t.drop_last() =~= s.drop_last());
        assert(pages_map(t) =~= pages_map(s).insert(p.page, p.info()));
    } else {
        assert(unique_pages(s.drop_last()));
        assert(s.drop_last().update(i, p) =~= t.drop_last());
        lemma_pages_map_update(s.drop_last(), i, p);
        lemma_pages_map_index(s.drop_last());
        assert(s.last().page != s[i].page);
        assert(pages_map(t) =~= pages_map(s).insert(p.page, p.info()));
    }
}

/// An address space: the physical frame of its PML4, the kernel-half entries
/// cloned from the active table, and the pages mapped in it.
pub struct AddressSpace {
    pub pml4_frame: u64,
    pub kernel_half: Vec<u64>,
    pub pages: Vec<MappedPage>,
}

impl AddressSpace {
    /// Well-formedness: page bases are unique, page-aligned, each holds
    /// exactly 4096 bytes, and the kernel half has its 256 entries.
    pub open spec fn wf(&self) -> bool {
        &&& unique_pages(self.pages@)
        &&& forall|i: int|
            0 <= i < self.pages@.len() ==> (#[trigger] self.pages@[i]).page % 4096 == 0
                && self.pages@[i].bytes@.len() == 4096
        &&& self.kernel_half@.len() == 256
    }

    /// The mappings of this address space.
    pub open spec fn mappings(&self) -> Map<u64, PageInfo> {
        pages_map(self.pages@)
    }

    /// Every mapping of a well-formed space sits on a page boundary and
    /// holds exactly 4096 bytes.
    pub proof fn lemma_wf_mappings(&self)
        requires
            self.wf(),
        ensures
            forall|q: u64| #[trigger]
                self.mappings().contains_key(q) ==> q % 4096 == 0 && self.mappings()[
                    q
                ].bytes.len() == 4096,
    {
        lemma_pages_map_index(self.pages@);
        assert forall|q: u64| #[trigger]
            self.mappings().contains_key(q) implies q % 4096 == 0 && self.mappings()[
            q
        ].bytes.len() == 4096 by {
            let i = choose|i: int| 0 <= i < self.pages@.len() && self.pages@[i].page == q;
            assert(self.mappings()[q] == self.pages@[i].info());
        }
    }

    /// An empty address space rooted at `pml4_frame`, sharing the given
    /// kernel-half entries.
    pub fn new(pml4_frame: u64, kernel_half: Vec<u64>) -> (s: AddressSpace)
        requires
            kernel_half@.len() == 256,
        ensures
            s.wf(),
            s.pml4_frame == pml4_frame,
            s.kernel_half == kernel_half,
            s.mappings() == Map::<u64, PageInfo>::empty(),
    {
        AddressSpace { pml4_frame, kernel_half, pages: Vec::new() }
    }

    /// Find the mapping of `page`, if any.
    pub fn lookup(&self, page: u64) -> (r: Option<usize>)
        requires
            self.wf(),
        ensures
            match r {
                Some(i) => i < self.pages@.len() && self.pages@[i as int].page == page
                    && self.mappings().contains_key(page) && self.mappings()[page]
                    == self.pages@[i as int].info(),
                None => !self.mappings().contains_key(page),
            },
    {
        proof {
            lemma_pages_map_index(self.pages@);
        }
        let mut i: usize = 0;
        while i < self.pages.len()
            invariant
                self.wf(),
                i <= self.pages@.len(),
                forall|j: int| 0 <= j < i ==> (#[trigger] self.pages@[j]).page != page,
            decreases self.pages@.len() - i,
        {
            if self.pages[i].page == page {
                proof {
                    lemma_pages_map_index(self.pages@);
                }
                return Some(i);
            }
            i += 1;
        }
        None
    }

    /// Map `page` to `frame` with the given flag bits. Fails when the page is
    /// already mapped, reporting the frame that backs it; the fresh mapping's
    /// contents are the sentinel fill, awaiting an explicit zero.
    pub fn map_to(&mut self, page: u64, frame: u64, flags: u64) -> (r: Result<(), MapError>)
        requires
            old(self).wf(),
            page % 4096 == 0,
        ensures
            final(self).wf(),
            final(self).pml4_frame == old(self).pml4_frame,
            final(self).kernel_half == old(self).kernel_half,
            match r {
                Ok(()) => {
                    &&& !old(self).mappings().contains_key(page)
                    &&& final(self).mappings() == old(self).mappings().insert(
                        page,
                        PageInfo {
                            frame,
                            flags,
                            bytes: Seq::new(4096nat, |j: int| FRESH_BYTE),
                        },
                    )
                },
                Err(MapError::AlreadyMapped(f)) => {
                    &&& old(self).mappings().contains_key(page)
                    &&& f == old(self).mappings()[page].frame
                    &&& final(self).mappings() == old(self).mappings()
                    &&& final(self).pages == old(self).pages
                },
            },
    {
        match self.lookup(page) {
            Some(i) => Err(MapError::AlreadyMapped(self.pages[i].frame)),
            None => {
                let mut bytes: Vec<u8> = Vec::new();
                let mut k: usize = 0;
                while k < 4096
                    invariant
                        k <= 4096,
                        bytes@ =~= Seq::new(k as nat, |j: int| FRESH_BYTE),
                    decreases 4096 - k,
                {
                    bytes.push(FRESH_BYTE);
                    assert(bytes@ =~= Seq::new((k + 1) as nat, |j: int| FRESH_BYTE));
                    k += 1;
                }
                proof {
                    lemma_pages_map_index(self.pages@);
                }
                let entry = MappedPage { page, frame, flags, bytes };
                self.pages.push(entry);
                proof {
                    assert(self.pages@.drop_last() =~= old(self).pages@);
                    assert(unique_pages(self.pages@));
                }
                Ok(())
            },
        }
    }

    /// Clear a mapped page to zeroes, as the kernel does through the HHDM
    /// right after allocating a frame.
    pub fn zero_page(&mut self, page: u64)
        requires
            old(self).wf(),
            old(self).mappings().contains_key(page),
        ensures
            final(self).wf(),
            final(self).pml4_frame == old(self).pml4_frame,
            final(self).kernel_half == old(self).kernel_half,
            final(self).mappings() == old(self).mappings().insert(
                page,
                PageInfo {
                    frame: old(self).mappings()[page].frame,
                    flags: old(self).mappings()[page].flags,
                    bytes: Seq::new(4096nat, |j: int| 0u8),
                },
            ),
    {
        proof {
            lemma_pages_map_index(self.pages@);
        }
        let idx = match self.lookup(page) {
            Some(i) => i,
            None => {
                proof {
                    assert(false);
                }
                0
            },
        };
        let mut zeroes: Vec<u8> = Vec::new();
        let mut k: usize = 0;
        while k < 4096
            invariant
                k <= 4096,
                zeroes@ =~= Seq::new(k as nat, |j: int| 0u8),
            decreases 4096 - k,
        {
            zeroes.push(0u8);
            assert(zeroes@ =~= Seq::new((k + 1) as nat, |j: int| 0u8));
            k += 1;
        }
        let ghost before = self.pages@;
        let entry = &mut self.pages[idx];
        entry.bytes = zeroes;
        proof {
            let p = self.pages@[idx as int];
            assert(self.pages@ =~= before.update(idx as int, p));
            lemma_pages_map_update(before, idx as int, p);
        }
    }

    /// Copy `count` bytes of `src` starting at `src_start` into a mapped page
    /// at byte offset `dest_off`, as the kernel does through the HHDM.
    pub fn write_page(
        &mut self,
        page: u64,
        dest_off: usize,
        src: &Vec<u8>,
        src_start: usize,
        count: usize,
    )
        requires
            old(self).wf(),
            old(self).mappings().contains_key(page),
            dest_off + count <= 4096,
            src_start + count <= src@.len(),
        ensures
            final(self).wf(),
            final(self).pml4_frame == old(self).pml4_frame,
            final(self).kernel_half == old(self).kernel_half,
            final(self).mappings() == old(self).mappings().insert(
                page,
                PageInfo {
                    frame: old(self).mappings()[page].frame,
                    flags: old(self).mappings()[page].flags,
                    bytes: old(self).mappings()[page].bytes.take(dest_off as int) + src@.subrange(
                        src_start as int,
                        src_start + count,
                    ) + old(self).mappings()[page].bytes.skip(dest_off + count),
                },
            ),
    {
        proof {
            lemma_pages_map_index(self.pages@);
        }
        let idx = match self.lookup(page) {
            Some(i) => i,
            None => {
                proof {
                    assert(false);
                }
                0
            },
        };
        let ghost before = self.pages@;
        let ghost old_bytes = self.pages@[idx as int].bytes@;
        let src_len = src.len();
        let entry = &mut self.pages[idx];
        let mut k: usize = 0;
        while k < count
            invariant
                k <= count,
                dest_off + count <= 4096,
                src_len == src@.len(),
                src_start + count <= src_len,
                (idx as int) < before.len(),
                entry.bytes@.len() == old_bytes.len(),
                old_bytes.len() == 4096,
                entry.page == before[idx as int].page,
                entry.frame == before[idx as int].frame,
                entry.flags == before[idx as int].flags,
                forall|m: int|
                    0 <= m < 4096 ==> #[trigger] entry.bytes@[m] == if dest_off <= m < dest_off
                        + k {
                        src@[src_start + m - dest_off]
                    } else {
                        old_bytes[m]
                    },
            decreases count - k,
        {
            entry.bytes[dest_off + k] = src[src_start + k];
            k += 1;
        }
        proof {
            let p = self.pages@[idx as int];
            assert(p.bytes@ =~= old_bytes.take(dest_off as int) + src@.subrange(
                src_start as int,
                src_start + count,
            ) + old_bytes.skip(dest_off + count));
            assert(self.pages@ =~= before.update(idx as int, p));
            lemma_pages_map_update(before, idx as int, p);
        }
    }
}


/// Hardware flag bits for a user segment: PRESENT and USER_ACCESSIBLE always,
/// WRITABLE exactly when the segment is writable, NO_EXECUTE exactly when it
/// is not executable.
pub open spec fn spec_segment_flags(f: crate::elf::SegmentFlags) -> u64 {
    ((if f.writable { 2u64 } else { 0u64 }) + (if f.executable {
        0u64
    } else {
        0x8000_0000_0000_0000u64
    }) + 5) as u64
}

/// The flag word of a user segment, computed through the x86_64 crate.
pub fn segment_page_flags(f: crate::elf::SegmentFlags) -> (bits: u64)
    ensures
        bits == spec_segment_flags(f),
{
    let bits = arch::page_flag_bits(true, f.writable, true, false, !f.executable);
    proof {
        arch::lemma_flag_bits_arith(
            1,
            if f.writable { 2 } else { 0 },
            4,
            0,
            if f.executable { 0 } else { 0x8000_0000_0000_0000 },
        );
    }
    bits
}

/// How each permission reads back out of the flag word.
pub proof fn lemma_segment_flag_bits(f: crate::elf::SegmentFlags)
    ensures
        spec_segment_flags(f) & 0x2u64 != 0 <==> f.writable,
        spec_segment_flags(f) & 0x8000_0000_0000_0000u64 == 0 <==> f.executable,
        spec_segment_flags(f) & 0x1u64 != 0,
        spec_segment_flags(f) & 0x4u64 != 0,
{
    let v = spec_segment_flags(f);
    if f.writable {
        if f.executable {
            assert(v == 7);
            assert(7u64 & 0x2u64 != 0 && 7u64 & 0x8000_0000_0000_0000u64 == 0 && 7u64 & 0x1u64
                != 0 && 7u64 & 0x4u64 != 0) by (bit_vector);
        } else {
            assert(v == 0x8000_0000_0000_0007);
            assert(0x8000_0000_0000_0007u64 & 0x2u64 != 0 && 0x8000_0000_0000_0007u64
                & 0x8000_0000_0000_0000u64 != 0 && 0x8000_0000_0000_0007u64 & 0x1u64 != 0
                && 0x8000_0000_0000_0007u64 & 0x4u64 != 0) by (bit_vector);
        }
    } else {
        if f.executable {
            assert(v == 5);
            assert(5u64 & 0x2u64 == 0 && 5u64 & 0x8000_0000_0000_0000u64 == 0 && 5u64 & 0x1u64
                != 0 && 5u64 & 0x4u64 != 0) by (bit_vector);
        } else {
            assert(v == 0x8000_0000_0000_0005);
            assert(0x8000_0000_0000_0005u64 & 0x2u64 == 0 && 0x8000_0000_0000_0005u64
                & 0x8000_0000_0000_0000u64 != 0 && 0x8000_0000_0000_0005u64 & 0x1u64 != 0
                && 0x8000_0000_0000_0005u64 & 0x4u64 != 0) by (bit_vector);
        }
    }
}

/// An address within a page addresses the byte at its offset from the base.
pub proof fn lemma_addr_in_page(p: u64, a: u64)
    requires
        p % 4096 == 0,
        p <= a < p + 4096,
    ensures
        a % 4096 == a - p,
        page_of(a) == p,
{
    assert(a % 4096 == a - p) by (nonlinear_arith)
        requires
            p % 4096 == 0,
            p <= a < p + 4096,
    ;
}

/// Number of pages spanned by `[va, va + size)`.
pub open spec fn span_pages(va: u64, size: u64) -> int {
    (page_of((va + size - 1) as u64) - page_of(va)) / 4096 + 1
}

/// Map one loadable segment into an address space, as the kernel does when
/// building a user process image.
///
/// Every page of `[va, va + size)` is backed afterwards. A page that was
/// already mapped keeps its frame and flags (overlapping segments share
/// pages); a fresh page gets the next frame from the allocator and the
/// segment's flag word. Every byte of `[va, va + size)` reads back as the
/// segment's data; bytes of fresh pages outside that window read zero, and
/// bytes of reused pages outside it keep their old values. One frame is
/// drawn from the allocator per page of the range, mapped or not.
#[verifier::rlimit(100)]
#[verifier::loop_isolation(false)]
pub fn map_segment<A: FrameSource>(
    space: &mut AddressSpace,
    allocator: &mut A,
    segment: &LoadableSegment,
)
    requires
        old(space).wf(),
        old(allocator).src_wf(),
        segment.size > 0,
        segment.data@.len() == segment.size,
        segment.virtual_address + segment.size <= 0x8000_0000_0000,
        old(allocator).available().len() >= span_pages(segment.virtual_address, segment.size),
    ensures
        final(space).wf(),
        final(space).pml4_frame == old(space).pml4_frame,
        final(space).kernel_half == old(space).kernel_half,
        final(allocator).src_wf(),
        final(allocator).available() == old(allocator).available().skip(
            span_pages(segment.virtual_address, segment.size),
        ),
        ({
            let va = segment.virtual_address;
            let sz = segment.size;
            let start_page = page_of(va);
            let end_page = page_of((va + sz - 1) as u64);
            let m0 = old(space).mappings();
            let m = final(space).mappings();
            &&& forall|q: u64|
                #![trigger m.contains_key(q)]
                q % 4096 == 0 && start_page <= q <= end_page ==> m.contains_key(q) && (if
                    m0.contains_key(q) {
                    m[q].frame == m0[q].frame && m[q].flags == m0[q].flags
                } else {
                    m[q].frame == old(allocator).available()[(q - start_page) / 4096]
                        && m[q].flags == spec_segment_flags(segment.flags)
                })
            &&& forall|a: u64|
                #![trigger byte_at(m, a)]
                start_page <= a <= (va + sz - 1) as u64 ==> byte_at(m, a) == (if va <= a < va
                    + sz {
                    segment.data@[a - va]
                } else if m0.contains_key(page_of(a)) {
                    byte_at(m0, a)
                } else {
                    0u8
                })
            &&& forall|q: u64|
                #![trigger m.contains_key(q)]
                !(q % 4096 == 0 && start_page <= q <= end_page) ==> (m.contains_key(q)
                    <==> m0.contains_key(q)) && (m0.contains_key(q) ==> m[q] == m0[q])
        }),
{
    let va = segment.virtual_address;
    let sz = segment.size;
    proof {
        arch::lemma_page_align_arith(va);
        arch::lemma_page_align_arith((va + sz - 1) as u64);
    }
    let start_page = arch::page_base(va);
    let end_page = arch::page_base(va + sz - 1);
    let flags = segment_page_flags(segment.flags);
    let page_count = (end_page - start_page) / 4096 + 1;
    let ghost avail0 = allocator.available();
    let ghost m0 = old(space).mappings();
    proof {
        assert(span_pages(va, sz) == page_count);
        lemma_pages_map_index(space.pages@);
    }
    let data_len: usize = segment.data.len();
    let mut page = start_page;
    let mut done: u64 = 0;
    while done < page_count
        invariant
            data_len == segment.data@.len(),
            space.wf(),
            allocator.src_wf(),
            space.pml4_frame == old(space).pml4_frame,
            space.kernel_half == old(space).kernel_half,
            m0 == old(space).mappings(),
            va == segment.virtual_address,
            sz == segment.size,
            sz > 0,
            segment.data@.len() == sz,
            va + sz <= 0x8000_0000_0000,
            start_page == page_of(va),
            end_page == page_of((va + sz - 1) as u64),
            start_page % 4096 == 0,
            end_page % 4096 == 0,
            start_page <= va,
            va + sz <= end_page + 4096,
            end_page <= va + sz - 1,
            flags == spec_segment_flags(segment.flags),
            page_count == span_pages(va, sz),
            0 <= done <= page_count,
            page == start_page + 4096 * done,
            avail0 == old(allocator).available(),
            avail0.len() >= page_count,
            allocator.available() == avail0.skip(done as int),
            forall|q: u64|
                #![trigger space.mappings().contains_key(q)]
                q % 4096 == 0 && start_page <= q < page ==> space.mappings().contains_key(q) && (
                if m0.contains_key(q) {
                    space.mappings()[q].frame == m0[q].frame && space.mappings()[q].flags
                        == m0[q].flags
                } else {
                    space.mappings()[q].frame == avail0[(q - start_page) / 4096]
                        && space.mappings()[q].flags == spec_segment_flags(segment.flags)
                }),
            forall|a: u64|
                #![trigger byte_at(space.mappings(), a)]
                start_page <= a < page && a <= (va + sz - 1) as u64 ==> byte_at(
                    space.mappings(),
                    a,
                ) == (if va <= a < va + sz {
                    segment.data@[a - va]
                } else if m0.contains_key(page_of(a)) {
                    byte_at(m0, a)
                } else {
                    0u8
                }),
            forall|q: u64|
                #![trigger space.mappings().contains_key(q)]
                !(q % 4096 == 0 && start_page <= q < page) ==> (space.mappings().contains_key(q)
                    <==> m0.contains_key(q)) && (m0.contains_key(q) ==> space.mappings()[q]
                    == m0[q]),
        decreases page_count - done,
    {
        proof {
            assert(page % 4096 == 0) by (nonlinear_arith)
                requires
                    page == start_page + 4096 * done,
                    start_page % 4096 == 0,
            ;
            assert(page <= end_page) by (nonlinear_arith)
                requires
                    page == start_page + 4096 * done,
                    done < page_count,
                    page_count == (end_page - start_page) / 4096 + 1,
                    start_page % 4096 == 0,
                    end_page % 4096 == 0,
                    start_page <= end_page,
            ;
            assert(avail0.skip(done as int).len() > 0);
        }
        let frame = allocator.allocate_frame().unwrap();
        proof {
            assert(frame == avail0.skip(done as int)[0]);
            assert(avail0.skip(done as int).skip(1) =~= avail0.skip(done as int + 1));
        }
        let ghost m_before = space.mappings();
        let ghost was_mapped = m_before.contains_key(page);
        proof {
            space.lemma_wf_mappings();
        }
        match space.map_to(page, frame, flags) {
            Ok(()) => {
                space.zero_page(page);
            },
            Err(MapError::AlreadyMapped(_existing)) => {},
        }
        let ghost m_mid = space.mappings();
        proof {
            space.lemma_wf_mappings();
        }
        // the page now exists; splice in the segment bytes that fall on it
        let data_start: u64 = if page < va {
            0
        } else {
            page - va
        };
        let data_end: u64 = if sz < page + 4096 - va {
            sz
        } else {
            page + 4096 - va
        };
        assert(data_start < data_end);
        let dest_offset: u64 = if page < va {
            va - page
        } else {
            0
        };
        let count = data_end - data_start;
        assert(dest_offset + count <= 4096);
        space.write_page(
            page,
            dest_offset as usize,
            &segment.data,
            data_start as usize,
            count as usize,
        );
        proof {
            let m = space.mappings();
            // bytes of this page now read as required
            assert forall|a: u64|
                page <= a < page + 4096 && a <= (va + sz - 1) as u64 implies #[trigger] byte_at(
                m,
                a,
            ) == (if va <= a < va + sz {
                segment.data@[a - va]
            } else if m0.contains_key(page_of(a)) {
                byte_at(m0, a)
            } else {
                0u8
            }) by {
                lemma_addr_in_page(page, a);
                let off = (a - page) as int;
                assert(m == m_mid.insert(
                    page,
                    PageInfo {
                        frame: m_mid[page].frame,
                        flags: m_mid[page].flags,
                        bytes: m_mid[page].bytes.take(dest_offset as int) + segment.data@.subrange(
                            data_start as int,
                            data_start + count,
                        ) + m_mid[page].bytes.skip(dest_offset + count),
                    },
                ));
                assert(m_mid[page].bytes.len() == 4096);
                if va <= a && a < va + sz {
                    assert(dest_offset <= off < dest_offset + count);
                    assert(m[page].bytes[off] == segment.data@.subrange(
                        data_start as int,
                        data_start + count,
                    )[off - dest_offset]);
                    assert(data_start + (off - dest_offset) == a - va);
                } else {
                    assert(off < dest_offset || off >= dest_offset + count);
                    if off < dest_offset {
                        assert(m[page].bytes[off] == m_mid[page].bytes[off]);
                    } else {
                        assert(m[page].bytes[off] == m_mid[page].bytes.skip(
                            dest_offset + count,
                        )[off - dest_offset - count]);
                        assert(m[page].bytes[off] == m_mid[page].bytes[off]);
                    }
                    if was_mapped {
                        assert(m_mid == m_before);
                        assert(m_before[page] == m0[page]);
                        assert(byte_at(m0, a) == m0[page].bytes[off]);
                    } else {
                        assert(m_mid[page].bytes[off] == 0);
                    }
                }
            }
            // untouched keys keep their old mappings
            assert forall|q: u64|
                #![trigger space.mappings().contains_key(q)]
                !(q % 4096 == 0 && start_page <= q < page + 4096) implies (
            space.mappings().contains_key(q) <==> m0.contains_key(q)) && (m0.contains_key(q)
                ==> space.mappings()[q] == m0[q]) by {
                assert(q != page);
                if m_before.contains_key(q) {
                    assert(m_before[q] == m0[q]);
                    assert(m[q] == m_before[q]);
                }
            }
            assert((page - start_page) / 4096 == done) by (nonlinear_arith)
                requires
                    page == start_page + 4096 * done,
                    done >= 0,
            ;
            // every page processed so far, this one included, has its final
            // frame and flags
            assert forall|q: u64|
                #![trigger m.contains_key(q)]
                q % 4096 == 0 && start_page <= q < page + 4096 implies m.contains_key(q) && (
            if m0.contains_key(q) {
                m[q].frame == m0[q].frame && m[q].flags == m0[q].flags
            } else {
                m[q].frame == avail0[(q - start_page) / 4096] && m[q].flags
                    == spec_segment_flags(segment.flags)
            }) by {
                if q == page {
                    if was_mapped {
                        assert(m_before[page] == m0[page]);
                        assert(m_mid == m_before);
                        assert(m[page].frame == m_mid[page].frame);
                        assert(m[page].flags == m_mid[page].flags);
                    } else {
                        assert(m[page].frame == frame);
                        assert(m[page].flags == flags);
                    }
                } else {
                    assert(q < page) by (nonlinear_arith)
                        requires
                            q % 4096 == 0,
                            page % 4096 == 0,
                            q < page + 4096,
                            q != page,
                    ;
                    assert(m.contains_key(q) == m_before.contains_key(q));
                    if m_before.contains_key(q) {
                        assert(m[q] == m_before[q]);
                    }
                }
            }
            // and its final contents
            assert forall|a: u64|
                #![trigger byte_at(m, a)]
                start_page <= a < page + 4096 && a <= (va + sz - 1) as u64 implies byte_at(m, a)
                == (if va <= a < va + sz {
                segment.data@[a - va]
            } else if m0.contains_key(page_of(a)) {
                byte_at(m0, a)
            } else {
                0u8
            }) by {
                if a < page {
                    assert(page_of(a) <= a);
                    assert(page_of(a) != page);
                    assert(byte_at(m_before, a) == (if va <= a < va + sz {
                        segment.data@[a - va]
                    } else if m0.contains_key(page_of(a)) {
                        byte_at(m0, a)
                    } else {
                        0u8
                    }));
                    assert(m_before.contains_key(page_of(a)));
                    assert(m[page_of(a)] == m_before[page_of(a)]);
                }
            }
        }
        page = page + 4096;
        done = done + 1;
        proof {
            assert(page == start_page + 4096 * done);
        }
    }
    proof {
        assert(page > end_page) by (nonlinear_arith)
            requires
                page == start_page + 4096 * done,
                done == page_count,
                page_count == (end_page - start_page) / 4096 + 1,
                start_page % 4096 == 0,
                end_page % 4096 == 0,
                start_page <= end_page,
        ;
        assert(((va + sz - 1) as u64) < page);
    }
}

/// Initial stack pointer of a fresh user process: the top of the lower
/// canonical half.
pub const USER_STACK_TOP: u64 = 0x7fff_ffff_f000;

/// The user stack is 16 KiB.
pub const USER_STACK_SIZE: u64 = 16384;

/// PRESENT | WRITABLE | USER_ACCESSIBLE, the user-stack page flags.
pub const STACK_FLAGS: u64 = 7;

/// PRESENT | WRITABLE | NO_CACHE, the flags of an MMIO page.
pub const MMIO_FLAGS: u64 = 0x13;

/// Draw one frame and map `page` to it with `flags`, zero-filled; a page
/// that is already mapped is left exactly as it was, and the drawn frame is
/// discarded, as the kernel's speculative allocation does.
fn map_zeroed_page<A: FrameSource>(space: &mut AddressSpace, allocator: &mut A, page: u64, flags: u64)
    requires
        old(space).wf(),
        old(allocator).src_wf(),
        old(allocator).available().len() >= 1,
        page % 4096 == 0,
    ensures
        final(space).wf(),
        final(allocator).src_wf(),
        final(allocator).available() == old(allocator).available().skip(1),
        final(space).pml4_frame == old(space).pml4_frame,
        final(space).kernel_half == old(space).kernel_half,
        final(space).mappings() == (if old(space).mappings().contains_key(page) {
            old(space).mappings()
        } else {
            old(space).mappings().insert(
                page,
                PageInfo {
                    frame: old(allocator).available()[0],
                    flags,
                    bytes: Seq::new(4096nat, |j: int| 0u8),
                },
            )
        }),
{
    let frame = allocator.allocate_frame().unwrap();
    match space.map_to(page, frame, flags) {
        Ok(()) => {
            space.zero_page(page);
        },
        Err(MapError::AlreadyMapped(_existing)) => {},
    }
}

/// Map the 16 KiB user stack just below the top of the lower half, zeroing
/// its fresh pages, and hand back the initial stack pointer. Pages already
/// mapped there are kept; one frame is drawn per page either way.
pub fn allocate_user_stack<A: FrameSource>(space: &mut AddressSpace, allocator: &mut A) -> (top: u64)
    requires
        old(space).wf(),
        old(allocator).src_wf(),
        old(allocator).available().len() >= 4,
    ensures
        final(space).wf(),
        final(allocator).src_wf(),
        final(allocator).available() == old(allocator).available().skip(4),
        final(space).pml4_frame == old(space).pml4_frame,
        final(space).kernel_half == old(space).kernel_half,
        top == USER_STACK_TOP,
        forall|q: u64|
            #![trigger final(space).mappings().contains_key(q)]
            stack_page(q) ==> final(space).mappings().contains_key(q) && (if old(space).mappings().contains_key(q) {
                final(space).mappings()[q] == old(space).mappings()[q]
            } else {
                final(space).mappings()[q].flags == STACK_FLAGS && final(space).mappings()[
                    q
                ].bytes == Seq::new(4096nat, |j: int| 0u8)
            }),
        forall|q: u64|
            #![trigger final(space).mappings().contains_key(q)]
            !stack_page(q) ==> (final(space).mappings().contains_key(q) <==> old(space).mappings().contains_key(q)) && (old(space).mappings().contains_key(q) ==> final(space).mappings()[q] == old(space).mappings()[q]),
{
    map_zeroed_page(space, allocator, 0x7fff_ffff_b000u64, STACK_FLAGS);
    map_zeroed_page(space, allocator, 0x7fff_ffff_c000u64, STACK_FLAGS);
    map_zeroed_page(space, allocator, 0x7fff_ffff_d000u64, STACK_FLAGS);
    map_zeroed_page(space, allocator, 0x7fff_ffff_e000u64, STACK_FLAGS);
    proof {
        assert(final(allocator).available() =~= old(allocator).available().skip(4));
    }
    USER_STACK_TOP
}

/// One of the four pages backing the user stack.
pub open spec fn stack_page(q: u64) -> bool {
    q == 0x7fff_ffff_b000 || q == 0x7fff_ffff_c000 || q == 0x7fff_ffff_d000 || q
        == 0x7fff_ffff_e000
}

/// Map one MMIO page: the page containing `virt_addr` points at the frame
/// containing `phys_addr`, writable and cache-disabled. An existing mapping
/// is silently kept, as the kernel ignores the error there.
pub fn map_mmio(space: &mut AddressSpace, phys_addr: u64, virt_addr: u64)
    requires
        old(space).wf(),
        arch::canonical(virt_addr),
        phys_addr < 0x10_0000_0000_0000,
    ensures
        final(space).wf(),
        final(space).pml4_frame == old(space).pml4_frame,
        final(space).kernel_half == old(space).kernel_half,
        final(space).mappings() == (if old(space).mappings().contains_key(page_of(virt_addr)) {
            old(space).mappings()
        } else {
            old(space).mappings().insert(
                page_of(virt_addr),
                PageInfo {
                    frame: page_of(phys_addr),
                    flags: MMIO_FLAGS,
                    bytes: Seq::new(4096nat, |j: int| FRESH_BYTE),
                },
            )
        }),
{
    proof {
        arch::lemma_page_align_arith(virt_addr);
        arch::lemma_page_align_arith(phys_addr);
    }
    let page = arch::page_base(virt_addr);
    let frame = arch::frame_base(phys_addr);
    let flags = arch::page_flag_bits(true, true, false, true, false);
    proof {
        arch::lemma_flag_bits_arith(1, 2, 0, 0x10, 0);
    }
    match space.map_to(page, frame, flags) {
        Ok(()) => {},
        Err(MapError::AlreadyMapped(_existing)) => {},
    }
}

/// Build a fresh user address space: allocate a PML4 frame, zero its lower
/// half, and clone the kernel-half entries of the active table so kernel
/// code and data stay addressable under the new CR3.
pub fn create_user_page_table<A: FrameSource>(
    allocator: &mut A,
    kernel_half: &Vec<u64>,
) -> (r: Option<AddressSpace>)
    requires
        old(allocator).src_wf(),
        kernel_half@.len() == 256,
    ensures
        final(allocator).src_wf(),
        match r {
            Some(s) => {
                &&& old(allocator).available().len() > 0
                &&& s.wf()
                &&& s.pml4_frame == old(allocator).available()[0]
                &&& s.kernel_half@ == kernel_half@
                &&& s.mappings() == Map::<u64, PageInfo>::empty()
                &&& final(allocator).available() == old(allocator).available().skip(1)
            },
            None => {
                &&& old(allocator).available().len() == 0
                &&& final(allocator).available() == old(allocator).available()
            },
        },
{
    match allocator.allocate_frame() {
        None => None,
        Some(pml4_frame) => {
            let mut half: Vec<u64> = Vec::new();
            let mut i: usize = 0;
            while i < 256
                invariant
                    kernel_half@.len() == 256,
                    i <= 256,
                    half@ == kernel_half@.take(i as int),
                decreases 256 - i,
            {
                half.push(kernel_half[i]);
                assert(half@ =~= kernel_half@.take(i + 1));
                i += 1;
            }
            assert(half@ =~= kernel_half@);
            Some(AddressSpace::new(pml4_frame, half))
        },
    }
}

} // verus!
