//! Kernel heap bring-up: a one-shot mapping of a fixed virtual range, to be
//! handed to the linked-list allocator, and the boot frame allocator that
//! serves it from a pre-populated frame table.

use vstd::prelude::*;

use crate::memory::FrameSource;
use crate::paging::AddressSpace;

verus! {

/// Base of the kernel heap's virtual range.
pub const HEAP_START: u64 = 0x4444_4444_0000;

/// One mebibyte of kernel heap.
pub const HEAP_SIZE: u64 = 1024 * 1024;

/// Capacity of the boot frame table.
pub const MAX_BOOT_FRAMES: usize = 65536;

/// The frames still available in a frame table, scanned from `from` up to
/// `limit`, occupied slots only.
pub open spec fn somes(s: Seq<Option<u64>>, from: int, limit: int) -> Seq<u64>
    decreases limit - from,
{
    if from >= limit || from < 0 {
        Seq::empty()
    } else {
        match s[from] {
            Some(f) => seq![f] + somes(s, from + 1, limit),
            None => somes(s, from + 1, limit),
        }
    }
}

/// Changing a slot below `from` leaves the scan unchanged.
pub proof fn lemma_somes_update_below(s: Seq<Option<u64>>, i: int, v: Option<u64>, from: int, limit: int)
    requires
        0 <= i < from,
        limit <= s.len(),
    ensures
        somes(s.update(i, v), from, limit) == somes(s, from, limit),
    decreases limit - from,
{
    if from < limit {
        assert(s.update(i, v)[from] == s[from]);
        lemma_somes_update_below(s, i, v, from + 1, limit);
    }
}

/// Boot-time frame allocator over a fixed table of optional frames with a
/// monotone cursor; a frame is taken out of its slot when handed out, so it
/// can never be handed out again.
pub struct StaticBootFrameAllocator {
    pub frames: Vec<Option<u64>>,
    pub next: usize,
    pub limit: usize,
}

impl StaticBootFrameAllocator {
    /// Table invariant: cursor and limit in bounds, every occupied slot
    /// page-aligned, no frame in two slots.
    pub open spec fn wf(&self) -> bool {
        &&& self.next <= self.limit <= self.frames@.len()
        &&& forall|i: int|
            0 <= i < self.frames@.len() && (#[trigger] self.frames@[i]).is_some()
                ==> self.frames@[i].unwrap() % 4096 == 0
        &&& forall|i: int, j: int|
            #![trigger self.frames@[i], self.frames@[j]]
            0 <= i < j < self.frames@.len() && self.frames@[i].is_some()
                && self.frames@[j].is_some() ==> self.frames@[i].unwrap()
                != self.frames@[j].unwrap()
    }

    /// Take over a pre-populated frame table, serving its first
    /// `frame_count` slots.
    pub fn new(frames: Vec<Option<u64>>, frame_count: usize) -> (a: StaticBootFrameAllocator)
        requires
            frame_count <= frames@.len(),
            forall|i: int|
                0 <= i < frames@.len() && (#[trigger] frames@[i]).is_some() ==> frames@[
                    i
                ].unwrap() % 4096 == 0,
            forall|i: int, j: int|
                #![trigger frames@[i], frames@[j]]
                0 <= i < j < frames@.len() && frames@[i].is_some() && frames@[j].is_some()
                    ==> frames@[i].unwrap() != frames@[j].unwrap(),
        ensures
            a.wf(),
            a.next == 0,
            a.limit == frame_count,
            a.frames == frames,
    {
        StaticBootFrameAllocator { frames, next: 0, limit: frame_count }
    }
}

impl FrameSource for StaticBootFrameAllocator {
    open spec fn available(&self) -> Seq<u64> {
        somes(self.frames@, self.next as int, self.limit as int)
    }

    open spec fn src_wf(&self) -> bool {
        self.wf()
    }

    fn allocate_frame(&mut self) -> (r: Option<u64>)
    {
        while self.next < self.limit
            invariant
                self.wf(),
                self.frames == old(self).frames,
                self.limit == old(self).limit,
                old(self).next <= self.next,
                somes(self.frames@, self.next as int, self.limit as int) == old(self).available(),
            decreases self.limit - self.next,
        {
            let slot = self.frames[self.next];
            match slot {
                Some(frame) => {
                    let idx = self.next;
                    let ghost before = self.frames@;
                    let entry = &mut self.frames[idx];
                    *entry = None;
                    self.next = idx + 1;
                    proof {
                        assert(self.frames@ =~= before.update(idx as int, None));
                        lemma_somes_update_below(
                            before,
                            idx as int,
                            None,
                            idx + 1,
                            self.limit as int,
                        );
                        assert(somes(before, idx as int, self.limit as int) == seq![frame]
                            + somes(before, idx + 1, self.limit as int));
                        assert(self.available() =~= old(self).available().skip(1));
                    }
                    return Some(frame);
                },
                None => {
                    self.next = self.next + 1;
                },
            }
        }
        None
    }
}

/// Map the kernel heap: 256 pages starting at `HEAP_START`, each backed by a
/// freshly allocated frame, writable and supervisor-only. The range must be
/// unmapped; frames are drawn in order, so page `k` gets the allocator's
/// `k`-th available frame.
pub fn init_heap<A: FrameSource>(space: &mut AddressSpace, frame_allocator: &mut A)
    requires
        old(space).wf(),
        old(frame_allocator).src_wf(),
        old(frame_allocator).available().len() >= 256,
        forall|q: u64|
            HEAP_START <= q < HEAP_START + HEAP_SIZE ==> !old(space).mappings().contains_key(q),
    ensures
        final(space).wf(),
        final(frame_allocator).src_wf(),
        final(frame_allocator).available() == old(frame_allocator).available().skip(256),
        final(space).pml4_frame == old(space).pml4_frame,
        final(space).kernel_half == old(space).kernel_half,
        forall|q: u64|
            #![trigger final(space).mappings().contains_key(q)]
            q % 4096 == 0 && HEAP_START <= q < HEAP_START + HEAP_SIZE ==> final(space).mappings().contains_key(q) && final(space).mappings()[q].flags == 3 && final(space).mappings()[q].frame == old(frame_allocator).available()[(q - HEAP_START) / 4096],
        forall|q: u64|
            #![trigger final(space).mappings().contains_key(q)]
            !(q % 4096 == 0 && HEAP_START <= q < HEAP_START + HEAP_SIZE) ==> (final(space).mappings().contains_key(q) <==> old(space).mappings().contains_key(q)) && (old(space).mappings().contains_key(q) ==> final(space).mappings()[q] == old(space).mappings()[
                q
            ]),
{
    let flags = crate::arch::page_flag_bits(true, true, false, false, false);
    proof {
        crate::arch::lemma_flag_bits_arith(1, 2, 0, 0, 0);
    }
    let ghost avail0 = frame_allocator.available();
    let ghost m0 = old(space).mappings();
    let mut done: u64 = 0;
    let mut page: u64 = HEAP_START;
    while done < 256
        invariant
            space.wf(),
            frame_allocator.src_wf(),
            space.pml4_frame == old(space).pml4_frame,
            space.kernel_half == old(space).kernel_half,
            m0 == old(space).mappings(),
            avail0 == old(frame_allocator).available(),
            avail0.len() >= 256,
            flags == 3,
            forall|q: u64| HEAP_START <= q < HEAP_START + HEAP_SIZE ==> !m0.contains_key(q),
            0 <= done <= 256,
            page == HEAP_START + 4096 * done,
            frame_allocator.available() == avail0.skip(done as int),
            forall|q: u64|
                #![trigger space.mappings().contains_key(q)]
                q % 4096 == 0 && HEAP_START <= q < page ==> space.mappings().contains_key(q)
                    && space.mappings()[q].flags == 3 && space.mappings()[q].frame == avail0[(q
                    - HEAP_START) / 4096],
            forall|q: u64|
                #![trigger space.mappings().contains_key(q)]
                !(q % 4096 == 0 && HEAP_START <= q < page) ==> (space.mappings().contains_key(q)
                    <==> m0.contains_key(q)) && (m0.contains_key(q) ==> space.mappings()[q]
                    == m0[q]),
        decreases 256 - done,
    {
        proof {
            assert(page % 4096 == 0) by (nonlinear_arith)
                requires
                    page == HEAP_START + 4096 * done,
                    0 <= done,
            ;
            assert(page < HEAP_START + HEAP_SIZE) by (nonlinear_arith)
                requires
                    page == HEAP_START + 4096 * done,
                    0 <= done < 256,
            ;
            assert(avail0.skip(done as int).len() > 0);
        }
        let frame = frame_allocator.allocate_frame().unwrap();
        proof {
            assert(avail0.skip(done as int).skip(1) =~= avail0.skip(done as int + 1));
            assert(frame == avail0[done as int]);
        }
        let ghost m_before = space.mappings();
        let r = space.map_to(page, frame, flags);
        proof {
            assert(r.is_ok());
            assert((page - HEAP_START) / 4096 == done) by (nonlinear_arith)
                requires
                    page == HEAP_START + 4096 * done,
                    0 <= done,
            ;
        }
        let ghost this_page = page;
        page = page + 4096;
        done = done + 1;
        proof {
            assert forall|q: u64|
                #![trigger space.mappings().contains_key(q)]
                !(q % 4096 == 0 && HEAP_START <= q < page) implies (
            space.mappings().contains_key(q) <==> m0.contains_key(q)) && (m0.contains_key(q)
                ==> space.mappings()[q] == m0[q]) by {
                assert(q != this_page);
                if m_before.contains_key(q) {
                    assert(space.mappings()[q] == m_before[q]);
                }
            }
            assert forall|q: u64|
                #![trigger space.mappings().contains_key(q)]
                q % 4096 == 0 && HEAP_START <= q < page implies space.mappings().contains_key(q)
                && space.mappings()[q].flags == 3 && space.mappings()[q].frame == avail0[(q
                - HEAP_START) / 4096] by {
                if q != this_page {
                    assert(q < this_page) by (nonlinear_arith)
                        requires
                            q % 4096 == 0,
                            this_page % 4096 == 0,
                            q < this_page + 4096,
                            q != this_page,
                    ;
                    assert(space.mappings().contains_key(q) == m_before.contains_key(q));
                    if m_before.contains_key(q) {
                        assert(space.mappings()[q] == m_before[q]);
                    }
                }
            }
        }
    }
    proof {
        assert(frame_allocator.available() =~= avail0.skip(256));
    }
}

} // verus!
