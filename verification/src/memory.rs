//! Physical-frame management: memory-map regions delivered by the boot
//! environment and the boot-time frame allocators that carve 4 KiB frames
//! out of the usable regions.
//!
//! The central invariant is that no frame is ever handed out twice: the
//! frame list is strictly increasing and a monotone cursor walks it.

use vstd::prelude::*;

verus! {

/// Classification of a boot memory-map region.
#[derive(Clone, Copy, PartialEq, Eq, Structural, Debug)]
pub enum RegionKind {
    Usable,
    Reserved,
    Reclaimable,
    Acpi,
    Defective,
}

/// One region of the boot memory map.
#[derive(Clone, Copy, PartialEq, Eq, Structural, Debug)]
pub struct MemRegion {
    pub base: u64,
    pub length: u64,
    pub kind: RegionKind,
}

/// Physical addresses must fit in 52 bits on x86_64.
pub const PHYS_LIMIT: u64 = 0x10_0000_0000_0000;

/// A usable region the boot protocol guarantees: page-aligned, non-empty,
/// and within the physical address space.
pub open spec fn usable_region_ok(r: MemRegion) -> bool {
    r.kind == RegionKind::Usable ==> {
        &&& r.base % 4096 == 0
        &&& r.length % 4096 == 0
        &&& r.length > 0
        &&& r.base + r.length <= PHYS_LIMIT
    }
}

/// Usable regions arrive sorted and disjoint.
pub open spec fn regions_wf(rs: Seq<MemRegion>) -> bool {
    &&& forall|i: int| 0 <= i < rs.len() ==> usable_region_ok(#[trigger] rs[i])
    &&& forall|i: int, j: int|
        #![trigger rs[i], rs[j]]
        0 <= i < j < rs.len() && rs[i].kind == RegionKind::Usable && rs[j].kind
            == RegionKind::Usable ==> rs[i].base + rs[i].length <= rs[j].base
}

/// The 4 KiB frames of one aligned region, in ascending order.
pub open spec fn region_frames(r: MemRegion) -> Seq<u64> {
    Seq::new((r.length / 4096) as nat, |k: int| (r.base + 4096 * k) as u64)
}

/// All frames of the usable regions among the first `n`, in map order.
pub open spec fn usable_frames(rs: Seq<MemRegion>, n: int) -> Seq<u64>
    decreases n,
{
    if n <= 0 {
        Seq::empty()
    } else if rs[n - 1].kind == RegionKind::Usable {
        usable_frames(rs, n - 1) + region_frames(rs[n - 1])
    } else {
        usable_frames(rs, n - 1)
    }
}

/// Strictly ascending sequence.
pub open spec fn strictly_increasing(s: Seq<u64>) -> bool {
    forall|i: int, j: int| #![trigger s[i], s[j]] 0 <= i < j < s.len() ==> s[i] < s[j]
}

/// A source of 4 KiB physical frames. `available()` is the exact sequence of
/// frames still to be handed out, so a caller knows precisely which frame
/// each allocation returns.
pub trait FrameSource: Sized {
    /// Frames not yet handed out, next one first.
    spec fn available(&self) -> Seq<u64>;

    /// Internal invariant of the source.
    spec fn src_wf(&self) -> bool;

    /// Hand out the next frame, or nothing when the source is exhausted.
    fn allocate_frame(&mut self) -> (r: Option<u64>)
        requires
            old(self).src_wf(),
        ensures
            final(self).src_wf(),
            match r {
                Some(f) => {
                    &&& old(self).available().len() > 0
                    &&& f == old(self).available()[0]
                    &&& final(self).available() == old(self).available().skip(1)
                    &&& f % 4096 == 0
                },
                None => {
                    &&& old(self).available().len() == 0
                    &&& final(self).available() == old(self).available()
                },
            },
    ;
}

/// Boot-time frame allocator over a pre-enumerated list of usable frames,
/// with a monotone cursor. Allocation removes and returns; there is no free.
pub struct BootFrameAllocator {
    pub frames: Vec<u64>,
    pub next: usize,
}

impl BootFrameAllocator {
    /// The allocator's invariant: a strictly increasing frame list of
    /// page-aligned frames, and a cursor within bounds.
    pub open spec fn wf(&self) -> bool {
        &&& strictly_increasing(self.frames@)
        &&& forall|i: int| 0 <= i < self.frames@.len() ==> #[trigger] self.frames@[i] % 4096 == 0
        &&& self.next <= self.frames@.len()
    }

    /// Enumerate every frame of every usable region of the boot memory map.
    pub fn new(memory_map: &Vec<MemRegion>) -> (a: BootFrameAllocator)
        requires
            regions_wf(memory_map@),
        ensures
            a.wf(),
            a.next == 0,
            a.frames@ == usable_frames(memory_map@, memory_map@.len() as int),
    {
        let mut frames: Vec<u64> = Vec::new();
        let mut i: usize = 0;
        while i < memory_map.len()
            invariant
                regions_wf(memory_map@),
                i <= memory_map@.len(),
                frames@ == usable_frames(memory_map@, i as int),
                strictly_increasing(frames@),
                forall|k: int| 0 <= k < frames@.len() ==> #[trigger] frames@[k] % 4096 == 0,
                forall|k: int, j: int|
                    #![trigger frames@[k], memory_map@[j]]
                    0 <= k < frames@.len() && i <= j < memory_map@.len() && memory_map@[j].kind
                        == RegionKind::Usable ==> frames@[k] < memory_map@[j].base,
            decreases memory_map@.len() - i,
        {
            let region = memory_map[i];
            if matches!(region.kind, RegionKind::Usable) {
                assert(usable_region_ok(region));
                let end = region.base + region.length;
                let mut f = region.base;
                let ghost frames_before = frames@;
                while f < end
                    invariant
                        region == memory_map@[i as int],
                        regions_wf(memory_map@),
                        i < memory_map@.len(),
                        usable_region_ok(region),
                        region.kind == RegionKind::Usable,
                        end == region.base + region.length,
                        region.base <= f <= end,
                        f % 4096 == 0,
                        frames@ == frames_before + region_frames(region).take(
                            ((f - region.base) / 4096) as int,
                        ),
                        strictly_increasing(frames@),
                        forall|k: int| 0 <= k < frames@.len() ==> #[trigger] frames@[k] % 4096
                            == 0,
                        forall|k: int| 0 <= k < frames_before.len() ==> #[trigger] frames_before[k]
                            < region.base,
                        forall|k: int| 0 <= k < frames@.len() ==> #[trigger] frames@[k] < f
                            || frames@[k] < region.base,
                        forall|k: int, j: int|
                            #![trigger frames_before[k], memory_map@[j]]
                            0 <= k < frames_before.len() && i < j < memory_map@.len()
                                && memory_map@[j].kind == RegionKind::Usable ==> frames_before[k]
                                < memory_map@[j].base,
                    decreases end - f,
                {
                    let ghost idx = ((f - region.base) / 4096) as int;
                    proof {
                        assert(region_frames(region).len() == region.length / 4096);
                        assert(0 <= idx < region_frames(region).len()) by (nonlinear_arith)
                            requires
                                idx == ((f - region.base) / 4096) as int,
                                region.base <= f < region.base + region.length,
                                f % 4096 == 0,
                                region.base % 4096 == 0,
                                region.length % 4096 == 0,
                        ;
                        assert(region_frames(region)[idx] == f) by (nonlinear_arith)
                            requires
                                idx == ((f - region.base) / 4096) as int,
                                region.base <= f,
                                f % 4096 == 0,
                                region.base % 4096 == 0,
                                0 <= idx < region_frames(region).len(),
                                region_frames(region)[idx] == (region.base + 4096 * idx) as u64,
                                region.base + region.length <= PHYS_LIMIT,
                                f < region.base + region.length,
                        ;
                    }
                    frames.push(f);
                    proof {
                        assert((f - region.base) / 4096 + 1 == (f + 4096 - region.base) / 4096)
                            by (nonlinear_arith)
                            requires
                                f % 4096 == 0,
                                region.base % 4096 == 0,
                                region.base <= f,
                        ;
                        assert(frames@ =~= frames_before + region_frames(region).take(
                            ((f + 4096 - region.base) / 4096) as int,
                        ));
                    }
                    f = f + 4096;
                }
                proof {
                    assert(region_frames(region).take(((end - region.base) / 4096) as int)
                        =~= region_frames(region));
                    assert(frames@ =~= usable_frames(memory_map@, i + 1));
                    assert forall|k: int, j: int|
                        #![trigger frames@[k], memory_map@[j]]
                        0 <= k < frames@.len() && i + 1 <= j < memory_map@.len()
                            && memory_map@[j].kind == RegionKind::Usable implies frames@[k]
                        < memory_map@[j].base by {
                        assert(memory_map@[i as int].base + memory_map@[i as int].length
                            <= memory_map@[j].base);
                    }
                }
            } else {
                proof {
                    assert(frames@ =~= usable_frames(memory_map@, i + 1));
                }
            }
            i += 1;
        }
        BootFrameAllocator { frames, next: 0 }
    }
}

impl FrameSource for BootFrameAllocator {
    open spec fn available(&self) -> Seq<u64> {
        self.frames@.skip(self.next as int)
    }

    open spec fn src_wf(&self) -> bool {
        self.wf()
    }

    fn allocate_frame(&mut self) -> (r: Option<u64>)
    {
        if self.next < self.frames.len() {
            let frame = self.frames[self.next];
            self.next = self.next + 1;
            assert(self.available() =~= old(self).available().skip(1));
            Some(frame)
        } else {
            None
        }
    }
}

/// A frame returned by the allocator is never returned again: the frames at
/// two distinct cursor positions differ, and the cursor only moves forward.
pub proof fn lemma_no_frame_reissued(a: &BootFrameAllocator, i: int, j: int)
    requires
        a.wf(),
        0 <= i < j < a.frames@.len(),
    ensures
        a.frames@[i] != a.frames@[j],
{
}

} // verus!
