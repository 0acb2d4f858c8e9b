//! Physical-frame allocation from the boot-time memory map.
//!
//! The boot loader hands over an ordered list of physical-memory regions, each
//! tagged usable or reserved.  The frame source flattens the usable regions
//! into a sequence of page-aligned frame addresses and hands them out one by
//! one, advancing a cursor that is never reset: a frame, once returned, is
//! never returned again.

use vstd::prelude::*;

verus! {

/// Size in bytes of one physical frame and of one virtual page.
pub const PAGE_SIZE: usize = 4096;

/// Exclusive upper bound on physical addresses: this architecture carries
/// physical addresses in 52 bits.
pub const MAX_PHYS_ADDR: u64 = 0x0010_0000_0000_0000;

/// Tag of one region of the boot-time memory map.  Only usable regions yield
/// frames; every other tag is collapsed into `Reserved`.
#[derive(Clone, Copy, Debug, PartialEq, Eq, Structural)]
pub enum MemoryRegionKind {
    Usable,
    Reserved,
}

/// One region of the boot-time memory map: the physical addresses
/// `start <= a < end`, tagged with its kind.
#[derive(Clone, Copy, Debug, PartialEq, Eq, Structural)]
pub struct MemoryRegion {
    pub start: u64,
    pub end: u64,
    pub kind: MemoryRegionKind,
}

/// A single region as the boot loader promises it: frame-aligned bounds below
/// the physical address limit.
pub open spec fn region_wf(r: MemoryRegion) -> bool {
    &&& r.start % 4096 == 0
    &&& r.end % 4096 == 0
    &&& r.start <= r.end
    &&& r.end <= MAX_PHYS_ADDR
}

/// The frame base addresses a single region contributes: every page-aligned
/// address inside a usable region, in increasing order.
pub open spec fn region_frames(r: MemoryRegion) -> Seq<u64> {
    if r.kind == MemoryRegionKind::Usable {
        Seq::new((((r.end - r.start) / 4096) as nat), |i: int| (r.start + 4096 * i) as u64)
    } else {
        Seq::empty()
    }
}

/// All frame base addresses the memory map offers, region by region in report
/// order.
pub open spec fn usable_frames(regions: Seq<MemoryRegion>) -> Seq<u64>
    decreases regions.len(),
{
    if regions.len() == 0 {
        Seq::empty()
    } else {
        region_frames(regions[0]) + usable_frames(regions.skip(1))
    }
}

/// The whole memory map as the boot loader promises it: well-formed regions,
/// reported in address order without overlap.
pub open spec fn regions_wf(regions: Seq<MemoryRegion>) -> bool {
    &&& forall|i: int| 0 <= i < regions.len() ==> region_wf(#[trigger] regions[i])
    &&& forall|i: int, j: int|
        #![trigger regions[i], regions[j]]
        0 <= i < j < regions.len() ==> regions[i].end <= regions[j].start
}

/// Provides usable frames from the boot-time memory map.  The cursor `next`
/// counts how many frames have been handed out; it only ever grows.
pub struct BootInfoFrameAllocator {
    pub regions: Vec<MemoryRegion>,
    pub next: usize,
}

impl BootInfoFrameAllocator {
    /// The allocator is over a memory map as the boot loader promises it.
    pub open spec fn wf(self) -> bool {
        regions_wf(self.regions@)
    }

    /// Every frame this allocator can ever hand out, in order of the cursor.
    pub open spec fn frames(self) -> Seq<u64> {
        usable_frames(self.regions@)
    }

    /// Construct a frame source over the boot-supplied memory map.  The map
    /// must be valid: ordered, non-overlapping, frame-aligned regions.
    pub fn init(regions: Vec<MemoryRegion>) -> (r: Self)
        requires
            regions_wf(regions@),
        ensures
            r.regions@ == regions@,
            r.next == 0,
    {
        BootInfoFrameAllocator { regions, next: 0 }
    }

    /// Hand out the next usable frame, or report exhaustion.  The cursor
    /// advances on every call and is never reset, so no frame is returned
    /// twice.
    pub fn allocate_frame(&mut self) -> (r: Option<u64>)
        requires
            old(self).wf(),
            old(self).next < usize::MAX,
        ensures
            final(self).regions == old(self).regions,
            final(self).next == old(self).next + 1,
            r == (if old(self).next < old(self).frames().len() {
                Some(old(self).frames()[old(self).next as int])
            } else {
                None::<u64>
            }),
    {
        let idx = self.next;
        self.next = self.next + 1;
        let idx64: u64 = idx as u64;
        let mut j: usize = 0;
        let mut skipped: u64 = 0;
        while j < self.regions.len()
            invariant
                self.wf(),
                self.regions == old(self).regions,
                self.next == old(self).next + 1,
                idx == old(self).next,
                idx64 == idx as u64,
                j <= self.regions@.len(),
                skipped == usable_frames(self.regions@.take(j as int)).len(),
                skipped <= idx64,
            decreases self.regions@.len() - j,
        {
            let r = self.regions[j];
            proof {
                lemma_usable_frames_split(self.regions@, j as int);
                lemma_usable_frames_skip_unfold(self.regions@, j as int);
            }
            if matches!(r.kind, MemoryRegionKind::Usable) {
                let count: u64 = (r.end - r.start) / 4096;
                let remaining: u64 = idx64 - skipped;
                if remaining < count {
                    proof {
                        assert((r.end - r.start) % 4096 == 0) by (nonlinear_arith)
                            requires
                                r.start % 4096 == 0,
                                r.end % 4096 == 0,
                                r.start <= r.end,
                        ;
                        assert(4096 * (remaining as int) <= r.end - r.start - 4096)
                            by (nonlinear_arith)
                            requires
                                (r.end - r.start) % 4096 == 0,
                                0 <= remaining < (r.end - r.start) / 4096,
                        ;
                    }
                    let frame: u64 = r.start + remaining * 4096;
                    proof {
                        let rs = self.regions@;
                        assert(usable_frames(rs) == usable_frames(rs.take(j as int))
                            + (region_frames(rs[j as int]) + usable_frames(rs.skip(j as int + 1))));
                        assert(region_frames(rs[j as int])[remaining as int] == frame);
                        assert(usable_frames(rs)[idx as int] == frame);
                    }
                    return Some(frame);
                } else {
                    skipped = skipped + count;
                }
            }
            proof {
                let rs = self.regions@;
                assert(usable_frames(rs.take(j as int + 1)) =~= usable_frames(rs.take(j as int))
                    + region_frames(rs[j as int])) by {
                    lemma_usable_frames_split(rs.take(j as int + 1), j as int);
                    assert(rs.take(j as int + 1).take(j as int) =~= rs.take(j as int));
                    assert(rs.take(j as int + 1).skip(j as int) =~= seq![rs[j as int]]);
                    lemma_usable_frames_skip_unfold(rs.take(j as int + 1), j as int);
                    assert(usable_frames(rs.take(j as int + 1).skip(j as int + 1)) =~= Seq::<
                        u64,
                    >::empty());
                }
            }
            j = j + 1;
        }
        proof {
            let rs = self.regions@;
            lemma_usable_frames_split(rs, rs.len() as int);
            assert(rs.take(rs.len() as int) =~= rs);
            assert(usable_frames(rs.skip(rs.len() as int)) =~= Seq::<u64>::empty());
        }
        None
    }
}

/// Splitting the map at `j` splits its frame sequence at the frames the first
/// `j` regions contribute.
pub proof fn lemma_usable_frames_split(regions: Seq<MemoryRegion>, j: int)
    requires
        0 <= j <= regions.len(),
    ensures
        usable_frames(regions) == usable_frames(regions.take(j)) + usable_frames(regions.skip(j)),
    decreases j,
{
    if j == 0 {
        assert(regions.take(0) =~= Seq::<MemoryRegion>::empty());
        assert(regions.skip(0) =~= regions);
        assert(usable_frames(regions) =~= usable_frames(regions.take(0)) + usable_frames(
            regions.skip(0),
        ));
    } else {
        lemma_usable_frames_split(regions.skip(1), j - 1);
        assert(regions.skip(1).take(j - 1) =~= regions.take(j).skip(1));
        assert(regions.skip(1).skip(j - 1) =~= regions.skip(j));
        assert(regions.take(j)[0] == regions[0]);
        assert(usable_frames(regions.take(j)) == region_frames(regions[0]) + usable_frames(
            regions.take(j).skip(1),
        ));
        assert(usable_frames(regions) =~= usable_frames(regions.take(j)) + usable_frames(
            regions.skip(j),
        ));
    }
}

/// Region `i` of the map contains the whole frame starting at `a`.
pub open spec fn region_holds_frame(r: MemoryRegion, a: u64) -> bool {
    &&& r.kind == MemoryRegionKind::Usable
    &&& r.start <= a
    &&& a + 4096 <= r.end
}

/// Every frame the map offers is page-aligned and lies, in full, inside one
/// of the map's usable regions.
pub proof fn lemma_usable_frames_in_usable_region(regions: Seq<MemoryRegion>, n: int)
    requires
        regions_wf(regions),
        0 <= n < usable_frames(regions).len(),
    ensures
        usable_frames(regions)[n] % 4096 == 0,
        exists|i: int|
            0 <= i < regions.len() && region_holds_frame(
                #[trigger] regions[i],
                usable_frames(regions)[n],
            ),
    decreases regions.len(),
{
    let r0 = regions[0];
    let head = region_frames(r0);
    if n < head.len() {
        assert((r0.end - r0.start) % 4096 == 0 && 4096 * n <= r0.end - r0.start - 4096 && (
        r0.start + 4096 * n) % 4096 == 0) by (nonlinear_arith)
            requires
                r0.start % 4096 == 0,
                r0.end % 4096 == 0,
                r0.start <= r0.end,
                0 <= n < (r0.end - r0.start) / 4096,
        ;
        assert(usable_frames(regions)[n] == head[n]);
        assert(region_holds_frame(regions[0], usable_frames(regions)[n]));
    } else {
        let tail = regions.skip(1);
        assert(regions_wf(tail)) by {
            assert(forall|i: int| 0 <= i < tail.len() ==> #[trigger] tail[i] == regions[i + 1]);
        }
        lemma_usable_frames_in_usable_region(tail, n - head.len());
        assert(usable_frames(regions)[n] == usable_frames(tail)[n - head.len()]);
        let i = choose|i: int|
            0 <= i < tail.len() && region_holds_frame(
                #[trigger] tail[i],
                usable_frames(tail)[n - head.len()],
            );
        assert(tail[i] == regions[i + 1]);
        assert(region_holds_frame(regions[i + 1], usable_frames(regions)[n]));
    }
}

/// The frames the map offers come out in strictly increasing address order.
pub proof fn lemma_usable_frames_increasing(regions: Seq<MemoryRegion>, n1: int, n2: int)
    requires
        regions_wf(regions),
        0 <= n1 < n2 < usable_frames(regions).len(),
    ensures
        usable_frames(regions)[n1] < usable_frames(regions)[n2],
    decreases regions.len(),
{
    let r0 = regions[0];
    let head = region_frames(r0);
    let tail = regions.skip(1);
    assert(regions_wf(tail)) by {
        assert(forall|i: int| 0 <= i < tail.len() ==> #[trigger] tail[i] == regions[i + 1]);
    }
    if n2 < head.len() {
        assert((r0.end - r0.start) % 4096 == 0 && r0.start + 4096 * n1 < r0.start + 4096 * n2 && r0.start
            + 4096 * n2 <= r0.end - 4096) by (nonlinear_arith)
            requires
                r0.start % 4096 == 0,
                r0.end % 4096 == 0,
                r0.start <= r0.end,
                0 <= n1 < n2 < (r0.end - r0.start) / 4096,
        ;
    } else if n1 < head.len() {
        assert((r0.end - r0.start) % 4096 == 0 && r0.start + 4096 * n1 + 4096 <= r0.end) by (
        nonlinear_arith)
            requires
                r0.start % 4096 == 0,
                r0.end % 4096 == 0,
                r0.start <= r0.end,
                0 <= n1 < (r0.end - r0.start) / 4096,
        ;
        lemma_usable_frames_in_usable_region(tail, n2 - head.len());
        let i = choose|i: int|
            0 <= i < tail.len() && region_holds_frame(
                #[trigger] tail[i],
                usable_frames(tail)[n2 - head.len()],
            );
        assert(tail[i] == regions[i + 1]);
        assert(r0.end <= regions[i + 1].start);
        assert(usable_frames(regions)[n2] == usable_frames(tail)[n2 - head.len()]);
    } else {
        lemma_usable_frames_increasing(tail, n1 - head.len(), n2 - head.len());
        assert(usable_frames(regions)[n1] == usable_frames(tail)[n1 - head.len()]);
        assert(usable_frames(regions)[n2] == usable_frames(tail)[n2 - head.len()]);
    }
}

/// Law: until exhaustion, every frame the source returns is page-aligned,
/// lies in a region the memory map marked usable, and is distinct from the
/// frame of every other cursor position — the source never hands out the same
/// frame twice.
pub proof fn lemma_frame_source_sound(regions: Seq<MemoryRegion>, n1: int, n2: int)
    requires
        regions_wf(regions),
        0 <= n1 < usable_frames(regions).len(),
        0 <= n2 < usable_frames(regions).len(),
        n1 != n2,
    ensures
        usable_frames(regions)[n1] % 4096 == 0,
        exists|i: int|
            0 <= i < regions.len() && region_holds_frame(
                #[trigger] regions[i],
                usable_frames(regions)[n1],
            ),
        usable_frames(regions)[n1] != usable_frames(regions)[n2],
{
    lemma_usable_frames_in_usable_region(regions, n1);
    if n1 < n2 {
        lemma_usable_frames_increasing(regions, n1, n2);
    } else {
        lemma_usable_frames_increasing(regions, n2, n1);
    }
}

/// Unfolding the frame sequence of the map's tail at `j`: it starts with the
/// frames of region `j`.
pub proof fn lemma_usable_frames_skip_unfold(regions: Seq<MemoryRegion>, j: int)
    requires
        0 <= j < regions.len(),
    ensures
        usable_frames(regions.skip(j)) == region_frames(regions[j]) + usable_frames(
            regions.skip(j + 1),
        ),
{
    assert(regions.skip(j)[0] == regions[j]);
    assert(regions.skip(j).skip(1) =~= regions.skip(j + 1));
    assert(usable_frames(regions.skip(j)) == region_frames(regions.skip(j)[0]) + usable_frames(
        regions.skip(j).skip(1),
    ));
}

} // verus!
