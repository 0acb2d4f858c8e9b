//! Heap-window mapping for the dynamic allocator.
//!
//! The kernel heap is a single fixed window of virtual address space.  Before
//! the general-purpose allocator may be told that the window exists, every
//! page of the window must be mapped, present and writable, to a distinct
//! fresh frame — the allocator's own bookkeeping writes land inside the
//! window immediately, so this ordering is load-bearing.  Partial heaps are
//! not tolerated: if any single page cannot be mapped, the whole
//! initialization fails.

use vstd::prelude::*;

use crate::memory::BootInfoFrameAllocator;
use crate::memory::lemma_usable_frames_in_usable_region;
use crate::memory::lemma_usable_frames_increasing;
use crate::paging::FLAG_PRESENT;
use crate::paging::FLAG_WRITABLE;
use crate::paging::MapToError;
use crate::paging::OffsetPageTable;
use crate::paging::Page;
use crate::paging::PageTableFlags;
use crate::paging::PhysFrame;
use crate::paging::canonical;
use crate::paging::l2_index;
use crate::paging::l3_index;
use crate::paging::l4_index;
use crate::paging::page_of;

verus! {

/// Base virtual address of the heap window.
pub const HEAP_POINTER: u64 = 0x2222_2222_0000;

/// Size of the heap window in bytes (1 MiB).
pub const HEAP_SIZE: u64 = 1024 * 1024;

/// An address lies in the heap window.
pub open spec fn in_heap_window(a: u64) -> bool {
    HEAP_POINTER <= a < HEAP_POINTER + HEAP_SIZE
}

/// The first `k` pages of the heap window are mapped and the rest of the
/// window is not: the shape a failed initialization leaves behind, since
/// pages already mapped are not rolled back (an accepted simplification).
pub open spec fn heap_mapped_below(m: OffsetPageTable, k: int) -> bool {
    &&& forall|a: u64|
        HEAP_POINTER <= a < HEAP_POINTER + 4096 * k ==> #[trigger] m.translate_spec(a) is Some
    &&& forall|a: u64|
        HEAP_POINTER + 4096 * k <= a < HEAP_POINTER + HEAP_SIZE ==> #[trigger] m.translate_spec(
            a,
        ) is None
}

/// Page `i` of the heap window maps to a frame of the source's sequence,
/// drawn at a cursor position between `source.next` and `end`.
pub open spec fn heap_page_from_source(
    m: OffsetPageTable,
    source: BootInfoFrameAllocator,
    end: int,
    i: int,
) -> bool {
    exists|n: int|
        source.next <= n < end && m.translate_spec((HEAP_POINTER + 4096 * i) as u64) == Some(
            #[trigger] source.frames()[n],
        )
}

/// Every page of the heap window maps to a frame of the source's sequence,
/// drawn between the two cursor positions: the window's backing store is the
/// frame source and nothing else.
pub open spec fn heap_frames_from_source(
    m: OffsetPageTable,
    source: BootInfoFrameAllocator,
    end: int,
) -> bool {
    forall|i: int|
        0 <= i < HEAP_SIZE / 4096 ==> #[trigger] heap_page_from_source(m, source, end, i)
}

/// The whole heap window lies behind one walk path: every address in it
/// shares the top three table indices with the window base, so the window
/// needs at most one table per level beyond the leaves.
pub proof fn lemma_heap_window_shares_walk_path(a: u64)
    requires
        HEAP_POINTER <= a < HEAP_POINTER + HEAP_SIZE,
    ensures
        l4_index(a) == l4_index(HEAP_POINTER),
        l3_index(a) == l3_index(HEAP_POINTER),
        l2_index(a) == l2_index(HEAP_POINTER),
{
    assert((a >> 39) & 0x1ff == (0x2222_2222_0000u64 >> 39) & 0x1ff && (a >> 30) & 0x1ff == (
    0x2222_2222_0000u64 >> 30) & 0x1ff && (a >> 21) & 0x1ff == (0x2222_2222_0000u64 >> 21) & 0x1ff)
        by (bit_vector)
        requires
            0x2222_2222_0000u64 <= a < 0x2222_2222_0000u64 + 0x10_0000u64,
    ;
}

/// Map every page of the heap window, in order, each to a fresh frame taken
/// from the source, with a present and writable mapping.
///
/// On success the whole window is mapped present and writable, each of its
/// pages to a distinct frame drawn from the source's sequence, and no
/// translation outside the window has changed; only then may the dynamic
/// allocator be told the window's base and size.  Success holds exactly when
/// the source can still supply one leaf frame per page plus the table levels
/// the window's single walk path is missing.  If the source runs out, the
/// error is propagated and the heap must not be used: translations outside
/// the window are untouched, and the window itself is left with some prefix
/// of its pages mapped and nothing more — pages already mapped are not
/// rolled back.
pub fn initialize_heap(mapper: &mut OffsetPageTable, frame_alloc: &mut BootInfoFrameAllocator) -> (r:
    Result<(), MapToError>)
    requires
        old(mapper).wf(),
        old(frame_alloc).wf(),
        old(frame_alloc).next + 1024 <= usize::MAX,
        forall|a: u64| in_heap_window(a) ==> old(mapper).translate_spec(a) is None,
    ensures
        final(mapper).wf(),
        final(mapper).phys_offset == old(mapper).phys_offset,
        final(mapper).l4_frame == old(mapper).l4_frame,
        final(frame_alloc).regions == old(frame_alloc).regions,
        old(frame_alloc).next <= final(frame_alloc).next,
        match r {
            Ok(_) => {
                &&& old(frame_alloc).next + HEAP_SIZE / 4096 + old(mapper).missing_tables(
                    HEAP_POINTER,
                ) <= old(frame_alloc).frames().len()
                &&& final(frame_alloc).next == old(frame_alloc).next + HEAP_SIZE / 4096 + old(
                    mapper,
                ).missing_tables(HEAP_POINTER)
                &&& forall|a: u64| in_heap_window(a) ==> #[trigger] final(mapper).translate_spec(a) is Some
                &&& forall|a: u64|
                    in_heap_window(a) ==> #[trigger] final(mapper).flags_spec(a) == Some(
                        (PageTableFlags { bits: FLAG_PRESENT | FLAG_WRITABLE }),
                    )
                &&& heap_frames_from_source(
                    *final(mapper),
                    *old(frame_alloc),
                    final(frame_alloc).next as int,
                )
                &&& forall|i: int, j: int|
                    #![trigger final(mapper).translate_spec((HEAP_POINTER + 4096 * i) as u64), final(mapper).translate_spec((HEAP_POINTER + 4096 * j) as u64)]
                    0 <= i < j < HEAP_SIZE / 4096 ==> final(mapper).translate_spec(
                        (HEAP_POINTER + 4096 * i) as u64,
                    ) != final(mapper).translate_spec((HEAP_POINTER + 4096 * j) as u64)
                &&& forall|a: u64|
                    canonical(a) && !in_heap_window(a) ==> #[trigger] final(mapper).translate_spec(
                        a,
                    ) == old(mapper).translate_spec(a)
            },
            Err(e) => {
                &&& e is FrameAllocationFailed
                &&& old(frame_alloc).frames().len() < old(frame_alloc).next + HEAP_SIZE / 4096
                    + old(mapper).missing_tables(HEAP_POINTER)
                &&& forall|a: u64|
                    canonical(a) && !in_heap_window(a) ==> #[trigger] final(mapper).translate_spec(
                        a,
                    ) == old(mapper).translate_spec(a)
                &&& exists|k: int|
                    0 <= k < HEAP_SIZE / 4096 && #[trigger] heap_mapped_below(*final(mapper), k)
            },
        },
{
    let pages: u64 = HEAP_SIZE / 4096;
    let mut i: u64 = 0;
    let ghost mut draws: Seq<int> = Seq::empty();
    let ghost m0 = old(mapper).missing_tables(HEAP_POINTER);
    proof {
        assert(0 <= m0 <= 3);
        assert forall|a: u64|
            HEAP_POINTER <= a < HEAP_POINTER + HEAP_SIZE implies #[trigger] mapper.translate_spec(
            a,
        ) is None by {
            assert(in_heap_window(a));
        }
    }
    while i < pages
        invariant
            pages == HEAP_SIZE / 4096,
            0 <= i <= pages,
            mapper.wf(),
            mapper.phys_offset == old(mapper).phys_offset,
            mapper.l4_frame == old(mapper).l4_frame,
            frame_alloc.regions == old(frame_alloc).regions,
            frame_alloc.wf(),
            old(frame_alloc).next + 1024 <= usize::MAX,
            m0 == old(mapper).missing_tables(HEAP_POINTER),
            0 <= m0 <= 3,
            i == 0 ==> frame_alloc.next == old(frame_alloc).next && mapper.missing_tables(
                HEAP_POINTER,
            ) == m0,
            i > 0 ==> frame_alloc.next == old(frame_alloc).next + i + m0 && mapper.missing_tables(
                HEAP_POINTER,
            ) == 0,
            i > 0 ==> old(frame_alloc).next + i + m0 <= old(frame_alloc).frames().len(),
            draws.len() == i as int,
            forall|j: int|
                0 <= j < i ==> old(frame_alloc).next <= #[trigger] draws[j] < old(
                    frame_alloc,
                ).frames().len(),
            forall|j: int| 0 <= j < i ==> #[trigger] draws[j] < frame_alloc.next,
            forall|j1: int, j2: int|
                #![trigger draws[j1], draws[j2]]
                0 <= j1 < j2 < i ==> draws[j1] < draws[j2],
            forall|j: int|
                0 <= j < i ==> #[trigger] mapper.translate_spec((HEAP_POINTER + 4096 * j) as u64)
                    == Some(old(frame_alloc).frames()[draws[j]]),
            forall|a: u64|
                HEAP_POINTER <= a < HEAP_POINTER + 4096 * i ==> #[trigger] mapper.translate_spec(
                    a,
                ) is Some,
            forall|a: u64|
                HEAP_POINTER <= a < HEAP_POINTER + 4096 * i ==> #[trigger] mapper.flags_spec(a)
                    == Some((PageTableFlags { bits: FLAG_PRESENT | FLAG_WRITABLE })),
            forall|a: u64|
                HEAP_POINTER + 4096 * i <= a < HEAP_POINTER + HEAP_SIZE
                    ==> #[trigger] mapper.translate_spec(a) is None,
            forall|a: u64|
                canonical(a) && !in_heap_window(a) ==> #[trigger] mapper.translate_spec(a) == old(
                    mapper,
                ).translate_spec(a),
        decreases pages - i,
    {
        let page = Page { start: HEAP_POINTER + i * 4096 };
        proof {
            assert(page.start % 4096 == 0 && page.start + 4096 <= HEAP_POINTER + HEAP_SIZE) by (
            nonlinear_arith)
                requires
                    page.start == HEAP_POINTER + i * 4096,
                    0 <= i < HEAP_SIZE / 4096,
            ;
            lemma_heap_window_shares_walk_path(page.start);
            assert(mapper.missing_tables(page.start) == mapper.missing_tables(HEAP_POINTER));
        }
        let ghost draw = frame_alloc.next as int;
        let frame_base = match frame_alloc.allocate_frame() {
            None => {
                proof {
                    assert(heap_mapped_below(*mapper, i as int));
                }
                return Err(MapToError::FrameAllocationFailed);
            },
            Some(f) => f,
        };
        proof {
            lemma_usable_frames_in_usable_region(frame_alloc.regions@, draw);
        }
        let frame = PhysFrame { start: frame_base };
        let flags = PageTableFlags::present_writable();
        let ghost mapper_pre = *mapper;
        match mapper.map_to(page, frame, flags, frame_alloc) {
            Ok(flush) => {
                flush.flush();
            },
            Err(e) => {
                proof {
                    assert(mapper_pre.translate_spec(page.start) is None);
                    assert(e is FrameAllocationFailed);
                    assert forall|a: u64|
                        HEAP_POINTER <= a < HEAP_POINTER + 4096 * (i as int) implies #[trigger] mapper.translate_spec(
                        a,
                    ) is Some by {}
                    assert forall|a: u64|
                        HEAP_POINTER + 4096 * (i as int) <= a < HEAP_POINTER
                            + HEAP_SIZE implies #[trigger] mapper.translate_spec(a) is None by {}
                    assert(heap_mapped_below(*mapper, i as int));
                    assert forall|a: u64|
                        canonical(a) && !in_heap_window(a) implies #[trigger] mapper.translate_spec(
                        a,
                    ) == old(mapper).translate_spec(a) by {}
                }
                return Err(e);
            },
        }
        proof {
            draws = draws.push(draw);
            assert(mapper.translate_spec(page.start) == Some(
                (frame.start + (page.start % 4096)) as u64,
            ));
            assert(page.start % 4096 == 0);
            assert(mapper.translate_spec(page.start) == Some(frame.start));
            assert(mapper.missing_tables(HEAP_POINTER) == 0) by {
                lemma_heap_window_shares_walk_path(HEAP_POINTER);
            }
            assert forall|a: u64|
                HEAP_POINTER <= a < HEAP_POINTER + 4096 * (i + 1) implies #[trigger] mapper.translate_spec(
                a,
            ) is Some by {
                assert(canonical(a));
                if a < page.start {
                    assert(page_of(a) != page.start);
                } else {
                    assert(page_of(a) == page.start) by {
                        assert(a - a % 4096 == page.start) by (nonlinear_arith)
                            requires
                                page.start % 4096 == 0,
                                page.start <= a < page.start + 4096,
                        ;
                    }
                }
            }
            assert forall|a: u64|
                HEAP_POINTER <= a < HEAP_POINTER + 4096 * (i + 1) implies #[trigger] mapper.flags_spec(
                a,
            ) == Some((PageTableFlags { bits: FLAG_PRESENT | FLAG_WRITABLE })) by {
                assert(canonical(a));
                if a < page.start {
                    assert(page_of(a) != page.start);
                } else {
                    assert(page_of(a) == page.start) by {
                        assert(a - a % 4096 == page.start) by (nonlinear_arith)
                            requires
                                page.start % 4096 == 0,
                                page.start <= a < page.start + 4096,
                        ;
                    }
                }
            }
            assert forall|a: u64|
                HEAP_POINTER + 4096 * (i + 1) <= a < HEAP_POINTER + HEAP_SIZE implies #[trigger] mapper.translate_spec(
                a,
            ) is None by {
                assert(page_of(a) != page.start);
            }
            assert forall|j: int|
                0 <= j < i + 1 implies #[trigger] mapper.translate_spec(
                (HEAP_POINTER + 4096 * j) as u64,
            ) == Some(old(frame_alloc).frames()[draws[j]]) by {
                let b: u64 = (HEAP_POINTER + 4096 * j) as u64;
                assert(HEAP_POINTER + 4096 * j < HEAP_POINTER + HEAP_SIZE) by (nonlinear_arith)
                    requires
                        0 <= j <= i,
                        i < HEAP_SIZE / 4096,
                ;
                if j < i as int {
                    assert(b < page.start) by (nonlinear_arith)
                        requires
                            b == HEAP_POINTER + 4096 * j,
                            page.start == HEAP_POINTER + 4096 * (i as int),
                            0 <= j < i as int,
                    ;
                    assert(page_of(b) != page.start);
                    assert(mapper_pre.translate_spec(b) == Some(
                        old(frame_alloc).frames()[draws[j]],
                    ));
                    assert(canonical(b));
                }
            }
        }
        i = i + 1;
    }
    proof {
        assert forall|a: u64| in_heap_window(a) implies #[trigger] mapper.translate_spec(
            a,
        ) is Some by {
            assert(4096 * (HEAP_SIZE / 4096) == HEAP_SIZE);
        }
        assert forall|a: u64| in_heap_window(a) implies #[trigger] mapper.flags_spec(a) == Some(
            (PageTableFlags { bits: FLAG_PRESENT | FLAG_WRITABLE }),
        ) by {
            assert(4096 * (HEAP_SIZE / 4096) == HEAP_SIZE);
        }
        assert forall|i2: int|
            0 <= i2 < HEAP_SIZE / 4096 implies #[trigger] heap_page_from_source(
            *mapper,
            *old(frame_alloc),
            frame_alloc.next as int,
            i2,
        ) by {
            let n0 = draws[i2];
            assert(old(frame_alloc).next <= n0 < frame_alloc.next);
            assert(mapper.translate_spec((HEAP_POINTER + 4096 * i2) as u64) == Some(
                old(frame_alloc).frames()[n0],
            ));
        }
        assert(heap_frames_from_source(*mapper, *old(frame_alloc), frame_alloc.next as int));
        assert forall|i2: int, j2: int|
            #![trigger mapper.translate_spec((HEAP_POINTER + 4096 * i2) as u64), mapper.translate_spec((HEAP_POINTER + 4096 * j2) as u64)]
            0 <= i2 < j2 < HEAP_SIZE / 4096 implies mapper.translate_spec(
            (HEAP_POINTER + 4096 * i2) as u64,
        ) != mapper.translate_spec((HEAP_POINTER + 4096 * j2) as u64) by {
            lemma_usable_frames_increasing(old(frame_alloc).regions@, draws[i2], draws[j2]);
        }
    }
    Ok(())
}

} // verus!
