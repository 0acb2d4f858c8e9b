//! Four-level page-table translation.
//!
//! All physical memory is linearly mapped at a fixed displacement, so the
//! tables below the active top-level table are reachable as ordinary data;
//! the translator owns that data here.  Each table is an array of 512
//! entries; an entry is either empty or carries the physical frame of the
//! next-level table (or, at the leaf level, of the mapped frame) together
//! with its flag bits.  This design uses uniform 4096-byte pages throughout:
//! a huge-page entry is a structural mismatch, fatal by design, and is
//! excluded by the translator's well-formedness.

use vstd::prelude::*;

use crate::memory::BootInfoFrameAllocator;
use crate::memory::MAX_PHYS_ADDR;
use crate::memory::lemma_usable_frames_in_usable_region;

verus! {

/// Bit 0 of a page-table entry: the entry is present.
pub const FLAG_PRESENT: u64 = 0x1;

/// Bit 1 of a page-table entry: the mapping is writable.
pub const FLAG_WRITABLE: u64 = 0x2;

/// Bit 7 of a page-table entry: the entry maps a huge page (unsupported
/// here).
pub const FLAG_HUGE_PAGE: u64 = 0x80;

/// The flag bits of a page-table entry, in their exact hardware bit layout.
#[derive(Clone, Copy, Debug, PartialEq, Eq, Structural)]
pub struct PageTableFlags {
    pub bits: u64,
}

impl PageTableFlags {
    pub open spec fn is_present(self) -> bool {
        self.bits & FLAG_PRESENT != 0
    }

    pub open spec fn is_writable(self) -> bool {
        self.bits & FLAG_WRITABLE != 0
    }

    pub open spec fn is_huge(self) -> bool {
        self.bits & FLAG_HUGE_PAGE != 0
    }

    /// The flag set every mapping this kernel installs carries: present and
    /// writable, never huge.
    pub fn present_writable() -> (r: PageTableFlags)
        ensures
            r.bits == FLAG_PRESENT | FLAG_WRITABLE,
            r.is_present(),
            r.is_writable(),
            !r.is_huge(),
    {
        let r = PageTableFlags { bits: FLAG_PRESENT | FLAG_WRITABLE };
        proof {
            assert((0x1u64 | 0x2u64) & 0x1u64 != 0 && (0x1u64 | 0x2u64) & 0x2u64 != 0 && (0x1u64
                | 0x2u64) & 0x80u64 == 0) by (bit_vector);
        }
        r
    }

    pub fn present(&self) -> (r: bool)
        ensures
            r == self.is_present(),
    {
        self.bits & FLAG_PRESENT != 0
    }

    pub fn writable(&self) -> (r: bool)
        ensures
            r == self.is_writable(),
    {
        self.bits & FLAG_WRITABLE != 0
    }

    pub fn huge(&self) -> (r: bool)
        ensures
            r == self.is_huge(),
    {
        self.bits & FLAG_HUGE_PAGE != 0
    }
}

/// Bits 12..52 of a raw page-table entry: the physical frame it refers to.
pub const ENTRY_ADDR_MASK: u64 = 0x000f_ffff_ffff_f000;

/// The low twelve bits of a raw page-table entry: its flag field.
pub const ENTRY_FLAGS_MASK: u64 = 0xfff;

/// Pack a frame address and a flag field into one raw 64-bit table entry,
/// exactly as the hardware walker reads it: the aligned frame address in
/// bits 12..52, the flags in the low twelve bits.
pub fn encode_entry(frame: u64, flags: PageTableFlags) -> (r: u64)
    requires
        frame % 4096 == 0,
        frame < MAX_PHYS_ADDR,
        flags.bits <= ENTRY_FLAGS_MASK,
    ensures
        r & ENTRY_ADDR_MASK == frame,
        r & ENTRY_FLAGS_MASK == flags.bits,
{
    let bits = flags.bits;
    proof {
        assert((frame | bits) & 0x000f_ffff_ffff_f000u64 == frame && (frame | bits) & 0xfffu64
            == bits) by (bit_vector)
            requires
                frame % 4096 == 0,
                frame < 0x0010_0000_0000_0000u64,
                bits <= 0xfffu64,
        ;
    }
    frame | bits
}

/// Unpack a raw 64-bit table entry into the frame address and flag field it
/// carries.
pub fn decode_entry(entry: u64) -> (r: (u64, PageTableFlags))
    ensures
        r.0 == entry & ENTRY_ADDR_MASK,
        r.1.bits == entry & ENTRY_FLAGS_MASK,
        r.0 % 4096 == 0,
        r.0 < MAX_PHYS_ADDR,
        r.1.bits <= ENTRY_FLAGS_MASK,
{
    proof {
        assert((entry & 0x000f_ffff_ffff_f000u64) % 4096 == 0 && entry & 0x000f_ffff_ffff_f000u64
            < 0x0010_0000_0000_0000u64 && entry & 0xfffu64 <= 0xfffu64) by (bit_vector);
    }
    (entry & ENTRY_ADDR_MASK, PageTableFlags { bits: entry & ENTRY_FLAGS_MASK })
}

/// Law: packing a frame and flags into a raw entry and unpacking it yields
/// them back — the raw entry is a faithful serialization of the pair.
pub proof fn lemma_entry_round_trip(frame: u64, bits: u64)
    requires
        frame % 4096 == 0,
        frame < MAX_PHYS_ADDR,
        bits <= ENTRY_FLAGS_MASK,
    ensures
        (frame | bits) & ENTRY_ADDR_MASK == frame,
        (frame | bits) & ENTRY_FLAGS_MASK == bits,
{
    assert((frame | bits) & 0x000f_ffff_ffff_f000u64 == frame && (frame | bits) & 0xfffu64 == bits)
        by (bit_vector)
        requires
            frame % 4096 == 0,
            frame < 0x0010_0000_0000_0000u64,
            bits <= 0xfffu64,
    ;
}

/// A virtual address is canonical when its upper 16 bits replicate bit 47;
/// only canonical addresses can be translated.
pub open spec fn canonical(a: u64) -> bool {
    a < 0x0000_8000_0000_0000 || a >= 0xffff_8000_0000_0000
}

/// Index into the top-level (level-4) table: bits 39..48 of the address.
pub open spec fn l4_index(a: u64) -> int {
    ((a >> 39) & 0x1ff) as int
}

/// Index into a level-3 table: bits 30..39 of the address.
pub open spec fn l3_index(a: u64) -> int {
    ((a >> 30) & 0x1ff) as int
}

/// Index into a level-2 table: bits 21..30 of the address.
pub open spec fn l2_index(a: u64) -> int {
    ((a >> 21) & 0x1ff) as int
}

/// Index into a leaf (level-1) table: bits 12..21 of the address.
pub open spec fn l1_index(a: u64) -> int {
    ((a >> 12) & 0x1ff) as int
}

/// Base address of the page containing `a`.
pub open spec fn page_of(a: u64) -> u64 {
    (a - (a % 4096)) as u64
}

/// A page of virtual address space: a page-aligned, canonical base address.
#[derive(Clone, Copy, Debug, PartialEq, Eq, Structural)]
pub struct Page {
    pub start: u64,
}

impl Page {
    pub open spec fn wf(self) -> bool {
        self.start % 4096 == 0 && canonical(self.start)
    }

    /// The page containing the given virtual address.
    pub fn containing_address(addr: u64) -> (r: Page)
        requires
            canonical(addr),
        ensures
            r.start == page_of(addr),
            r.wf(),
    {
        proof {
            assert(addr - addr % 4096 == addr / 4096 * 4096 && (addr - addr % 4096) % 4096 == 0)
                by (nonlinear_arith);
            assert((addr / 4096 * 4096 < 0x0000_8000_0000_0000 || addr / 4096 * 4096
                >= 0xffff_8000_0000_0000)) by (bit_vector)
                requires
                    addr < 0x0000_8000_0000_0000 || addr >= 0xffff_8000_0000_0000,
            ;
        }
        Page { start: addr / 4096 * 4096 }
    }

    pub fn start_address(&self) -> (r: u64)
        ensures
            r == self.start,
    {
        self.start
    }
}

/// A frame of physical memory: a page-aligned base address below the
/// physical address limit.
#[derive(Clone, Copy, Debug, PartialEq, Eq, Structural)]
pub struct PhysFrame {
    pub start: u64,
}

impl PhysFrame {
    pub open spec fn wf(self) -> bool {
        self.start % 4096 == 0 && self.start < MAX_PHYS_ADDR
    }

    /// The frame containing the given physical address.
    pub fn containing_address(addr: u64) -> (r: PhysFrame)
        requires
            addr < MAX_PHYS_ADDR,
        ensures
            r.start == page_of(addr),
            r.wf(),
    {
        proof {
            assert(addr - addr % 4096 == addr / 4096 * 4096 && (addr - addr % 4096) % 4096 == 0
                && addr / 4096 * 4096 <= addr) by (nonlinear_arith);
        }
        PhysFrame { start: addr / 4096 * 4096 }
    }

    pub fn start_address(&self) -> (r: u64)
        ensures
            r == self.start,
    {
        self.start
    }
}

/// Leaf entry: either empty or the mapping of one page to one frame.
pub enum FrameEntry {
    Empty,
    Mapped { frame: u64, flags: PageTableFlags },
}

/// Leaf (level-1) table: 512 leaf entries.
pub struct Level1Table {
    pub entries: Vec<FrameEntry>,
}

/// Entry of a level-2 table: either empty or the level-1 table it points to,
/// together with the frame that table lives in.
pub enum Level2Entry {
    Empty,
    Table { frame: u64, flags: PageTableFlags, table: Level1Table },
}

pub struct Level2Table {
    pub entries: Vec<Level2Entry>,
}

pub enum Level3Entry {
    Empty,
    Table { frame: u64, flags: PageTableFlags, table: Level2Table },
}

pub struct Level3Table {
    pub entries: Vec<Level3Entry>,
}

pub enum Level4Entry {
    Empty,
    Table { frame: u64, flags: PageTableFlags, table: Level3Table },
}

/// The top-level (level-4) table.
pub struct Level4Table {
    pub entries: Vec<Level4Entry>,
}

pub open spec fn l1_wf(t: Level1Table) -> bool {
    &&& t.entries@.len() == 512
    &&& forall|i: int|
        0 <= i < 512 ==> match #[trigger] t.entries@[i] {
            FrameEntry::Empty => true,
            FrameEntry::Mapped { frame, flags } => frame % 4096 == 0 && frame < MAX_PHYS_ADDR
                && flags.is_present() && !flags.is_huge(),
        }
}

pub open spec fn l2_wf(t: Level2Table) -> bool {
    &&& t.entries@.len() == 512
    &&& forall|i: int|
        0 <= i < 512 ==> match #[trigger] t.entries@[i] {
            Level2Entry::Empty => true,
            Level2Entry::Table { frame, flags, table } => frame % 4096 == 0 && frame
                < MAX_PHYS_ADDR && flags.is_present() && !flags.is_huge() && l1_wf(table),
        }
}

pub open spec fn l3_wf(t: Level3Table) -> bool {
    &&& t.entries@.len() == 512
    &&& forall|i: int|
        0 <= i < 512 ==> match #[trigger] t.entries@[i] {
            Level3Entry::Empty => true,
            Level3Entry::Table { frame, flags, table } => frame % 4096 == 0 && frame
                < MAX_PHYS_ADDR && flags.is_present() && !flags.is_huge() && l2_wf(table),
        }
}

pub open spec fn l4_wf(t: Level4Table) -> bool {
    &&& t.entries@.len() == 512
    &&& forall|i: int|
        0 <= i < 512 ==> match #[trigger] t.entries@[i] {
            Level4Entry::Empty => true,
            Level4Entry::Table { frame, flags, table } => frame % 4096 == 0 && frame
                < MAX_PHYS_ADDR && flags.is_present() && !flags.is_huge() && l3_wf(table),
        }
}

/// Result of walking a leaf table for `a`: the mapped physical address (frame
/// base plus page offset), if the leaf entry is present.
pub open spec fn l1_lookup(t: Level1Table, a: u64) -> Option<u64> {
    match t.entries@[l1_index(a)] {
        FrameEntry::Empty => None,
        FrameEntry::Mapped { frame, flags } => Some((frame + (a % 4096)) as u64),
    }
}

pub open spec fn l2_lookup(t: Level2Table, a: u64) -> Option<u64> {
    match t.entries@[l2_index(a)] {
        Level2Entry::Empty => None,
        Level2Entry::Table { table, .. } => l1_lookup(table, a),
    }
}

pub open spec fn l3_lookup(t: Level3Table, a: u64) -> Option<u64> {
    match t.entries@[l3_index(a)] {
        Level3Entry::Empty => None,
        Level3Entry::Table { table, .. } => l2_lookup(table, a),
    }
}

/// The flag field of the leaf entry the walk for `a` reaches below a leaf
/// table, if that entry is present.
pub open spec fn l1_flags(t: Level1Table, a: u64) -> Option<PageTableFlags> {
    match t.entries@[l1_index(a)] {
        FrameEntry::Empty => None,
        FrameEntry::Mapped { flags, .. } => Some(flags),
    }
}

pub open spec fn l2_flags(t: Level2Table, a: u64) -> Option<PageTableFlags> {
    match t.entries@[l2_index(a)] {
        Level2Entry::Empty => None,
        Level2Entry::Table { table, .. } => l1_flags(table, a),
    }
}

pub open spec fn l3_flags(t: Level3Table, a: u64) -> Option<PageTableFlags> {
    match t.entries@[l3_index(a)] {
        Level3Entry::Empty => None,
        Level3Entry::Table { table, .. } => l2_flags(table, a),
    }
}

/// How many intermediate tables are still missing along the walk for `a`
/// below a level-2 table (either the leaf table exists, or it does not).
pub open spec fn l2_missing(t: Level2Table, a: u64) -> int {
    match t.entries@[l2_index(a)] {
        Level2Entry::Empty => 1,
        Level2Entry::Table { .. } => 0,
    }
}

pub open spec fn l3_missing(t: Level3Table, a: u64) -> int {
    match t.entries@[l3_index(a)] {
        Level3Entry::Empty => 2,
        Level3Entry::Table { table, .. } => l2_missing(table, a),
    }
}

/// A fresh leaf table with all 512 entries empty.
fn new_l1() -> (t: Level1Table)
    ensures
        l1_wf(t),
        forall|i: int| 0 <= i < 512 ==> #[trigger] t.entries@[i] is Empty,
{
    let mut entries: Vec<FrameEntry> = Vec::new();
    while entries.len() < 512
        invariant
            entries@.len() <= 512,
            forall|i: int| 0 <= i < entries@.len() ==> #[trigger] entries@[i] is Empty,
        decreases 512 - entries@.len(),
    {
        entries.push(FrameEntry::Empty);
    }
    Level1Table { entries }
}

/// A fresh level-2 table with all 512 entries empty.
fn new_l2() -> (t: Level2Table)
    ensures
        l2_wf(t),
        forall|i: int| 0 <= i < 512 ==> #[trigger] t.entries@[i] is Empty,
{
    let mut entries: Vec<Level2Entry> = Vec::new();
    while entries.len() < 512
        invariant
            entries@.len() <= 512,
            forall|i: int| 0 <= i < entries@.len() ==> #[trigger] entries@[i] is Empty,
        decreases 512 - entries@.len(),
    {
        entries.push(Level2Entry::Empty);
    }
    Level2Table { entries }
}

/// A fresh level-3 table with all 512 entries empty.
fn new_l3() -> (t: Level3Table)
    ensures
        l3_wf(t),
        forall|i: int| 0 <= i < 512 ==> #[trigger] t.entries@[i] is Empty,
{
    let mut entries: Vec<Level3Entry> = Vec::new();
    while entries.len() < 512
        invariant
            entries@.len() <= 512,
            forall|i: int| 0 <= i < entries@.len() ==> #[trigger] entries@[i] is Empty,
        decreases 512 - entries@.len(),
    {
        entries.push(Level3Entry::Empty);
    }
    Level3Table { entries }
}

/// A fresh top-level table with all 512 entries empty.
fn new_l4() -> (t: Level4Table)
    ensures
        l4_wf(t),
        forall|i: int| 0 <= i < 512 ==> #[trigger] t.entries@[i] is Empty,
{
    let mut entries: Vec<Level4Entry> = Vec::new();
    while entries.len() < 512
        invariant
            entries@.len() <= 512,
            forall|i: int| 0 <= i < entries@.len() ==> #[trigger] entries@[i] is Empty,
        decreases 512 - entries@.len(),
    {
        entries.push(Level4Entry::Empty);
    }
    Level4Table { entries }
}

/// Why a mapping could not be installed.
///
/// `ParentEntryHugePage` is the structural-mismatch case: a huge-page entry
/// found where a table reference was expected.  It is fatal by design — a
/// well-formed hierarchy (see the `wf` predicates) never contains one, and
/// the contracts below show the walk never produces this error.
#[derive(Clone, Copy, Debug, PartialEq, Eq, Structural)]
pub enum MapToError {
    /// The frame source was exhausted while a missing table level had to be
    /// created.
    FrameAllocationFailed,
    /// A huge-page entry stood where a next-level table was expected.
    ParentEntryHugePage,
    /// The page already maps to the frame with this base address.
    PageAlreadyMapped(u64),
}

/// Token returned by a successful mapping: the CPU's cached translation for
/// the page must be invalidated before the new mapping is first used.
/// Discharging the token stands for that invalidation; the layer that mirrors
/// this hierarchy into hardware performs it.
#[must_use]
#[derive(Debug)]
pub struct MapperFlush {
    pub page: Page,
}

impl MapperFlush {
    /// Invalidate the cached translation for this token's page.
    pub fn flush(self) {
    }
}

/// Removing an element and inserting another at the same position updates
/// that position and leaves every other unchanged.
proof fn lemma_remove_insert<T>(s: Seq<T>, i: int, x: T)
    requires
        0 <= i < s.len(),
    ensures
        s.remove(i).insert(i, x) =~= s.update(i, x),
{
    let t = s.remove(i).insert(i, x);
    assert forall|j: int| 0 <= j < s.len() implies t[j] == s.update(i, x)[j] by {
        if j < i {
        } else if j == i {
        } else {
            assert(t[j] == s.remove(i)[j - 1]);
        }
    }
}

/// Two canonical addresses share all four walk indices exactly when they lie
/// in the same page; inside a page, the page offset is the distance from the
/// page base.
pub proof fn lemma_page_slots(p: u64, a: u64)
    requires
        p % 4096 == 0,
        canonical(p),
        canonical(a),
    ensures
        (l4_index(a) == l4_index(p) && l3_index(a) == l3_index(p) && l2_index(a) == l2_index(p)
            && l1_index(a) == l1_index(p)) <==> page_of(a) == p,
        page_of(a) == p ==> a % 4096 == a - p,
{
    assert((((a >> 39) & 0x1ff == (p >> 39) & 0x1ff) && ((a >> 30) & 0x1ff == (p >> 30) & 0x1ff)
        && ((a >> 21) & 0x1ff == (p >> 21) & 0x1ff) && ((a >> 12) & 0x1ff == (p >> 12) & 0x1ff))
        <==> (a - a % 4096 == p)) by (bit_vector)
        requires
            p % 4096 == 0,
            p < 0x0000_8000_0000_0000 || p >= 0xffff_8000_0000_0000,
            a < 0x0000_8000_0000_0000 || a >= 0xffff_8000_0000_0000,
    ;
}

/// Install `page -> frame` in a leaf table.  Fails if the leaf entry is
/// already occupied.
fn map_in_l1(t1: Level1Table, page: Page, frame: PhysFrame, flags: PageTableFlags) -> (res: (
    Level1Table,
    Result<(), MapToError>,
))
    requires
        l1_wf(t1),
        page.wf(),
        frame.wf(),
        flags.is_present(),
        !flags.is_huge(),
    ensures
        l1_wf(res.0),
        match res.1 {
            Ok(_) => {
                &&& l1_lookup(t1, page.start) is None
                &&& forall|a: u64|
                    l1_index(a) == l1_index(page.start) ==> #[trigger] l1_lookup(res.0, a) == Some(
                        (frame.start + (a % 4096)) as u64,
                    )
                &&& forall|a: u64|
                    l1_index(a) == l1_index(page.start) ==> #[trigger] l1_flags(res.0, a) == Some(
                        flags,
                    )
                &&& forall|a: u64|
                    l1_index(a) != l1_index(page.start) ==> #[trigger] l1_lookup(res.0, a)
                        == l1_lookup(t1, a)
                &&& forall|a: u64|
                    l1_index(a) != l1_index(page.start) ==> #[trigger] l1_flags(res.0, a)
                        == l1_flags(t1, a)
            },
            Err(e) => {
                &&& forall|a: u64| #[trigger] l1_lookup(res.0, a) == l1_lookup(t1, a)
                &&& forall|a: u64| #[trigger] l1_flags(res.0, a) == l1_flags(t1, a)
                &&& match e {
                    MapToError::PageAlreadyMapped(f) => l1_lookup(t1, page.start) == Some(f),
                    _ => false,
                }
            },
        },
{
    let mut t1 = t1;
    proof {
        lemma_indices_in_range(page.start);
    }
    let i1 = ((page.start >> 12) & 0x1ff) as usize;
    match &t1.entries[i1] {
        FrameEntry::Mapped { frame: f0, .. } => {
            let f = *f0;
            proof {
                assert(page.start % 4096 == 0);
            }
            (t1, Err(MapToError::PageAlreadyMapped(f)))
        },
        FrameEntry::Empty => {
            let ghost orig = t1;
            t1.entries[i1] = FrameEntry::Mapped { frame: frame.start, flags };
            proof {
                assert(t1.entries@ == orig.entries@.update(i1 as int, FrameEntry::Mapped {
                    frame: frame.start,
                    flags,
                }));
                assert forall|a: u64| l1_index(a) == l1_index(page.start) implies #[trigger] l1_lookup(
                    t1,
                    a,
                ) == Some((frame.start + (a % 4096)) as u64) by {
                    lemma_indices_in_range(a);
                }
                assert forall|a: u64| l1_index(a) == l1_index(page.start) implies #[trigger] l1_flags(
                    t1,
                    a,
                ) == Some(flags) by {
                    lemma_indices_in_range(a);
                }
                assert forall|a: u64| l1_index(a) != l1_index(page.start) implies #[trigger] l1_lookup(
                    t1,
                    a,
                ) == l1_lookup(orig, a) by {
                    lemma_indices_in_range(a);
                }
                assert forall|a: u64| l1_index(a) != l1_index(page.start) implies #[trigger] l1_flags(
                    t1,
                    a,
                ) == l1_flags(orig, a) by {
                    lemma_indices_in_range(a);
                }
            }
            (t1, Ok(()))
        },
    }
}

/// Install `page -> frame` below a level-2 table, creating the leaf table if
/// it is missing.
fn map_in_l2(
    t2: Level2Table,
    page: Page,
    frame: PhysFrame,
    flags: PageTableFlags,
    frame_alloc: &mut BootInfoFrameAllocator,
) -> (res: (Level2Table, Result<(), MapToError>))
    requires
        l2_wf(t2),
        page.wf(),
        frame.wf(),
        flags.is_present(),
        !flags.is_huge(),
        old(frame_alloc).wf(),
        old(frame_alloc).next < usize::MAX,
    ensures
        l2_wf(res.0),
        final(frame_alloc).regions == old(frame_alloc).regions,
        old(frame_alloc).next <= final(frame_alloc).next <= old(frame_alloc).next + l2_missing(
            t2,
            page.start,
        ),
        match res.1 {
            Ok(_) => {
                &&& l2_lookup(t2, page.start) is None
                &&& l2_missing(t2, page.start) > 0 ==> old(frame_alloc).next + l2_missing(
                    t2,
                    page.start,
                ) <= old(frame_alloc).frames().len()
                &&& final(frame_alloc).next == old(frame_alloc).next + l2_missing(t2, page.start)
                &&& forall|a: u64|
                    l2_index(a) == l2_index(page.start) && l1_index(a) == l1_index(page.start)
                        ==> #[trigger] l2_lookup(res.0, a) == Some(
                        (frame.start + (a % 4096)) as u64,
                    )
                &&& forall|a: u64|
                    l2_index(a) == l2_index(page.start) && l1_index(a) == l1_index(page.start)
                        ==> #[trigger] l2_flags(res.0, a) == Some(flags)
                &&& forall|a: u64|
                    !(l2_index(a) == l2_index(page.start) && l1_index(a) == l1_index(page.start))
                        ==> #[trigger] l2_lookup(res.0, a) == l2_lookup(t2, a)
                &&& forall|a: u64|
                    !(l2_index(a) == l2_index(page.start) && l1_index(a) == l1_index(page.start))
                        ==> #[trigger] l2_flags(res.0, a) == l2_flags(t2, a)
                &&& forall|a: u64|
                    l2_index(a) == l2_index(page.start) ==> #[trigger] l2_missing(res.0, a) == 0
                &&& forall|a: u64|
                    l2_index(a) != l2_index(page.start) ==> #[trigger] l2_missing(res.0, a)
                        == l2_missing(t2, a)
            },
            Err(MapToError::FrameAllocationFailed) => {
                &&& l2_lookup(t2, page.start) is None
                &&& old(frame_alloc).frames().len() < old(frame_alloc).next + l2_missing(
                    t2,
                    page.start,
                )
                &&& forall|a: u64| #[trigger] l2_lookup(res.0, a) == l2_lookup(t2, a)
                &&& forall|a: u64| #[trigger] l2_flags(res.0, a) == l2_flags(t2, a)
            },
            Err(MapToError::PageAlreadyMapped(f)) => {
                &&& l2_lookup(t2, page.start) == Some(f)
                &&& final(frame_alloc).next == old(frame_alloc).next
                &&& forall|a: u64| #[trigger] l2_lookup(res.0, a) == l2_lookup(t2, a)
                &&& forall|a: u64| #[trigger] l2_flags(res.0, a) == l2_flags(t2, a)
            },
            Err(MapToError::ParentEntryHugePage) => false,
        },
{
    let mut t2 = t2;
    let ghost orig = t2;
    proof {
        lemma_indices_in_range(page.start);
    }
    let i2 = ((page.start >> 21) & 0x1ff) as usize;
    let e = t2.entries.remove(i2);
    match e {
        Level2Entry::Empty => {
            match frame_alloc.allocate_frame() {
                None => {
                    t2.entries.insert(i2, Level2Entry::Empty);
                    proof {
                        assert(t2.entries@ =~= orig.entries@);
                        assert forall|a: u64| #[trigger] l2_lookup(t2, a) == l2_lookup(orig, a) by {
                            lemma_indices_in_range(a);
                        }
                        assert forall|a: u64| #[trigger] l2_flags(t2, a) == l2_flags(orig, a) by {
                            lemma_indices_in_range(a);
                        }
                    }
                    (t2, Err(MapToError::FrameAllocationFailed))
                },
                Some(f) => {
                    proof {
                        lemma_usable_frames_in_usable_region(
                            old(frame_alloc).regions@,
                            old(frame_alloc).next as int,
                        );
                    }
                    let t1 = new_l1();
                    let ghost t1_empty = t1;
                    let (t1b, r1) = map_in_l1(t1, page, frame, flags);
                    proof {
                        assert(l1_lookup(t1_empty, page.start) is None);
                        assert(r1 is Ok);
                    }
                    let new_entry = Level2Entry::Table {
                        frame: f,
                        flags: PageTableFlags::present_writable(),
                        table: t1b,
                    };
                    t2.entries.insert(i2, new_entry);
                    proof {
                        lemma_remove_insert(orig.entries@, i2 as int, new_entry);
                        assert(t2.entries@ == orig.entries@.update(i2 as int, new_entry));
                        assert forall|a: u64|
                            l2_index(a) == l2_index(page.start) && l1_index(a) == l1_index(
                                page.start,
                            ) implies #[trigger] l2_lookup(t2, a) == Some(
                            (frame.start + (a % 4096)) as u64,
                        ) by {
                            lemma_indices_in_range(a);
                        }
                        assert forall|a: u64|
                            l2_index(a) == l2_index(page.start) && l1_index(a) == l1_index(
                                page.start,
                            ) implies #[trigger] l2_flags(t2, a) == Some(flags) by {
                            lemma_indices_in_range(a);
                        }
                        assert forall|a: u64|
                            !(l2_index(a) == l2_index(page.start) && l1_index(a) == l1_index(
                                page.start,
                            )) implies #[trigger] l2_lookup(t2, a) == l2_lookup(orig, a) by {
                            lemma_indices_in_range(a);
                        }
                        assert forall|a: u64|
                            !(l2_index(a) == l2_index(page.start) && l1_index(a) == l1_index(
                                page.start,
                            )) implies #[trigger] l2_flags(t2, a) == l2_flags(orig, a) by {
                            lemma_indices_in_range(a);
                        }
                        assert forall|a: u64|
                            l2_index(a) == l2_index(page.start) implies #[trigger] l2_missing(
                            t2,
                            a,
                        ) == 0 by {
                            lemma_indices_in_range(a);
                        }
                        assert forall|a: u64|
                            l2_index(a) != l2_index(page.start) implies #[trigger] l2_missing(
                            t2,
                            a,
                        ) == l2_missing(orig, a) by {
                            lemma_indices_in_range(a);
                        }
                    }
                    (t2, Ok(()))
                },
            }
        },
        Level2Entry::Table { frame: tf, flags: tfl, table: t1 } => {
            let ghost t1_orig = t1;
            let (t1b, r1) = map_in_l1(t1, page, frame, flags);
            let new_entry = Level2Entry::Table { frame: tf, flags: tfl, table: t1b };
            t2.entries.insert(i2, new_entry);
            proof {
                lemma_remove_insert(orig.entries@, i2 as int, new_entry);
                assert(t2.entries@ == orig.entries@.update(i2 as int, new_entry));
                if r1 is Ok {
                    assert forall|a: u64|
                        l2_index(a) == l2_index(page.start) && l1_index(a) == l1_index(
                            page.start,
                        ) implies #[trigger] l2_lookup(t2, a) == Some(
                        (frame.start + (a % 4096)) as u64,
                    ) by {
                        lemma_indices_in_range(a);
                    }
                    assert forall|a: u64|
                        l2_index(a) == l2_index(page.start) && l1_index(a) == l1_index(
                            page.start,
                        ) implies #[trigger] l2_flags(t2, a) == Some(flags) by {
                        lemma_indices_in_range(a);
                    }
                    assert forall|a: u64|
                        !(l2_index(a) == l2_index(page.start) && l1_index(a) == l1_index(
                            page.start,
                        )) implies #[trigger] l2_lookup(t2, a) == l2_lookup(orig, a) by {
                        lemma_indices_in_range(a);
                    }
                    assert forall|a: u64|
                        !(l2_index(a) == l2_index(page.start) && l1_index(a) == l1_index(
                            page.start,
                        )) implies #[trigger] l2_flags(t2, a) == l2_flags(orig, a) by {
                        lemma_indices_in_range(a);
                    }
                    assert forall|a: u64|
                        l2_index(a) == l2_index(page.start) implies #[trigger] l2_missing(
                        t2,
                        a,
                    ) == 0 by {
                        lemma_indices_in_range(a);
                    }
                    assert forall|a: u64|
                        l2_index(a) != l2_index(page.start) implies #[trigger] l2_missing(
                        t2,
                        a,
                    ) == l2_missing(orig, a) by {
                        lemma_indices_in_range(a);
                    }
                } else {
                    assert forall|a: u64| #[trigger] l2_lookup(t2, a) == l2_lookup(orig, a) by {
                        lemma_indices_in_range(a);
                    }
                    assert forall|a: u64| #[trigger] l2_flags(t2, a) == l2_flags(orig, a) by {
                        lemma_indices_in_range(a);
                    }
                }
            }
            (t2, r1)
        },
    }
}

/// Install `page -> frame` below a level-3 table, creating the level-2 and
/// leaf tables if they are missing.
fn map_in_l3(
    t3: Level3Table,
    page: Page,
    frame: PhysFrame,
    flags: PageTableFlags,
    frame_alloc: &mut BootInfoFrameAllocator,
) -> (res: (Level3Table, Result<(), MapToError>))
    requires
        l3_wf(t3),
        page.wf(),
        frame.wf(),
        flags.is_present(),
        !flags.is_huge(),
        old(frame_alloc).wf(),
        old(frame_alloc).next + 2 <= usize::MAX,
    ensures
        l3_wf(res.0),
        final(frame_alloc).regions == old(frame_alloc).regions,
        old(frame_alloc).next <= final(frame_alloc).next <= old(frame_alloc).next + l3_missing(
            t3,
            page.start,
        ),
        match res.1 {
            Ok(_) => {
                &&& l3_lookup(t3, page.start) is None
                &&& l3_missing(t3, page.start) > 0 ==> old(frame_alloc).next + l3_missing(
                    t3,
                    page.start,
                ) <= old(frame_alloc).frames().len()
                &&& final(frame_alloc).next == old(frame_alloc).next + l3_missing(t3, page.start)
                &&& forall|a: u64|
                    l3_index(a) == l3_index(page.start) && l2_index(a) == l2_index(page.start)
                        && l1_index(a) == l1_index(page.start) ==> #[trigger] l3_lookup(res.0, a)
                        == Some((frame.start + (a % 4096)) as u64)
                &&& forall|a: u64|
                    l3_index(a) == l3_index(page.start) && l2_index(a) == l2_index(page.start)
                        && l1_index(a) == l1_index(page.start) ==> #[trigger] l3_flags(res.0, a)
                        == Some(flags)
                &&& forall|a: u64|
                    !(l3_index(a) == l3_index(page.start) && l2_index(a) == l2_index(page.start)
                        && l1_index(a) == l1_index(page.start)) ==> #[trigger] l3_lookup(res.0, a)
                        == l3_lookup(t3, a)
                &&& forall|a: u64|
                    !(l3_index(a) == l3_index(page.start) && l2_index(a) == l2_index(page.start)
                        && l1_index(a) == l1_index(page.start)) ==> #[trigger] l3_flags(res.0, a)
                        == l3_flags(t3, a)
                &&& forall|a: u64|
                    l3_index(a) == l3_index(page.start) && l2_index(a) == l2_index(page.start)
                        ==> #[trigger] l3_missing(res.0, a) == 0
            },
            Err(MapToError::FrameAllocationFailed) => {
                &&& l3_lookup(t3, page.start) is None
                &&& old(frame_alloc).frames().len() < old(frame_alloc).next + l3_missing(
                    t3,
                    page.start,
                )
                &&& forall|a: u64| #[trigger] l3_lookup(res.0, a) == l3_lookup(t3, a)
                &&& forall|a: u64| #[trigger] l3_flags(res.0, a) == l3_flags(t3, a)
            },
            Err(MapToError::PageAlreadyMapped(f)) => {
                &&& l3_lookup(t3, page.start) == Some(f)
                &&& final(frame_alloc).next == old(frame_alloc).next
                &&& forall|a: u64| #[trigger] l3_lookup(res.0, a) == l3_lookup(t3, a)
                &&& forall|a: u64| #[trigger] l3_flags(res.0, a) == l3_flags(t3, a)
            },
            Err(MapToError::ParentEntryHugePage) => false,
        },
{
    let mut t3 = t3;
    let ghost orig = t3;
    proof {
        lemma_indices_in_range(page.start);
    }
    let i3 = ((page.start >> 30) & 0x1ff) as usize;
    let e = t3.entries.remove(i3);
    match e {
        Level3Entry::Empty => {
            match frame_alloc.allocate_frame() {
                None => {
                    t3.entries.insert(i3, Level3Entry::Empty);
                    proof {
                        assert(t3.entries@ =~= orig.entries@);
                        assert forall|a: u64| #[trigger] l3_lookup(t3, a) == l3_lookup(orig, a) by {
                            lemma_indices_in_range(a);
                        }
                        assert forall|a: u64| #[trigger] l3_flags(t3, a) == l3_flags(orig, a) by {
                            lemma_indices_in_range(a);
                        }
                    }
                    (t3, Err(MapToError::FrameAllocationFailed))
                },
                Some(f) => {
                    proof {
                        lemma_usable_frames_in_usable_region(
                            old(frame_alloc).regions@,
                            old(frame_alloc).next as int,
                        );
                    }
                    let t2 = new_l2();
                    let ghost t2_empty = t2;
                    let (t2b, r2) = map_in_l2(t2, page, frame, flags, frame_alloc);
                    let new_entry = Level3Entry::Table {
                        frame: f,
                        flags: PageTableFlags::present_writable(),
                        table: t2b,
                    };
                    t3.entries.insert(i3, new_entry);
                    proof {
                        lemma_remove_insert(orig.entries@, i3 as int, new_entry);
                        assert(t3.entries@ == orig.entries@.update(i3 as int, new_entry));
                        assert(l2_missing(t2_empty, page.start) == 1);
                        if r2 is Ok {
                            assert forall|a: u64|
                                l3_index(a) == l3_index(page.start) && l2_index(a) == l2_index(
                                    page.start,
                                ) && l1_index(a) == l1_index(page.start) implies #[trigger] l3_lookup(
                                t3,
                                a,
                            ) == Some((frame.start + (a % 4096)) as u64) by {
                                lemma_indices_in_range(a);
                            }
                            assert forall|a: u64|
                                !(l3_index(a) == l3_index(page.start) && l2_index(a) == l2_index(
                                    page.start,
                                ) && l1_index(a) == l1_index(page.start)) implies #[trigger] l3_lookup(
                                t3,
                                a,
                            ) == l3_lookup(orig, a) by {
                                lemma_indices_in_range(a);
                            }
                            assert forall|a: u64|
                                l3_index(a) == l3_index(page.start) && l2_index(a) == l2_index(
                                    page.start,
                                ) && l1_index(a) == l1_index(page.start) implies #[trigger] l3_flags(
                                t3,
                                a,
                            ) == Some(flags) by {
                                lemma_indices_in_range(a);
                            }
                            assert forall|a: u64|
                                !(l3_index(a) == l3_index(page.start) && l2_index(a) == l2_index(
                                    page.start,
                                ) && l1_index(a) == l1_index(page.start)) implies #[trigger] l3_flags(
                                t3,
                                a,
                            ) == l3_flags(orig, a) by {
                                lemma_indices_in_range(a);
                            }
                            assert forall|a: u64|
                                l3_index(a) == l3_index(page.start) && l2_index(a) == l2_index(
                                    page.start,
                                ) implies #[trigger] l3_missing(t3, a) == 0 by {
                                lemma_indices_in_range(a);
                            }
                        } else {
                            assert forall|a: u64| #[trigger] l3_lookup(t3, a) == l3_lookup(
                                orig,
                                a,
                            ) by {
                                lemma_indices_in_range(a);
                            }
                            assert forall|a: u64| #[trigger] l3_flags(t3, a) == l3_flags(
                                orig,
                                a,
                            ) by {
                                lemma_indices_in_range(a);
                            }
                        }
                    }
                    (t3, r2)
                },
            }
        },
        Level3Entry::Table { frame: tf, flags: tfl, table: t2 } => {
            let (t2b, r2) = map_in_l2(t2, page, frame, flags, frame_alloc);
            let new_entry = Level3Entry::Table { frame: tf, flags: tfl, table: t2b };
            t3.entries.insert(i3, new_entry);
            proof {
                lemma_remove_insert(orig.entries@, i3 as int, new_entry);
                assert(t3.entries@ == orig.entries@.update(i3 as int, new_entry));
                if r2 is Ok {
                    assert forall|a: u64|
                        l3_index(a) == l3_index(page.start) && l2_index(a) == l2_index(page.start)
                            && l1_index(a) == l1_index(page.start) implies #[trigger] l3_lookup(
                        t3,
                        a,
                    ) == Some((frame.start + (a % 4096)) as u64) by {
                        lemma_indices_in_range(a);
                    }
                    assert forall|a: u64|
                        !(l3_index(a) == l3_index(page.start) && l2_index(a) == l2_index(page.start)
                            && l1_index(a) == l1_index(page.start)) implies #[trigger] l3_lookup(
                        t3,
                        a,
                    ) == l3_lookup(orig, a) by {
                        lemma_indices_in_range(a);
                    }
                    assert forall|a: u64|
                        l3_index(a) == l3_index(page.start) && l2_index(a) == l2_index(page.start)
                            && l1_index(a) == l1_index(page.start) implies #[trigger] l3_flags(
                        t3,
                        a,
                    ) == Some(flags) by {
                        lemma_indices_in_range(a);
                    }
                    assert forall|a: u64|
                        !(l3_index(a) == l3_index(page.start) && l2_index(a) == l2_index(page.start)
                            && l1_index(a) == l1_index(page.start)) implies #[trigger] l3_flags(
                        t3,
                        a,
                    ) == l3_flags(orig, a) by {
                        lemma_indices_in_range(a);
                    }
                    assert forall|a: u64|
                        l3_index(a) == l3_index(page.start) && l2_index(a) == l2_index(page.start)
                            implies #[trigger] l3_missing(t3, a) == 0 by {
                        lemma_indices_in_range(a);
                    }
                } else {
                    assert forall|a: u64| #[trigger] l3_lookup(t3, a) == l3_lookup(orig, a) by {
                        lemma_indices_in_range(a);
                    }
                    assert forall|a: u64| #[trigger] l3_flags(t3, a) == l3_flags(orig, a) by {
                        lemma_indices_in_range(a);
                    }
                }
            }
            (t3, r2)
        },
    }
}

/// The translator: the fixed physical-to-virtual displacement, the physical
/// address of the active top-level table, and the table hierarchy it roots.
pub struct OffsetPageTable {
    pub phys_offset: u64,
    pub l4_frame: u64,
    pub l4: Level4Table,
}

impl OffsetPageTable {
    pub open spec fn wf(self) -> bool {
        l4_wf(self.l4)
    }

    /// What the hierarchy maps `a` to: the physical address `frame base +
    /// page offset`, or nothing if any level's entry along the walk is
    /// absent.
    pub open spec fn translate_spec(self, a: u64) -> Option<u64> {
        match self.l4.entries@[l4_index(a)] {
            Level4Entry::Empty => None,
            Level4Entry::Table { table, .. } => l3_lookup(table, a),
        }
    }

    /// How many intermediate tables the walk for `a` still has to create
    /// before a leaf entry for `a` can be installed (0 to 3).
    pub open spec fn missing_tables(self, a: u64) -> int {
        match self.l4.entries@[l4_index(a)] {
            Level4Entry::Empty => 3,
            Level4Entry::Table { table, .. } => l3_missing(table, a),
        }
    }

    /// The flag field of the leaf entry the walk for `a` reaches, if it is
    /// present: what the hierarchy says of the mapping's presence,
    /// writability and page size.
    pub open spec fn flags_spec(self, a: u64) -> Option<PageTableFlags> {
        match self.l4.entries@[l4_index(a)] {
            Level4Entry::Empty => None,
            Level4Entry::Table { table, .. } => l3_flags(table, a),
        }
    }

    /// Walk all four levels by hand and translate a virtual address to the
    /// physical address it is mapped to, or report that it is not mapped.
    /// Uniform 4096-byte pages are assumed throughout: well-formedness rules
    /// huge-page entries out, so no level short of the leaf can terminate the
    /// walk with a mapping.
    pub fn translate_addr(&self, addr: u64) -> (r: Option<u64>)
        requires
            self.wf(),
            canonical(addr),
        ensures
            r == self.translate_spec(addr),
    {
        proof {
            lemma_indices_in_range(addr);
        }
        let i4 = ((addr >> 39) & 0x1ff) as usize;
        let t3 = match &self.l4.entries[i4] {
            Level4Entry::Empty => {
                return None;
            },
            Level4Entry::Table { table, .. } => table,
        };
        let i3 = ((addr >> 30) & 0x1ff) as usize;
        let t2 = match &t3.entries[i3] {
            Level3Entry::Empty => {
                return None;
            },
            Level3Entry::Table { table, .. } => table,
        };
        let i2 = ((addr >> 21) & 0x1ff) as usize;
        let t1 = match &t2.entries[i2] {
            Level2Entry::Empty => {
                return None;
            },
            Level2Entry::Table { table, .. } => table,
        };
        let i1 = ((addr >> 12) & 0x1ff) as usize;
        match &t1.entries[i1] {
            FrameEntry::Empty => None,
            FrameEntry::Mapped { frame, .. } => {
                let offset = addr % 4096;
                Some(*frame + offset)
            },
        }
    }

    /// Walk the hierarchy for `page`, creating intermediate tables from the
    /// frame source as needed, and install a leaf entry binding `page` to
    /// `frame` with the given flags.  On success every address of the page
    /// translates to the frame plus its page offset and every other address
    /// translates exactly as before; the returned token carries the
    /// obligation to invalidate the CPU's cached translation for the page.
    ///
    /// Fails with `FrameAllocationFailed` when the source cannot supply a
    /// missing table level (tables already created stay in place; no
    /// translation changes), and with `PageAlreadyMapped` when the page
    /// already holds a mapping.  A structural mismatch (`ParentEntryHugePage`)
    /// cannot arise in a well-formed hierarchy, and the contract shows this
    /// error is never returned.
    pub fn map_to(
        &mut self,
        page: Page,
        frame: PhysFrame,
        flags: PageTableFlags,
        frame_alloc: &mut BootInfoFrameAllocator,
    ) -> (r: Result<MapperFlush, MapToError>)
        requires
            old(self).wf(),
            page.wf(),
            frame.wf(),
            flags.is_present(),
            !flags.is_huge(),
            old(frame_alloc).wf(),
            old(frame_alloc).next + 3 <= usize::MAX,
        ensures
            final(self).wf(),
            final(self).phys_offset == old(self).phys_offset,
            final(self).l4_frame == old(self).l4_frame,
            final(frame_alloc).regions == old(frame_alloc).regions,
            old(frame_alloc).next <= final(frame_alloc).next <= old(frame_alloc).next + old(self).missing_tables(page.start),
            match r {
                Ok(flush) => {
                    &&& flush.page == page
                    &&& old(self).translate_spec(page.start) is None
                    &&& old(self).missing_tables(page.start) > 0 ==> old(frame_alloc).next + old(self).missing_tables(page.start) <= old(frame_alloc).frames().len()
                    &&& final(frame_alloc).next == old(frame_alloc).next + old(self).missing_tables(page.start)
                    &&& forall|a: u64|
                        canonical(a) && page_of(a) == page.start ==> #[trigger] final(self).translate_spec(a) == Some((frame.start + (a % 4096)) as u64)
                    &&& forall|a: u64|
                        canonical(a) && page_of(a) == page.start ==> #[trigger] final(self).flags_spec(a) == Some(flags)
                    &&& forall|a: u64|
                        canonical(a) && page_of(a) != page.start ==> #[trigger] final(self).translate_spec(a) == old(self).translate_spec(a)
                    &&& forall|a: u64|
                        canonical(a) && page_of(a) != page.start ==> #[trigger] final(self).flags_spec(a) == old(self).flags_spec(a)
                    &&& forall|a: u64|
                        l4_index(a) == l4_index(page.start) && l3_index(a) == l3_index(page.start)
                            && l2_index(a) == l2_index(page.start) ==> #[trigger] final(self).missing_tables(a) == 0
                },
                Err(MapToError::FrameAllocationFailed) => {
                    &&& old(self).translate_spec(page.start) is None
                    &&& old(frame_alloc).frames().len() < old(frame_alloc).next + old(self).missing_tables(page.start)
                    &&& forall|a: u64| #[trigger] final(self).translate_spec(a) == old(self).translate_spec(a)
                    &&& forall|a: u64| #[trigger] final(self).flags_spec(a) == old(self).flags_spec(a)
                },
                Err(MapToError::PageAlreadyMapped(f)) => {
                    &&& old(self).translate_spec(page.start) == Some(f)
                    &&& final(frame_alloc).next == old(frame_alloc).next
                    &&& forall|a: u64| #[trigger] final(self).translate_spec(a) == old(self).translate_spec(a)
                    &&& forall|a: u64| #[trigger] final(self).flags_spec(a) == old(self).flags_spec(a)
                },
                Err(MapToError::ParentEntryHugePage) => false,
            },
    {
        let ghost orig = *old(self);
        proof {
            lemma_indices_in_range(page.start);
        }
        let i4 = ((page.start >> 39) & 0x1ff) as usize;
        let e = self.l4.entries.remove(i4);
        let (new_entry, r): (Level4Entry, Result<(), MapToError>) = match e {
            Level4Entry::Empty => {
                match frame_alloc.allocate_frame() {
                    None => (Level4Entry::Empty, Err(MapToError::FrameAllocationFailed)),
                    Some(f) => {
                        proof {
                            lemma_usable_frames_in_usable_region(
                                old(frame_alloc).regions@,
                                old(frame_alloc).next as int,
                            );
                        }
                        let t3 = new_l3();
                        let ghost t3_empty = t3;
                        let (t3b, r3) = map_in_l3(t3, page, frame, flags, frame_alloc);
                        proof {
                            assert(l3_missing(t3_empty, page.start) == 2);
                        }
                        (
                            Level4Entry::Table {
                                frame: f,
                                flags: PageTableFlags::present_writable(),
                                table: t3b,
                            },
                            r3,
                        )
                    },
                }
            },
            Level4Entry::Table { frame: tf, flags: tfl, table: t3 } => {
                let (t3b, r3) = map_in_l3(t3, page, frame, flags, frame_alloc);
                (Level4Entry::Table { frame: tf, flags: tfl, table: t3b }, r3)
            },
        };
        self.l4.entries.insert(i4, new_entry);
        proof {
            if new_entry is Empty {
                assert(self.l4.entries@ =~= orig.l4.entries@);
            } else {
                lemma_remove_insert(orig.l4.entries@, i4 as int, new_entry);
                assert(self.l4.entries@ == orig.l4.entries@.update(i4 as int, new_entry));
            }
            if r is Ok {
                assert forall|a: u64| canonical(a) && page_of(a) == page.start implies #[trigger] self.translate_spec(
                    a,
                ) == Some((frame.start + (a % 4096)) as u64) by {
                    lemma_indices_in_range(a);
                    lemma_page_slots(page.start, a);
                }
                assert forall|a: u64| canonical(a) && page_of(a) == page.start implies #[trigger] self.flags_spec(
                    a,
                ) == Some(flags) by {
                    lemma_indices_in_range(a);
                    lemma_page_slots(page.start, a);
                }
                assert forall|a: u64| canonical(a) && page_of(a) != page.start implies #[trigger] self.translate_spec(
                    a,
                ) == orig.translate_spec(a) by {
                    lemma_indices_in_range(a);
                    lemma_page_slots(page.start, a);
                }
                assert forall|a: u64| canonical(a) && page_of(a) != page.start implies #[trigger] self.flags_spec(
                    a,
                ) == orig.flags_spec(a) by {
                    lemma_indices_in_range(a);
                    lemma_page_slots(page.start, a);
                }
                assert forall|a: u64|
                    l4_index(a) == l4_index(page.start) && l3_index(a) == l3_index(page.start)
                        && l2_index(a) == l2_index(page.start) implies #[trigger] self.missing_tables(
                    a,
                ) == 0 by {
                    lemma_indices_in_range(a);
                }
            } else {
                assert forall|a: u64| #[trigger] self.translate_spec(a) == orig.translate_spec(
                    a,
                ) by {
                    lemma_indices_in_range(a);
                }
                assert forall|a: u64| #[trigger] self.flags_spec(a) == orig.flags_spec(a) by {
                    lemma_indices_in_range(a);
                }
            }
        }
        match r {
            Ok(_) => Ok(MapperFlush { page }),
            Err(e) => Err(e),
        }
    }
}

/// Every level index is below 512, and the page offset below 4096.
pub proof fn lemma_indices_in_range(a: u64)
    ensures
        0 <= l4_index(a) < 512,
        0 <= l3_index(a) < 512,
        0 <= l2_index(a) < 512,
        0 <= l1_index(a) < 512,
        0 <= a % 4096 < 4096,
{
    assert((a >> 39) & 0x1ff < 512 && (a >> 30) & 0x1ff < 512 && (a >> 21) & 0x1ff < 512 && (a
        >> 12) & 0x1ff < 512 && a % 4096 < 4096) by (bit_vector);
}

/// Construct the translator over a fresh, empty top-level table, given the
/// fixed physical-memory displacement and the physical address of the active
/// top-level table.  Nothing is mapped through a fresh translator.
pub fn init_offset_page_table(phys_mem_offset: u64, l4_frame: u64) -> (r: OffsetPageTable)
    ensures
        r.wf(),
        r.phys_offset == phys_mem_offset,
        r.l4_frame == l4_frame,
        forall|a: u64| #[trigger] r.translate_spec(a) is None,
        forall|a: u64| #[trigger] r.missing_tables(a) == 3,
{
    let l4 = new_l4();
    let r = OffsetPageTable { phys_offset: phys_mem_offset, l4_frame, l4 };
    proof {
        assert forall|a: u64| #[trigger] r.translate_spec(a) is None by {
            lemma_indices_in_range(a);
        }
        assert forall|a: u64| #[trigger] r.missing_tables(a) == 3 by {
            lemma_indices_in_range(a);
        }
    }
    r
}

} // verus!
