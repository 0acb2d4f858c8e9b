//! Protected-mode foundation of a minimal kernel: virtual-memory management
//! (frame source, four-level page-table translator, heap-window mapper) and
//! the interrupt subsystem (vector table, hardware-controller protocol), with
//! the text-display writer they report through.
//!
//! Hardware state — physical memory holding the page tables, the memory map,
//! the text buffer — is held here as plain data, so that every walk, mapping
//! and write is ordinary verified code; the thin layer that mirrors it into
//! registers, ports and frame buffers lives outside this crate.

pub mod allocator;
pub mod interrupts;
pub mod io;
pub mod memory;
pub mod paging;

use vstd::prelude::*;

verus! {

/// One-time startup of the interrupt subsystem: build the vector table and
/// remap the hardware controller pair past the reserved exception vectors.
/// The task-state segment set up outside this core supplies the one value
/// consumed here: the alternate-stack index for the double-fault entry.
/// Loading the table into the CPU and enabling delivery are the hardware
/// layer's concluding steps.
pub fn init(double_fault_stack_index: u16) -> (r: (
    interrupts::InterruptDescriptorTable,
    interrupts::ChainedPics,
))
    ensures
        r.0.wf(),
        r.0.entries@[interrupts::BREAKPOINT_VECTOR as int] == Some(
            (interrupts::IdtEntry { handler: interrupts::HandlerId::Breakpoint, stack_index: None }),
        ),
        r.0.entries@[interrupts::DOUBLE_FAULT_VECTOR as int] == Some(
            (interrupts::IdtEntry {
                handler: interrupts::HandlerId::DoubleFault,
                stack_index: Some(double_fault_stack_index),
            }),
        ),
        r.0.entries@[interrupts::PAGE_FAULT_VECTOR as int] == Some(
            (interrupts::IdtEntry { handler: interrupts::HandlerId::PageFault, stack_index: None }),
        ),
        r.0.entries@[interrupts::InterruptIndex::Timer.vector_spec() as int] == Some(
            (interrupts::IdtEntry { handler: interrupts::HandlerId::Timer, stack_index: None }),
        ),
        r.0.entries@[interrupts::InterruptIndex::Keyboard.vector_spec() as int] == Some(
            (interrupts::IdtEntry { handler: interrupts::HandlerId::Keyboard, stack_index: None }),
        ),
        forall|v: int|
            0 <= v < 256 && v != interrupts::BREAKPOINT_VECTOR && v
                != interrupts::DOUBLE_FAULT_VECTOR && v != interrupts::PAGE_FAULT_VECTOR && v
                != interrupts::InterruptIndex::Timer.vector_spec() && v
                != interrupts::InterruptIndex::Keyboard.vector_spec() ==> r.0.entries@[v] is None,
        r.1.wf(),
        r.1.offset1 == interrupts::PIC_1_OFFSET,
        r.1.offset2 == interrupts::PIC_2_OFFSET,
        r.1.mask1 == 0xfc,
        r.1.mask2 == 0xff,
        r.1.line_enabled_spec(interrupts::InterruptIndex::Timer.vector_spec()),
        r.1.line_enabled_spec(interrupts::InterruptIndex::Keyboard.vector_spec()),
        r.1.initialized,
{
    let idt = interrupts::init_idt(double_fault_stack_index);
    let mut pics = interrupts::ChainedPics::new(interrupts::PIC_1_OFFSET, interrupts::PIC_2_OFFSET);
    interrupts::init_hw_interrupts(&mut pics);
    proof {
        assert((0xfcu8 >> 0u8) & 1 == 0 && (0xfcu8 >> 1u8) & 1 == 0) by (bit_vector);
        assert(pics.line_enabled_spec(32));
        assert(pics.line_enabled_spec(33));
    }
    (idt, pics)
}

} // verus!
