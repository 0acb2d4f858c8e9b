//! Interrupt vector table, fault handlers, and the hardware interrupt
//! controller protocol.
//!
//! The vector table is built once, with the breakpoint, double-fault and
//! page-fault exception entries and the two hardware entries (timer,
//! keyboard) this kernel services; loading it into the CPU is the mirroring
//! layer's one-time duty.  The chained controller pair is remapped past the
//! 32 CPU-reserved exception vectors, and every hardware handler's final,
//! unconditional action is to acknowledge its own vector — otherwise that
//! interrupt line and every line behind it stalls permanently.

use vstd::prelude::*;

verus! {

/// Whether the timer handler prints a tick mark for each interrupt.
pub const TIMER_DEBUG_PRINT: bool = false;

/// Whether the keyboard handler prints each decoded key.
pub const KEYBOARD_DEBUG_PRINT: bool = false;

/// I/O port the keyboard controller presents scancodes on.
pub const KEYBOARD_PORT: u16 = 0x60;

/// Vector offset of the primary controller chip: 32, immediately past the 32
/// CPU-reserved exception vectors, so no hardware vector collides with an
/// exception.
pub const PIC_1_OFFSET: u8 = 32;

/// Vector offset of the secondary controller chip, one range of eight past
/// the primary.
pub const PIC_2_OFFSET: u8 = PIC_1_OFFSET + 8;

/// Vector of the breakpoint exception, defined by the CPU.
pub const BREAKPOINT_VECTOR: u8 = 3;

/// Vector of the double-fault exception, defined by the CPU.
pub const DOUBLE_FAULT_VECTOR: u8 = 8;

/// Vector of the page-fault exception, defined by the CPU.
pub const PAGE_FAULT_VECTOR: u8 = 14;

/// The hardware interrupts this kernel services, by name.
#[derive(Clone, Copy, Debug, PartialEq, Eq, Structural)]
pub enum InterruptIndex {
    Timer,
    Keyboard,
}

impl InterruptIndex {
    /// The vector this hardware interrupt is dispatched on.
    pub open spec fn vector_spec(self) -> u8 {
        match self {
            InterruptIndex::Timer => PIC_1_OFFSET,
            InterruptIndex::Keyboard => (PIC_1_OFFSET + 1) as u8,
        }
    }

    /// The vector this hardware interrupt is dispatched on.
    pub fn as_u8(self) -> (r: u8)
        ensures
            r == self.vector_spec(),
    {
        match self {
            InterruptIndex::Timer => PIC_1_OFFSET,
            InterruptIndex::Keyboard => PIC_1_OFFSET + 1,
        }
    }
}

/// The handler entry points this kernel installs, by name.
#[derive(Clone, Copy, Debug, PartialEq, Eq, Structural)]
pub enum HandlerId {
    Breakpoint,
    DoubleFault,
    PageFault,
    Timer,
    Keyboard,
}

/// One installed vector-table entry: the handler it transfers to and the
/// interrupt-stack-table index it must run on (`None`: the current stack).
#[derive(Clone, Copy, Debug, PartialEq, Eq)]
pub struct IdtEntry {
    pub handler: HandlerId,
    pub stack_index: Option<u16>,
}

/// The interrupt vector table: 256 entries indexed by vector number, each
/// empty (fatal if triggered) or holding an installed handler.  Built once
/// at startup, loaded into the CPU once, never mutated afterwards.
pub struct InterruptDescriptorTable {
    pub entries: Vec<Option<IdtEntry>>,
}

impl InterruptDescriptorTable {
    pub open spec fn wf(self) -> bool {
        self.entries@.len() == 256
    }

    /// Read one vector's entry.
    pub fn entry(&self, vector: u8) -> (r: Option<IdtEntry>)
        requires
            self.wf(),
        ensures
            r == self.entries@[vector as int],
    {
        self.entries[vector as usize]
    }
}

/// Build the vector table exactly as this kernel loads it: breakpoint,
/// page-fault and double-fault exception entries, and the timer and keyboard
/// hardware entries at the remapped vectors 32 and 33.  Only the
/// double-fault entry demands an alternate stack: the externally supplied
/// interrupt-stack-table index, so the handler survives a fault caused by
/// the normal stack itself.  Every other vector stays empty.
pub fn init_idt(double_fault_stack_index: u16) -> (idt: InterruptDescriptorTable)
    ensures
        idt.wf(),
        idt.entries@[BREAKPOINT_VECTOR as int] == Some(
            IdtEntry { handler: HandlerId::Breakpoint, stack_index: None },
        ),
        idt.entries@[DOUBLE_FAULT_VECTOR as int] == Some(
            IdtEntry { handler: HandlerId::DoubleFault, stack_index: Some(double_fault_stack_index) },
        ),
        idt.entries@[PAGE_FAULT_VECTOR as int] == Some(
            IdtEntry { handler: HandlerId::PageFault, stack_index: None },
        ),
        idt.entries@[InterruptIndex::Timer.vector_spec() as int] == Some(
            IdtEntry { handler: HandlerId::Timer, stack_index: None },
        ),
        idt.entries@[InterruptIndex::Keyboard.vector_spec() as int] == Some(
            IdtEntry { handler: HandlerId::Keyboard, stack_index: None },
        ),
        forall|v: int|
            0 <= v < 256 && v != BREAKPOINT_VECTOR && v != DOUBLE_FAULT_VECTOR && v
                != PAGE_FAULT_VECTOR && v != InterruptIndex::Timer.vector_spec() && v
                != InterruptIndex::Keyboard.vector_spec() ==> idt.entries@[v] is None,
{
    let mut entries: Vec<Option<IdtEntry>> = Vec::new();
    while entries.len() < 256
        invariant
            entries@.len() <= 256,
            forall|v: int| 0 <= v < entries@.len() ==> #[trigger] entries@[v] is None,
        decreases 256 - entries@.len(),
    {
        entries.push(None);
    }
    entries[BREAKPOINT_VECTOR as usize] = Some(
        IdtEntry { handler: HandlerId::Breakpoint, stack_index: None },
    );
    entries[PAGE_FAULT_VECTOR as usize] = Some(
        IdtEntry { handler: HandlerId::PageFault, stack_index: None },
    );
    let timer = InterruptIndex::Timer.as_u8();
    entries[timer as usize] = Some(IdtEntry { handler: HandlerId::Timer, stack_index: None });
    let keyboard = InterruptIndex::Keyboard.as_u8();
    entries[keyboard as usize] = Some(IdtEntry { handler: HandlerId::Keyboard, stack_index: None });
    entries[DOUBLE_FAULT_VECTOR as usize] = Some(
        IdtEntry {
            handler: HandlerId::DoubleFault,
            stack_index: Some(double_fault_stack_index),
        },
    );
    InterruptDescriptorTable { entries }
}

/// The chained controller pair: the remap offsets chosen for the two chips,
/// the current mask of each chip (bit set: that chip's line is disabled, the
/// hardware convention), and whether the remap-and-unmask command sequence
/// has been issued.
#[derive(Clone, Copy, Debug, PartialEq, Eq, Structural)]
pub struct ChainedPics {
    pub offset1: u8,
    pub offset2: u8,
    pub mask1: u8,
    pub mask2: u8,
    pub initialized: bool,
}

/// The end-of-interrupt signals one acknowledgment issues: the vector being
/// acknowledged, and which of the two chips must receive the signal.
#[derive(Clone, Copy, Debug, PartialEq, Eq, Structural)]
pub struct EoiSignals {
    pub vector: u8,
    pub primary: bool,
    pub secondary: bool,
}

impl ChainedPics {
    /// Both chips' vector ranges avoid the 32 CPU-reserved exception vectors
    /// and do not overlap each other.
    pub open spec fn wf(self) -> bool {
        &&& self.offset1 >= 32
        &&& self.offset2 >= 32
        &&& (self.offset1 + 8 <= self.offset2 || self.offset2 + 8 <= self.offset1)
    }

    /// The pair dispatches `v`: it lies in one chip's range of eight.
    pub open spec fn handles_spec(self, v: u8) -> bool {
        self.offset1 <= v < self.offset1 + 8 || self.offset2 <= v < self.offset2 + 8
    }

    /// The line carrying `v` is enabled: the mask bit of `v`'s chip for
    /// `v`'s position in its range of eight is clear.
    pub open spec fn line_enabled_spec(self, v: u8) -> bool {
        if self.offset1 <= v < self.offset1 + 8 {
            (self.mask1 >> ((v - self.offset1) as u8)) & 1 == 0
        } else if self.offset2 <= v < self.offset2 + 8 {
            (self.mask2 >> ((v - self.offset2) as u8)) & 1 == 0
        } else {
            false
        }
    }

    /// A controller pair remapped to the two given offsets, with every line
    /// still masked until the initialization sequence runs.  The offsets
    /// must leave the 32 reserved exception vectors free and must not
    /// overlap — with overlapping ranges a dispatched vector could not be
    /// attributed to one chip.
    pub fn new(offset1: u8, offset2: u8) -> (r: ChainedPics)
        requires
            offset1 >= 32,
            offset2 >= 32,
            offset1 + 8 <= offset2 || offset2 + 8 <= offset1,
        ensures
            r.offset1 == offset1,
            r.offset2 == offset2,
            r.mask1 == 0xff,
            r.mask2 == 0xff,
            !r.initialized,
            r.wf(),
    {
        ChainedPics { offset1, offset2, mask1: 0xff, mask2: 0xff, initialized: false }
    }

    /// Whether the line carrying `vector` is enabled.
    pub fn line_enabled(&self, vector: u8) -> (r: bool)
        requires
            self.handles_spec(vector),
        ensures
            r == self.line_enabled_spec(vector),
    {
        if vector >= self.offset1 && vector - self.offset1 < 8 {
            (self.mask1 >> (vector - self.offset1)) & 1 == 0
        } else {
            (self.mask2 >> (vector - self.offset2)) & 1 == 0
        }
    }

    /// Issue the remap-and-unmask command sequence to both chips: the chips
    /// take their vector offsets, and exactly the lines this kernel services
    /// — the timer and keyboard lines, the lowest two of the primary chip —
    /// are unmasked; every other line, and the whole secondary chip, stays
    /// masked.  The port writes themselves are the mirroring layer's.
    pub fn initialize(&mut self)
        ensures
            final(self).offset1 == old(self).offset1,
            final(self).offset2 == old(self).offset2,
            final(self).mask1 == 0xfc,
            final(self).mask2 == 0xff,
            final(self).initialized,
    {
        self.mask1 = 0xfc;
        self.mask2 = 0xff;
        self.initialized = true;
    }

    /// Whether this pair dispatches the given vector.
    pub fn handles_interrupt(&self, vector: u8) -> (r: bool)
        ensures
            r == self.handles_spec(vector),
    {
        (vector >= self.offset1 && vector - self.offset1 < 8) || (vector >= self.offset2 && vector
            - self.offset2 < 8)
    }

    /// Decide the end-of-interrupt signals for `vector`: the primary chip is
    /// acknowledged whenever the pair dispatched the vector, the secondary
    /// additionally when the vector lies in its range (it is chained through
    /// the primary).  The controller state itself does not change.
    pub fn notify_end_of_interrupt(&mut self, vector: u8) -> (r: EoiSignals)
        ensures
            *final(self) == *old(self),
            r.vector == vector,
            r.primary == old(self).handles_spec(vector),
            r.secondary == (old(self).offset2 <= vector < old(self).offset2 + 8),
    {
        let secondary = vector >= self.offset2 && vector - self.offset2 < 8;
        let primary = self.handles_interrupt(vector);
        EoiSignals { vector, primary, secondary }
    }
}

/// Remap and unmask the controller pair once at startup; enabling CPU
/// interrupt delivery afterwards is the mirroring layer's.
pub fn init_hw_interrupts(pics: &mut ChainedPics)
    ensures
        final(pics).offset1 == old(pics).offset1,
        final(pics).offset2 == old(pics).offset2,
        final(pics).mask1 == 0xfc,
        final(pics).mask2 == 0xff,
        final(pics).initialized,
{
    pics.initialize();
}

/// What a handler does once dispatched: whether execution resumes at the
/// interrupted instruction afterwards, and the end-of-interrupt
/// acknowledgment it issues before returning, if any.
#[derive(Clone, Copy, Debug, PartialEq, Eq, Structural)]
pub struct HandlerOutcome {
    pub resumes: bool,
    pub eoi: Option<EoiSignals>,
}

/// The breakpoint exception reports the captured machine state through the
/// display and returns: execution resumes at the instruction after the trap
/// — recoverable by design.
pub fn breakpoint_handler() -> (r: HandlerOutcome)
    ensures
        r.resumes,
        r.eoi is None,
{
    HandlerOutcome { resumes: true, eoi: None }
}

/// A fault while already faulting is unrecoverable: the double-fault handler
/// reports the captured state and halts the machine permanently.  It runs on
/// the dedicated alternate stack installed by `init_idt`.
pub fn double_fault_handler() -> (r: HandlerOutcome)
    ensures
        !r.resumes,
        r.eoi is None,
{
    HandlerOutcome { resumes: false, eoi: None }
}

/// What the page-fault handler reports before halting: the faulting virtual
/// address read from the CPU's fault-address register, and the
/// hardware-supplied error code.
#[derive(Clone, Copy, Debug, PartialEq, Eq, Structural)]
pub struct PageFaultReport {
    pub accessed_address: u64,
    pub error_code: u64,
    pub outcome: HandlerOutcome,
}

/// A page fault is fatal by design — no demand-paging or recovery path
/// exists.  The handler reports the faulting address and error code exactly
/// as the hardware supplied them, then halts permanently.
pub fn pagefault_handler(accessed_address: u64, error_code: u64) -> (r: PageFaultReport)
    ensures
        r.accessed_address == accessed_address,
        r.error_code == error_code,
        !r.outcome.resumes,
        r.outcome.eoi is None,
{
    PageFaultReport {
        accessed_address,
        error_code,
        outcome: HandlerOutcome { resumes: false, eoi: None },
    }
}

/// What one timer interrupt produced: whether the debug tick mark was
/// printed, and the handler outcome.
#[derive(Clone, Copy, Debug, PartialEq, Eq, Structural)]
pub struct TimerIrqOutcome {
    pub printed: bool,
    pub outcome: HandlerOutcome,
}

/// The timer handler prints a tick mark when debug printing is enabled,
/// then — unconditionally — acknowledges its own vector to the controller
/// and returns.
pub fn timer_interrupt_handler(pics: &mut ChainedPics) -> (r: TimerIrqOutcome)
    ensures
        *final(pics) == *old(pics),
        r.outcome.resumes,
        !r.printed,
        r.outcome.eoi == Some(
            (EoiSignals {
                vector: InterruptIndex::Timer.vector_spec(),
                primary: old(pics).handles_spec(InterruptIndex::Timer.vector_spec()),
                secondary: (old(pics).offset2 <= InterruptIndex::Timer.vector_spec() < old(
                    pics,
                ).offset2 + 8),
            }),
        ),
{
    let printed = TIMER_DEBUG_PRINT;
    let signals = pics.notify_end_of_interrupt(InterruptIndex::Timer.as_u8());
    TimerIrqOutcome { printed, outcome: HandlerOutcome { resumes: true, eoi: Some(signals) } }
}

#[verifier::external_type_specification]
#[verifier::external_body]
pub struct ExKeyEvent(pc_keyboard::KeyEvent);

#[verifier::external_type_specification]
#[verifier::external_body]
pub struct ExKeyCode(pc_keyboard::KeyCode);

/// A key as the layout decoded it: a printable character, or a key with no
/// printable equivalent.
pub enum KeyOutput {
    Unicode(char),
    RawKey(pc_keyboard::KeyCode),
}

/// The stateful scancode decoder for the keyboard this kernel services:
/// scancode set 1, UK 105-key layout, control keys passed through.  The
/// decoder itself is the keyboard crate's; its state is opaque here.
#[verifier::external_body]
pub struct KeyboardState {
    inner: pc_keyboard::PS2Keyboard<pc_keyboard::layouts::Uk105Key, pc_keyboard::ScancodeSet1>,
}

/// Relies on pc_keyboard::PS2Keyboard::new: constructs the scancode-set-1,
/// UK-105-key decoder in its start state, with control keys left as keys.
#[verifier::external_body]
fn new_uk_keyboard() -> KeyboardState {
    KeyboardState {
        inner: pc_keyboard::PS2Keyboard::new(
            pc_keyboard::ScancodeSet1::new(),
            pc_keyboard::layouts::Uk105Key,
            pc_keyboard::HandleControl::Ignore,
        ),
    }
}

/// Relies on pc_keyboard::PS2Keyboard::add_byte: advances the decoder by one
/// scancode byte; a complete key event is handed back, anything else — more
/// bytes pending, or a protocol error — yields none, exactly as the handler
/// treats those cases.  What comes back depends on the decoder's internal
/// state, so nothing more is promised of it.
#[verifier::external_body]
fn keyboard_add_byte(kb: &mut KeyboardState, scancode: u8) -> Option<pc_keyboard::KeyEvent> {
    match kb.inner.add_byte(scancode) {
        Ok(Some(event)) => Some(event),
        Ok(None) => None,
        Err(_) => None,
    }
}

/// Relies on pc_keyboard::PS2Keyboard::process_keyevent: applies the layout
/// and modifier state to a key event.  The result depends on the decoder's
/// internal modifier state, so nothing more is promised of it.
#[verifier::external_body]
fn keyboard_process_keyevent(
    kb: &mut KeyboardState,
    event: pc_keyboard::KeyEvent,
) -> Option<KeyOutput> {
    match kb.inner.process_keyevent(event) {
        Some(pc_keyboard::DecodedKey::Unicode(c)) => Some(KeyOutput::Unicode(c)),
        Some(pc_keyboard::DecodedKey::RawKey(k)) => Some(KeyOutput::RawKey(k)),
        None => None,
    }
}

impl KeyboardState {
    /// The decoder in its start state.
    pub fn new() -> KeyboardState {
        new_uk_keyboard()
    }
}

/// What one keyboard interrupt produced: the key the decoder completed on
/// this scancode (if any), whether it was printed, and the handler outcome.
pub struct KeyboardIrqOutcome {
    pub decoded: Option<KeyOutput>,
    pub printed: bool,
    pub outcome: HandlerOutcome,
}

/// The keyboard handler feeds the scancode read from the controller port to
/// the stateful decoder and, when debug printing is enabled, prints the
/// decoded key.  Whatever the decoder produced — a key, nothing, or a
/// protocol error — the handler's final action, unconditionally, is to
/// acknowledge its own vector to the controller; skipping it would starve
/// the keyboard line permanently.
pub fn keyboard_interrupt_handler(
    keyboard: &mut KeyboardState,
    scancode: u8,
    pics: &mut ChainedPics,
) -> (r: KeyboardIrqOutcome)
    ensures
        *final(pics) == *old(pics),
        r.resumes_with_eoi(*old(pics)),
        !r.printed,
{
    let decoded = match keyboard_add_byte(keyboard, scancode) {
        Some(event) => keyboard_process_keyevent(keyboard, event),
        None => None,
    };
    let printed = if KEYBOARD_DEBUG_PRINT {
        matches!(decoded, Some(_))
    } else {
        false
    };
    let signals = pics.notify_end_of_interrupt(InterruptIndex::Keyboard.as_u8());
    KeyboardIrqOutcome { decoded, printed, outcome: HandlerOutcome { resumes: true, eoi: Some(signals) } }
}

impl KeyboardIrqOutcome {
    /// The outcome resumes execution and acknowledges exactly the keyboard
    /// vector against the given controller pair.
    pub open spec fn resumes_with_eoi(self, pics: ChainedPics) -> bool {
        &&& self.outcome.resumes
        &&& self.outcome.eoi == Some(
            (EoiSignals {
                vector: InterruptIndex::Keyboard.vector_spec(),
                primary: pics.handles_spec(InterruptIndex::Keyboard.vector_spec()),
                secondary: (pics.offset2 <= InterruptIndex::Keyboard.vector_spec() < pics.offset2
                    + 8),
            }),
        )
    }
}

} // verus!
