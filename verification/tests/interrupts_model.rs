use bigos::init;
use bigos::interrupts::{
    breakpoint_handler, double_fault_handler, init_hw_interrupts, init_idt,
    keyboard_interrupt_handler, pagefault_handler, timer_interrupt_handler, ChainedPics,
    HandlerId, InterruptIndex, KeyOutput, KeyboardState, BREAKPOINT_VECTOR, DOUBLE_FAULT_VECTOR,
    PAGE_FAULT_VECTOR, PIC_1_OFFSET, PIC_2_OFFSET,
};

#[test]
fn vector_table_holds_exactly_the_installed_handlers() {
    let idt = init_idt(7);
    let bp = idt.entry(BREAKPOINT_VECTOR).expect("breakpoint entry missing");
    assert_eq!(bp.handler, HandlerId::Breakpoint);
    assert_eq!(bp.stack_index, None);
    let df = idt.entry(DOUBLE_FAULT_VECTOR).expect("double-fault entry missing");
    assert_eq!(df.handler, HandlerId::DoubleFault);
    assert_eq!(df.stack_index, Some(7));
    let pf = idt.entry(PAGE_FAULT_VECTOR).expect("page-fault entry missing");
    assert_eq!(pf.handler, HandlerId::PageFault);
    assert_eq!(pf.stack_index, None);
    let timer = idt.entry(InterruptIndex::Timer.as_u8()).expect("timer entry missing");
    assert_eq!(timer.handler, HandlerId::Timer);
    let keyboard = idt.entry(InterruptIndex::Keyboard.as_u8()).expect("keyboard entry missing");
    assert_eq!(keyboard.handler, HandlerId::Keyboard);
    for v in [0u8, 1, 2, 13, 31, 34, 100, 255] {
        assert!(idt.entry(v).is_none());
    }
}

#[test]
fn hardware_vectors_sit_past_the_reserved_exceptions() {
    assert_eq!(InterruptIndex::Timer.as_u8(), 32);
    assert_eq!(InterruptIndex::Keyboard.as_u8(), 33);
    assert!(PIC_1_OFFSET >= 32 && PIC_2_OFFSET >= 32);
}

#[test]
fn startup_builds_table_and_remaps_controller() {
    let (idt, pics) = init(3);
    assert_eq!(idt.entry(DOUBLE_FAULT_VECTOR).unwrap().stack_index, Some(3));
    assert_eq!(pics.offset1, 32);
    assert_eq!(pics.offset2, 40);
    assert!(pics.initialized);
    // The serviced lines — timer and keyboard — come out unmasked, and
    // nothing else does.
    assert_eq!(pics.mask1, 0xfc);
    assert_eq!(pics.mask2, 0xff);
    assert!(pics.line_enabled(32));
    assert!(pics.line_enabled(33));
    for v in 34..48u8 {
        assert!(!pics.line_enabled(v));
    }
}

#[test]
fn controller_lines_stay_masked_until_initialized() {
    let pics = ChainedPics::new(PIC_1_OFFSET, PIC_2_OFFSET);
    assert_eq!(pics.mask1, 0xff);
    assert_eq!(pics.mask2, 0xff);
    assert!(!pics.line_enabled(32));
    assert!(!pics.line_enabled(33));
}

#[test]
fn controller_claims_only_its_two_vector_ranges() {
    let mut pics = ChainedPics::new(PIC_1_OFFSET, PIC_2_OFFSET);
    init_hw_interrupts(&mut pics);
    for v in 32..48u8 {
        assert!(pics.handles_interrupt(v));
    }
    for v in [0u8, 16, 31, 48, 100, 255] {
        assert!(!pics.handles_interrupt(v));
    }
}

#[test]
fn breakpoint_resumes_execution() {
    let outcome = breakpoint_handler();
    assert!(outcome.resumes);
    assert!(outcome.eoi.is_none());
}

#[test]
fn double_fault_and_page_fault_halt() {
    assert!(!double_fault_handler().resumes);
    let report = pagefault_handler(0xdead_beef, 0b10);
    assert_eq!(report.accessed_address, 0xdead_beef);
    assert_eq!(report.error_code, 0b10);
    assert!(!report.outcome.resumes);
}

#[test]
fn timer_acknowledges_its_own_vector() {
    let mut pics = ChainedPics::new(PIC_1_OFFSET, PIC_2_OFFSET);
    init_hw_interrupts(&mut pics);
    let r = timer_interrupt_handler(&mut pics);
    assert!(r.outcome.resumes);
    assert!(!r.printed);
    let eoi = r.outcome.eoi.expect("timer must acknowledge");
    assert_eq!(eoi.vector, 32);
    assert!(eoi.primary);
    assert!(!eoi.secondary);
}

#[test]
fn keyboard_decodes_a_scancode_and_acknowledges() {
    let mut pics = ChainedPics::new(PIC_1_OFFSET, PIC_2_OFFSET);
    init_hw_interrupts(&mut pics);
    let mut keyboard = KeyboardState::new();
    // Scancode-set-1 make code 0x1E: the A key.
    let r = keyboard_interrupt_handler(&mut keyboard, 0x1e, &mut pics);
    match r.decoded {
        Some(KeyOutput::Unicode(c)) => assert_eq!(c, 'a'),
        other => panic!("expected a decoded 'a', got {:?}", other.is_some()),
    }
    assert!(!r.printed);
    assert!(r.outcome.resumes);
    let eoi = r.outcome.eoi.expect("keyboard must acknowledge");
    assert_eq!(eoi.vector, 33);
    assert!(eoi.primary);
    assert!(!eoi.secondary);
}

#[test]
fn keyboard_acknowledges_even_when_nothing_decodes() {
    let mut pics = ChainedPics::new(PIC_1_OFFSET, PIC_2_OFFSET);
    init_hw_interrupts(&mut pics);
    let mut keyboard = KeyboardState::new();
    // 0xE0 is an extended-code prefix: no key completes on it.
    let r = keyboard_interrupt_handler(&mut keyboard, 0xe0, &mut pics);
    assert!(r.decoded.is_none());
    let eoi = r.outcome.eoi.expect("keyboard must acknowledge regardless");
    assert_eq!(eoi.vector, 33);
}
