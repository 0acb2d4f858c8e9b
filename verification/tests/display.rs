use bigos::io::vga::{
    init, pop_style, push_style, Color, ColorCode, StyleStack, Writer, BUFFER_ADDR, BUFFER_HEIGHT,
    BUFFER_WIDTH, ERROR, SUCCESS, WARNING,
};
use bigos::memory::BootInfoFrameAllocator;
use bigos::memory::MemoryRegion;
use bigos::memory::MemoryRegionKind;
use bigos::paging::{init_offset_page_table, Page, PageTableFlags, PhysFrame};

#[test]
fn color_code_packs_nibbles() {
    let code = ColorCode::new(Color::Yellow, Color::Black);
    assert_eq!(code.0, 0x0e);
    let code = ColorCode::new(Color::Red, Color::Blue);
    assert_eq!(code.0, 0x14);
}

#[test]
fn color_code_round_trip() {
    let pairs = [
        (Color::Yellow, Color::Black),
        (Color::White, Color::Blue),
        (Color::Black, Color::White),
        (Color::Green, Color::Magenta),
    ];
    for (f, b) in pairs {
        assert_eq!(ColorCode::new(f, b).decode(), (f, b));
    }
}

#[test]
fn writer_places_glyphs_on_the_bottom_row() {
    let mut w = Writer::default();
    w.write_string("hello");
    for (col, ch) in "hello".bytes().enumerate() {
        let cell = w.char_at(BUFFER_HEIGHT - 1, col);
        assert_eq!(cell.ascii_character, ch);
        assert_eq!(cell.color_code.0, 0x0f);
    }
    assert_eq!(w.column(), 5);
}

#[test]
fn writer_newline_pushes_lines_up() {
    let mut w = Writer::default();
    w.write_string("abc\n");
    assert_eq!(w.column(), 0);
    assert_eq!(w.char_at(BUFFER_HEIGHT - 2, 0).ascii_character, b'a');
    assert_eq!(w.char_at(BUFFER_HEIGHT - 2, 1).ascii_character, b'b');
    assert_eq!(w.char_at(BUFFER_HEIGHT - 2, 2).ascii_character, b'c');
    // The bottom row was blanked.
    assert_eq!(w.char_at(BUFFER_HEIGHT - 1, 0).ascii_character, b' ');
}

#[test]
fn writer_wraps_when_the_row_is_full() {
    let mut w = Writer::default();
    for _ in 0..BUFFER_WIDTH {
        w.write_byte(b'x');
    }
    assert_eq!(w.column(), BUFFER_WIDTH);
    w.write_byte(b'y');
    assert_eq!(w.column(), 1);
    assert_eq!(w.char_at(BUFFER_HEIGHT - 2, BUFFER_WIDTH - 1).ascii_character, b'x');
    assert_eq!(w.char_at(BUFFER_HEIGHT - 1, 0).ascii_character, b'y');
}

#[test]
fn writer_shows_a_block_for_unprintable_bytes() {
    let mut w = Writer::default();
    w.write_byte(0x01);
    w.write_byte(0x9c);
    assert_eq!(w.char_at(BUFFER_HEIGHT - 1, 0).ascii_character, 0xfe);
    assert_eq!(w.char_at(BUFFER_HEIGHT - 1, 1).ascii_character, 0xfe);
}

#[test]
fn writer_survives_many_lines() {
    let mut w = Writer::default();
    for _ in 0..200 {
        w.write_string("many lines\n");
    }
    assert_eq!(w.char_at(BUFFER_HEIGHT - 2, 0).ascii_character, b'm');
    assert_eq!(w.char_at(BUFFER_HEIGHT - 1, 0).ascii_character, b' ');
}

#[test]
fn reporting_styles_carry_their_colours() {
    assert_eq!(ERROR, (Color::Red, Color::Black));
    assert_eq!(WARNING, (Color::Yellow, Color::Black));
    assert_eq!(SUCCESS, (Color::Green, Color::Black));
    assert_eq!(ColorCode::new(ERROR.0, ERROR.1).0, 0x04);
}

#[test]
fn init_records_the_startup_style_as_stack_base() {
    let mut w = Writer::new(ColorCode::new(Color::Cyan, Color::Blue));
    let mut styles = StyleStack::new();
    init(&mut w, &mut styles);
    assert_eq!(styles.count, 1);
    assert_eq!(styles.stack[0], ColorCode::new(Color::Cyan, Color::Blue));
    // A push and its pop land back on the recorded startup style.
    push_style(&mut w, &mut styles, WARNING.0, WARNING.1);
    pop_style(&mut w, &mut styles);
    assert_eq!(w.char_at(0, 0).ascii_character, b' ');
    w.write_string("x");
    assert_eq!(
        w.char_at(BUFFER_HEIGHT - 1, 0).color_code,
        ColorCode::new(Color::Cyan, Color::Blue)
    );
}

#[test]
fn styles_nest_and_restore() {
    let mut w = Writer::default();
    let mut styles = StyleStack::new();
    init(&mut w, &mut styles);
    assert_eq!(w.char_at(0, 0).ascii_character, b' ');

    push_style(&mut w, &mut styles, Color::Red, Color::Black);
    w.write_string("E");
    assert_eq!(w.char_at(BUFFER_HEIGHT - 1, 0).color_code.0, 0x04);

    push_style(&mut w, &mut styles, Color::Yellow, Color::Black);
    w.write_string("W");
    assert_eq!(w.char_at(BUFFER_HEIGHT - 1, 1).color_code.0, 0x0e);

    pop_style(&mut w, &mut styles);
    w.write_string("e");
    assert_eq!(w.char_at(BUFFER_HEIGHT - 1, 2).color_code.0, 0x04);

    pop_style(&mut w, &mut styles);
    w.write_string("n");
    assert_eq!(w.char_at(BUFFER_HEIGHT - 1, 3).color_code.0, 0x0f);
}

#[test]
fn mapping_the_display_frame_and_writing_a_pattern() {
    // Map a page onto the frame holding the text-mode buffer, check the
    // translation lands on the buffer, and write a fixed 8-byte pattern: the
    // model shows the pattern's glyphs at the corresponding cells.
    let mut mapper = init_offset_page_table(0, 0x1000);
    let mut alloc = BootInfoFrameAllocator::init(vec![MemoryRegion {
        start: 0x10_0000,
        end: 0x10_0000 + 64 * 4096,
        kind: MemoryRegionKind::Usable,
    }]);
    let page = Page::containing_address(0x4000_0000);
    let frame = PhysFrame::containing_address(BUFFER_ADDR as u64);
    let flags = PageTableFlags::present_writable();
    mapper.map_to(page, frame, flags, &mut alloc).expect("mapping failed").flush();
    for offset in 0..8u64 {
        assert_eq!(
            mapper.translate_addr(0x4000_0000 + offset),
            Some(BUFFER_ADDR as u64 + offset)
        );
    }

    let pattern = b"ABCDEFGH";
    let mut w = Writer::default();
    for &byte in pattern {
        w.write_byte(byte);
    }
    for (col, &byte) in pattern.iter().enumerate() {
        assert_eq!(w.char_at(BUFFER_HEIGHT - 1, col).ascii_character, byte);
    }
}
