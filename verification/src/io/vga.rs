//! Text-mode display writer.
//!
//! The display is a fixed grid of 25 rows by 80 columns; each cell holds one
//! glyph byte and one colour attribute byte, in the exact bit layout the
//! text-mode hardware reads.  The writer fills the bottom row from left to
//! right; a new line pushes every row up by one and blanks the bottom row.
//! The grid is held here as plain data; mirroring it into the fixed frame
//! buffer is the hardware layer's.

use vstd::prelude::*;
use vstd::string::StringSliceAdditionalSpecFns;

verus! {

/// Number of text rows on the display.
pub const BUFFER_HEIGHT: usize = 25;

/// Number of text columns on the display.
pub const BUFFER_WIDTH: usize = 80;

/// Physical base address of the text-mode frame buffer.
pub const BUFFER_ADDR: usize = 0xb8000;

/// The sixteen text-mode colours, in their hardware numbering.
#[derive(Clone, Copy, Debug, PartialEq, Eq, Structural)]
pub enum Color {
    Black,
    Blue,
    Green,
    Cyan,
    Red,
    Magenta,
    Brown,
    LightGray,
    DarkGray,
    LightBlue,
    LightGreen,
    LightCyan,
    LightRed,
    Pink,
    Yellow,
    White,
}

impl Color {
    /// The 4-bit hardware code of this colour.
    pub open spec fn code_spec(self) -> u8 {
        match self {
            Color::Black => 0,
            Color::Blue => 1,
            Color::Green => 2,
            Color::Cyan => 3,
            Color::Red => 4,
            Color::Magenta => 5,
            Color::Brown => 6,
            Color::LightGray => 7,
            Color::DarkGray => 8,
            Color::LightBlue => 9,
            Color::LightGreen => 10,
            Color::LightCyan => 11,
            Color::LightRed => 12,
            Color::Pink => 13,
            Color::Yellow => 14,
            Color::White => 15,
        }
    }

    /// The 4-bit hardware code of this colour.
    pub fn code(self) -> (r: u8)
        ensures
            r == self.code_spec(),
            r < 16,
    {
        match self {
            Color::Black => 0,
            Color::Blue => 1,
            Color::Green => 2,
            Color::Cyan => 3,
            Color::Red => 4,
            Color::Magenta => 5,
            Color::Brown => 6,
            Color::LightGray => 7,
            Color::DarkGray => 8,
            Color::LightBlue => 9,
            Color::LightGreen => 10,
            Color::LightCyan => 11,
            Color::LightRed => 12,
            Color::Pink => 13,
            Color::Yellow => 14,
            Color::White => 15,
        }
    }

    /// The colour with the given 4-bit hardware code.
    pub fn from_code(v: u8) -> (r: Color)
        requires
            v < 16,
        ensures
            r.code_spec() == v,
    {
        match v {
            0 => Color::Black,
            1 => Color::Blue,
            2 => Color::Green,
            3 => Color::Cyan,
            4 => Color::Red,
            5 => Color::Magenta,
            6 => Color::Brown,
            7 => Color::LightGray,
            8 => Color::DarkGray,
            9 => Color::LightBlue,
            10 => Color::LightGreen,
            11 => Color::LightCyan,
            12 => Color::LightRed,
            13 => Color::Pink,
            14 => Color::Yellow,
            _ => Color::White,
        }
    }
}

/// A cell's colour attribute byte: background colour in the high nibble,
/// foreground colour in the low nibble — the exact hardware bit layout.
#[derive(Clone, Copy, Debug, PartialEq, Eq, Structural)]
pub struct ColorCode(pub u8);

/// The attribute byte encoding background `b` over foreground `f`.
pub open spec fn color_code_spec(f: Color, b: Color) -> ColorCode {
    ColorCode((b.code_spec() * 16 + f.code_spec()) as u8)
}

/// The attribute byte of the default style: white on black.
pub open spec fn default_color_spec() -> ColorCode {
    ColorCode(0x0f)
}

impl ColorCode {
    /// Pack a foreground and a background colour into one attribute byte.
    pub fn new(foreground: Color, background: Color) -> (r: ColorCode)
        ensures
            r == color_code_spec(foreground, background),
    {
        let f = foreground.code();
        let b = background.code();
        proof {
            assert((b << 4) | f == b * 16 + f) by (bit_vector)
                requires
                    f < 16,
                    b < 16,
            ;
        }
        ColorCode((b << 4) | f)
    }

    /// Unpack the attribute byte into its (foreground, background) pair.
    pub fn decode(&self) -> (r: (Color, Color))
        ensures
            r.0.code_spec() == self.0 % 16,
            r.1.code_spec() == self.0 / 16,
    {
        let v = self.0;
        proof {
            assert(v & 0x0f == v % 16 && v & 0x0f < 16 && (v & 0xf0) >> 4 == v / 16 && (v & 0xf0)
                >> 4 < 16) by (bit_vector);
        }
        let foreground = Color::from_code(v & 0x0f);
        let background = Color::from_code((v & 0xf0) >> 4);
        (foreground, background)
    }
}

impl Default for ColorCode {
    /// The default style: white on black.
    fn default() -> (r: ColorCode)
        ensures
            r == default_color_spec(),
    {
        ColorCode::new(Color::White, Color::Black)
    }
}

/// Law: packing two colours into an attribute byte and unpacking it yields
/// the colours back — the attribute byte is a faithful serialization of the
/// pair.
pub proof fn lemma_color_code_round_trip(f: Color, b: Color)
    ensures
        color_code_spec(f, b).0 % 16 == f.code_spec(),
        color_code_spec(f, b).0 / 16 == b.code_spec(),
{
    let v = color_code_spec(f, b).0;
    assert(v == b.code_spec() * 16 + f.code_spec());
    assert((b.code_spec() * 16 + f.code_spec()) % 16 == f.code_spec() && (b.code_spec() * 16
        + f.code_spec()) / 16 == b.code_spec()) by (nonlinear_arith)
        requires
            f.code_spec() < 16,
            b.code_spec() < 16,
    ;
}

/// A (foreground, background) pair of the styled reporting.
pub type ColorPair = (Color, Color);

/// Style of error reports.
pub const ERROR: ColorPair = (Color::Red, Color::Black);

/// Style of warning reports.
pub const WARNING: ColorPair = (Color::Yellow, Color::Black);

/// Style of success reports.
pub const SUCCESS: ColorPair = (Color::Green, Color::Black);

/// Depth of the style stack.
pub const STYLE_STACK_SIZE: usize = 32;

/// A bounded stack of styles, so that nested reporting (an error inside a
/// warning) can restore the enclosing style on the way out.  The stack holds
/// a fixed array of attribute bytes and a count of the live entries.
pub struct StyleStack {
    pub stack: Vec<ColorCode>,
    pub count: usize,
}

impl StyleStack {
    pub open spec fn wf(self) -> bool {
        self.stack@.len() == STYLE_STACK_SIZE && self.count <= STYLE_STACK_SIZE
    }

    /// An empty style stack, its slots blanked to the default style.
    pub fn new() -> (r: StyleStack)
        ensures
            r.wf(),
            r.count == 0,
            forall|i: int|
                0 <= i < STYLE_STACK_SIZE ==> #[trigger] r.stack@[i] == default_color_spec(),
    {
        let mut stack: Vec<ColorCode> = Vec::new();
        while stack.len() < STYLE_STACK_SIZE
            invariant
                stack@.len() <= STYLE_STACK_SIZE,
                forall|i: int| 0 <= i < stack@.len() ==> #[trigger] stack@[i] == default_color_spec(),
            decreases STYLE_STACK_SIZE - stack@.len(),
        {
            stack.push(ColorCode::default());
        }
        StyleStack { stack, count: 0 }
    }

    /// Push the style packed from the two colours and return it.  A full
    /// stack overflows silently: the new style is returned (and becomes the
    /// writer's) but is not recorded, so the matching pop restores a deeper
    /// style.
    pub fn push(&mut self, fg_color: Color, bg_color: Color) -> (r: ColorCode)
        requires
            old(self).wf(),
        ensures
            final(self).wf(),
            r == color_code_spec(fg_color, bg_color),
            old(self).count < STYLE_STACK_SIZE ==> {
                &&& final(self).stack@ == old(self).stack@.update(old(self).count as int, r)
                &&& final(self).count == old(self).count + 1
            },
            old(self).count >= STYLE_STACK_SIZE ==> *final(self) == *old(self),
    {
        let color_code = ColorCode::new(fg_color, bg_color);
        if self.count < STYLE_STACK_SIZE {
            self.stack[self.count] = color_code;
            self.count = self.count + 1;
            color_code
        } else {
            color_code
        }
    }

    /// Pop the current style and return the style that becomes current: the
    /// entry below the popped one, or the default style when the stack is at
    /// its base.
    pub fn pop(&mut self) -> (r: ColorCode)
        requires
            old(self).wf(),
        ensures
            final(self).wf(),
            final(self).stack == old(self).stack,
            old(self).count > 1 ==> {
                &&& final(self).count == old(self).count - 1
                &&& r == old(self).stack@[old(self).count - 2]
            },
            old(self).count <= 1 ==> {
                &&& final(self).count == old(self).count
                &&& r == default_color_spec()
            },
    {
        if self.count > 1 {
            self.count = self.count - 1;
            self.stack[self.count - 1]
        } else {
            ColorCode::default()
        }
    }
}

/// One cell of the display: a glyph byte and its colour attribute byte, in
/// the layout the hardware reads.
#[derive(Clone, Copy, Debug, PartialEq, Eq, Structural)]
pub struct ScreenChar {
    pub ascii_character: u8,
    pub color_code: ColorCode,
}

/// The display grid: 25 rows of 80 cells.
pub struct Buffer {
    pub chars: Vec<Vec<ScreenChar>>,
}

/// The abstract state of the writer: the grid of cells, the column the next
/// glyph lands in, and the current colour attribute.
pub ghost struct WriterView {
    pub grid: Seq<Seq<ScreenChar>>,
    pub col: int,
    pub color: ColorCode,
}

/// The blank cell: a space in the default style.
pub open spec fn blank_char_spec() -> ScreenChar {
    ScreenChar { ascii_character: 0x20, color_code: default_color_spec() }
}

/// A whole row of blank cells.
pub open spec fn blank_row_spec() -> Seq<ScreenChar> {
    Seq::new(80, |c: int| blank_char_spec())
}

/// The grid after a line feed: every row moves up by one, the bottom row is
/// blanked.
pub open spec fn scroll_spec(g: Seq<Seq<ScreenChar>>) -> Seq<Seq<ScreenChar>> {
    Seq::new(g.len(), |r: int| if r + 1 < g.len() { g[r + 1] } else { blank_row_spec() })
}

/// The writer after a line feed: scrolled grid, cursor back at column zero,
/// colour kept.
pub open spec fn new_line_spec(w: WriterView) -> WriterView {
    WriterView { grid: scroll_spec(w.grid), col: 0, color: w.color }
}

/// The writer after one glyph is placed: the glyph lands at the cursor in
/// the bottom row, wrapping to a fresh line first when the row is full.
pub open spec fn put_glyph_spec(w: WriterView, glyph: u8) -> WriterView {
    let w2 = if w.col >= 80 {
        new_line_spec(w)
    } else {
        w
    };
    WriterView {
        grid: w2.grid.update(
            24,
            w2.grid[24].update(w2.col, ScreenChar { ascii_character: glyph, color_code: w.color }),
        ),
        col: w2.col + 1,
        color: w.color,
    }
}

/// The writer after one byte: a line feed scrolls; a printable byte lands at
/// the cursor; any other byte is shown as the block glyph.
pub open spec fn write_byte_spec(w: WriterView, byte: u8) -> WriterView {
    if byte == 0x0a {
        new_line_spec(w)
    } else if 0x20 <= byte <= 0x7e {
        put_glyph_spec(w, byte)
    } else {
        put_glyph_spec(w, 0xfe)
    }
}

/// The writer after a whole sequence of bytes, first to last.
pub open spec fn write_bytes_spec(w: WriterView, bs: Seq<u8>) -> WriterView
    decreases bs.len(),
{
    if bs.len() == 0 {
        w
    } else {
        write_bytes_spec(write_byte_spec(w, bs[0]), bs.skip(1))
    }
}

/// Writing the first `i + 1` bytes is writing the first `i` and then byte
/// `i`.
pub proof fn lemma_write_bytes_snoc(w: WriterView, bs: Seq<u8>, i: int)
    requires
        0 <= i < bs.len(),
    ensures
        write_bytes_spec(w, bs.take(i + 1)) == write_byte_spec(write_bytes_spec(w, bs.take(i)), bs[i]),
    decreases i,
{
    if i == 0 {
        assert(bs.take(0) =~= Seq::<u8>::empty());
        assert(bs.take(1).skip(1) =~= Seq::<u8>::empty());
        assert(bs.take(1)[0] == bs[0]);
        assert(write_bytes_spec(w, bs.take(0)) == w);
        let w1 = write_byte_spec(w, bs[0]);
        assert(write_bytes_spec(w1, bs.take(1).skip(1)) == w1);
        assert(write_bytes_spec(w, bs.take(1)) == w1);
    } else {
        let w1 = write_byte_spec(w, bs[0]);
        lemma_write_bytes_snoc(w1, bs.skip(1), i - 1);
        assert(bs.take(i + 1)[0] == bs[0]);
        assert(bs.take(i)[0] == bs[0]);
        assert(bs.take(i + 1).skip(1) =~= bs.skip(1).take(i));
        assert(bs.take(i).skip(1) =~= bs.skip(1).take(i - 1));
        assert(bs.skip(1)[i - 1] == bs[i]);
        assert(write_bytes_spec(w, bs.take(i + 1)) == write_bytes_spec(w1, bs.skip(1).take(i)));
        assert(write_bytes_spec(w, bs.take(i)) == write_bytes_spec(w1, bs.skip(1).take(i - 1)));
    }
}

/// A writer that fills the display from the bottom row up: new lines push
/// existing lines upwards.
pub struct Writer {
    pub column_position: usize,
    pub color_code: ColorCode,
    pub buffer: Buffer,
}

impl View for Writer {
    type V = WriterView;

    open spec fn view(&self) -> WriterView {
        WriterView {
            grid: Seq::new(
                self.buffer.chars@.len(),
                |r: int| self.buffer.chars@[r]@,
            ),
            col: self.column_position as int,
            color: self.color_code,
        }
    }
}

/// A whole row of blank cells.
fn make_blank_row() -> (r: Vec<ScreenChar>)
    ensures
        r@ == blank_row_spec(),
{
    let blank = ScreenChar { ascii_character: 0x20, color_code: ColorCode::default() };
    let mut row: Vec<ScreenChar> = Vec::new();
    while row.len() < BUFFER_WIDTH
        invariant
            blank == blank_char_spec(),
            row@.len() <= 80,
            forall|c: int| 0 <= c < row@.len() ==> #[trigger] row@[c] == blank_char_spec(),
        decreases 80 - row@.len(),
    {
        row.push(blank);
    }
    proof {
        assert(row@ =~= blank_row_spec());
    }
    row
}

impl Writer {
    /// The grid is full-size and the cursor within the row.
    pub open spec fn wf(self) -> bool {
        &&& self.buffer.chars@.len() == 25
        &&& forall|r: int| 0 <= r < 25 ==> #[trigger] self.buffer.chars@[r]@.len() == 80
        &&& self.column_position <= 80
    }

    /// A writer over a blank display, in the given style.
    pub fn new(color_code: ColorCode) -> (w: Writer)
        ensures
            w.wf(),
            w@.col == 0,
            w@.color == color_code,
            forall|r: int| 0 <= r < 25 ==> #[trigger] w@.grid[r] == blank_row_spec(),
    {
        let mut chars: Vec<Vec<ScreenChar>> = Vec::new();
        while chars.len() < BUFFER_HEIGHT
            invariant
                chars@.len() <= 25,
                forall|r: int| 0 <= r < chars@.len() ==> #[trigger] chars@[r]@ == blank_row_spec(),
            decreases 25 - chars@.len(),
        {
            chars.push(make_blank_row());
        }
        Writer { column_position: 0, color_code, buffer: Buffer { chars } }
    }

    /// Read one cell of the grid.
    pub fn char_at(&self, row: usize, col: usize) -> (r: ScreenChar)
        requires
            self.wf(),
            row < 25,
            col < 80,
        ensures
            r == self@.grid[row as int][col as int],
    {
        self.buffer.chars[row][col]
    }

    /// The column the next glyph lands in.
    pub fn column(&self) -> (r: usize)
        ensures
            r == self@.col,
    {
        self.column_position
    }

    /// Blank one row of the grid.
    fn clear_row(&mut self, row: usize)
        requires
            old(self).wf(),
            row < 25,
        ensures
            final(self).wf(),
            final(self)@.grid == old(self)@.grid.update(row as int, blank_row_spec()),
            final(self)@.col == old(self)@.col,
            final(self)@.color == old(self)@.color,
    {
        let blank_row = make_blank_row();
        self.buffer.chars[row] = blank_row;
        proof {
            assert(self@.grid =~= old(self)@.grid.update(row as int, blank_row_spec()));
        }
    }

    /// Push every row up by one, blank the bottom row, and return the cursor
    /// to column zero.
    fn new_line(&mut self)
        requires
            old(self).wf(),
        ensures
            final(self).wf(),
            final(self)@ == new_line_spec(old(self)@),
    {
        let first = self.buffer.chars.remove(0);
        self.buffer.chars.push(first);
        self.clear_row(BUFFER_HEIGHT - 1);
        self.column_position = 0;
        proof {
            assert(self@.grid =~= scroll_spec(old(self)@.grid));
        }
    }

    /// Place one glyph at the cursor in the bottom row, wrapping to a fresh
    /// line first when the row is full.
    fn put_glyph(&mut self, glyph: u8)
        requires
            old(self).wf(),
        ensures
            final(self).wf(),
            final(self)@ == put_glyph_spec(old(self)@, glyph),
    {
        if self.column_position >= BUFFER_WIDTH {
            self.new_line();
        }
        let col = self.column_position;
        let cell = ScreenChar { ascii_character: glyph, color_code: self.color_code };
        let ghost mid = self@;
        let mut last = self.buffer.chars.pop().unwrap();
        last[col] = cell;
        self.buffer.chars.push(last);
        self.column_position = col + 1;
        proof {
            assert(self@.grid =~= mid.grid.update(24, mid.grid[24].update(col as int, cell)));
        }
    }

    /// Write one byte: a line feed scrolls; a printable byte lands at the
    /// cursor; any other byte is shown as the block glyph.
    pub fn write_byte(&mut self, byte: u8)
        requires
            old(self).wf(),
        ensures
            final(self).wf(),
            final(self)@ == write_byte_spec(old(self)@, byte),
    {
        match byte {
            0x0a => self.new_line(),
            0x20..=0x7e => self.put_glyph(byte),
            _ => self.put_glyph(0xfe),
        }
    }

    /// Write every byte of the string in order.
    pub fn write_string(&mut self, s: &str)
        requires
            old(self).wf(),
        ensures
            final(self).wf(),
            final(self)@ == write_bytes_spec(old(self)@, s.spec_bytes()),
    {
        let bytes = s.as_bytes();
        let mut i: usize = 0;
        while i < bytes.len()
            invariant
                i <= bytes@.len(),
                bytes@ == s.spec_bytes(),
                self.wf(),
                self@ == write_bytes_spec(old(self)@, bytes@.take(i as int)),
            decreases bytes@.len() - i,
        {
            proof {
                lemma_write_bytes_snoc(old(self)@, bytes@, i as int);
            }
            self.write_byte(bytes[i]);
            i = i + 1;
        }
        proof {
            assert(bytes@.take(bytes@.len() as int) =~= bytes@);
        }
    }

    /// Switch the writer's colour attribute.
    pub fn change_color(&mut self, fg_color: Color, bg_color: Color)
        ensures
            final(self)@.color == color_code_spec(fg_color, bg_color),
            final(self)@.grid == old(self)@.grid,
            final(self)@.col == old(self)@.col,
            final(self).wf() == old(self).wf(),
    {
        self.color_code = ColorCode::new(fg_color, bg_color);
    }
}

impl Default for Writer {
    /// A writer over a blank display, in the default style.
    fn default() -> (w: Writer)
        ensures
            w.wf(),
            w@.col == 0,
            w@.color == default_color_spec(),
            forall|r: int| 0 <= r < 25 ==> #[trigger] w@.grid[r] == blank_row_spec(),
    {
        Writer::new(ColorCode::default())
    }
}

/// Write formatted text to the display writer.
pub fn _vga_print(writer: &mut Writer, s: &str)
    requires
        old(writer).wf(),
    ensures
        final(writer).wf(),
        final(writer)@ == write_bytes_spec(old(writer)@, s.spec_bytes()),
{
    writer.write_string(s);
}

/// Push a style onto the stack and make it the writer's current colour.
pub fn push_style(writer: &mut Writer, styles: &mut StyleStack, fg: Color, bg: Color)
    requires
        old(styles).wf(),
    ensures
        final(styles).wf(),
        final(writer)@.color == color_code_spec(fg, bg),
        final(writer)@.grid == old(writer)@.grid,
        final(writer)@.col == old(writer)@.col,
        final(writer).wf() == old(writer).wf(),
        old(styles).count < STYLE_STACK_SIZE ==> {
            &&& final(styles).stack@ == old(styles).stack@.update(
                old(styles).count as int,
                color_code_spec(fg, bg),
            )
            &&& final(styles).count == old(styles).count + 1
        },
        old(styles).count >= STYLE_STACK_SIZE ==> *final(styles) == *old(styles),
{
    let color_code = styles.push(fg, bg);
    writer.color_code = color_code;
}

/// Pop the current style and restore the one beneath it as the writer's
/// colour.
pub fn pop_style(writer: &mut Writer, styles: &mut StyleStack)
    requires
        old(styles).wf(),
    ensures
        final(styles).wf(),
        final(styles).stack == old(styles).stack,
        final(writer)@.grid == old(writer)@.grid,
        final(writer)@.col == old(writer)@.col,
        final(writer).wf() == old(writer).wf(),
        old(styles).count > 1 ==> {
            &&& final(styles).count == old(styles).count - 1
            &&& final(writer)@.color == old(styles).stack@[old(styles).count - 2]
        },
        old(styles).count <= 1 ==> {
            &&& final(styles).count == old(styles).count
            &&& final(writer)@.color == default_color_spec()
        },
{
    writer.color_code = styles.pop();
}

/// Record the writer's boot-time style as the base of the style stack, so
/// that the first pop restores it rather than an arbitrary default.
pub fn init(writer: &mut Writer, styles: &mut StyleStack)
    requires
        old(styles).wf(),
    ensures
        final(styles).wf(),
        final(writer)@.grid == old(writer)@.grid,
        final(writer)@.col == old(writer)@.col,
        final(writer)@.color == old(writer)@.color,
        final(writer).wf() == old(writer).wf(),
        old(styles).count < STYLE_STACK_SIZE ==> {
            &&& final(styles).count == old(styles).count + 1
            &&& final(styles).stack@ == old(styles).stack@.update(
                old(styles).count as int,
                old(writer)@.color,
            )
        },
        old(styles).count >= STYLE_STACK_SIZE ==> *final(styles) == *old(styles),
{
    let init_colors = writer.color_code.decode();
    let ghost before = writer.color_code;
    push_style(writer, styles, init_colors.0, init_colors.1);
    proof {
        assert(writer@.color == before) by {
            assert(color_code_spec(init_colors.0, init_colors.1).0 == before.0) by (
            nonlinear_arith)
                requires
                    init_colors.0.code_spec() == before.0 % 16,
                    init_colors.1.code_spec() == before.0 / 16,
                    color_code_spec(init_colors.0, init_colors.1).0 == (init_colors.1.code_spec()
                        * 16 + init_colors.0.code_spec()) as u8,
                    init_colors.0.code_spec() < 16,
                    before.0 < 256,
            ;
        }
    }
}

} // verus!
