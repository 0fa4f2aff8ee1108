//! VGA text-mode writer: a 80x25 grid of characters with a cursor that wraps,
//! scrolls and handles backspace. The grid is kept here as plain memory; the
//! driver copies it to the hardware text buffer.
use vstd::prelude::*;
use vstd::string::StringSliceAdditionalSpecFns;

verus! {

pub const VGA_WIDTH: usize = 80;

pub const VGA_HEIGHT: usize = 25;

/// Number of character cells on the screen.
pub const VGA_CELLS: usize = 2000;

/// The 16 colours of VGA text mode.
#[derive(Clone, Copy, Debug, PartialEq, Eq, Structural)]
pub enum Color {
    Black,
    Blue,
    Green,
    Cyan,
    Red,
    Magenta,
    Brown,
    LightGray,
    DarkGray,
    LightBlue,
    LightGreen,
    LightCyan,
    LightRed,
    Pink,
    Yellow,
    White,
}

/// The hardware number of a colour.
pub open spec fn color_value(c: Color) -> u8 {
    match c {
        Color::Black => 0,
        Color::Blue => 1,
        Color::Green => 2,
        Color::Cyan => 3,
        Color::Red => 4,
        Color::Magenta => 5,
        Color::Brown => 6,
        Color::LightGray => 7,
        Color::DarkGray => 8,
        Color::LightBlue => 9,
        Color::LightGreen => 10,
        Color::LightCyan => 11,
        Color::LightRed => 12,
        Color::Pink => 13,
        Color::Yellow => 14,
        Color::White => 15,
    }
}

impl Color {
    /// The hardware number of this colour.
    pub fn value(self) -> (r: u8)
        ensures
            r == color_value(self),
    {
        match self {
            Color::Black => 0,
            Color::Blue => 1,
            Color::Green => 2,
            Color::Cyan => 3,
            Color::Red => 4,
            Color::Magenta => 5,
            Color::Brown => 6,
            Color::LightGray => 7,
            Color::DarkGray => 8,
            Color::LightBlue => 9,
            Color::LightGreen => 10,
            Color::LightCyan => 11,
            Color::LightRed => 12,
            Color::Pink => 13,
            Color::Yellow => 14,
            Color::White => 15,
        }
    }
}

/// A foreground/background colour pair as the hardware stores it.
#[derive(Clone, Copy, Debug, PartialEq, Eq, Structural)]
pub struct ColorCode(pub u8);

/// The colour code of a foreground/background pair.
pub open spec fn color_code_of(fg: Color, bg: Color) -> ColorCode {
    ColorCode((color_value(bg) * 16 + color_value(fg)) as u8)
}

impl ColorCode {
    /// Background in the high nibble, foreground in the low nibble.
    pub fn new(fg: Color, bg: Color) -> (r: ColorCode)
        ensures
            r == color_code_of(fg, bg),
            r.0 == color_value(bg) * 16 + color_value(fg),
    {
        let f = fg.value();
        let b = bg.value();
        assert(b < 16 && f < 16 ==> ((b << 4u8) | f) == b * 16 + f) by (bit_vector);
        ColorCode((b << 4u8) | f)
    }
}

/// One character cell: the character and its colours.
#[derive(Clone, Copy, Debug, PartialEq, Eq, Structural)]
pub struct ScreenChar {
    pub ascii_char: u8,
    pub color_code: ColorCode,
}

/// The abstract state of a writer: cursor, colours and the cells, row after row.
pub struct Screen {
    pub row: int,
    pub col: int,
    pub color: ColorCode,
    pub cells: Seq<ScreenChar>,
}

impl Screen {
    /// Cursor inside the screen (the column may sit just past the last one)
    /// and exactly one cell per position.
    pub open spec fn wf(self) -> bool {
        &&& 0 <= self.row < VGA_HEIGHT
        &&& 0 <= self.col <= VGA_WIDTH
        &&& self.cells.len() == VGA_CELLS
    }
}

/// A space in the given colours.
pub open spec fn blank(color: ColorCode) -> ScreenChar {
    ScreenChar { ascii_char: 32, color_code: color }
}

/// Every cell a blank.
pub open spec fn blank_cells(color: ColorCode) -> Seq<ScreenChar> {
    Seq::new(VGA_CELLS as nat, |i: int| blank(color))
}

/// The cells moved up one row, with a blank last row.
pub open spec fn scrolled(cells: Seq<ScreenChar>, color: ColorCode) -> Seq<ScreenChar> {
    Seq::new(
        VGA_CELLS as nat,
        |i: int|
            if i < VGA_CELLS - VGA_WIDTH {
                cells[i + VGA_WIDTH]
            } else {
                blank(color)
            },
    )
}

/// Moving to the start of the next line, scrolling at the bottom.
pub open spec fn new_line_spec(s: Screen) -> Screen {
    if s.row < VGA_HEIGHT - 1 {
        Screen { row: s.row + 1, col: 0, color: s.color, cells: s.cells }
    } else {
        Screen { row: s.row, col: 0, color: s.color, cells: scrolled(s.cells, s.color) }
    }
}

/// Erasing the character left of the cursor, within the current line.
pub open spec fn backspace_spec(s: Screen) -> Screen {
    if s.col > 0 {
        Screen {
            row: s.row,
            col: s.col - 1,
            color: s.color,
            cells: s.cells.update(s.row * VGA_WIDTH + s.col - 1, blank(s.color)),
        }
    } else {
        s
    }
}

/// Writing one byte: newline, backspace, or a character at the cursor
/// (wrapping to the next line first when the line is full).
pub open spec fn write_byte_spec(s: Screen, byte: u8) -> Screen {
    if byte == 10 {
        new_line_spec(s)
    } else if byte == 8 {
        backspace_spec(s)
    } else {
        let t = if s.col >= VGA_WIDTH {
            new_line_spec(s)
        } else {
            s
        };
        Screen {
            row: t.row,
            col: t.col + 1,
            color: t.color,
            cells: t.cells.update(
                t.row * VGA_WIDTH + t.col,
                ScreenChar { ascii_char: byte, color_code: t.color },
            ),
        }
    }
}

/// The byte `write_string` writes for `b`: printable ASCII, newline and
/// backspace stand for themselves, anything else becomes the block `0xfe`.
pub open spec fn shown_byte(b: u8) -> u8 {
    if (0x20 <= b && b <= 0x7e) || b == 10 || b == 8 {
        b
    } else {
        0xfe
    }
}

/// Writing a sequence of bytes, one after another.
pub open spec fn write_bytes_spec(s: Screen, bytes: Seq<u8>) -> Screen
    decreases bytes.len(),
{
    if bytes.len() == 0 {
        s
    } else {
        write_bytes_spec(write_byte_spec(s, shown_byte(bytes[0])), bytes.drop_first())
    }
}

/// The writer: cursor position, current colours and the character cells.
pub struct Writer {
    row: usize,
    col: usize,
    color_code: ColorCode,
    buffer: Vec<ScreenChar>,
}

impl View for Writer {
    type V = Screen;

    closed spec fn view(&self) -> Screen {
        Screen {
            row: self.row as int,
            col: self.col as int,
            color: self.color_code,
            cells: self.buffer@,
        }
    }
}

impl Writer {
    /// A writer at the top-left corner with every cell blank in the given
    /// colours.
    pub fn new(fg: Color, bg: Color) -> (r: Writer)
        ensures
            r@ == (Screen {
                row: 0,
                col: 0,
                color: color_code_of(fg, bg),
                cells: blank_cells(color_code_of(fg, bg)),
            }),
            r@.color.0 == color_value(bg) * 16 + color_value(fg),
            r@.wf(),
    {
        let color_code = ColorCode::new(fg, bg);
        let mut buffer: Vec<ScreenChar> = Vec::new();
        let mut i: usize = 0;
        while i < VGA_CELLS
            invariant
                i <= VGA_CELLS,
                buffer@ =~= blank_cells(color_code).subrange(0, i as int),
            decreases VGA_CELLS - i,
        {
            buffer.push(ScreenChar { ascii_char: 32u8, color_code });
            i = i + 1;
        }
        assert(blank_cells(color_code).subrange(0, VGA_CELLS as int) =~= blank_cells(color_code));
        Writer { row: 0, col: 0, color_code, buffer }
    }

    /// The cell at `row`, `col`.
    pub fn cell(&self, row: usize, col: usize) -> (r: ScreenChar)
        requires
            self@.wf(),
            row < VGA_HEIGHT,
            col < VGA_WIDTH,
        ensures
            r == self@.cells[row * VGA_WIDTH + col],
    {
        self.buffer[row * VGA_WIDTH + col]
    }

    /// The cursor position, row and column.
    pub fn position(&self) -> (r: (usize, usize))
        ensures
            r.0 == self@.row,
            r.1 == self@.col,
    {
        (self.row, self.col)
    }

    /// Writes one byte: `\n` starts a new line, `0x08` erases the previous
    /// character of the line, anything else is put at the cursor.
    pub fn write_byte(&mut self, byte: u8)
        requires
            old(self)@.wf(),
        ensures
            final(self)@ == write_byte_spec(old(self)@, byte),
            final(self)@.wf(),
    {
        if byte == 10u8 {
            self.new_line();
        } else if byte == 0x08 {
            self.backspace();
        } else {
            if self.col >= VGA_WIDTH {
                self.new_line();
            }
            let row = self.row;
            let col = self.col;
            let color_code = self.color_code;
            self.buffer.set(row * VGA_WIDTH + col, ScreenChar { ascii_char: byte, color_code });
            self.col = self.col + 1;
        }
    }

    /// Writes the bytes of `s`, showing unprintable ones as a block.
    pub fn write_string(&mut self, s: &str)
        requires
            old(self)@.wf(),
        ensures
            final(self)@ == write_bytes_spec(old(self)@, s.spec_bytes()),
            final(self)@.wf(),
    {
        let bytes = s.as_bytes();
        let mut i: usize = 0;
        assert(bytes@.skip(0) =~= bytes@);
        while i < bytes.len()
            invariant
                i <= bytes.len(),
                bytes@ == s.spec_bytes(),
                self@.wf(),
                write_bytes_spec(old(self)@, bytes@) == write_bytes_spec(
                    self@,
                    bytes@.skip(i as int),
                ),
            decreases bytes.len() - i,
        {
            let byte = bytes[i];
            let shown = if (0x20 <= byte && byte <= 0x7e) || byte == 10u8 || byte == 0x08 {
                byte
            } else {
                0xfe
            };
            assert(bytes@.skip(i as int).drop_first() =~= bytes@.skip(i + 1));
            self.write_byte(shown);
            i = i + 1;
        }
        assert(bytes@.skip(i as int).len() == 0);
    }

    fn backspace(&mut self)
        requires
            old(self)@.wf(),
        ensures
            final(self)@ == backspace_spec(old(self)@),
            final(self)@.wf(),
    {
        if self.col > 0 {
            self.col = self.col - 1;
            let row = self.row;
            let col = self.col;
            let color_code = self.color_code;
            self.buffer.set(row * VGA_WIDTH + col, ScreenChar { ascii_char: 32u8, color_code });
        }
    }

    fn new_line(&mut self)
        requires
            old(self)@.wf(),
        ensures
            final(self)@ == new_line_spec(old(self)@),
            final(self)@.wf(),
    {
        if self.row < VGA_HEIGHT - 1 {
            self.row = self.row + 1;
        } else {
            let ghost old_cells = self.buffer@;
            let mut i: usize = 0;
            while i < VGA_CELLS - VGA_WIDTH
                invariant
                    i <= VGA_CELLS - VGA_WIDTH,
                    self.buffer@.len() == VGA_CELLS,
                    self.row == old(self).row,
                    self.col == old(self).col,
                    self.color_code == old(self).color_code,
                    old_cells == old(self).buffer@,
                    forall|j: int| 0 <= j < i ==> self.buffer@[j] == old_cells[j + VGA_WIDTH],
                    forall|j: int| i <= j < VGA_CELLS ==> self.buffer@[j] == old_cells[j],
                decreases VGA_CELLS - VGA_WIDTH - i,
            {
                let ch = self.buffer[i + VGA_WIDTH];
                self.buffer.set(i, ch);
                i = i + 1;
            }
            self.clear_row(VGA_HEIGHT - 1);
            assert(self.buffer@ =~= scrolled(old_cells, self.color_code));
        }
        self.col = 0;
    }

    fn clear_row(&mut self, row: usize)
        requires
            old(self)@.wf(),
            row < VGA_HEIGHT,
        ensures
            final(self).row == old(self).row,
            final(self).col == old(self).col,
            final(self).color_code == old(self).color_code,
            final(self).buffer@.len() == VGA_CELLS,
            forall|j: int|
                #![trigger final(self).buffer@[j]]
                0 <= j < VGA_CELLS ==> final(self).buffer@[j] == if row * VGA_WIDTH <= j < (row + 1)
                    * VGA_WIDTH {
                    blank(old(self).color_code)
                } else {
                    old(self).buffer@[j]
                },
    {
        let color_code = self.color_code;
        let blank_char = ScreenChar { ascii_char: 32u8, color_code };
        let mut col: usize = 0;
        while col < VGA_WIDTH
            invariant
                col <= VGA_WIDTH,
                row < VGA_HEIGHT,
                self.row == old(self).row,
                self.col == old(self).col,
                self.color_code == old(self).color_code,
                color_code == self.color_code,
                blank_char == blank(color_code),
                self.buffer@.len() == VGA_CELLS,
                forall|j: int|
                    #![trigger self.buffer@[j]]
                    0 <= j < VGA_CELLS ==> self.buffer@[j] == if row * VGA_WIDTH <= j < row
                        * VGA_WIDTH + col {
                        blank(color_code)
                    } else {
                        old(self).buffer@[j]
                    },
            decreases VGA_WIDTH - col,
        {
            self.buffer.set(row * VGA_WIDTH + col, blank_char);
            col = col + 1;
        }
    }

    /// Blanks every cell and moves the cursor to the top-left corner.
    pub fn clear_screen(&mut self)
        requires
            old(self)@.wf(),
        ensures
            final(self)@ == (Screen {
                row: 0,
                col: 0,
                color: old(self)@.color,
                cells: blank_cells(old(self)@.color),
            }),
            final(self)@.wf(),
    {
        let mut row: usize = 0;
        while row < VGA_HEIGHT
            invariant
                row <= VGA_HEIGHT,
                self@.wf(),
                self.color_code == old(self).color_code,
                forall|j: int|
                    0 <= j < row * VGA_WIDTH ==> #[trigger] self.buffer@[j] == blank(
                        self.color_code,
                    ),
            decreases VGA_HEIGHT - row,
        {
            self.clear_row(row);
            row = row + 1;
        }
        self.row = 0;
        self.col = 0;
        assert(self.buffer@ =~= blank_cells(self.color_code));
    }
}

/// Every write keeps the cursor on the screen.
pub proof fn law_write_byte_keeps_wf(s: Screen, byte: u8)
    requires
        s.wf(),
    ensures
        write_byte_spec(s, byte).wf(),
{
}

/// A backspace right after a character written inside the line puts the
/// cursor back and blanks that cell.
pub proof fn law_backspace_erases_char(s: Screen, c: u8)
    requires
        s.wf(),
        s.col < VGA_WIDTH,
        c != 10,
        c != 8,
    ensures
        write_byte_spec(write_byte_spec(s, c), 8) == (Screen {
            row: s.row,
            col: s.col,
            color: s.color,
            cells: s.cells.update(s.row * VGA_WIDTH + s.col, blank(s.color)),
        }),
{
    let idx = s.row * VGA_WIDTH + s.col;
    let t = write_byte_spec(s, c);
    assert(t.cells.update(idx, blank(s.color)) =~= s.cells.update(idx, blank(s.color)));
}

/// A newline on the last row scrolls: the old last row becomes the row
/// above it, and the cursor stays on the last row, at its start.
pub proof fn law_newline_scrolls_at_bottom(s: Screen, col: int)
    requires
        s.wf(),
        s.row == VGA_HEIGHT - 1,
        0 <= col < VGA_WIDTH,
    ensures
        write_byte_spec(s, 10).row == s.row,
        write_byte_spec(s, 10).col == 0,
        write_byte_spec(s, 10).cells[(VGA_HEIGHT - 2) * VGA_WIDTH + col] == s.cells[(
        VGA_HEIGHT - 1) * VGA_WIDTH + col],
        write_byte_spec(s, 10).cells[(VGA_HEIGHT - 1) * VGA_WIDTH + col] == blank(s.color),
{
}


/// `b` is printable ASCII: a space or a visible character.
pub open spec fn printable(b: u8) -> bool {
    0x20 <= b <= 0x7e
}

/// Printable ASCII that fits on the current line is stored as it is: the
/// bytes land, in order and in the current colours, in the cells from the
/// cursor on; the cursor moves past them on the same row; no other cell
/// changes.
pub proof fn law_printable_text_stored(s: Screen, bytes: Seq<u8>)
    requires
        s.wf(),
        forall|k: int| 0 <= k < bytes.len() ==> printable(#[trigger] bytes[k]),
        s.col + bytes.len() <= VGA_WIDTH,
    ensures
        write_bytes_spec(s, bytes).row == s.row,
        write_bytes_spec(s, bytes).col == s.col + bytes.len(),
        write_bytes_spec(s, bytes).color == s.color,
        write_bytes_spec(s, bytes).cells.len() == VGA_CELLS,
        forall|k: int|
            0 <= k < bytes.len() ==> write_bytes_spec(s, bytes).cells[s.row * VGA_WIDTH + s.col + k]
                == (ScreenChar { ascii_char: #[trigger] bytes[k], color_code: s.color }),
        forall|i: int|
            0 <= i < VGA_CELLS && !(s.row * VGA_WIDTH + s.col <= i < s.row * VGA_WIDTH + s.col
                + bytes.len()) ==> #[trigger] write_bytes_spec(s, bytes).cells[i] == s.cells[i],
    decreases bytes.len(),
{
    if bytes.len() > 0 {
        let b = bytes[0];
        assert(printable(b));
        let s1 = write_byte_spec(s, shown_byte(b));
        let rest = bytes.drop_first();
        let start = s.row * VGA_WIDTH + s.col;
        assert(s1.cells == s.cells.update(start, ScreenChar { ascii_char: b, color_code: s.color }));
        assert(0 <= start < VGA_CELLS) by (nonlinear_arith)
            requires
                start == s.row * VGA_WIDTH + s.col,
                0 <= s.row < VGA_HEIGHT,
                0 <= s.col < VGA_WIDTH,
        ;
        assert forall|k: int| 0 <= k < rest.len() implies printable(#[trigger] rest[k]) by {
            assert(rest[k] == bytes[k + 1]);
        }
        law_printable_text_stored(s1, rest);
        let t = write_bytes_spec(s, bytes);
        assert(t == write_bytes_spec(s1, rest));
        assert forall|k: int| 0 <= k < bytes.len() implies t.cells[start + k] == (ScreenChar {
            ascii_char: #[trigger] bytes[k],
            color_code: s.color,
        }) by {
            if k > 0 {
                assert(rest[k - 1] == bytes[k]);
                assert(s1.row * VGA_WIDTH + s1.col + (k - 1) == start + k);
            }
        }
        assert forall|i: int|
            0 <= i < VGA_CELLS && !(start <= i < start + bytes.len()) implies #[trigger] t.cells[i]
            == s.cells[i] by {
            assert(s1.row * VGA_WIDTH + s1.col == start + 1);
        }
    }
}

/// A byte that is neither printable ASCII nor a newline or backspace shows
/// as the block character `0xfe` at the cursor.
pub proof fn law_unprintable_shown_as_block(s: Screen, b: u8)
    requires
        s.wf(),
        s.col < VGA_WIDTH,
        !printable(b),
        b != 10,
        b != 8,
    ensures
        write_bytes_spec(s, seq![b]).cells[s.row * VGA_WIDTH + s.col] == (ScreenChar {
            ascii_char: 0xfe,
            color_code: s.color,
        }),
        write_bytes_spec(s, seq![b]).col == s.col + 1,
{
    let start = s.row * VGA_WIDTH + s.col;
    assert(0 <= start < VGA_CELLS) by (nonlinear_arith)
        requires
            start == s.row * VGA_WIDTH + s.col,
            0 <= s.row < VGA_HEIGHT,
            0 <= s.col < VGA_WIDTH,
    ;
    assert(shown_byte(b) == 0xfe);
    assert(seq![b].drop_first() =~= Seq::<u8>::empty());
    assert(write_bytes_spec(s, seq![b]) == write_bytes_spec(
        write_byte_spec(s, 0xfe),
        Seq::<u8>::empty(),
    ));
}

/// A character written past the end of a line goes to the start of the next
/// line; on the last row the screen first scrolls up one row, so the
/// character starts the fresh last row.
pub proof fn law_full_line_wraps(s: Screen, b: u8, col: int)
    requires
        s.wf(),
        s.col == VGA_WIDTH,
        b != 10,
        b != 8,
        0 <= col < VGA_WIDTH,
    ensures
        s.row < VGA_HEIGHT - 1 ==> write_byte_spec(s, b).row == s.row + 1,
        s.row == VGA_HEIGHT - 1 ==> write_byte_spec(s, b).row == s.row,
        write_byte_spec(s, b).col == 1,
        write_byte_spec(s, b).cells[write_byte_spec(s, b).row * VGA_WIDTH] == (ScreenChar {
            ascii_char: b,
            color_code: s.color,
        }),
        s.row == VGA_HEIGHT - 1 ==> write_byte_spec(s, b).cells[(VGA_HEIGHT - 2) * VGA_WIDTH + col]
            == s.cells[(VGA_HEIGHT - 1) * VGA_WIDTH + col],
{
    let t = new_line_spec(s);
    assert(0 <= t.row * VGA_WIDTH < VGA_CELLS) by (nonlinear_arith)
        requires
            0 <= t.row < VGA_HEIGHT,
    ;
}

} // verus!
