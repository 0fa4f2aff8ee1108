use zanop::drivers::vga::{Color, ColorCode, ScreenChar, Writer, VGA_HEIGHT, VGA_WIDTH};

fn ch(c: u8) -> ScreenChar {
    ScreenChar { ascii_char: c, color_code: ColorCode(7) }
}

#[test]
fn color_codes_pack_background_high() {
    assert_eq!(ColorCode::new(Color::LightGray, Color::Black), ColorCode(0x07));
    assert_eq!(ColorCode::new(Color::Yellow, Color::Blue), ColorCode(0x1E));
    assert_eq!(Color::White.value(), 15);
}

#[test]
fn writes_characters_at_the_cursor() {
    let mut w = Writer::new(Color::LightGray, Color::Black);
    w.write_string("hi");
    assert_eq!(w.cell(0, 0), ch(b'h'));
    assert_eq!(w.cell(0, 1), ch(b'i'));
    assert_eq!(w.cell(0, 2), ch(b' '));
    assert_eq!(w.position(), (0, 2));
}

#[test]
fn backspace_erases_within_line() {
    let mut w = Writer::new(Color::LightGray, Color::Black);
    w.write_byte(b'x');
    w.write_byte(0x08);
    assert_eq!(w.position(), (0, 0));
    assert_eq!(w.cell(0, 0), ch(b' '));
    w.write_byte(0x08);
    assert_eq!(w.position(), (0, 0));
    w.write_string("ab\n");
    w.write_byte(0x08);
    assert_eq!(w.position(), (1, 0));
    assert_eq!(w.cell(0, 1), ch(b'b'));
}

#[test]
fn unprintable_bytes_become_blocks() {
    let mut w = Writer::new(Color::LightGray, Color::Black);
    w.write_string("é\t");
    assert_eq!(w.cell(0, 0), ch(0xfe));
    assert_eq!(w.cell(0, 1), ch(0xfe));
    assert_eq!(w.cell(0, 2), ch(0xfe));
    assert_eq!(w.position(), (0, 3));
}

#[test]
fn wraps_after_the_last_column() {
    let mut w = Writer::new(Color::LightGray, Color::Black);
    for _ in 0..VGA_WIDTH {
        w.write_byte(b'a');
    }
    assert_eq!(w.position(), (0, VGA_WIDTH));
    w.write_byte(b'b');
    assert_eq!(w.position(), (1, 1));
    assert_eq!(w.cell(1, 0), ch(b'b'));
}

#[test]
fn newline_on_last_row_scrolls() {
    let mut w = Writer::new(Color::LightGray, Color::Black);
    w.write_string("top\n");
    for _ in 0..(VGA_HEIGHT - 2) {
        w.write_byte(b'\n');
    }
    w.write_string("end");
    assert_eq!(w.position(), (VGA_HEIGHT - 1, 3));
    w.write_byte(b'\n');
    assert_eq!(w.position(), (VGA_HEIGHT - 1, 0));
    assert_eq!(w.cell(VGA_HEIGHT - 2, 0), ch(b'e'));
    assert_eq!(w.cell(VGA_HEIGHT - 1, 0), ch(b' '));
    assert_eq!(w.cell(0, 0), ch(b' '));
}

#[test]
fn clear_screen_blanks_everything() {
    let mut w = Writer::new(Color::Green, Color::Black);
    w.write_string("hello\nworld");
    w.clear_screen();
    assert_eq!(w.position(), (0, 0));
    let blank = ScreenChar { ascii_char: b' ', color_code: ColorCode(2) };
    for r in 0..VGA_HEIGHT {
        for c in 0..VGA_WIDTH {
            assert_eq!(w.cell(r, c), blank);
        }
    }
}
