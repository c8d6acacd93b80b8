use vga_text::{sanitize_byte, Color, ColorCode, ScreenChar, Writer, _print, SUBSTITUTE_GLYPH, BUFFER_HEIGHT, BUFFER_WIDTH};

fn attr() -> ColorCode {
    ColorCode::new(Color::Black, Color::White)
}

fn fresh() -> Writer {
    Writer::new(BUFFER_HEIGHT, BUFFER_WIDTH, attr())
}

fn ch(w: &Writer, row: usize, col: usize) -> u8 {
    w.read_char(row, col).ascii_character
}

fn row_text(w: &Writer, row: usize) -> Vec<u8> {
    (0..w.width()).map(|c| ch(w, row, c)).collect()
}

#[test]
fn sanitize_keeps_printable_ascii() {
    for b in 0x20u8..=0x7e {
        assert_eq!(sanitize_byte(b), b);
    }
    assert_eq!(sanitize_byte(b'\n'), b'\n');
}

#[test]
fn sanitize_substitutes_everything_else() {
    for b in 0u8..=255 {
        if !(0x20..=0x7e).contains(&b) && b != b'\n' {
            assert_eq!(sanitize_byte(b), SUBSTITUTE_GLYPH);
        }
    }
    assert_eq!(sanitize_byte(0x7f), 0xfe);
    assert_eq!(sanitize_byte(0x00), 0xfe);
    assert_eq!(sanitize_byte(0xc3), 0xfe);
}

#[test]
fn attribute_packs_background_high_foreground_low() {
    assert_eq!(ColorCode::new(Color::Black, Color::White).0, 0xf0);
    assert_eq!(ColorCode::new(Color::Yellow, Color::Black).0, 0x0e);
    assert_eq!(ColorCode::new(Color::LightGreen, Color::Blue).0, 0x1a);
}

#[test]
fn attribute_is_injective_and_decodes() {
    let colors = [
        Color::Black, Color::Blue, Color::Green, Color::Cyan, Color::Red, Color::Magenta,
        Color::Brown, Color::LightGray, Color::DarkGray, Color::LightBlue, Color::LightGreen,
        Color::LightCyan, Color::LightRed, Color::Pink, Color::Yellow, Color::White,
    ];
    let mut seen = std::collections::HashSet::new();
    for (fi, f) in colors.iter().enumerate() {
        assert_eq!(f.code() as usize, fi);
        for b in colors.iter() {
            let code = ColorCode::new(*f, *b);
            assert!(seen.insert(code.0));
            assert_eq!(code.foreground(), *f);
            assert_eq!(code.background(), *b);
        }
    }
    assert_eq!(seen.len(), 256);
}

#[test]
fn cell_round_trip() {
    let sc = ScreenChar { ascii_character: b'Q', color_code: ColorCode(0x1e) };
    assert_eq!(sc.to_cell(), 0x1e51);
    assert_eq!(ScreenChar::from_cell(0x1e51), sc);
}

#[test]
fn new_writer_is_blank() {
    let w = fresh();
    assert_eq!(w.row(), 0);
    assert_eq!(w.column(), 0);
    assert_eq!(w.height(), 25);
    assert_eq!(w.width(), 80);
    assert_eq!(w.color_code(), attr());
    assert_eq!(w.read_char(24, 79), ScreenChar { ascii_character: b' ', color_code: attr() });
}

#[test]
fn short_string_stays_on_row() {
    let mut w = fresh();
    w.write_string("hello");
    assert_eq!(w.row(), 0);
    assert_eq!(w.column(), 5);
    assert_eq!(&row_text(&w, 0)[..6], b"hello ");
}

#[test]
fn multibyte_text_becomes_substitute_glyphs() {
    let mut w = fresh();
    w.write_string("a\u{e9}b");
    assert_eq!(w.column(), 4);
    assert_eq!(&row_text(&w, 0)[..4], &[b'a', 0xfe, 0xfe, b'b']);
}

#[test]
fn write_byte_sanitizes_and_uses_attribute() {
    let mut w = Writer::new(2, 3, ColorCode::new(Color::Yellow, Color::Black));
    w.write_byte(0x07);
    assert_eq!(w.read_char(0, 0), ScreenChar { ascii_character: 0xfe, color_code: ColorCode(0x0e) });
    assert_eq!(w.column(), 1);
}

#[test]
fn full_line_then_one_more_wraps_once() {
    let mut w = fresh();
    let line: String = std::iter::repeat('x').take(BUFFER_WIDTH).collect();
    w.write_string(&line);
    assert_eq!(w.row(), 0);
    assert_eq!(w.column(), BUFFER_WIDTH);
    w.write_byte(b'y');
    assert_eq!(w.row(), 1);
    assert_eq!(w.column(), 1);
    assert_eq!(ch(&w, 1, 0), b'y');
    assert_eq!(ch(&w, 0, BUFFER_WIDTH - 1), b'x');
}

#[test]
fn height_lines_then_one_more_scrolls_once() {
    let mut w = fresh();
    for i in 0..BUFFER_HEIGHT {
        let line = format!("line{}\n", i);
        w.write_string(&line);
    }
    // the last newline scrolled once: the cursor is pinned to the last row
    assert_eq!(w.row(), BUFFER_HEIGHT - 1);
    assert_eq!(w.column(), 0);
    assert_eq!(&row_text(&w, 0)[..6], b"line1 ");
    assert_eq!(&row_text(&w, BUFFER_HEIGHT - 2)[..6], b"line24");
    assert!(row_text(&w, BUFFER_HEIGHT - 1).iter().all(|b| *b == b' '));
    w.write_string("last");
    assert_eq!(&row_text(&w, 0)[..6], b"line1 ");
    assert_eq!(&row_text(&w, BUFFER_HEIGHT - 1)[..5], b"last ");
    assert_eq!(w.row(), BUFFER_HEIGHT - 1);
}

#[test]
fn scenario_two_lines() {
    let mut w = fresh();
    w.write_string("AB\n");
    w.write_string("C");
    assert_eq!(ch(&w, 0, 0), b'A');
    assert_eq!(ch(&w, 0, 1), b'B');
    assert_eq!(ch(&w, 1, 0), b'C');
    assert_eq!(w.row(), 1);
    assert_eq!(w.column(), 1);
}

#[test]
fn scenario_small_grid_wrap() {
    let mut w = Writer::new(2, 3, attr());
    w.write_string("abc");
    assert_eq!(w.row(), 0);
    assert_eq!(w.column(), 3);
    w.write_byte(b'd');
    assert_eq!(row_text(&w, 0), b"abc".to_vec());
    assert_eq!(ch(&w, 1, 0), b'd');
    assert_eq!(w.row(), 1);
    assert_eq!(w.column(), 1);
}

#[test]
fn small_grid_scrolls_on_third_line() {
    let mut w = Writer::new(2, 3, attr());
    w.write_string("abcdefg");
    assert_eq!(row_text(&w, 0), b"def".to_vec());
    assert_eq!(row_text(&w, 1), b"g  ".to_vec());
    assert_eq!(w.row(), 1);
    assert_eq!(w.column(), 1);
}

#[test]
fn scroll_blanks_last_row_with_current_attribute() {
    let mut w = Writer::new(2, 4, ColorCode::new(Color::Red, Color::Blue));
    w.write_string("wxyz\nqrst\n");
    assert_eq!(row_text(&w, 0), b"qrst".to_vec());
    for c in 0..4 {
        assert_eq!(w.read_char(1, c), ScreenChar { ascii_character: b' ', color_code: ColorCode(0x14) });
    }
}

#[test]
fn clear_row_blanks_regardless_of_content() {
    let mut w = Writer::new(3, 5, attr());
    w.write_string("hello\nworld");
    w.clear_row(0);
    for c in 0..5 {
        assert_eq!(w.read_char(0, c), ScreenChar { ascii_character: b' ', color_code: attr() });
    }
    w.clear_row(0);
    for c in 0..5 {
        assert_eq!(w.read_char(0, c), ScreenChar { ascii_character: b' ', color_code: attr() });
    }
    assert_eq!(row_text(&w, 1), b"world".to_vec());
}

#[test]
fn print_writes_formatted_text() {
    let mut w = fresh();
    let text = format!("some numbers {} and {}\n", 42, 10 / 3);
    _print(&mut w, &text);
    assert_eq!(&row_text(&w, 0)[..21], b"some numbers 42 and 3");
    assert_eq!(w.row(), 1);
    assert_eq!(w.column(), 0);
}
