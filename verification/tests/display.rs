use core::fmt::Write;
use kernel_console::vga_buffer::{
    blank_grid, Color, ColorCode, ScreenChar, Writer, _print, BUFFER_HEIGHT, BUFFER_WIDTH,
    PLACEHOLDER,
};
use volatile::Volatile;

const WHITE_ON_BLACK: ColorCode = ColorCode(0x0f);

fn blank_cells() -> Vec<Volatile<u16>> {
    blank_grid()
}

#[test]
fn a_blank_grid_holds_a_space_in_every_cell() {
    let cells = blank_grid();
    assert_eq!(cells.len(), BUFFER_WIDTH * BUFFER_HEIGHT);
    assert_eq!(cells.len(), 2000);
    for cell in cells.iter() {
        assert_eq!(cell.read(), 0x0f20);
    }
}

fn glyph(byte: u8) -> ScreenChar {
    ScreenChar { ascii_character: byte, color_code: WHITE_ON_BLACK }
}

#[test]
fn color_code_packs_background_high_foreground_low() {
    assert_eq!(ColorCode::new(Color::White, Color::Black), ColorCode(0x0f));
    assert_eq!(ColorCode::new(Color::Yellow, Color::Blue), ColorCode(0x1e));
    assert_eq!(ColorCode::new(Color::Black, Color::White), ColorCode(0xf0));
    assert_eq!(ColorCode::new(Color::LightGray, Color::DarkGray), ColorCode(0x87));
}

#[test]
fn color_indices_follow_the_palette() {
    let palette = [
        Color::Black,
        Color::Blue,
        Color::Green,
        Color::Cyan,
        Color::Red,
        Color::Magenta,
        Color::Brown,
        Color::LightGray,
        Color::DarkGray,
        Color::LightBlue,
        Color::LightGreen,
        Color::LightCyan,
        Color::LightRed,
        Color::Pink,
        Color::Yellow,
        Color::White,
    ];
    for (i, color) in palette.iter().enumerate() {
        assert_eq!(color.index() as usize, i);
    }
}

#[test]
fn screen_char_encoding_puts_character_low_color_high() {
    let cell = ScreenChar { ascii_character: b'A', color_code: ColorCode(0x0f) };
    assert_eq!(cell.encode(), 0x0f41);
    assert_eq!(ScreenChar::decode(0x0f41), cell);
    assert_eq!(ScreenChar::decode(0xfffe), ScreenChar { ascii_character: 0xfe, color_code: ColorCode(0xff) });
}

#[test]
fn screen_char_encoding_round_trips() {
    for raw in 0..=u16::MAX {
        assert_eq!(ScreenChar::decode(raw).encode(), raw);
    }
}

#[test]
fn writer_needs_a_full_grid() {
    let mut cells = blank_cells();
    assert!(Writer::new(&mut cells[..1999]).is_none());
    assert!(Writer::new(&mut []).is_none());
    assert!(Writer::new(&mut cells[..]).is_some());
    cells.push(Volatile::new(0u16));
    assert!(Writer::new(&mut cells[..]).is_none());
    let mut more: Vec<Volatile<u16>> = (0..2001).map(|_| Volatile::new(0u16)).collect();
    assert!(Writer::new(&mut more[..]).is_none());
}

#[test]
fn new_writer_starts_at_the_top_left_and_keeps_the_grid() {
    let mut cells = blank_cells();
    cells[81].write(0x0f58);
    let writer = Writer::new(&mut cells[..]).unwrap();
    assert_eq!(writer.row_position(), 0);
    assert_eq!(writer.column_position(), 0);
    assert_eq!(writer.read_cell(1, 1), Some(glyph(b'X')));
    assert_eq!(writer.read_cell(0, 0), Some(glyph(b' ')));
}

#[test]
fn read_cell_is_none_outside_the_grid() {
    let mut cells = blank_cells();
    let writer = Writer::new(&mut cells[..]).unwrap();
    assert!(writer.read_cell(24, 79).is_some());
    assert_eq!(writer.read_cell(25, 0), None);
    assert_eq!(writer.read_cell(0, 80), None);
    assert_eq!(writer.read_cell(usize::MAX, usize::MAX), None);
}

#[test]
fn it_can_println() {
    let mut cells = blank_cells();
    let mut writer = Writer::new(&mut cells[..]).unwrap();
    let s = "Some test string that fits on a single line";
    _print(&mut writer, s);
    _print(&mut writer, "\n");
    for (i, c) in s.chars().enumerate() {
        let screen_char = writer.read_cell(0, i).unwrap();
        assert_eq!(char::from(screen_char.ascii_character), c);
    }
    assert_eq!(writer.row_position(), 1);
    assert_eq!(writer.column_position(), 0);
}

#[test]
fn write_byte_stores_every_printable_byte_unchanged() {
    for byte in 0x20u8..=0x7e {
        let mut cells = blank_cells();
        let mut writer = Writer::new(&mut cells[..]).unwrap();
        writer.write_byte(byte);
        assert_eq!(writer.read_cell(0, 0), Some(glyph(byte)));
        assert_eq!(writer.column_position(), 1);
        assert_eq!(writer.row_position(), 0);
    }
}

#[test]
fn write_byte_reaches_the_hardware_cell() {
    let mut cells = blank_cells();
    {
        let mut writer = Writer::new(&mut cells[..]).unwrap();
        writer.write_byte(b'H');
        writer.write_byte(b'i');
    }
    assert_eq!(cells[0].read(), 0x0f48);
    assert_eq!(cells[1].read(), 0x0f69);
    assert_eq!(cells[2].read(), 0x0f20);
}

#[test]
fn write_byte_stores_the_placeholder_for_every_other_byte() {
    for byte in 0u8..=0xff {
        if byte == b'\n' || (0x20..=0x7e).contains(&byte) {
            continue;
        }
        let mut cells = blank_cells();
        let mut writer = Writer::new(&mut cells[..]).unwrap();
        writer.write_byte(byte);
        assert_eq!(writer.read_cell(0, 0), Some(glyph(0xfe)));
        assert_eq!(writer.column_position(), 1);
        assert_eq!(writer.row_position(), 0);
    }
}

#[test]
fn write_byte_moves_the_cursor_on_a_line_feed_and_stores_nothing() {
    let mut cells = blank_cells();
    let mut writer = Writer::new(&mut cells[..]).unwrap();
    writer.write_byte(b'a');
    writer.write_byte(b'\n');
    assert_eq!((writer.row_position(), writer.column_position()), (1, 0));
    assert_eq!(writer.read_cell(0, 1), Some(glyph(b' ')));
    assert_eq!(writer.read_cell(1, 0), Some(glyph(b' ')));
}

#[test]
fn new_line_moves_to_the_start_of_the_next_row() {
    let mut cells = blank_cells();
    let mut writer = Writer::new(&mut cells[..]).unwrap();
    writer.write_string("abc");
    writer.new_line();
    assert_eq!((writer.row_position(), writer.column_position()), (1, 0));
    assert_eq!(writer.read_cell(0, 2), Some(glyph(b'c')));
    for _ in 0..BUFFER_HEIGHT - 1 {
        writer.new_line();
    }
    assert_eq!((writer.row_position(), writer.column_position()), (0, 0));
}

#[test]
fn write_string_shows_the_placeholder_for_other_bytes() {
    for byte in 0u8..=0x7f {
        if byte == b'\n' {
            continue;
        }
        let mut cells = blank_cells();
        let mut writer = Writer::new(&mut cells[..]).unwrap();
        let text = String::from_utf8(vec![byte]).unwrap();
        writer.write_string(&text);
        let expected = if (0x20..=0x7e).contains(&byte) { byte } else { PLACEHOLDER };
        assert_eq!(writer.read_cell(0, 0), Some(glyph(expected)));
    }
    assert_eq!(PLACEHOLDER, 0xfe);
}

#[test]
fn write_string_takes_multi_byte_text_one_byte_at_a_time() {
    let mut cells = blank_cells();
    let mut writer = Writer::new(&mut cells[..]).unwrap();
    writer.write_string("W\u{f6}rld!");
    let shown: Vec<u8> =
        (0..7).map(|i| writer.read_cell(0, i).unwrap().ascii_character).collect();
    assert_eq!(shown, vec![b'W', 0xfe, 0xfe, b'r', b'l', b'd', b'!']);
    assert_eq!(writer.column_position(), 7);
}

#[test]
fn one_row_of_text_reads_back_from_the_first_row() {
    let text: String = (0..BUFFER_WIDTH).map(|i| char::from(b'!' + (i % 90) as u8)).collect();
    for len in [0usize, 1, 43, 79, 80] {
        let mut cells = blank_cells();
        let mut writer = Writer::new(&mut cells[..]).unwrap();
        writer.write_string(&text[..len]);
        for (i, byte) in text[..len].bytes().enumerate() {
            assert_eq!(writer.read_cell(0, i), Some(glyph(byte)));
        }
        assert_eq!(writer.row_position(), 0);
        assert_eq!(writer.column_position(), len);
    }
}

#[test]
fn a_full_row_wraps_to_the_next_row() {
    let mut cells = blank_cells();
    let mut writer = Writer::new(&mut cells[..]).unwrap();
    let row: String = (0..BUFFER_WIDTH).map(|_| 'a').collect();
    writer.write_string(&row);
    assert_eq!((writer.row_position(), writer.column_position()), (0, 80));
    writer.write_byte(b'b');
    assert_eq!((writer.row_position(), writer.column_position()), (1, 1));
    assert_eq!(writer.read_cell(1, 0), Some(glyph(b'b')));
    for column in 0..BUFFER_WIDTH {
        assert_eq!(writer.read_cell(0, column), Some(glyph(b'a')));
    }
    assert_eq!(writer.read_cell(1, 1), Some(glyph(b' ')));
}

#[test]
fn line_feed_goes_to_the_start_of_the_next_row_from_any_column() {
    for column in [0usize, 1, 40, 79, 80] {
        let mut cells = blank_cells();
        let mut writer = Writer::new(&mut cells[..]).unwrap();
        for _ in 0..column {
            writer.write_byte(b'x');
        }
        assert_eq!(writer.column_position(), column);
        writer.write_byte(b'\n');
        assert_eq!((writer.row_position(), writer.column_position()), (1, 0));
        writer.write_string("\n\n");
        assert_eq!((writer.row_position(), writer.column_position()), (3, 0));
        assert_eq!(writer.read_cell(1, 0), Some(glyph(b' ')));
    }
}

#[test]
fn line_feed_after_a_full_row_skips_no_row() {
    let mut cells = blank_cells();
    let mut writer = Writer::new(&mut cells[..]).unwrap();
    let row: String = (0..BUFFER_WIDTH).map(|_| 'a').collect();
    writer.write_string(&row);
    writer.write_string("\nb");
    assert_eq!((writer.row_position(), writer.column_position()), (1, 1));
    assert_eq!(writer.read_cell(1, 0), Some(glyph(b'b')));
}

#[test]
fn the_last_row_is_followed_by_the_first() {
    let mut cells = blank_cells();
    let mut writer = Writer::new(&mut cells[..]).unwrap();
    writer.write_string("top");
    for _ in 0..BUFFER_HEIGHT - 1 {
        writer.write_byte(b'\n');
    }
    assert_eq!((writer.row_position(), writer.column_position()), (24, 0));
    writer.write_string("last");
    assert_eq!(writer.read_cell(24, 3), Some(glyph(b't')));
    writer.write_byte(b'\n');
    assert_eq!((writer.row_position(), writer.column_position()), (0, 0));
    writer.write_byte(b'T');
    assert_eq!(writer.read_cell(0, 0), Some(glyph(b'T')));
    assert_eq!(writer.read_cell(0, 1), Some(glyph(b'o')));
}

#[test]
fn a_full_last_row_wraps_to_the_first_row() {
    let mut cells = blank_cells();
    let mut writer = Writer::new(&mut cells[..]).unwrap();
    for _ in 0..BUFFER_HEIGHT - 1 {
        writer.write_byte(b'\n');
    }
    let row: String = (0..BUFFER_WIDTH).map(|_| 'z').collect();
    writer.write_string(&row);
    assert_eq!((writer.row_position(), writer.column_position()), (24, 80));
    writer.write_byte(b'!');
    assert_eq!((writer.row_position(), writer.column_position()), (0, 1));
    assert_eq!(writer.read_cell(0, 0), Some(glyph(b'!')));
    assert_eq!(writer.read_cell(24, 79), Some(glyph(b'z')));
}

#[test]
fn write_str_writes_the_text_and_succeeds() {
    let mut cells = blank_cells();
    let mut writer = Writer::new(&mut cells[..]).unwrap();
    assert!(writer.write_str("ok\tgo").is_ok());
    let shown: Vec<u8> =
        (0..5).map(|i| writer.read_cell(0, i).unwrap().ascii_character).collect();
    assert_eq!(shown, vec![b'o', b'k', 0xfe, b'g', b'o']);
}

#[test]
fn every_cell_is_drawn_white_on_black() {
    let mut cells = blank_cells();
    let mut writer = Writer::new(&mut cells[..]).unwrap();
    writer.write_string("color");
    for column in 0..5 {
        assert_eq!(writer.read_cell(0, column).unwrap().color_code, ColorCode(0x0f));
    }
}
