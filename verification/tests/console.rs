use text_console::{FrameBufferWriter, GeometryError};

const WHITE: u8 = 0x0F;
const ALERT: u8 = 0x0C;

/// A surface of `width * height` cells plus `beyond` bytes behind the grid,
/// every cell a blank in `WHITE`, every byte behind the grid `0xEE`.
fn blank_surface(width: usize, height: usize, beyond: usize) -> Vec<u8> {
    let mut surface = Vec::new();
    for _ in 0..width * height {
        surface.push(b' ');
        surface.push(WHITE);
    }
    for _ in 0..beyond {
        surface.push(0xEE);
    }
    surface
}

fn console(width: usize, height: usize) -> FrameBufferWriter {
    FrameBufferWriter::new(blank_surface(width, height, 0), width, height, WHITE).unwrap()
}

fn row_text(writer: &FrameBufferWriter, row: usize) -> Vec<u8> {
    (0..writer.width()).map(|col| writer.cell(col, row).unwrap().0).collect()
}

#[test]
fn new_starts_in_the_top_left_corner() {
    let writer = console(3, 2);
    assert_eq!(writer.position(), (0, 0));
    assert_eq!(writer.color_code(), WHITE);
    assert_eq!(writer.width(), 3);
    assert_eq!(writer.height(), 2);
    assert!(!writer.escape_pending());
}

#[test]
fn new_keeps_what_the_surface_holds() {
    let surface: Vec<u8> = (0u8..12).collect();
    let writer = FrameBufferWriter::new(surface.clone(), 3, 2, WHITE).unwrap();
    assert_eq!(writer.surface(), &surface);
    assert_eq!(writer.cell(0, 0), Some((0, 1)));
    assert_eq!(writer.cell(2, 1), Some((10, 11)));
    assert_eq!(writer.into_surface(), surface);
}

#[test]
fn new_refuses_an_empty_grid() {
    assert_eq!(
        FrameBufferWriter::new(vec![0; 16], 0, 4, WHITE).err(),
        Some(GeometryError::EmptyGrid)
    );
    assert_eq!(
        FrameBufferWriter::new(vec![0; 16], 4, 0, WHITE).err(),
        Some(GeometryError::EmptyGrid)
    );
    assert_eq!(
        FrameBufferWriter::new(Vec::new(), 0, 0, WHITE).err(),
        Some(GeometryError::EmptyGrid)
    );
}

#[test]
fn new_refuses_a_surface_that_is_too_small() {
    assert_eq!(
        FrameBufferWriter::new(vec![0; 11], 3, 2, WHITE).err(),
        Some(GeometryError::SurfaceTooSmall)
    );
    assert_eq!(
        FrameBufferWriter::new(Vec::new(), 1, 1, WHITE).err(),
        Some(GeometryError::SurfaceTooSmall)
    );
    assert!(FrameBufferWriter::new(vec![0; 12], 3, 2, WHITE).is_ok());
    assert!(FrameBufferWriter::new(vec![0; 13], 3, 2, WHITE).is_ok());
}

#[test]
fn new_refuses_a_grid_beyond_the_address_space() {
    assert_eq!(
        FrameBufferWriter::new(vec![0; 8], usize::MAX, 2, WHITE).err(),
        Some(GeometryError::SurfaceTooSmall)
    );
    assert_eq!(
        FrameBufferWriter::new(vec![0; 8], usize::MAX / 2 + 1, 1, WHITE).err(),
        Some(GeometryError::SurfaceTooSmall)
    );
}

#[test]
fn cell_lies_at_row_times_width_plus_col_times_two() {
    let mut writer = console(3, 2);
    assert!(writer.set_position(2, 1));
    writer.write_byte(b'Z');
    let surface = writer.surface();
    assert_eq!(surface[10], b'Z');
    assert_eq!(surface[11], WHITE);
    assert_eq!(writer.cell(2, 1), Some((b'Z', WHITE)));
}

#[test]
fn cell_outside_the_grid_is_none() {
    let writer = console(3, 2);
    assert_eq!(writer.cell(3, 0), None);
    assert_eq!(writer.cell(0, 2), None);
    assert_eq!(writer.cell(2, 1), Some((b' ', WHITE)));
}

#[test]
fn newline_moves_to_the_start_of_the_next_row() {
    let mut writer = console(3, 2);
    writer.write_string("A\nB");
    assert_eq!(writer.cell(0, 0), Some((b'A', WHITE)));
    assert_eq!(writer.cell(0, 1), Some((b'B', WHITE)));
    assert_eq!(writer.position(), (1, 1));
}

#[test]
fn a_full_row_wraps_to_the_next() {
    let mut writer = console(3, 2);
    writer.write_string("ABC");
    assert_eq!(writer.position(), (3, 0));
    writer.write_string("D");
    assert_eq!(row_text(&writer, 0), b"ABC".to_vec());
    assert_eq!(writer.cell(0, 1), Some((b'D', WHITE)));
    assert_eq!(writer.position(), (1, 1));
}

#[test]
fn newline_on_the_last_row_scrolls() {
    let mut writer = console(2, 2);
    writer.write_string("A\nB\nC");
    assert_eq!(row_text(&writer, 0), b"B ".to_vec());
    assert_eq!(row_text(&writer, 1), b"C ".to_vec());
    assert_eq!(writer.position(), (1, 1));
}

#[test]
fn wrap_on_the_last_row_scrolls() {
    let mut writer = console(2, 2);
    writer.write_string("ABCDE");
    assert_eq!(row_text(&writer, 0), b"CD".to_vec());
    assert_eq!(row_text(&writer, 1), b"E ".to_vec());
    assert_eq!(writer.position(), (1, 1));
}

#[test]
fn scroll_up_moves_rows_and_clears_the_last() {
    let mut writer = console(2, 3);
    writer.write_string("ab\ncd\nef");
    writer.set_position(1, 1);
    writer.write_string("\\c");
    writer.set_position(1, 2);
    writer.scroll_up();
    assert_eq!(row_text(&writer, 0), b"cd".to_vec());
    assert_eq!(row_text(&writer, 1), b"ef".to_vec());
    assert_eq!(writer.cell(0, 1), Some((b'e', WHITE)));
    assert_eq!(writer.cell(0, 2), Some((b' ', ALERT)));
    assert_eq!(writer.cell(1, 2), Some((b' ', ALERT)));
    assert_eq!(writer.position(), (1, 2));
}

#[test]
fn scroll_up_on_a_single_row_clears_it() {
    let mut writer = console(3, 1);
    writer.write_string("abc");
    writer.scroll_up();
    assert_eq!(row_text(&writer, 0), b"   ".to_vec());
    assert_eq!(writer.position(), (3, 0));
}

#[test]
fn new_line_returns_to_column_zero() {
    let mut writer = console(4, 3);
    writer.write_string("ab");
    writer.new_line();
    assert_eq!(writer.position(), (0, 1));
    writer.new_line();
    assert_eq!(writer.position(), (0, 2));
    writer.new_line();
    assert_eq!(writer.position(), (0, 2));
    assert_eq!(row_text(&writer, 0), b"    ".to_vec());
}

#[test]
fn tab_from_column_one_writes_three_blanks() {
    let mut writer = FrameBufferWriter::new(vec![0; 16 * 2 * 2], 16, 2, WHITE).unwrap();
    writer.write_string("x\t");
    assert_eq!(writer.position(), (4, 0));
    assert_eq!(writer.cell(1, 0), Some((b' ', WHITE)));
    assert_eq!(writer.cell(2, 0), Some((b' ', WHITE)));
    assert_eq!(writer.cell(3, 0), Some((b' ', WHITE)));
    assert_eq!(writer.cell(4, 0), Some((0, 0)));
}

#[test]
fn tab_from_column_zero_writes_four_blanks() {
    let mut writer = FrameBufferWriter::new(vec![0; 16 * 2 * 2], 16, 2, WHITE).unwrap();
    writer.write_byte(b'\t');
    assert_eq!(writer.position(), (4, 0));
    assert_eq!(row_text(&writer, 0)[..5].to_vec(), vec![b' ', b' ', b' ', b' ', 0]);
    writer.write_tab();
    assert_eq!(writer.position(), (8, 0));
}

#[test]
fn tab_from_column_three_writes_one_blank() {
    let mut writer = FrameBufferWriter::new(vec![0; 16 * 2 * 2], 16, 2, WHITE).unwrap();
    writer.write_string("abc\t");
    assert_eq!(writer.position(), (4, 0));
    assert_eq!(writer.cell(3, 0), Some((b' ', WHITE)));
    assert_eq!(writer.cell(4, 0), Some((0, 0)));
}

#[test]
fn tab_wraps_at_the_end_of_a_row() {
    let mut writer = FrameBufferWriter::new(vec![0; 3 * 2 * 2], 3, 2, WHITE).unwrap();
    writer.write_string("x\t");
    assert_eq!(row_text(&writer, 0), b"x  ".to_vec());
    assert_eq!(writer.cell(0, 1), Some((b' ', WHITE)));
    assert_eq!(writer.cell(1, 1), Some((0, 0)));
    assert_eq!(writer.position(), (1, 1));
}

#[test]
fn tab_scrolls_on_the_last_row() {
    let mut writer = console(2, 2);
    writer.write_string("ab\ncd");
    assert_eq!(writer.position(), (2, 1));
    writer.write_byte(b'\t');
    assert_eq!(row_text(&writer, 0), b"cd".to_vec());
    assert_eq!(row_text(&writer, 1), b"  ".to_vec());
    assert_eq!(writer.position(), (2, 1));
}

#[test]
fn escape_c_selects_the_alert_attribute() {
    let mut writer = console(4, 2);
    writer.write_string("\\cX");
    assert_eq!(writer.color_code(), ALERT);
    assert_eq!(writer.cell(0, 0), Some((b'X', ALERT)));
    assert_eq!(writer.position(), (1, 0));
    assert!(!writer.escape_pending());
}

#[test]
fn unknown_escape_prints_the_directive() {
    let mut writer = console(4, 2);
    writer.write_string("\\XY");
    assert_eq!(writer.color_code(), WHITE);
    assert_eq!(writer.cell(0, 0), Some((b'X', WHITE)));
    assert_eq!(writer.cell(1, 0), Some((b'Y', WHITE)));
    assert_eq!(writer.position(), (2, 0));
}

#[test]
fn escaped_backslash_prints_one_backslash() {
    let mut writer = console(4, 2);
    writer.write_string("\\\\c");
    assert_eq!(writer.cell(0, 0), Some((b'\\', WHITE)));
    assert_eq!(writer.cell(1, 0), Some((b'c', WHITE)));
    assert_eq!(writer.color_code(), WHITE);
}

#[test]
fn escaped_control_bytes_are_printed() {
    let mut writer = console(4, 2);
    writer.write_string("\\\n\\\t");
    assert_eq!(writer.cell(0, 0), Some((b'\n', WHITE)));
    assert_eq!(writer.cell(1, 0), Some((b'\t', WHITE)));
    assert_eq!(writer.position(), (2, 0));
}

#[test]
fn escape_spans_two_writes() {
    let mut whole = console(4, 2);
    whole.write_string("a\\cb");
    let mut parts = console(4, 2);
    parts.write_string("a\\");
    assert!(parts.escape_pending());
    assert_eq!(parts.position(), (1, 0));
    parts.write_string("cb");
    assert_eq!(parts.surface(), whole.surface());
    assert_eq!(parts.position(), whole.position());
    assert_eq!(parts.color_code(), ALERT);
}

#[test]
fn handle_escape_sequence_takes_the_directive() {
    let mut writer = console(4, 2);
    writer.handle_escape_sequence(b'c');
    assert_eq!(writer.color_code(), ALERT);
    assert_eq!(writer.position(), (0, 0));
    writer.handle_escape_sequence(b'q');
    assert_eq!(writer.cell(0, 0), Some((b'q', ALERT)));
    assert_eq!(writer.position(), (1, 0));
}

#[test]
fn alert_attribute_persists() {
    let mut writer = console(4, 2);
    writer.write_string("a\\cbc\nd");
    assert_eq!(writer.cell(0, 0), Some((b'a', WHITE)));
    assert_eq!(writer.cell(1, 0), Some((b'b', ALERT)));
    assert_eq!(writer.cell(2, 0), Some((b'c', ALERT)));
    assert_eq!(writer.cell(0, 1), Some((b'd', ALERT)));
}

#[test]
fn write_char_stores_any_byte() {
    let mut writer = console(4, 2);
    writer.write_char(b'\n');
    writer.write_char(b'\\');
    writer.write_char(0xFF);
    assert_eq!(row_text(&writer, 0), vec![b'\n', b'\\', 0xFF, b' ']);
    assert_eq!(writer.position(), (3, 0));
    assert!(!writer.escape_pending());
}

#[test]
fn write_string_takes_utf8_byte_by_byte() {
    let mut writer = console(4, 2);
    writer.write_string("\u{e9}!");
    assert_eq!(row_text(&writer, 0), vec![0xC3, 0xA9, b'!', b' ']);
    assert_eq!(writer.position(), (3, 0));
}

#[test]
fn write_string_equals_write_byte_in_turn() {
    let text = "ab\tc\\cd\n\\xe\tfghij\nk";
    let mut whole = console(5, 3);
    whole.write_string(text);
    let mut single = console(5, 3);
    for byte in text.bytes() {
        single.write_byte(byte);
    }
    let mut sliced = console(5, 3);
    sliced.write_bytes(text.as_bytes());
    assert_eq!(whole.surface(), single.surface());
    assert_eq!(whole.position(), single.position());
    assert_eq!(whole.color_code(), single.color_code());
    assert_eq!(whole.surface(), sliced.surface());
    assert_eq!(whole.position(), sliced.position());
}

#[test]
fn write_string_of_nothing_changes_nothing() {
    let mut writer = console(3, 2);
    writer.write_string("ab");
    let before = writer.surface().clone();
    writer.write_string("");
    assert_eq!(writer.surface(), &before);
    assert_eq!(writer.position(), (2, 0));
}

#[test]
fn set_position_moves_inside_the_grid() {
    let mut writer = console(3, 2);
    assert!(writer.set_position(2, 1));
    assert_eq!(writer.position(), (2, 1));
    assert!(writer.set_position(0, 0));
    assert_eq!(writer.position(), (0, 0));
}

#[test]
fn set_position_refuses_a_target_outside_the_grid() {
    let mut writer = console(3, 2);
    writer.write_string("ab");
    let before = writer.surface().clone();
    assert!(!writer.set_position(3, 0));
    assert_eq!(writer.position(), (2, 0));
    assert!(!writer.set_position(0, 2));
    assert_eq!(writer.position(), (2, 0));
    assert!(!writer.set_position(usize::MAX, usize::MAX));
    assert_eq!(writer.position(), (2, 0));
    assert_eq!(writer.surface(), &before);
    assert_eq!(writer.color_code(), WHITE);
}

#[test]
fn set_cursor_goes_to_the_last_row_on_a_target_outside_the_grid() {
    let mut writer = console(3, 2);
    writer.set_cursor(2, 0);
    assert_eq!(writer.position(), (2, 0));
    writer.set_cursor(3, 0);
    assert_eq!(writer.position(), (0, 1));
    writer.set_cursor(1, 1);
    assert_eq!(writer.position(), (1, 1));
    writer.set_cursor(1, 2);
    assert_eq!(writer.position(), (0, 1));
}

#[test]
fn bounds_hold_after_every_byte() {
    let (width, height) = (5, 3);
    let surface = blank_surface(width, height, 7);
    let mut writer = FrameBufferWriter::new(surface, width, height, WHITE).unwrap();
    let mut seed: u32 = 12345;
    for _ in 0..5000 {
        seed = seed.wrapping_mul(1664525).wrapping_add(1013904223);
        let byte = match (seed >> 24) % 8 {
            0 => b'\n',
            1 => b'\t',
            2 => b'\\',
            3 => b'c',
            _ => (seed >> 16) as u8,
        };
        writer.write_byte(byte);
        let (col, row) = writer.position();
        assert!(col <= width);
        assert!(row < height);
        assert_eq!(writer.surface().len(), width * height * 2 + 7);
        assert!(writer.surface()[width * height * 2..].iter().all(|b| *b == 0xEE));
    }
}

#[test]
fn two_consoles_do_not_affect_each_other() {
    let mut first = console(3, 2);
    let mut second = FrameBufferWriter::new(blank_surface(4, 4, 0), 4, 4, 0x07).unwrap();
    first.write_string("\\cab\n");
    assert_eq!(second.position(), (0, 0));
    assert_eq!(second.color_code(), 0x07);
    assert_eq!(second.surface(), &blank_surface(4, 4, 0));
    second.write_string("xyz");
    second.set_position(3, 3);
    assert_eq!(first.position(), (0, 1));
    assert_eq!(first.color_code(), ALERT);
    assert_eq!(first.cell(0, 0), Some((b'a', ALERT)));
    assert_eq!(first.cell(1, 0), Some((b'b', ALERT)));
    assert_eq!(first.cell(2, 0), Some((b' ', WHITE)));
    assert_eq!(second.position(), (3, 3));
    assert_eq!(second.color_code(), 0x07);
}

#[test]
fn two_consoles_built_alike_start_alike() {
    let first = FrameBufferWriter::new(blank_surface(3, 2, 0), 3, 2, WHITE).unwrap();
    let second = FrameBufferWriter::new(blank_surface(3, 2, 0), 3, 2, WHITE).unwrap();
    assert_eq!(first.position(), second.position());
    assert_eq!(first.color_code(), second.color_code());
    assert_eq!(first.surface(), second.surface());
}
