use moyuan_kernel::console::hex_digits;
use moyuan_kernel::console::keyboard::{scancode_map, scancode_map_shift, Keyboard};
use moyuan_kernel::console::vga::{DisplayMode, Vga, BLANK_CELL, TEXT_CELLS, VGA_WIDTH};

fn cell(c: char) -> u16 {
    (c as u16) | 0x0F00
}

#[test]
fn hex_digits_are_sixteen_upper_case() {
    assert_eq!(hex_digits(0xDEADBEEF), b"00000000DEADBEEF".to_vec());
    assert_eq!(hex_digits(0), b"0000000000000000".to_vec());
    assert_eq!(hex_digits(u64::MAX), b"FFFFFFFFFFFFFFFF".to_vec());
}

#[test]
fn scancode_tables() {
    assert_eq!(scancode_map(16), Some('q'));
    assert_eq!(scancode_map(2), Some('1'));
    assert_eq!(scancode_map(28), Some('\n'));
    assert_eq!(scancode_map(57), Some(' '));
    assert_eq!(scancode_map(42), None);
    assert_eq!(scancode_map_shift(16), Some('Q'));
    assert_eq!(scancode_map_shift(2), Some('!'));
    assert_eq!(scancode_map_shift(53), Some('?'));
    assert_eq!(scancode_map_shift(0x60), None);
}

#[test]
fn keys_come_out_in_the_order_typed() {
    let mut kb = Keyboard::new();
    assert!(!kb.has_key());
    kb.handle_scancode(35); // h
    kb.handle_scancode(23); // i
    assert!(kb.has_key());
    assert_eq!(kb.read_key(), Some('h'));
    assert_eq!(kb.read_key(), Some('i'));
    assert_eq!(kb.read_key(), None);
}

#[test]
fn shift_and_caps_lock() {
    let mut kb = Keyboard::new();
    kb.handle_scancode(42); // shift pressed
    kb.handle_scancode(30); // a
    kb.handle_scancode(42 | 0x80); // shift released
    kb.handle_scancode(30);
    assert_eq!(kb.read_key(), Some('A'));
    assert_eq!(kb.read_key(), Some('a'));
    // caps lock toggles on release and shifts letters only
    kb.handle_scancode(58);
    kb.handle_scancode(58 | 0x80);
    kb.handle_scancode(30);
    kb.handle_scancode(2);
    assert_eq!(kb.read_key(), Some('A'));
    assert_eq!(kb.read_key(), Some('1'));
    // key releases type nothing
    kb.handle_scancode(30 | 0x80);
    assert!(!kb.has_key());
}

#[test]
fn keyboard_buffer_holds_one_less_than_its_slots() {
    let mut kb = Keyboard::new();
    for _ in 0..300 {
        kb.handle_scancode(30);
    }
    let mut n = 0;
    while kb.read_key().is_some() {
        n += 1;
    }
    assert_eq!(n, 255);
    kb.handle_scancode(31);
    kb.clear_buffer();
    assert!(!kb.has_key());
}

#[test]
fn vga_starts_blank_in_text_mode() {
    let v = Vga::new();
    assert_eq!(v.mode(), DisplayMode::Text);
    assert_eq!(v.cursor(), (0, 0));
    assert_eq!(v.text_cells().len(), TEXT_CELLS);
    assert!(v.text_cells().iter().all(|c| *c == BLANK_CELL));
}

#[test]
fn vga_put_char_newline_and_tab() {
    let mut v = Vga::new();
    v.print("ab\ncd\tx");
    let t = v.text_cells();
    assert_eq!(t[0], cell('a'));
    assert_eq!(t[1], cell('b'));
    assert_eq!(t[VGA_WIDTH], cell('c'));
    assert_eq!(t[VGA_WIDTH + 1], cell('d'));
    assert_eq!(t[VGA_WIDTH + 4], cell('x'));
    assert_eq!(v.cursor(), (5, 1));
}

#[test]
fn vga_wraps_and_scrolls() {
    let mut v = Vga::new();
    v.put_char('z');
    v.set_cursor_pos(79, 24);
    v.put_char('a');
    assert_eq!(v.text_cells()[24 * VGA_WIDTH + 79], cell('a'));
    assert_eq!(v.cursor(), (80, 24));
    v.put_char('b');
    // the screen moved up one row: 'a' is on row 23, 'b' starts row 24
    assert_eq!(v.text_cells()[23 * VGA_WIDTH + 79], cell('a'));
    assert_eq!(v.text_cells()[24 * VGA_WIDTH], cell('b'));
    assert_eq!(v.text_cells()[0], BLANK_CELL);
    assert_eq!(v.cursor(), (1, 24));
}

#[test]
fn vga_cursor_outside_screen_is_ignored() {
    let mut v = Vga::new();
    v.set_cursor_pos(80, 0);
    assert_eq!(v.cursor(), (0, 0));
    v.set_cursor_pos(3, 25);
    assert_eq!(v.cursor(), (0, 0));
    v.set_cursor_pos(3, 4);
    assert_eq!(v.cursor(), (3, 4));
}

#[test]
fn vga_print_char_with_colours() {
    let mut v = Vga::new();
    v.print_char('A', 2, 3, 0x4, 0x1);
    assert_eq!(v.text_cells()[3 * VGA_WIDTH + 2], 0x1441);
    v.print_char('B', 80, 3, 0x4, 0x1);
    assert_eq!(v.cursor(), (0, 0));
}

#[test]
fn vga_clear_and_init() {
    let mut v = Vga::new();
    v.print("hello");
    v.clear_screen();
    assert!(v.text_cells().iter().all(|c| *c == BLANK_CELL));
    assert_eq!(v.cursor(), (0, 0));
    v.set_mode(DisplayMode::Graphics);
    v.init();
    assert_eq!(v.mode(), DisplayMode::Text);
}

fn graphics(width: usize, height: usize) -> Vga {
    let mut v = Vga::new();
    v.set_framebuffer(0x1000, width, height, width * 4, 32);
    v.set_mode(DisplayMode::Graphics);
    v
}

fn pixel(v: &Vga, x: usize, y: usize, width: usize) -> u32 {
    let off = y * width * 4 + x * 4;
    let f = v.frame_bytes();
    u32::from_le_bytes([f[off], f[off + 1], f[off + 2], f[off + 3]])
}

#[test]
fn vga_draw_pixel_little_endian() {
    let mut v = graphics(10, 10);
    assert_eq!(v.frame_bytes().len(), 400);
    v.draw_pixel(1, 2, 0xAABBCCDD);
    let off = 2 * 40 + 4;
    assert_eq!(&v.frame_bytes()[off..off + 4], &[0xDD, 0xCC, 0xBB, 0xAA]);
    // off-screen pixels and text mode draw nothing
    v.draw_pixel(10, 0, 0xFFFFFFFF);
    v.set_mode(DisplayMode::Text);
    v.draw_pixel(0, 0, 0xFFFFFFFF);
    assert_eq!(pixel(&v, 0, 0, 10), 0);
}

#[test]
fn vga_draw_line_horizontal_and_diagonal() {
    let mut v = graphics(10, 10);
    v.draw_line(0, 0, 3, 0, 7);
    for x in 0..4 {
        assert_eq!(pixel(&v, x, 0, 10), 7);
    }
    assert_eq!(pixel(&v, 4, 0, 10), 0);
    v.draw_line(5, 5, 2, 2, 9);
    for k in 2..6 {
        assert_eq!(pixel(&v, k, k, 10), 9);
    }
    assert_eq!(pixel(&v, 3, 2, 10), 0);
}

#[test]
fn vga_draw_rect_filled_and_outline() {
    let mut v = graphics(10, 10);
    v.draw_rect(1, 1, 2, 2, 5, true);
    for (x, y) in [(1, 1), (2, 1), (1, 2), (2, 2)] {
        assert_eq!(pixel(&v, x, y, 10), 5);
    }
    assert_eq!(pixel(&v, 3, 3, 10), 0);
    let mut w = graphics(10, 10);
    w.draw_rect(0, 0, 4, 4, 6, false);
    assert_eq!(pixel(&w, 0, 0, 10), 6);
    assert_eq!(pixel(&w, 3, 0, 10), 6);
    assert_eq!(pixel(&w, 0, 3, 10), 6);
    assert_eq!(pixel(&w, 3, 3, 10), 6);
    assert_eq!(pixel(&w, 1, 1, 10), 0);
}

#[test]
fn vga_graphics_clear_zeroes_frame() {
    let mut v = graphics(4, 4);
    v.draw_pixel(0, 0, 0x01020304);
    v.clear_screen();
    assert!(v.frame_bytes().iter().all(|b| *b == 0));
}

#[test]
fn vga_steep_line_sets_one_pixel_per_row() {
    let mut v = graphics(10, 10);
    v.draw_line(1, 8, 3, 1, 4);
    let mut count = 0;
    for y in 0..10 {
        let in_row: Vec<usize> = (0..10).filter(|&x| pixel(&v, x, y, 10) == 4).collect();
        if (1..=8).contains(&y) {
            assert_eq!(in_row.len(), 1, "row {}", y);
            assert!(in_row[0] >= 1 && in_row[0] <= 3);
        } else {
            assert!(in_row.is_empty());
        }
        count += in_row.len();
    }
    // max(|dx|, |dy|) + 1 points, both ends included
    assert_eq!(count, 8);
    assert_eq!(pixel(&v, 1, 8, 10), 4);
    assert_eq!(pixel(&v, 3, 1, 10), 4);
}
