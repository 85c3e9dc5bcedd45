use rpi4_kernel::console::{Console, Glyph, Lines, CHAR_HEIGHT, CHAR_WIDTH};

fn shown(lines: &Lines) -> Vec<Vec<u8>> {
    (0..lines.len()).map(|i| lines.line(i).to_vec()).collect()
}

fn console_with(bytes: &[u8]) -> Console {
    let mut c = Console::new();
    c.write(bytes);
    c
}

#[test]
fn empty_console_shows_one_empty_line() {
    let c = Console::new();
    assert_eq!(shown(&c.render_lines(128, 32)), vec![Vec::<u8>::new()]);
    assert_eq!(shown(&c.render_lines(0, 0)), vec![Vec::<u8>::new()]);
}

#[test]
fn lines_newest_first() {
    let c = console_with(b"ab\ncd");
    assert_eq!(shown(&c.render_lines(128, 32)), vec![b"".to_vec(), b"cd".to_vec(), b"ab".to_vec()]);
    assert_eq!(shown(&c.render_lines(128, 1)), vec![b"".to_vec(), b"cd".to_vec()]);
    assert_eq!(shown(&c.render_lines(128, 0)), vec![b"".to_vec()]);
}

#[test]
fn long_lines_are_cut_last_piece_first() {
    let c = console_with(b"abcde\nxy");
    assert_eq!(
        shown(&c.render_lines(2, 32)),
        vec![b"".to_vec(), b"xy".to_vec(), b"e".to_vec(), b"cd".to_vec(), b"ab".to_vec()]
    );
    assert_eq!(
        shown(&c.render_lines(1, 1)),
        vec![b"".to_vec(), b"y".to_vec(), b"x".to_vec()]
    );
}

#[test]
fn line_width_is_capped() {
    let long = vec![b'z'; 300];
    let c = console_with(&long);
    let lines = shown(&c.render_lines(1000, 32));
    assert_eq!(lines.len(), 4);
    assert_eq!(lines[1].len(), 300 - 256);
    assert_eq!(lines[2].len(), 128);
    assert_eq!(lines[3].len(), 128);
}

#[test]
fn empty_text_lines_show_nothing() {
    let c = console_with(b"ab\n\n");
    assert_eq!(shown(&c.render_lines(128, 32)), vec![b"".to_vec(), b"ab".to_vec()]);
    assert_eq!(shown(&c.render_lines(128, 2)), vec![b"".to_vec()]);
}

#[test]
fn at_most_thirty_two_screen_lines() {
    let mut text = Vec::new();
    for i in 0..40u8 {
        text.push(b'a' + (i % 26));
        text.push(b'\n');
    }
    let c = console_with(&text);
    let lines = shown(&c.render_lines(128, 100));
    assert_eq!(lines.len(), 32);
    assert_eq!(lines[0], b"".to_vec());
    // The newest text line is empty (the text ends with a newline); the next
    // one is line 39.
    assert_eq!(lines[1], vec![b'a' + (39 % 26)]);
    assert_eq!(lines[31], vec![b'a' + (9 % 26)]);
}

#[test]
fn history_keeps_the_last_bytes() {
    let c = console_with(b"abc");
    assert_eq!(c.get_byte(0), b'a');
    assert_eq!(c.get_byte(2), b'c');
    let bytes: Vec<u8> = (0..4100u32).map(|i| (i % 251) as u8).collect();
    let c = console_with(&bytes);
    // The four oldest bytes were overwritten: the oldest one kept is byte 4.
    assert_eq!(c.get_byte(0), 4);
    assert_eq!(c.get_byte(4091), (4095 % 251) as u8);
}

#[test]
fn rendering_follows_storage_order_after_wrap() {
    let mut c = console_with(&vec![b'a'; 4096]);
    c.write(b"b\nc");
    let lines = shown(&c.render_lines(128, 32));
    // Storage order is now "b\nc" followed by 4093 'a's.
    assert_eq!(lines.len(), 32);
    assert_eq!(lines[1].len(), (4094 - 31 * 128) as usize);
    assert!(lines[1].iter().all(|&x| x == b'a'));
}

fn glyph(x: usize, y: usize, byte: u8) -> Glyph {
    Glyph { x, y, byte }
}

#[test]
fn render_puts_oldest_line_on_top() {
    let c = console_with(b"ab\ncd");
    assert_eq!(
        c.render(1920, 1080),
        vec![glyph(0, 0, b'a'), glyph(9, 0, b'b'), glyph(0, 21, b'c'), glyph(9, 21, b'd')]
    );
    assert_eq!((CHAR_WIDTH, CHAR_HEIGHT), (9, 21));
}

#[test]
fn render_cuts_lines_to_screen_width() {
    // Two glyphs per row: "abc" shows as "ab" above "c".
    let c = console_with(b"abc");
    assert_eq!(c.render(18, 42), vec![glyph(0, 0, b'a'), glyph(9, 0, b'b'), glyph(0, 21, b'c')]);
    // A screen with no room for a line shows nothing.
    assert_eq!(c.render(0, 20), vec![]);
    assert_eq!(Console::new().render(1920, 1080), vec![]);
}
