use after8::chip8::screen::{ConsoleRenderer, Renderer, Screen, VoidRenderer};
use std::cell::RefCell;
use std::rc::Rc;

fn blank_screen() -> Screen {
    Screen::new(Box::new(VoidRenderer))
}

fn lit_cells(screen: &Screen) -> Vec<(usize, usize)> {
    let mut lit = Vec::new();
    for y in 0..32 {
        for x in 0..64 {
            if screen.pixel_at(x, y) {
                lit.push((x, y));
            }
        }
    }
    lit
}

struct Recorder {
    frames: Rc<RefCell<Vec<(usize, usize, Vec<bool>)>>>,
}

impl Renderer for Recorder {
    fn render(&self, width: usize, height: usize, pixels: &[bool]) {
        self.frames.borrow_mut().push((width, height, pixels.to_vec()));
    }
}

#[test]
fn new_screen_is_blank() {
    let screen = blank_screen();
    assert_eq!(lit_cells(&screen), vec![]);
}

#[test]
fn draw_puts_most_significant_bit_leftmost() {
    let mut screen = blank_screen();
    let collision = screen.draw_sprite(&[0b1010_0001], 3, 5);
    assert!(collision);
    assert_eq!(lit_cells(&screen), vec![(3, 5), (5, 5), (10, 5)]);
}

#[test]
fn draw_puts_each_byte_on_its_own_row() {
    let mut screen = blank_screen();
    screen.draw_sprite(&[0x80, 0x40, 0x20], 0, 0);
    assert_eq!(lit_cells(&screen), vec![(0, 0), (1, 1), (2, 2)]);
}

#[test]
fn sprite_wraps_round_the_right_edge() {
    let mut screen = blank_screen();
    let first = screen.draw_sprite(&[0xFF], 60, 0);
    assert!(first);
    assert_eq!(
        lit_cells(&screen),
        vec![(0, 0), (1, 0), (2, 0), (3, 0), (60, 0), (61, 0), (62, 0), (63, 0)]
    );
    let second = screen.draw_sprite(&[0xFF], 60, 0);
    assert!(second);
    assert_eq!(lit_cells(&screen), vec![]);
}

#[test]
fn sprite_wraps_round_the_bottom_edge() {
    let mut screen = blank_screen();
    screen.draw_sprite(&[0x80, 0x80], 7, 31);
    assert_eq!(lit_cells(&screen), vec![(7, 0), (7, 31)]);
}

#[test]
fn draw_takes_coordinates_modulo_the_screen_size() {
    let mut screen = blank_screen();
    screen.draw_sprite(&[0xC0], 64 + 3, 32 * 3 + 2);
    assert_eq!(lit_cells(&screen), vec![(3, 2), (4, 2)]);
}

#[test]
fn draw_accepts_the_largest_coordinates() {
    let mut screen = blank_screen();
    screen.draw_sprite(&[0x80, 0x80], usize::MAX, usize::MAX);
    assert_eq!(lit_cells(&screen), vec![(63, 0), (63, 31)]);
}

#[test]
fn draw_xors_into_what_is_there() {
    let mut screen = blank_screen();
    screen.draw_sprite(&[0xF0], 0, 0);
    let collision = screen.draw_sprite(&[0x3C], 0, 0);
    assert!(collision);
    assert_eq!(lit_cells(&screen), vec![(0, 0), (1, 0), (4, 0), (5, 0)]);
}

#[test]
fn sprite_without_on_bits_toggles_nothing() {
    let mut screen = blank_screen();
    screen.draw_sprite(&[0x18], 10, 10);
    let collision = screen.draw_sprite(&[0x00, 0x00], 10, 10);
    assert!(!collision);
    assert_eq!(lit_cells(&screen), vec![(13, 10), (14, 10)]);
}

#[test]
fn empty_sprite_toggles_nothing() {
    let mut screen = blank_screen();
    let collision = screen.draw_sprite(&[], 0, 0);
    assert!(!collision);
    assert_eq!(lit_cells(&screen), vec![]);
}

#[test]
fn sprite_taller_than_the_screen_comes_round_again() {
    let mut screen = blank_screen();
    let mut sprite = vec![0u8; 33];
    sprite[0] = 0x80;
    sprite[1] = 0x80;
    sprite[32] = 0x80;
    let collision = screen.draw_sprite(&sprite, 0, 0);
    assert!(collision);
    assert_eq!(lit_cells(&screen), vec![(0, 1)]);
}

#[test]
fn clear_turns_every_pixel_off() {
    let mut screen = blank_screen();
    screen.draw_sprite(&[0xFF, 0xFF, 0xFF], 20, 20);
    screen.clear();
    assert_eq!(lit_cells(&screen), vec![]);
}

#[test]
fn pixel_at_wraps_its_coordinates() {
    let mut screen = blank_screen();
    screen.draw_sprite(&[0x80], 5, 6);
    assert!(screen.pixel_at(5, 6));
    assert!(screen.pixel_at(64 + 5, 32 + 6));
    assert!(!screen.pixel_at(6, 5));
}

#[test]
fn render_hands_the_grid_to_the_sink() {
    let frames = Rc::new(RefCell::new(Vec::new()));
    let mut screen = Screen::new(Box::new(Recorder { frames: frames.clone() }));
    screen.draw_sprite(&[0x80], 2, 1);
    screen.render();
    let seen = frames.borrow();
    assert_eq!(seen.len(), 1);
    let (width, height, pixels) = &seen[0];
    assert_eq!(*width, 64);
    assert_eq!(*height, 32);
    assert_eq!(pixels.len(), 2048);
    for (cell, on) in pixels.iter().enumerate() {
        assert_eq!(*on, cell == 64 + 2);
    }
}

#[test]
fn void_renderer_takes_any_frame() {
    let sink = VoidRenderer;
    sink.render(2, 1, &[true, false]);
    let screen = blank_screen();
    screen.render();
    assert_eq!(lit_cells(&screen), vec![]);
}

#[test]
fn console_text_has_a_line_for_each_row() {
    let text = ConsoleRenderer::compose(2, 2, &[true, false, false, true]);
    assert_eq!(text, "\u{1b}c\u{1b}[1;1H\u{2588} \n \u{2588}\n");
}

#[test]
fn console_text_of_an_empty_frame_is_the_clearing_sequence() {
    assert_eq!(ConsoleRenderer::compose(0, 0, &[]), "\u{1b}c\u{1b}[1;1H");
    assert_eq!(ConsoleRenderer::compose(3, 0, &[]), "\u{1b}c\u{1b}[1;1H");
    assert_eq!(ConsoleRenderer::compose(0, 2, &[]), "\u{1b}c\u{1b}[1;1H\n\n");
}

#[test]
fn console_text_of_a_whole_screen() {
    let frames = Rc::new(RefCell::new(Vec::new()));
    let mut screen = Screen::new(Box::new(Recorder { frames: frames.clone() }));
    screen.draw_sprite(&[0xFF], 60, 31);
    screen.render();
    let seen = frames.borrow();
    let (width, height, pixels) = &seen[0];
    let text = ConsoleRenderer::compose(*width, *height, pixels);
    let lines: Vec<&str> = text.strip_prefix("\u{1b}c\u{1b}[1;1H").unwrap().split('\n').collect();
    assert_eq!(lines.len(), 33);
    assert_eq!(lines[32], "");
    for line in &lines[..31] {
        assert_eq!(*line, " ".repeat(64));
    }
    let last = format!("{}{}{}", "\u{2588}".repeat(4), " ".repeat(56), "\u{2588}".repeat(4));
    assert_eq!(lines[31], last);
}
