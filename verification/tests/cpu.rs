use after8::chip8::cpu::{Stack, CPU};
use after8::chip8::instruction::Fault;
use after8::chip8::machine::{NUM_KEYS, NUM_REGS, RAM_SIZE, STACK_SIZE, START_ADDR, TICKS_PER_FRAME};
use after8::chip8::screen::{Renderer, Screen, VoidRenderer};
use std::cell::RefCell;
use std::rc::Rc;

fn boot(rom: &[u8]) -> CPU {
    CPU::with_rom(Screen::new(Box::new(VoidRenderer)), rom).unwrap()
}

fn ticks(cpu: &mut CPU, n: usize) {
    for _ in 0..n {
        assert_eq!(cpu.tick(), Ok(()));
    }
}

fn lit(cpu: &CPU) -> Vec<(usize, usize)> {
    let mut cells = Vec::new();
    for y in 0..32 {
        for x in 0..64 {
            if cpu.screen().pixel_at(x, y) {
                cells.push((x, y));
            }
        }
    }
    cells
}

struct Counter {
    frames: Rc<RefCell<usize>>,
}

impl Renderer for Counter {
    fn render(&self, _width: usize, _height: usize, _pixels: &[bool]) {
        *self.frames.borrow_mut() += 1;
    }
}

#[test]
fn sizes_of_the_machine() {
    assert_eq!(RAM_SIZE, 4096);
    assert_eq!(START_ADDR, 0x200);
    assert_eq!(NUM_REGS, 16);
    assert_eq!(STACK_SIZE, 16);
    assert_eq!(NUM_KEYS, 16);
    assert_eq!(TICKS_PER_FRAME, 10);
}

#[test]
fn stack_is_last_in_first_out() {
    let mut stack = Stack::new();
    assert_eq!(stack.len(), 0);
    stack.push(0x202);
    stack.push(0x404);
    stack.push(0x606);
    assert_eq!(stack.len(), 3);
    assert_eq!(stack.pop(), 0x606);
    assert_eq!(stack.pop(), 0x404);
    stack.push(0x808);
    assert_eq!(stack.pop(), 0x808);
    assert_eq!(stack.pop(), 0x202);
    assert_eq!(stack.len(), 0);
}

#[test]
fn stack_holds_sixteen_addresses() {
    let mut stack = Stack::new();
    for k in 0..16u16 {
        stack.push(k);
    }
    assert_eq!(stack.len(), 16);
    for k in (0..16u16).rev() {
        assert_eq!(stack.pop(), k);
    }
}

#[test]
fn new_machine_is_zeroed_with_glyphs_loaded() {
    let cpu = CPU::new(Screen::new(Box::new(VoidRenderer)));
    assert_eq!(cpu.program_counter(), 0x200);
    assert_eq!(cpu.index(), 0);
    assert_eq!(cpu.delay_timer(), 0);
    assert_eq!(cpu.sound_timer(), 0);
    assert_eq!(cpu.stack_depth(), 0);
    for x in 0..16 {
        assert_eq!(cpu.register(x), 0);
        assert!(!cpu.key(x));
    }
    assert_eq!(cpu.memory(0), 0xF0);
    assert_eq!(cpu.memory(1), 0x90);
    assert_eq!(cpu.memory(5), 0x20);
    assert_eq!(cpu.memory(79), 0x80);
    for addr in 80..4096 {
        assert_eq!(cpu.memory(addr), 0);
    }
    assert_eq!(lit(&cpu), vec![]);
}

#[test]
fn new_machine_keeps_what_the_screen_shows() {
    let mut screen = Screen::new(Box::new(VoidRenderer));
    screen.draw_sprite(&[0x80], 9, 9);
    let cpu = CPU::new(screen);
    assert_eq!(lit(&cpu), vec![(9, 9)]);
}

#[test]
fn program_is_loaded_at_the_origin() {
    let cpu = boot(&[0x12, 0x34, 0x56]);
    assert_eq!(cpu.memory(0x1FF), 0);
    assert_eq!(cpu.memory(0x200), 0x12);
    assert_eq!(cpu.memory(0x201), 0x34);
    assert_eq!(cpu.memory(0x202), 0x56);
    assert_eq!(cpu.memory(0x203), 0);
    assert_eq!(cpu.memory(0), 0xF0);
    assert_eq!(cpu.program_counter(), 0x200);
}

#[test]
fn largest_program_fills_memory_to_its_end() {
    let mut rom = vec![0u8; 3584];
    rom[3583] = 0xAB;
    let cpu = boot(&rom);
    assert_eq!(cpu.memory(0xFFF), 0xAB);
}

#[test]
fn oversize_program_is_refused() {
    let rom = vec![0u8; 3585];
    let res = CPU::with_rom(Screen::new(Box::new(VoidRenderer)), &rom);
    assert!(matches!(res, Err(Fault::ProgramTooLarge)));
}

#[test]
fn empty_program_loads() {
    let mut cpu = boot(&[]);
    assert_eq!(cpu.tick(), Ok(()));
    assert_eq!(cpu.program_counter(), 0x202);
}

#[test]
fn nop_only_moves_the_program_counter() {
    let mut cpu = boot(&[0x00, 0x00]);
    ticks(&mut cpu, 1);
    assert_eq!(cpu.program_counter(), 0x202);
    for x in 0..16 {
        assert_eq!(cpu.register(x), 0);
    }
}

#[test]
fn load_and_add_immediate() {
    let mut cpu = boot(&[0x63, 0xFF, 0x73, 0x02, 0x74, 0x07]);
    ticks(&mut cpu, 3);
    assert_eq!(cpu.register(3), 0x01);
    assert_eq!(cpu.register(4), 0x07);
    assert_eq!(cpu.register(0xF), 0);
    assert_eq!(cpu.program_counter(), 0x206);
}

#[test]
fn copy_or_and_xor() {
    let mut cpu = boot(&[
        0x60, 0b1100, 0x61, 0b1010, 0x82, 0x00, 0x82, 0x11, 0x83, 0x00, 0x83, 0x12, 0x84, 0x00,
        0x84, 0x13,
    ]);
    ticks(&mut cpu, 8);
    assert_eq!(cpu.register(0), 0b1100);
    assert_eq!(cpu.register(1), 0b1010);
    assert_eq!(cpu.register(2), 0b1110);
    assert_eq!(cpu.register(3), 0b1000);
    assert_eq!(cpu.register(4), 0b0110);
    assert_eq!(cpu.register(0xF), 0);
}

#[test]
fn add_with_carry_for_every_pair() {
    for a in 0..=255u8 {
        for b in 0..=255u8 {
            let mut cpu = boot(&[0x60, a, 0x61, b, 0x80, 0x14]);
            ticks(&mut cpu, 3);
            assert_eq!(cpu.register(0), ((a as u16 + b as u16) % 256) as u8);
            assert_eq!(cpu.register(0xF), if a as u16 + b as u16 > 255 { 1 } else { 0 });
            assert_eq!(cpu.register(1), b);
        }
    }
}

#[test]
fn add_with_carry_examples() {
    let mut cpu = boot(&[0x60, 200, 0x61, 100, 0x80, 0x14]);
    ticks(&mut cpu, 3);
    assert_eq!(cpu.register(0), 44);
    assert_eq!(cpu.register(0xF), 1);
    let mut cpu = boot(&[0x60, 1, 0x61, 2, 0x80, 0x14]);
    ticks(&mut cpu, 3);
    assert_eq!(cpu.register(0), 3);
    assert_eq!(cpu.register(0xF), 0);
    let mut cpu = boot(&[0x60, 255, 0x61, 0, 0x80, 0x14]);
    ticks(&mut cpu, 3);
    assert_eq!(cpu.register(0), 255);
    assert_eq!(cpu.register(0xF), 0);
}

#[test]
fn add_with_carry_into_the_flag_register_keeps_the_flag() {
    let mut cpu = boot(&[0x6F, 200, 0x61, 100, 0x8F, 0x14]);
    ticks(&mut cpu, 3);
    assert_eq!(cpu.register(0xF), 1);
    let mut cpu = boot(&[0x6F, 20, 0x61, 10, 0x8F, 0x14]);
    ticks(&mut cpu, 3);
    assert_eq!(cpu.register(0xF), 0);
}

#[test]
fn subtract_with_borrow_for_every_pair() {
    for a in 0..=255u8 {
        for b in 0..=255u8 {
            let mut cpu = boot(&[0x60, a, 0x61, b, 0x80, 0x15]);
            ticks(&mut cpu, 3);
            assert_eq!(cpu.register(0), ((256 + a as i32 - b as i32) % 256) as u8);
            assert_eq!(cpu.register(0xF), if b > a { 0 } else { 1 });
            assert_eq!(cpu.register(1), b);
        }
    }
}

#[test]
fn subtract_with_borrow_examples() {
    let mut cpu = boot(&[0x60, 5, 0x61, 10, 0x80, 0x15]);
    ticks(&mut cpu, 3);
    assert_eq!(cpu.register(0), 251);
    assert_eq!(cpu.register(0xF), 0);
    let mut cpu = boot(&[0x60, 10, 0x61, 5, 0x80, 0x15]);
    ticks(&mut cpu, 3);
    assert_eq!(cpu.register(0), 5);
    assert_eq!(cpu.register(0xF), 1);
    let mut cpu = boot(&[0x60, 7, 0x61, 7, 0x80, 0x15]);
    ticks(&mut cpu, 3);
    assert_eq!(cpu.register(0), 0);
    assert_eq!(cpu.register(0xF), 1);
}

#[test]
fn reverse_subtract_for_every_pair() {
    for a in 0..=255u8 {
        for b in 0..=255u8 {
            let mut cpu = boot(&[0x60, a, 0x61, b, 0x80, 0x17]);
            ticks(&mut cpu, 3);
            assert_eq!(cpu.register(0), ((256 + b as i32 - a as i32) % 256) as u8);
            assert_eq!(cpu.register(0xF), if a > b { 0 } else { 1 });
            assert_eq!(cpu.register(1), b);
        }
    }
}

#[test]
fn shift_right_for_every_value() {
    for v in 0..=255u8 {
        let mut cpu = boot(&[0x61, v, 0x80, 0x16]);
        ticks(&mut cpu, 2);
        assert_eq!(cpu.register(0), v >> 1);
        assert_eq!(cpu.register(0xF), v & 1);
        assert_eq!(cpu.register(1), v);
    }
}

#[test]
fn shift_right_in_place() {
    let mut cpu = boot(&[0x61, 0x05, 0x81, 0x16]);
    ticks(&mut cpu, 2);
    assert_eq!(cpu.register(1), 0x02);
    assert_eq!(cpu.register(0xF), 1);
}

#[test]
fn shift_left_for_every_value() {
    for v in 0..=255u8 {
        let mut cpu = boot(&[0x61, v, 0x80, 0x1E]);
        ticks(&mut cpu, 2);
        assert_eq!(cpu.register(0), ((v as u16 * 2) % 256) as u8);
        assert_eq!(cpu.register(0xF), v / 128);
        assert_eq!(cpu.register(1), v);
    }
}

#[test]
fn jump_sets_the_program_counter() {
    let mut cpu = boot(&[0x1A, 0xBC]);
    ticks(&mut cpu, 1);
    assert_eq!(cpu.program_counter(), 0xABC);
}

#[test]
fn jump_with_offset_adds_register_zero() {
    let mut cpu = boot(&[0x60, 0x10, 0xB3, 0x00]);
    ticks(&mut cpu, 2);
    assert_eq!(cpu.program_counter(), 0x310);
    let mut cpu = boot(&[0x60, 0xFF, 0xBF, 0xFF]);
    ticks(&mut cpu, 2);
    assert_eq!(cpu.program_counter(), 0xFFF + 0xFF);
    assert_eq!(cpu.tick(), Err(Fault::AddressOutOfRange));
}

#[test]
fn call_then_return_comes_back_after_the_call() {
    let mut cpu = boot(&[0x22, 0x06, 0x00, 0x00, 0x00, 0x00, 0x00, 0xEE]);
    ticks(&mut cpu, 1);
    assert_eq!(cpu.program_counter(), 0x206);
    assert_eq!(cpu.stack_depth(), 1);
    ticks(&mut cpu, 1);
    assert_eq!(cpu.program_counter(), 0x202);
    assert_eq!(cpu.stack_depth(), 0);
}

#[test]
fn nested_calls_return_in_reverse_order() {
    let mut cpu = boot(&[0x22, 0x04, 0x00, 0x00, 0x22, 0x08, 0x00, 0xEE, 0x00, 0xEE]);
    ticks(&mut cpu, 2);
    assert_eq!(cpu.program_counter(), 0x208);
    assert_eq!(cpu.stack_depth(), 2);
    ticks(&mut cpu, 1);
    assert_eq!(cpu.program_counter(), 0x206);
    ticks(&mut cpu, 1);
    assert_eq!(cpu.program_counter(), 0x202);
    assert_eq!(cpu.stack_depth(), 0);
}

#[test]
fn seventeenth_nested_call_overflows_the_stack() {
    let mut cpu = boot(&[0x22, 0x00]);
    ticks(&mut cpu, 16);
    assert_eq!(cpu.stack_depth(), 16);
    assert_eq!(cpu.tick(), Err(Fault::StackOverflow));
    assert_eq!(cpu.stack_depth(), 16);
    assert_eq!(cpu.program_counter(), 0x200);
}

#[test]
fn return_without_call_underflows_the_stack() {
    let mut cpu = boot(&[0x00, 0xEE]);
    assert_eq!(cpu.tick(), Err(Fault::StackUnderflow));
    assert_eq!(cpu.program_counter(), 0x200);
    assert_eq!(cpu.stack_depth(), 0);
}

#[test]
fn skip_if_equal_to_immediate() {
    let mut cpu = boot(&[0x60, 0x42, 0x30, 0x42]);
    ticks(&mut cpu, 2);
    assert_eq!(cpu.program_counter(), 0x206);
    let mut cpu = boot(&[0x60, 0x42, 0x30, 0x43]);
    ticks(&mut cpu, 2);
    assert_eq!(cpu.program_counter(), 0x204);
}

#[test]
fn skip_if_not_equal_to_immediate() {
    let mut cpu = boot(&[0x60, 0x42, 0x40, 0x43]);
    ticks(&mut cpu, 2);
    assert_eq!(cpu.program_counter(), 0x206);
    let mut cpu = boot(&[0x60, 0x42, 0x40, 0x42]);
    ticks(&mut cpu, 2);
    assert_eq!(cpu.program_counter(), 0x204);
}

#[test]
fn skip_if_registers_equal() {
    let mut cpu = boot(&[0x60, 0x42, 0x61, 0x42, 0x50, 0x10]);
    ticks(&mut cpu, 3);
    assert_eq!(cpu.program_counter(), 0x208);
    let mut cpu = boot(&[0x60, 0x42, 0x61, 0x41, 0x50, 0x10]);
    ticks(&mut cpu, 3);
    assert_eq!(cpu.program_counter(), 0x206);
}

#[test]
fn skip_if_registers_differ() {
    let mut cpu = boot(&[0x60, 0x42, 0x61, 0x41, 0x90, 0x10]);
    ticks(&mut cpu, 3);
    assert_eq!(cpu.program_counter(), 0x208);
    let mut cpu = boot(&[0x60, 0x42, 0x61, 0x42, 0x90, 0x10]);
    ticks(&mut cpu, 3);
    assert_eq!(cpu.program_counter(), 0x206);
}

#[test]
fn skip_if_key_is_down() {
    let mut cpu = boot(&[0x60, 0x05, 0xE0, 0x9E]);
    cpu.set_key(5, true);
    ticks(&mut cpu, 2);
    assert_eq!(cpu.program_counter(), 0x206);
    let mut cpu = boot(&[0x60, 0x05, 0xE0, 0x9E]);
    cpu.set_key(4, true);
    ticks(&mut cpu, 2);
    assert_eq!(cpu.program_counter(), 0x204);
}

#[test]
fn skip_if_key_is_up() {
    let mut cpu = boot(&[0x60, 0x05, 0xE0, 0xA1]);
    ticks(&mut cpu, 2);
    assert_eq!(cpu.program_counter(), 0x206);
    let mut cpu = boot(&[0x60, 0x05, 0xE0, 0xA1]);
    cpu.set_key(5, true);
    ticks(&mut cpu, 2);
    assert_eq!(cpu.program_counter(), 0x204);
    cpu.set_key(5, false);
    assert!(!cpu.key(5));
}

#[test]
fn key_is_named_by_the_low_four_bits() {
    let mut cpu = boot(&[0x60, 0xF5, 0xE0, 0x9E]);
    cpu.set_key(5, true);
    ticks(&mut cpu, 2);
    assert_eq!(cpu.program_counter(), 0x206);
}

#[test]
fn index_register_is_set_and_added_to() {
    let mut cpu = boot(&[0xA1, 0x23, 0x60, 0xFF, 0xF0, 0x1E]);
    ticks(&mut cpu, 1);
    assert_eq!(cpu.index(), 0x123);
    ticks(&mut cpu, 2);
    assert_eq!(cpu.index(), 0x123 + 0xFF);
    assert_eq!(cpu.register(0xF), 0);
}

#[test]
fn index_register_wraps_at_sixteen_bits() {
    let mut cpu = boot(&[0x60, 0xFF, 0xAF, 0xFF, 0xF0, 0x1E, 0x12, 0x04]);
    ticks(&mut cpu, 2 + 2 * 241 - 1);
    assert_eq!(cpu.index(), 14);
}

#[test]
fn glyph_address_is_five_times_the_digit() {
    let mut cpu = boot(&[0x60, 0x0A, 0xF0, 0x29]);
    ticks(&mut cpu, 2);
    assert_eq!(cpu.index(), 50);
    assert_eq!(cpu.memory(50), 0xF0);
    assert_eq!(cpu.memory(51), 0x90);
    assert_eq!(cpu.memory(54), 0x90);
    let mut cpu = boot(&[0x60, 0x3F, 0xF0, 0x29]);
    ticks(&mut cpu, 2);
    assert_eq!(cpu.index(), 75);
}

#[test]
fn decimal_digits_of_255() {
    let mut cpu = boot(&[0x60, 0xFF, 0xA3, 0x00, 0xF0, 0x33]);
    ticks(&mut cpu, 3);
    assert_eq!(cpu.memory(0x300), 2);
    assert_eq!(cpu.memory(0x301), 5);
    assert_eq!(cpu.memory(0x302), 5);
    assert_eq!(cpu.index(), 0x300);
}

#[test]
fn decimal_digits_of_every_value() {
    for v in 0..=255u8 {
        let mut cpu = boot(&[0x60, v, 0xA3, 0x00, 0xF0, 0x33]);
        ticks(&mut cpu, 3);
        assert_eq!(cpu.memory(0x300), v / 100);
        assert_eq!(cpu.memory(0x301), (v / 10) % 10);
        assert_eq!(cpu.memory(0x302), v % 10);
        assert_eq!(cpu.memory(0x2FF), 0);
        assert_eq!(cpu.memory(0x303), 0);
    }
}

#[test]
fn decimal_store_at_the_end_of_memory() {
    let mut cpu = boot(&[0x60, 123, 0xAF, 0xFD, 0xF0, 0x33]);
    ticks(&mut cpu, 3);
    assert_eq!(cpu.memory(0xFFD), 1);
    assert_eq!(cpu.memory(0xFFE), 2);
    assert_eq!(cpu.memory(0xFFF), 3);
    let mut cpu = boot(&[0x60, 123, 0xAF, 0xFE, 0xF0, 0x33]);
    ticks(&mut cpu, 2);
    assert_eq!(cpu.tick(), Err(Fault::AddressOutOfRange));
    assert_eq!(cpu.memory(0xFFE), 0);
    assert_eq!(cpu.memory(0xFFF), 0);
    assert_eq!(cpu.program_counter(), 0x204);
}

#[test]
fn register_dump_then_load_brings_the_registers_back() {
    let mut cpu = boot(&[
        0x60, 0x11, 0x61, 0x22, 0x62, 0x33, 0x63, 0x44, 0xA3, 0x00, 0xF2, 0x55, 0x60, 0x00, 0x61,
        0x00, 0x62, 0x00, 0xA3, 0x00, 0xF2, 0x65,
    ]);
    ticks(&mut cpu, 6);
    assert_eq!(cpu.memory(0x300), 0x11);
    assert_eq!(cpu.memory(0x301), 0x22);
    assert_eq!(cpu.memory(0x302), 0x33);
    assert_eq!(cpu.memory(0x303), 0x00);
    assert_eq!(cpu.index(), 0x303);
    ticks(&mut cpu, 3);
    assert_eq!(cpu.register(0), 0);
    assert_eq!(cpu.register(1), 0);
    assert_eq!(cpu.register(2), 0);
    ticks(&mut cpu, 2);
    assert_eq!(cpu.register(0), 0x11);
    assert_eq!(cpu.register(1), 0x22);
    assert_eq!(cpu.register(2), 0x33);
    assert_eq!(cpu.register(3), 0x44);
    assert_eq!(cpu.index(), 0x303);
}

#[test]
fn register_dump_of_all_sixteen() {
    let mut rom = Vec::new();
    for x in 0..16u8 {
        rom.push(0x60 | x);
        rom.push(0xA0 + x);
    }
    rom.extend_from_slice(&[0xA4, 0x00, 0xFF, 0x55]);
    let mut cpu = boot(&rom);
    ticks(&mut cpu, 18);
    for x in 0..16u16 {
        assert_eq!(cpu.memory(0x400 + x), 0xA0 + x as u8);
    }
    assert_eq!(cpu.memory(0x410), 0);
    assert_eq!(cpu.index(), 0x410);
}

#[test]
fn register_transfer_past_the_end_of_memory_faults() {
    let mut cpu = boot(&[0x60, 0x77, 0xAF, 0xFF, 0xF0, 0x55, 0xAF, 0xFF, 0xF1, 0x55]);
    ticks(&mut cpu, 3);
    assert_eq!(cpu.memory(0xFFF), 0x77);
    assert_eq!(cpu.index(), 0x1000);
    ticks(&mut cpu, 1);
    assert_eq!(cpu.tick(), Err(Fault::AddressOutOfRange));
    assert_eq!(cpu.index(), 0xFFF);
    let mut cpu = boot(&[0xAF, 0xFF, 0xF1, 0x65]);
    ticks(&mut cpu, 1);
    assert_eq!(cpu.tick(), Err(Fault::AddressOutOfRange));
    assert_eq!(cpu.register(0), 0);
}

#[test]
fn draw_instruction_wraps_and_reports_the_toggle_both_times() {
    let mut cpu = boot(&[
        0x60, 60, 0x61, 0, 0xA2, 0x0C, 0xD0, 0x11, 0xD0, 0x11, 0x00, 0x00, 0xFF,
    ]);
    ticks(&mut cpu, 4);
    assert_eq!(
        lit(&cpu),
        vec![(0, 0), (1, 0), (2, 0), (3, 0), (60, 0), (61, 0), (62, 0), (63, 0)]
    );
    assert_eq!(cpu.register(0xF), 1);
    ticks(&mut cpu, 1);
    assert_eq!(lit(&cpu), vec![]);
    assert_eq!(cpu.register(0xF), 1);
}

#[test]
fn draw_instruction_without_on_bits_clears_the_flag() {
    let mut cpu = boot(&[0x6F, 0x01, 0xA3, 0x00, 0xD0, 0x05]);
    ticks(&mut cpu, 3);
    assert_eq!(lit(&cpu), vec![]);
    assert_eq!(cpu.register(0xF), 0);
    let mut cpu = boot(&[0x6F, 0x01, 0xA0, 0x00, 0xD0, 0x00]);
    ticks(&mut cpu, 3);
    assert_eq!(lit(&cpu), vec![]);
    assert_eq!(cpu.register(0xF), 0);
}

#[test]
fn draw_instruction_shows_a_glyph() {
    let mut cpu = boot(&[0x60, 0x01, 0xF0, 0x29, 0x61, 10, 0x62, 20, 0xD1, 0x25]);
    ticks(&mut cpu, 5);
    assert_eq!(
        lit(&cpu),
        vec![(12, 20), (11, 21), (12, 21), (12, 22), (12, 23), (11, 24), (12, 24), (13, 24)]
    );
    assert_eq!(cpu.register(0xF), 1);
}

#[test]
fn draw_instruction_past_the_end_of_memory_faults() {
    let mut cpu = boot(&[0xAF, 0xFF, 0xD0, 0x01, 0xD0, 0x02]);
    ticks(&mut cpu, 2);
    assert_eq!(cpu.tick(), Err(Fault::AddressOutOfRange));
    assert_eq!(cpu.program_counter(), 0x204);
}

#[test]
fn clear_instruction_blanks_the_screen() {
    let mut cpu = boot(&[0xA0, 0x00, 0xD0, 0x05, 0x00, 0xE0]);
    ticks(&mut cpu, 2);
    assert!(!lit(&cpu).is_empty());
    ticks(&mut cpu, 1);
    assert_eq!(lit(&cpu), vec![]);
}

#[test]
fn random_instruction_masks_the_byte_it_draws() {
    let mut cpu = boot(&[0xC0, 0x0F, 0xC1, 0xF0, 0xC2, 0x00]);
    assert_eq!(cpu.tick_with(0xAB), Ok(()));
    assert_eq!(cpu.register(0), 0x0B);
    assert_eq!(cpu.tick_with(0xAB), Ok(()));
    assert_eq!(cpu.register(1), 0xA0);
    assert_eq!(cpu.tick_with(0xFF), Ok(()));
    assert_eq!(cpu.register(2), 0x00);
    assert_eq!(cpu.program_counter(), 0x206);
}

#[test]
fn random_instruction_stays_within_its_mask() {
    for _ in 0..200 {
        let mut cpu = boot(&[0x60, 0xFF, 0xC0, 0x0F, 0x61, 0xFF, 0xC1, 0x00]);
        ticks(&mut cpu, 4);
        assert!(cpu.register(0) <= 0x0F);
        assert_eq!(cpu.register(1), 0);
    }
}

#[test]
fn tick_with_ignores_the_byte_on_other_instructions() {
    let mut a = boot(&[0x60, 0x12, 0x70, 0x01]);
    let mut b = boot(&[0x60, 0x12, 0x70, 0x01]);
    for _ in 0..2 {
        assert_eq!(a.tick_with(0x00), Ok(()));
        assert_eq!(b.tick_with(0xFF), Ok(()));
    }
    assert_eq!(a.register(0), 0x13);
    assert_eq!(b.register(0), 0x13);
    assert_eq!(a.program_counter(), b.program_counter());
}

#[test]
fn unsupported_opcode_stops_the_machine_where_it_is() {
    let mut cpu = boot(&[0x60, 0x01, 0x51, 0x21]);
    ticks(&mut cpu, 1);
    assert_eq!(cpu.tick(), Err(Fault::UnsupportedOpcode));
    assert_eq!(cpu.program_counter(), 0x202);
    assert_eq!(cpu.tick(), Err(Fault::UnsupportedOpcode));
    assert_eq!(cpu.register(0), 1);
}

#[test]
fn wait_for_key_is_not_implemented() {
    let mut cpu = boot(&[0xF3, 0x08]);
    assert_eq!(cpu.tick(), Err(Fault::NotImplemented));
    assert_eq!(cpu.program_counter(), 0x200);
    assert_eq!(cpu.register(3), 0);
}

#[test]
fn fetch_past_the_end_of_memory_faults() {
    let mut cpu = boot(&[0x1F, 0xFF]);
    ticks(&mut cpu, 1);
    assert_eq!(cpu.program_counter(), 0xFFF);
    assert_eq!(cpu.tick(), Err(Fault::AddressOutOfRange));
    assert_eq!(cpu.program_counter(), 0xFFF);
    let mut cpu = boot(&[0x1F, 0xFE]);
    ticks(&mut cpu, 2);
    assert_eq!(cpu.program_counter(), 0x1000);
    assert_eq!(cpu.tick(), Err(Fault::AddressOutOfRange));
}

#[test]
fn delay_timer_is_set_and_read() {
    let mut cpu = boot(&[0x60, 0x07, 0xF0, 0x15, 0xF1, 0x07]);
    ticks(&mut cpu, 3);
    assert_eq!(cpu.delay_timer(), 7);
    assert_eq!(cpu.register(1), 7);
    assert_eq!(cpu.sound_timer(), 0);
}

#[test]
fn timers_go_down_by_one_and_stop_at_zero() {
    let mut cpu = boot(&[0x60, 0x02, 0xF0, 0x15, 0x61, 0x01, 0xF1, 0x18]);
    ticks(&mut cpu, 4);
    assert!(cpu.tick_timers());
    assert_eq!(cpu.delay_timer(), 1);
    assert_eq!(cpu.sound_timer(), 0);
    assert!(!cpu.tick_timers());
    assert_eq!(cpu.delay_timer(), 0);
    assert_eq!(cpu.sound_timer(), 0);
    assert!(!cpu.tick_timers());
    assert_eq!(cpu.delay_timer(), 0);
    assert_eq!(cpu.sound_timer(), 0);
}

#[test]
fn ticks_leave_the_timers_alone() {
    let mut cpu = boot(&[0x60, 0x05, 0xF0, 0x15, 0xF0, 0x18, 0x00, 0x00, 0x00, 0x00]);
    ticks(&mut cpu, 5);
    assert_eq!(cpu.delay_timer(), 5);
    assert_eq!(cpu.sound_timer(), 5);
}

#[test]
fn delay_timer_decays_over_five_frames() {
    let mut cpu = boot(&[0x60, 0x05, 0xF0, 0x15, 0x12, 0x04]);
    for left in [4u8, 3, 2, 1, 0] {
        assert_eq!(cpu.run_single_frame(), Ok(false));
        assert_eq!(cpu.delay_timer(), left);
    }
    assert_eq!(cpu.run_single_frame(), Ok(false));
    assert_eq!(cpu.delay_timer(), 0);
}

#[test]
fn frame_runs_ten_ticks() {
    let mut rom = Vec::new();
    for _ in 0..25 {
        rom.extend_from_slice(&[0x70, 0x01]);
    }
    let mut cpu = boot(&rom);
    assert_eq!(cpu.run_single_frame(), Ok(false));
    assert_eq!(cpu.register(0), 10);
    assert_eq!(cpu.program_counter(), 0x214);
    assert_eq!(cpu.run_n_ticks(0), Ok(0));
    assert_eq!(cpu.register(0), 10);
    assert_eq!(cpu.run_n_ticks(1), Ok(0));
    assert_eq!(cpu.register(0), 20);
}

#[test]
fn sound_is_due_when_the_sound_timer_runs_out() {
    let mut cpu = boot(&[0x60, 0x02, 0xF0, 0x18, 0x12, 0x04]);
    assert_eq!(cpu.run_single_frame(), Ok(false));
    assert_eq!(cpu.sound_timer(), 1);
    assert_eq!(cpu.run_single_frame(), Ok(true));
    assert_eq!(cpu.sound_timer(), 0);
    assert_eq!(cpu.run_single_frame(), Ok(false));
    assert_eq!(cpu.sound_timer(), 0);
}

#[test]
fn run_counts_the_frames_with_the_sound_due() {
    let mut cpu = boot(&[0x60, 0x01, 0xF0, 0x18, 0x12, 0x00]);
    assert_eq!(cpu.run_n_ticks(7), Ok(7));
    let mut cpu = boot(&[0x60, 0x03, 0xF0, 0x18, 0x12, 0x04]);
    assert_eq!(cpu.run_n_ticks(7), Ok(1));
    assert_eq!(cpu.sound_timer(), 0);
}

#[test]
fn each_frame_is_rendered_once() {
    let frames = Rc::new(RefCell::new(0));
    let screen = Screen::new(Box::new(Counter { frames: frames.clone() }));
    let mut cpu = CPU::with_rom(screen, &[0x12, 0x00]).unwrap();
    assert_eq!(cpu.run_n_ticks(3), Ok(0));
    assert_eq!(*frames.borrow(), 3);
    assert_eq!(cpu.run_single_frame(), Ok(false));
    assert_eq!(*frames.borrow(), 4);
}

#[test]
fn fault_stops_a_run_of_frames() {
    let frames = Rc::new(RefCell::new(0));
    let screen = Screen::new(Box::new(Counter { frames: frames.clone() }));
    let mut rom = Vec::new();
    for _ in 0..14 {
        rom.extend_from_slice(&[0x70, 0x01]);
    }
    rom.extend_from_slice(&[0x60, 0x09, 0xF0, 0x15, 0xFF, 0xFF]);
    let mut cpu = CPU::with_rom(screen, &rom).unwrap();
    assert_eq!(cpu.run_n_ticks(5), Err(Fault::UnsupportedOpcode));
    assert_eq!(*frames.borrow(), 1);
    assert_eq!(cpu.register(0), 9);
    assert_eq!(cpu.delay_timer(), 9);
    assert_eq!(cpu.program_counter(), 0x220);
}
