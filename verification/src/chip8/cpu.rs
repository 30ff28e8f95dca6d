//! The interpreter: registers, memory, call stack, timers and keypad, and
//! the fetch-decode-execute cycle that drives them.

use super::font_set::{fontset, glyphs, FONTSET_SIZE, FONT_SPRITE_SIZE};
use super::instruction::{decode, word_of, Fault, Instr};
use super::machine::{
    flag, initial_ram, moved, ten_each, with_program, Machine, RAM_SIZE, START_ADDR,
    TICKS_PER_FRAME,
};
use super::screen::Screen;
use vstd::prelude::*;

verus! {

/// The call stack: up to sixteen return addresses, last in, first out.
pub struct Stack {
    data: [u16; 16],
    sp: usize,
}

impl View for Stack {
    type V = Seq<u16>;

    /// The return addresses, the most recent last. Only the sixteen slots
    /// of the stack can hold one.
    closed spec fn view(&self) -> Seq<u16> {
        self.data@.take(
            if self.sp <= 16 {
                self.sp as int
            } else {
                16
            },
        )
    }
}

impl Stack {
    #[verifier::type_invariant]
    spec fn within_capacity(self) -> bool {
        self.sp <= 16
    }

    /// A stack never holds more than sixteen return addresses.
    pub proof fn lemma_len(&self)
        ensures
            self@.len() <= 16,
    {
    }

    /// An empty stack.
    pub fn new() -> (stack: Self)
        ensures
            stack@ == Seq::<u16>::empty(),
    {
        Self { sp: 0, data: [0; 16] }
    }

    /// How many return addresses the stack holds: never more than sixteen.
    pub fn len(&self) -> (n: usize)
        ensures
            n == self@.len(),
            n <= 16,
    {
        proof {
            use_type_invariant(self);
        }
        self.sp
    }

    /// Puts `val` on top. The stack must have room.
    pub fn push(&mut self, val: u16)
        requires
            old(self)@.len() < 16,
        ensures
            final(self)@ == old(self)@.push(val),
    {
        proof {
            use_type_invariant(&*self);
        }
        self.data[self.sp] = val;
        self.sp += 1;
    }

    /// Takes the top off and returns it. The stack must not be empty.
    pub fn pop(&mut self) -> (val: u16)
        requires
            old(self)@.len() > 0,
        ensures
            val == old(self)@.last(),
            final(self)@ == old(self)@.drop_last(),
    {
        proof {
            use_type_invariant(&*self);
        }
        self.sp -= 1;
        self.data[self.sp]
    }
}

/// The interpreter. It owns the whole machine state and the display.
pub struct CPU {
    v_reg: [u8; 16],
    ram: [u8; 4096],
    pc: u16,
    i_reg: u16,
    dt: u8,
    st: u8,
    keys: [bool; 16],
    stack: Stack,
    screen: Screen,
}

impl View for CPU {
    type V = Machine;

    closed spec fn view(&self) -> Machine {
        Machine {
            v: self.v_reg@,
            ram: self.ram@,
            pc: self.pc as int,
            i: self.i_reg,
            dt: self.dt,
            st: self.st,
            keys: self.keys@,
            stack: self.stack@,
            screen: self.screen@,
        }
    }
}

impl CPU {
    /// The machine's display.
    pub closed spec fn display(&self) -> Screen {
        self.screen
    }

    /// The state of a machine is always well formed: every part has its
    /// fixed size and the stack is within its capacity.
    pub proof fn lemma_wf(&self)
        ensures
            self@.wf(),
    {
        self.stack.lemma_len();
        self.screen.lemma_len();
    }

    /// A machine around `screen`: registers, timers, keys and stack zeroed,
    /// the glyph table at address 0, execution about to start at
    /// `START_ADDR`.
    pub fn new(screen: Screen) -> (cpu: Self)
        ensures
            cpu@ == Machine::initial(screen@),
            cpu@.wf(),
            cpu.display().sink() == screen.sink(),
    {
        let mut cpu = Self {
            v_reg: [0; 16],
            ram: [0; 4096],
            pc: START_ADDR as u16,
            i_reg: 0,
            dt: 0,
            st: 0,
            keys: [false; 16],
            stack: Stack::new(),
            screen,
        };
        proof {
            screen.lemma_len();
        }
        cpu.preload_fonts();
        cpu
    }

    /// A machine around `screen` with the program image `rom` loaded at
    /// `START_ADDR`. An image longer than the 3584 bytes from there to the
    /// end of memory is refused.
    pub fn with_rom(screen: Screen, rom: &[u8]) -> (res: Result<Self, Fault>)
        ensures
            match res {
                Ok(cpu) => {
                    &&& rom@.len() <= 4096 - 0x200
                    &&& cpu@ == Machine {
                        ram: with_program(initial_ram(), rom@),
                        ..Machine::initial(screen@)
                    }
                    &&& cpu@.wf()
                    &&& cpu.display().sink() == screen.sink()
                },
                Err(fault) => rom@.len() > 4096 - 0x200 && fault == Fault::ProgramTooLarge,
            },
    {
        if rom.len() > RAM_SIZE - START_ADDR {
            return Err(Fault::ProgramTooLarge);
        }
        let mut cpu = Self::new(screen);
        let mut k: usize = 0;
        while k < rom.len()
            invariant
                k <= rom@.len() <= 4096 - 0x200,
                cpu@.wf(),
                cpu.display().sink() == screen.sink(),
                cpu@ == (Machine {
                    ram: with_program(initial_ram(), rom@.take(k as int)),
                    ..Machine::initial(screen@)
                }),
            decreases rom@.len() - k,
        {
            cpu.ram[START_ADDR + k] = rom[k];
            k += 1;
        }
        assert(rom@.take(k as int) =~= rom@);
        Ok(cpu)
    }

    /// Copies the glyph table to the start of memory.
    fn preload_fonts(&mut self)
        ensures
            final(self).display().sink() == old(self).display().sink(),
            final(self)@ == (Machine {
                ram: Seq::new(
                    4096,
                    |a: int|
                        if a < 80 {
                            glyphs()[a]
                        } else {
                            old(self)@.ram[a]
                        },
                ),
                ..old(self)@
            }),
    {
        let table = fontset();
        let mut k: usize = 0;
        while k < FONTSET_SIZE
            invariant
                self.display().sink() == old(self).display().sink(),
                k <= 80,
                table@ == glyphs(),
                self@ == (Machine {
                    ram: Seq::new(
                        4096,
                        |a: int|
                            if a < k {
                                glyphs()[a]
                            } else {
                                old(self)@.ram[a]
                            },
                    ),
                    ..old(self)@
                }),
            decreases 80 - k,
        {
            self.ram[k] = table[k];
            k += 1;
        }
    }

    /// `0000`: does nothing.
    fn oc_0000(&mut self)
        ensures
            final(self).display().sink() == old(self).display().sink(),
            old(self)@.apply(Instr::Nop, 0) == Ok::<Machine, Fault>(final(self)@),
    {
    }

    /// `00E0`: clears the screen.
    fn oc_00e0(&mut self)
        ensures
            final(self).display().sink() == old(self).display().sink(),
            old(self)@.apply(Instr::ClearScreen, 0) == Ok::<Machine, Fault>(final(self)@),
    {
        self.screen.clear();
    }

    /// `00EE`: returns from a subroutine, to the address on top of the
    /// stack.
    fn oc_00ee(&mut self) -> (res: Result<(), Fault>)
        ensures
            final(self).display().sink() == old(self).display().sink(),
            moved(old(self)@, old(self)@.apply(Instr::Return, 0), final(self)@, res),
            old(self)@.stack.len() > 0 ==> res == Ok::<(), Fault>(()) && final(self)@.pc == old(
                self,
            )@.stack.last() && final(self)@.stack == old(self)@.stack.drop_last(),
            old(self)@.stack.len() == 0 ==> res == Err::<(), Fault>(Fault::StackUnderflow),
    {
        if self.stack.len() == 0 {
            return Err(Fault::StackUnderflow);
        }
        let addr: u16 = self.stack.pop();
        self.pc = addr;
        Ok(())
    }

    /// `1nnn`: jumps to `nnn`.
    fn oc_1nnn(&mut self, nnn: u16)
        ensures
            final(self).display().sink() == old(self).display().sink(),
            old(self)@.apply(Instr::Jump { addr: nnn }, 0) == Ok::<Machine, Fault>(final(self)@),
    {
        self.pc = nnn;
    }

    /// `2nnn`: calls the subroutine at `nnn`; the address to return to is
    /// that of the next instruction.
    fn oc_2nnn(&mut self, nnn: u16) -> (res: Result<(), Fault>)
        ensures
            final(self).display().sink() == old(self).display().sink(),
            moved(old(self)@, old(self)@.apply(Instr::Call { addr: nnn }, 0), final(self)@, res),
            old(self)@.stack.len() < 16 ==> res == Ok::<(), Fault>(()) && final(self)@.pc == nnn
                && final(self)@.stack == old(self)@.stack.push(old(self)@.pc as u16),
            old(self)@.stack.len() >= 16 ==> res == Err::<(), Fault>(Fault::StackOverflow),
    {
        if self.stack.len() >= 16 {
            return Err(Fault::StackOverflow);
        }
        self.stack.push(self.pc);
        self.pc = nnn;
        Ok(())
    }

    /// `3xnn`: skips the next instruction if `Vx == nn`.
    fn oc_3xnn(&mut self, x: u8, nn: u8)
        requires
            x < 16,
            old(self)@.pc + 2 <= 0xFFFF,
        ensures
            final(self).display().sink() == old(self).display().sink(),
            old(self)@.apply(Instr::SkipEqImm { x, nn }, 0) == Ok::<Machine, Fault>(final(self)@),
            final(self)@.pc == old(self)@.pc + if old(self)@.v[x as int] == nn {
                2int
            } else {
                0int
            },
            final(self)@.v == old(self)@.v,
    {
        if self.v_reg[x as usize] == nn {
            self.pc += 2;
        }
    }

    /// `4xnn`: skips the next instruction if `Vx != nn`.
    fn oc_4xnn(&mut self, x: u8, nn: u8)
        requires
            x < 16,
            old(self)@.pc + 2 <= 0xFFFF,
        ensures
            final(self).display().sink() == old(self).display().sink(),
            old(self)@.apply(Instr::SkipNeImm { x, nn }, 0) == Ok::<Machine, Fault>(final(self)@),
            final(self)@.pc == old(self)@.pc + if old(self)@.v[x as int] != nn {
                2int
            } else {
                0int
            },
            final(self)@.v == old(self)@.v,
    {
        if self.v_reg[x as usize] != nn {
            self.pc += 2;
        }
    }

    /// `5xy0`: skips the next instruction if `Vx == Vy`.
    fn oc_5xy0(&mut self, x: u8, y: u8)
        requires
            x < 16,
            y < 16,
            old(self)@.pc + 2 <= 0xFFFF,
        ensures
            final(self).display().sink() == old(self).display().sink(),
            old(self)@.apply(Instr::SkipEqReg { x, y }, 0) == Ok::<Machine, Fault>(final(self)@),
            final(self)@.pc == old(self)@.pc + if old(self)@.v[x as int] == old(self)@.v[y as int] {
                2int
            } else {
                0int
            },
            final(self)@.v == old(self)@.v,
    {
        if self.v_reg[x as usize] == self.v_reg[y as usize] {
            self.pc += 2;
        }
    }

    /// `6xnn`: stores `nn` in `Vx`.
    fn oc_6xnn(&mut self, x: u8, nn: u8)
        requires
            x < 16,
        ensures
            final(self).display().sink() == old(self).display().sink(),
            old(self)@.apply(Instr::LoadImm { x, nn }, 0) == Ok::<Machine, Fault>(final(self)@),
    {
        self.v_reg[x as usize] = nn;
    }

    /// `7xnn`: adds `nn` to `Vx`, wrapping at 8 bits.
    fn oc_7xnn(&mut self, x: u8, nn: u8)
        requires
            x < 16,
        ensures
            final(self).display().sink() == old(self).display().sink(),
            old(self)@.apply(Instr::AddImm { x, nn }, 0) == Ok::<Machine, Fault>(final(self)@),
    {
        self.v_reg[x as usize] = self.v_reg[x as usize].wrapping_add(nn);
    }

    /// `8xy0`: stores `Vy` in `Vx`.
    fn oc_8xy0(&mut self, x: u8, y: u8)
        requires
            x < 16,
            y < 16,
        ensures
            final(self).display().sink() == old(self).display().sink(),
            old(self)@.apply(Instr::Move { x, y }, 0) == Ok::<Machine, Fault>(final(self)@),
    {
        self.v_reg[x as usize] = self.v_reg[y as usize];
    }

    /// `8xy1`: sets `Vx` to `Vx OR Vy`.
    fn oc_8xy1(&mut self, x: u8, y: u8)
        requires
            x < 16,
            y < 16,
        ensures
            final(self).display().sink() == old(self).display().sink(),
            old(self)@.apply(Instr::Or { x, y }, 0) == Ok::<Machine, Fault>(final(self)@),
    {
        let vx: u8 = self.v_reg[x as usize];
        let vy: u8 = self.v_reg[y as usize];
        self.v_reg[x as usize] = vx | vy;
    }

    /// `8xy2`: sets `Vx` to `Vx AND Vy`.
    fn oc_8xy2(&mut self, x: u8, y: u8)
        requires
            x < 16,
            y < 16,
        ensures
            final(self).display().sink() == old(self).display().sink(),
            old(self)@.apply(Instr::And { x, y }, 0) == Ok::<Machine, Fault>(final(self)@),
    {
        let vx: u8 = self.v_reg[x as usize];
        let vy: u8 = self.v_reg[y as usize];
        self.v_reg[x as usize] = vx & vy;
    }

    /// `8xy3`: sets `Vx` to `Vx XOR Vy`.
    fn oc_8xy3(&mut self, x: u8, y: u8)
        requires
            x < 16,
            y < 16,
        ensures
            final(self).display().sink() == old(self).display().sink(),
            old(self)@.apply(Instr::Xor { x, y }, 0) == Ok::<Machine, Fault>(final(self)@),
    {
        let vx: u8 = self.v_reg[x as usize];
        let vy: u8 = self.v_reg[y as usize];
        self.v_reg[x as usize] = vx ^ vy;
    }

    /// `8xy4`: adds `Vy` to `Vx`, wrapping at 8 bits; `VF` becomes 1 if the
    /// sum did not fit, else 0.
    fn oc_8xy4(&mut self, x: u8, y: u8)
        requires
            x < 16,
            y < 16,
        ensures
            final(self).display().sink() == old(self).display().sink(),
            old(self)@.apply(Instr::AddCarry { x, y }, 0) == Ok::<Machine, Fault>(final(self)@),
            final(self)@.v[15] == flag(old(self)@.v[x as int] + old(self)@.v[y as int] > 255),
            x != 15 ==> final(self)@.v[x as int] == (old(self)@.v[x as int] + old(self)@.v[y as int])
                % 256,
            forall|k: int| 0 <= k < 15 && k != x ==> final(self)@.v[k] == old(self)@.v[k],
    {
        let vx: u8 = self.v_reg[x as usize];
        let vy: u8 = self.v_reg[y as usize];
        let sum: u8 = vx.wrapping_add(vy);
        let over = vy > 255 - vx;
        let vf: u8 = if over { 1 } else { 0 };
        self.v_reg[x as usize] = sum;
        self.v_reg[0xF] = vf;
    }

    /// `8xy5`: subtracts `Vy` from `Vx`, wrapping at 8 bits; `VF` becomes 0
    /// if that borrowed, else 1.
    fn oc_8xy5(&mut self, x: u8, y: u8)
        requires
            x < 16,
            y < 16,
        ensures
            final(self).display().sink() == old(self).display().sink(),
            old(self)@.apply(Instr::SubBorrow { x, y }, 0) == Ok::<Machine, Fault>(final(self)@),
            final(self)@.v[15] == flag(old(self)@.v[x as int] >= old(self)@.v[y as int]),
            x != 15 ==> final(self)@.v[x as int] == (old(self)@.v[x as int] - old(self)@.v[y as int])
                % 256,
            forall|k: int| 0 <= k < 15 && k != x ==> final(self)@.v[k] == old(self)@.v[k],
    {
        let vx: u8 = self.v_reg[x as usize];
        let vy: u8 = self.v_reg[y as usize];
        let sub: u8 = vx.wrapping_sub(vy);
        let over = vy > vx;
        let vf: u8 = if over { 0 } else { 1 };
        self.v_reg[x as usize] = sub;
        self.v_reg[0xF] = vf;
    }

    /// `8xy6`: stores `Vy` shifted right by one bit in `Vx`; `VF` becomes
    /// the bit shifted out. `Vy` itself is left alone.
    fn oc_8xy6(&mut self, x: u8, y: u8)
        requires
            x < 16,
            y < 16,
        ensures
            final(self).display().sink() == old(self).display().sink(),
            old(self)@.apply(Instr::ShiftRight { x, y }, 0) == Ok::<Machine, Fault>(final(self)@),
            final(self)@.v[15] == old(self)@.v[y as int] & 1,
            x != 15 ==> final(self)@.v[x as int] == old(self)@.v[y as int] >> 1,
            y != x && y != 15 ==> final(self)@.v[y as int] == old(self)@.v[y as int],
            forall|k: int| 0 <= k < 15 && k != x ==> final(self)@.v[k] == old(self)@.v[k],
    {
        let vy: u8 = self.v_reg[y as usize];
        let lsb: u8 = vy & 1;
        self.v_reg[x as usize] = vy >> 1;
        self.v_reg[0xF] = lsb;
    }

    /// `8xy7`: sets `Vx` to `Vy - Vx`, wrapping at 8 bits; `VF` becomes 0 if
    /// that borrowed, else 1.
    fn oc_8xy7(&mut self, x: u8, y: u8)
        requires
            x < 16,
            y < 16,
        ensures
            final(self).display().sink() == old(self).display().sink(),
            old(self)@.apply(Instr::SubReverse { x, y }, 0) == Ok::<Machine, Fault>(final(self)@),
            final(self)@.v[15] == flag(old(self)@.v[y as int] >= old(self)@.v[x as int]),
            x != 15 ==> final(self)@.v[x as int] == (old(self)@.v[y as int] - old(self)@.v[x as int])
                % 256,
            forall|k: int| 0 <= k < 15 && k != x ==> final(self)@.v[k] == old(self)@.v[k],
    {
        let vx: u8 = self.v_reg[x as usize];
        let vy: u8 = self.v_reg[y as usize];
        let sub: u8 = vy.wrapping_sub(vx);
        let over = vx > vy;
        let vf: u8 = if over { 0 } else { 1 };
        self.v_reg[x as usize] = sub;
        self.v_reg[0xF] = vf;
    }

    /// `8xyE`: stores `Vy` shifted left by one bit in `Vx`; `VF` becomes the
    /// bit shifted out. `Vy` itself is left alone.
    fn oc_8xye(&mut self, x: u8, y: u8)
        requires
            x < 16,
            y < 16,
        ensures
            final(self).display().sink() == old(self).display().sink(),
            old(self)@.apply(Instr::ShiftLeft { x, y }, 0) == Ok::<Machine, Fault>(final(self)@),
    {
        let vy: u8 = self.v_reg[y as usize];
        let msb: u8 = (vy >> 7) & 1;
        assert((vy >> 7) & 1 == if vy >= 128 { 1u8 } else { 0u8 }) by (bit_vector);
        assert(vy << 1 == ((vy as u16 * 2) % 256) as u8) by (bit_vector);
        self.v_reg[x as usize] = vy << 1;
        self.v_reg[0xF] = msb;
    }

    /// `9xy0`: skips the next instruction if `Vx != Vy`.
    fn oc_9xy0(&mut self, x: u8, y: u8)
        requires
            x < 16,
            y < 16,
            old(self)@.pc + 2 <= 0xFFFF,
        ensures
            final(self).display().sink() == old(self).display().sink(),
            old(self)@.apply(Instr::SkipNeReg { x, y }, 0) == Ok::<Machine, Fault>(final(self)@),
            final(self)@.pc == old(self)@.pc + if old(self)@.v[x as int] != old(self)@.v[y as int] {
                2int
            } else {
                0int
            },
            final(self)@.v == old(self)@.v,
    {
        if self.v_reg[x as usize] != self.v_reg[y as usize] {
            self.pc += 2;
        }
    }

    /// `Annn`: stores `nnn` in `I`.
    fn oc_annn(&mut self, nnn: u16)
        ensures
            final(self).display().sink() == old(self).display().sink(),
            old(self)@.apply(Instr::LoadIndex { addr: nnn }, 0) == Ok::<Machine, Fault>(
                final(self)@,
            ),
    {
        self.i_reg = nnn;
    }

    /// `Bnnn`: jumps to `nnn + V0`.
    fn oc_bnnn(&mut self, nnn: u16)
        requires
            nnn < 0x1000,
        ensures
            final(self).display().sink() == old(self).display().sink(),
            old(self)@.apply(Instr::JumpOffset { addr: nnn }, 0) == Ok::<Machine, Fault>(
                final(self)@,
            ),
    {
        self.pc = nnn + self.v_reg[0] as u16;
    }

    /// `Cxnn`: stores the random byte `rng`, masked by `nn`, in `Vx`.
    fn oc_cxnn(&mut self, x: u8, nn: u8, rng: u8)
        requires
            x < 16,
        ensures
            final(self).display().sink() == old(self).display().sink(),
            old(self)@.apply(Instr::Random { x, nn }, rng) == Ok::<Machine, Fault>(final(self)@),
    {
        self.v_reg[x as usize] = rng & nn;
    }
    /// `Dxyn`: draws the `n`-byte sprite at `I` with its top left corner
    /// at column `Vx`, row `Vy`; `VF` becomes 1 if any pixel was toggled,
    /// else 0.
    fn oc_dxyn(&mut self, x: u8, y: u8, n: u8) -> (res: Result<(), Fault>)
        requires
            x < 16,
            y < 16,
        ensures
            final(self).display().sink() == old(self).display().sink(),
            moved(old(self)@, old(self)@.apply(Instr::Draw { x, y, n }, 0), final(self)@, res),
    {
        let pos_x: usize = self.v_reg[x as usize] as usize;
        let pos_y: usize = self.v_reg[y as usize] as usize;
        let sprite_start: usize = self.i_reg as usize;
        let sprite_end: usize = sprite_start + n as usize;
        if sprite_end > RAM_SIZE {
            return Err(Fault::AddressOutOfRange);
        }
        let sprite_bytes = vstd::slice::slice_subrange(
            self.ram.as_slice(),
            sprite_start,
            sprite_end,
        );
        let changed = self.screen.draw_sprite(sprite_bytes, pos_x, pos_y);
        self.v_reg[0xF] = if changed { 1 } else { 0 };
        Ok(())
    }

    /// `Ex9E`: skips the next instruction if the key named by the low
    /// four bits of `Vx` is down.
    fn oc_ex9e(&mut self, x: u8)
        requires
            x < 16,
            old(self)@.pc + 2 <= 0xFFFF,
        ensures
            final(self).display().sink() == old(self).display().sink(),
            old(self)@.apply(Instr::SkipKey { x }, 0) == Ok::<Machine, Fault>(final(self)@),
            final(self)@.pc == old(self)@.pc + if old(self)@.key_down(x as int) {
                2int
            } else {
                0int
            },
            final(self)@.v == old(self)@.v,
    {
        let vx: u8 = self.v_reg[x as usize];
        assert(vx & 0x0F == vx % 16) by (bit_vector);
        if self.keys[(vx & 0x0F) as usize] {
            self.pc += 2;
        }
    }

    /// `ExA1`: skips the next instruction if the key named by the low
    /// four bits of `Vx` is up.
    fn oc_exa1(&mut self, x: u8)
        requires
            x < 16,
            old(self)@.pc + 2 <= 0xFFFF,
        ensures
            final(self).display().sink() == old(self).display().sink(),
            old(self)@.apply(Instr::SkipNoKey { x }, 0) == Ok::<Machine, Fault>(final(self)@),
            final(self)@.pc == old(self)@.pc + if !old(self)@.key_down(x as int) {
                2int
            } else {
                0int
            },
            final(self)@.v == old(self)@.v,
    {
        let vx: u8 = self.v_reg[x as usize];
        assert(vx & 0x0F == vx % 16) by (bit_vector);
        if !self.keys[(vx & 0x0F) as usize] {
            self.pc += 2;
        }
    }

    /// `Fx07`: stores the delay timer in `Vx`.
    fn oc_fx07(&mut self, x: u8)
        requires
            x < 16,
        ensures
            final(self).display().sink() == old(self).display().sink(),
            old(self)@.apply(Instr::ReadDelay { x }, 0) == Ok::<Machine, Fault>(final(self)@),
    {
        self.v_reg[x as usize] = self.dt;
    }

    /// `Fx08`: waits for a key press. The machine does not carry this out:
    /// it stops instead.
    fn oc_fx08(&mut self, x: u8) -> (res: Result<(), Fault>)
        ensures
            final(self).display().sink() == old(self).display().sink(),
            moved(old(self)@, old(self)@.apply(Instr::WaitKey { x }, 0), final(self)@, res),
    {
        Err(Fault::NotImplemented)
    }

    /// `Fx15`: sets the delay timer to `Vx`.
    fn oc_fx15(&mut self, x: u8)
        requires
            x < 16,
        ensures
            final(self).display().sink() == old(self).display().sink(),
            old(self)@.apply(Instr::SetDelay { x }, 0) == Ok::<Machine, Fault>(final(self)@),
    {
        self.dt = self.v_reg[x as usize];
    }

    /// `Fx18`: sets the sound timer to `Vx`.
    fn oc_fx18(&mut self, x: u8)
        requires
            x < 16,
        ensures
            final(self).display().sink() == old(self).display().sink(),
            old(self)@.apply(Instr::SetSound { x }, 0) == Ok::<Machine, Fault>(final(self)@),
    {
        self.st = self.v_reg[x as usize];
    }

    /// `Fx1E`: adds `Vx` to `I`, wrapping at 16 bits.
    fn oc_fx1e(&mut self, x: u8)
        requires
            x < 16,
        ensures
            final(self).display().sink() == old(self).display().sink(),
            old(self)@.apply(Instr::AddIndex { x }, 0) == Ok::<Machine, Fault>(final(self)@),
    {
        self.i_reg = self.i_reg.wrapping_add(self.v_reg[x as usize] as u16);
    }

    /// `Fx29`: sets `I` to the address of the glyph of the hexadecimal
    /// digit in the low four bits of `Vx`.
    fn oc_fx29(&mut self, x: u8)
        requires
            x < 16,
        ensures
            final(self).display().sink() == old(self).display().sink(),
            old(self)@.apply(Instr::Glyph { x }, 0) == Ok::<Machine, Fault>(final(self)@),
    {
        let vx: u8 = self.v_reg[x as usize];
        assert(vx & 0x0F == vx % 16) by (bit_vector);
        self.i_reg = (vx & 0x0F) as u16 * FONT_SPRITE_SIZE as u16;
    }

    /// `Fx33`: stores the hundreds, tens and ones digits of `Vx` at `I`,
    /// `I + 1` and `I + 2`.
    fn oc_fx33(&mut self, x: u8) -> (res: Result<(), Fault>)
        requires
            x < 16,
        ensures
            final(self).display().sink() == old(self).display().sink(),
            moved(old(self)@, old(self)@.apply(Instr::Bcd { x }, 0), final(self)@, res),
    {
        let at: usize = self.i_reg as usize;
        if at + 2 >= RAM_SIZE {
            return Err(Fault::AddressOutOfRange);
        }
        let vx: u8 = self.v_reg[x as usize];

        let hundreds: u8 = vx / 100;
        let rem: u8 = vx - (hundreds * 100);
        let tens: u8 = rem / 10;
        let ones: u8 = rem - (tens * 10);

        self.ram[at] = hundreds;
        self.ram[at + 1] = tens;
        self.ram[at + 2] = ones;
        Ok(())
    }

    /// `Fx55`: stores `V0..=Vx` in memory from `I` on, then adds `x + 1`
    /// to `I`.
    fn oc_fx55(&mut self, x: u8) -> (res: Result<(), Fault>)
        requires
            x < 16,
        ensures
            final(self).display().sink() == old(self).display().sink(),
            moved(old(self)@, old(self)@.apply(Instr::Dump { x }, 0), final(self)@, res),
            old(self)@.i + x < 4096 ==> res == Ok::<(), Fault>(()) && final(self)@.i == old(self)@.i
                + x + 1 && final(self)@.v == old(self)@.v,
            old(self)@.i + x < 4096 ==> forall|k: int|
                0 <= k <= x ==> final(self)@.ram[old(self)@.i + k] == old(self)@.v[k],
            old(self)@.i + x >= 4096 ==> res == Err::<(), Fault>(Fault::AddressOutOfRange),
    {
        let at: usize = self.i_reg as usize;
        if at + x as usize >= RAM_SIZE {
            return Err(Fault::AddressOutOfRange);
        }
        let mut idx: u8 = 0;
        while idx <= x
            invariant
                self.display().sink() == old(self).display().sink(),
                idx <= x + 1,
                x < 16,
                at == old(self)@.i,
                at + x < 4096,
                self@ == (Machine {
                    ram: Seq::new(
                        4096,
                        |a: int|
                            if at <= a < at + idx {
                                old(self)@.v[a - at]
                            } else {
                                old(self)@.ram[a]
                            },
                    ),
                    ..old(self)@
                }),
            decreases x + 1 - idx,
        {
            self.ram[at + idx as usize] = self.v_reg[idx as usize];
            idx += 1;
        }
        self.i_reg += (x + 1) as u16;
        assert(self@ =~= old(self)@.apply(Instr::Dump { x }, 0)->Ok_0);
        Ok(())
    }

    /// `Fx65`: loads `V0..=Vx` from memory from `I` on, then adds `x + 1`
    /// to `I`.
    fn oc_fx65(&mut self, x: u8) -> (res: Result<(), Fault>)
        requires
            x < 16,
        ensures
            final(self).display().sink() == old(self).display().sink(),
            moved(old(self)@, old(self)@.apply(Instr::Load { x }, 0), final(self)@, res),
            old(self)@.i + x < 4096 ==> res == Ok::<(), Fault>(()) && final(self)@.i == old(self)@.i
                + x + 1 && final(self)@.ram == old(self)@.ram,
            old(self)@.i + x < 4096 ==> forall|k: int|
                0 <= k <= x ==> final(self)@.v[k] == old(self)@.ram[old(self)@.i + k],
            old(self)@.i + x >= 4096 ==> res == Err::<(), Fault>(Fault::AddressOutOfRange),
    {
        let at: usize = self.i_reg as usize;
        if at + x as usize >= RAM_SIZE {
            return Err(Fault::AddressOutOfRange);
        }
        let mut idx: u8 = 0;
        while idx <= x
            invariant
                self.display().sink() == old(self).display().sink(),
                idx <= x + 1,
                x < 16,
                at == old(self)@.i,
                at + x < 4096,
                self@ == (Machine {
                    v: Seq::new(
                        16,
                        |k: int|
                            if k < idx {
                                old(self)@.ram[at + k]
                            } else {
                                old(self)@.v[k]
                            },
                    ),
                    ..old(self)@
                }),
            decreases x + 1 - idx,
        {
            self.v_reg[idx as usize] = self.ram[at + idx as usize];
            idx += 1;
        }
        self.i_reg += (x + 1) as u16;
        assert(self@ =~= old(self)@.apply(Instr::Load { x }, 0)->Ok_0);
        Ok(())
    }

    /// Decodes the instruction word whose bytes are `high_byte` and
    /// `low_byte` and carries the instruction out. The program counter is
    /// already past the instruction. `rng` is the byte that a random
    /// instruction draws.
    fn dispatch(&mut self, high_byte: u8, low_byte: u8, rng: u8) -> (res: Result<(), Fault>)
        requires
            old(self)@.pc + 2 <= 0xFFFF,
        ensures
            final(self).display().sink() == old(self).display().sink(),
            match decode(word_of(high_byte, low_byte)) {
                Some(instr) => moved(old(self)@, old(self)@.apply(instr, rng), final(self)@, res),
                None => res == Err::<(), Fault>(Fault::UnsupportedOpcode) && final(self)@ == old(
                    self,
                )@,
            },
    {
        let instr = match Instr::decode(high_byte, low_byte) {
            Ok(instr) => instr,
            Err(fault) => {
                return Err(fault);
            },
        };
        match instr {
            Instr::Nop => self.oc_0000(),
            Instr::ClearScreen => self.oc_00e0(),
            Instr::Return => {
                return self.oc_00ee();
            },
            Instr::Jump { addr } => self.oc_1nnn(addr),
            Instr::Call { addr } => {
                return self.oc_2nnn(addr);
            },
            Instr::SkipEqImm { x, nn } => self.oc_3xnn(x, nn),
            Instr::SkipNeImm { x, nn } => self.oc_4xnn(x, nn),
            Instr::SkipEqReg { x, y } => self.oc_5xy0(x, y),
            Instr::LoadImm { x, nn } => self.oc_6xnn(x, nn),
            Instr::AddImm { x, nn } => self.oc_7xnn(x, nn),
            Instr::Move { x, y } => self.oc_8xy0(x, y),
            Instr::Or { x, y } => self.oc_8xy1(x, y),
            Instr::And { x, y } => self.oc_8xy2(x, y),
            Instr::Xor { x, y } => self.oc_8xy3(x, y),
            Instr::AddCarry { x, y } => self.oc_8xy4(x, y),
            Instr::SubBorrow { x, y } => self.oc_8xy5(x, y),
            Instr::ShiftRight { x, y } => self.oc_8xy6(x, y),
            Instr::SubReverse { x, y } => self.oc_8xy7(x, y),
            Instr::ShiftLeft { x, y } => self.oc_8xye(x, y),
            Instr::SkipNeReg { x, y } => self.oc_9xy0(x, y),
            Instr::LoadIndex { addr } => self.oc_annn(addr),
            Instr::JumpOffset { addr } => self.oc_bnnn(addr),
            Instr::Random { x, nn } => self.oc_cxnn(x, nn, rng),
            Instr::Draw { x, y, n } => {
                return self.oc_dxyn(x, y, n);
            },
            Instr::SkipKey { x } => self.oc_ex9e(x),
            Instr::SkipNoKey { x } => self.oc_exa1(x),
            Instr::ReadDelay { x } => self.oc_fx07(x),
            Instr::WaitKey { x } => {
                return self.oc_fx08(x);
            },
            Instr::SetDelay { x } => self.oc_fx15(x),
            Instr::SetSound { x } => self.oc_fx18(x),
            Instr::AddIndex { x } => self.oc_fx1e(x),
            Instr::Glyph { x } => self.oc_fx29(x),
            Instr::Bcd { x } => {
                return self.oc_fx33(x);
            },
            Instr::Dump { x } => {
                return self.oc_fx55(x);
            },
            Instr::Load { x } => {
                return self.oc_fx65(x);
            },
        }
        Ok(())
    }

    /// One tick with the random byte given: reads the instruction word at
    /// the program counter, advances the counter by 2, and carries the
    /// instruction out. A fault leaves the machine untouched.
    pub fn tick_with(&mut self, rng: u8) -> (res: Result<(), Fault>)
        ensures
            final(self).display().sink() == old(self).display().sink(),
            moved(old(self)@, old(self)@.step(rng), final(self)@, res),
            final(self)@.wf(),
    {
        proof {
            reveal(Machine::step);
            use_type_invariant(&self.stack);
            self.screen.lemma_len();
        }
        let at: u16 = self.pc;
        if at as usize + 1 >= RAM_SIZE {
            return Err(Fault::AddressOutOfRange);
        }
        let high_byte: u8 = self.ram[at as usize];
        let low_byte: u8 = self.ram[at as usize + 1];
        self.pc = at + 2;
        let res = self.dispatch(high_byte, low_byte, rng);
        if res.is_err() {
            self.pc = at;
        }
        proof {
            use_type_invariant(&self.stack);
            self.screen.lemma_len();
        }
        res
    }

    /// One tick. A random instruction draws its byte from the thread's
    /// random number generator, so the tick is that of `tick_with` for
    /// some byte.
    pub fn tick(&mut self) -> (res: Result<(), Fault>)
        ensures
            final(self).display().sink() == old(self).display().sink(),
            exists|rng: u8| moved(old(self)@, #[trigger] old(self)@.step(rng), final(self)@, res),
            !old(self)@.draws_random() ==> moved(
                old(self)@,
                old(self)@.step(0),
                final(self)@,
                res,
            ),
            final(self)@.wf(),
    {
        let rng: u8 = if self.draws_random() {
            random_byte()
        } else {
            0
        };
        self.tick_with(rng)
    }

    /// One frame: ten ticks, then the frame goes to the render sink, then
    /// the timers go down. Reports whether the sound is due. A fault stops
    /// the frame at once: nothing is rendered and the timers are left
    /// alone.
    pub fn run_single_frame(&mut self) -> (res: Result<bool, Fault>)
        ensures
            final(self).display().sink() == old(self).display().sink(),
            exists|rngs: Seq<u8>|
                rngs.len() == 10 && (#[trigger] old(self)@.frame(rngs)) == (final(self)@, res),
            final(self)@.wf(),
    {
        let ghost start = self@;
        let ghost mut rngs: Seq<u8> = Seq::empty();
        let mut t: usize = 0;
        proof {
            use_type_invariant(&self.stack);
            self.screen.lemma_len();
        }
        while t < TICKS_PER_FRAME
            invariant
                self.display().sink() == old(self).display().sink(),
                t <= 10,
                rngs.len() == t,
                start == old(self)@,
                start.ticks(rngs) == (self@, None::<Fault>),
                self@.wf(),
            decreases 10 - t,
        {
            let ghost before = self@;
            let ghost seen = rngs;
            let res = self.tick();
            proof {
                let rng = choose|rng: u8| moved(before, #[trigger] before.step(rng), self@, res);
                rngs = seen.push(rng);
                assert(rngs.drop_last() =~= seen);
            }
            match res {
                Ok(()) => {},
                Err(fault) => {
                    proof {
                        let padded = start.lemma_ticks_padded(rngs, 10);
                        assert(start.frame(padded) == (self@, Err::<bool, Fault>(fault)));
                    }
                    return Err(fault);
                },
            }
            t += 1;
        }
        self.screen.render();
        let sound = self.tick_timers();
        proof {
            assert(start.frame(rngs) == (self@, Ok::<bool, Fault>(sound)));
        }
        Ok(sound)
    }

    /// Runs `ticks` frames, one after the other, and reports how many of
    /// them ended with the sound due. A fault stops the run at once.
    pub fn run_n_ticks(&mut self, ticks: usize) -> (res: Result<usize, Fault>)
        ensures
            final(self).display().sink() == old(self).display().sink(),
            exists|rngs: Seq<Seq<u8>>|
                {
                    &&& rngs.len() == ticks
                    &&& ten_each(rngs)
                    &&& (#[trigger] old(self)@.frames(rngs)).0 == final(self)@
                    &&& match old(self)@.frames(rngs).1 {
                        Ok(count) => res matches Ok(n) && n == count,
                        Err(fault) => res == Err::<usize, Fault>(fault),
                    }
                },
            final(self)@.wf(),
    {
        let ghost start = self@;
        let ghost mut rngs: Seq<Seq<u8>> = Seq::empty();
        let mut sounds: usize = 0;
        let mut done: usize = 0;
        proof {
            use_type_invariant(&self.stack);
            self.screen.lemma_len();
        }
        while done < ticks
            invariant
                self.display().sink() == old(self).display().sink(),
                done <= ticks,
                sounds <= done,
                rngs.len() == done,
                ten_each(rngs),
                start == old(self)@,
                start.frames(rngs) == (self@, Ok::<nat, Fault>(sounds as nat)),
                self@.wf(),
            decreases ticks - done,
        {
            let ghost before = self@;
            let ghost seen = rngs;
            let res = self.run_single_frame();
            proof {
                let frame_rngs = choose|frame_rngs: Seq<u8>|
                    frame_rngs.len() == 10 && (#[trigger] before.frame(frame_rngs)) == (self@, res);
                rngs = seen.push(frame_rngs);
                assert(rngs.drop_last() =~= seen);
            }
            match res {
                Ok(sound) => {
                    if sound {
                        sounds += 1;
                    }
                },
                Err(fault) => {
                    proof {
                        let padded = start.lemma_frames_padded(rngs, ticks as nat);
                        assert(start.frames(padded) == (self@, Err::<nat, Fault>(fault)));
                    }
                    return Err(fault);
                },
            }
            done += 1;
        }
        Ok(sounds)
    }

    /// The value of register `x`.
    pub fn register(&self, x: u8) -> (val: u8)
        requires
            x < 16,
        ensures
            val == self@.v[x as int],
    {
        self.v_reg[x as usize]
    }

    /// The program counter.
    pub fn program_counter(&self) -> (pc: u16)
        ensures
            pc == self@.pc,
    {
        self.pc
    }

    /// The index register.
    pub fn index(&self) -> (i: u16)
        ensures
            i == self@.i,
    {
        self.i_reg
    }

    /// The delay timer.
    pub fn delay_timer(&self) -> (dt: u8)
        ensures
            dt == self@.dt,
    {
        self.dt
    }

    /// The sound timer.
    pub fn sound_timer(&self) -> (st: u8)
        ensures
            st == self@.st,
    {
        self.st
    }

    /// The byte of memory at `addr`.
    pub fn memory(&self, addr: u16) -> (byte: u8)
        requires
            addr < 4096,
        ensures
            byte == self@.ram[addr as int],
    {
        self.ram[addr as usize]
    }

    /// How many return addresses are on the call stack.
    pub fn stack_depth(&self) -> (depth: usize)
        ensures
            depth == self@.stack.len(),
            depth <= 16,
    {
        self.stack.len()
    }

    /// Whether key `key` is down.
    pub fn key(&self, key: u8) -> (down: bool)
        requires
            key < 16,
        ensures
            down == self@.keys[key as int],
    {
        self.keys[key as usize]
    }

    /// Records that key `key` went down or up.
    pub fn set_key(&mut self, key: u8, down: bool)
        requires
            key < 16,
        ensures
            final(self).display().sink() == old(self).display().sink(),
            final(self)@ == (Machine { keys: old(self)@.keys.update(key as int, down), ..old(self)@ }),
    {
        self.keys[key as usize] = down;
    }

    /// The display.
    pub fn screen(&self) -> (screen: &Screen)
        ensures
            screen@ == self@.screen,
            screen.sink() == self.display().sink(),
    {
        &self.screen
    }

    /// Whether the instruction at the program counter is a random
    /// instruction.
    fn draws_random(&self) -> (b: bool)
        ensures
            b == self@.draws_random(),
    {
        let at: usize = self.pc as usize;
        if at + 1 >= RAM_SIZE {
            return false;
        }
        let high_byte: u8 = self.ram[at];
        assert(high_byte >> 4 == high_byte / 16) by (bit_vector);
        high_byte >> 4 == 0xC
    }

    /// The end of a frame: each timer that is not 0 goes down by 1.
    /// Reports whether the sound is due, which is when the sound timer
    /// reaches 0.
    pub fn tick_timers(&mut self) -> (sound: bool)
        ensures
            final(self).display().sink() == old(self).display().sink(),
            final(self)@ == old(self)@.timers_ticked(),
            sound == old(self)@.sounds(),
    {
        let mut sound = false;
        if self.dt > 0 {
            self.dt -= 1;
        }
        if self.st > 0 {
            if self.st == 1 {
                sound = true;
            }
            self.st -= 1;
        }
        sound
    }
}

/// A random byte from `rand::random`, which draws it from the thread's
/// generator. Nothing is claimed of the byte.
#[verifier::external_body]
fn random_byte() -> u8 {
    rand::random::<u8>()
}

} // verus!
