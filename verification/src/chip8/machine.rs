//! The mathematical model of the machine: its state as plain values, and
//! what one instruction, one tick and one frame do to it.

use super::font_set::glyphs;
use super::instruction::{decode, word_of, Fault, Instr};
use super::screen::{blank, draw, has_on_bit};
use vstd::prelude::*;

verus! {

/// Bytes of addressable memory.
pub const RAM_SIZE: usize = 4096;

/// Where a program is loaded and where execution starts.
pub const START_ADDR: usize = 0x200;

/// Number of general-purpose registers. The last one is the flag register.
pub const NUM_REGS: usize = 16;

/// Capacity of the call stack.
pub const STACK_SIZE: usize = 16;

/// Number of keys of the keypad.
pub const NUM_KEYS: usize = 16;

/// Instructions executed per frame.
pub const TICKS_PER_FRAME: usize = 10;

/// The state of the machine.
#[verifier::ext_equal]
pub struct Machine {
    /// The registers `V0..=VF`.
    pub v: Seq<u8>,
    /// Memory.
    pub ram: Seq<u8>,
    /// The program counter.
    pub pc: int,
    /// The index register.
    pub i: u16,
    /// The delay timer.
    pub dt: u8,
    /// The sound timer.
    pub st: u8,
    /// Which keys are down.
    pub keys: Seq<bool>,
    /// The return addresses, the most recent last.
    pub stack: Seq<u16>,
    /// The pixels, row by row.
    pub screen: Seq<bool>,
}

/// 1 if `b` holds, else 0: how a condition is written to the flag register.
pub open spec fn flag(b: bool) -> u8 {
    if b {
        1
    } else {
        0
    }
}

/// Memory as it is before a program is loaded: the glyph table at address
/// 0, zero everywhere else.
pub open spec fn initial_ram() -> Seq<u8> {
    Seq::new(
        4096,
        |a: int|
            if a < 80 {
                glyphs()[a]
            } else {
                0u8
            },
    )
}

/// Memory with `rom` copied in from `START_ADDR` on.
pub open spec fn with_program(ram: Seq<u8>, rom: Seq<u8>) -> Seq<u8> {
    Seq::new(
        ram.len(),
        |a: int|
            if 0x200 <= a < 0x200 + rom.len() {
                rom[a - 0x200]
            } else {
                ram[a]
            },
    )
}

impl Machine {
    /// Every part has its fixed size and the stack is within its capacity.
    pub open spec fn wf(self) -> bool {
        &&& self.v.len() == 16
        &&& self.ram.len() == 4096
        &&& self.keys.len() == 16
        &&& self.stack.len() <= 16
        &&& self.screen.len() == 2048
        &&& 0 <= self.pc <= 0xFFFF
    }

    /// The machine as it is built around a display that shows `screen`:
    /// everything zero, glyphs loaded, execution about to start at
    /// `START_ADDR`.
    pub open spec fn initial(screen: Seq<bool>) -> Machine {
        Machine {
            v: Seq::new(16, |k: int| 0u8),
            ram: initial_ram(),
            pc: 0x200,
            i: 0,
            dt: 0,
            st: 0,
            keys: Seq::new(16, |k: int| false),
            stack: Seq::empty(),
            screen,
        }
    }

    /// The machine with register `x` set to `val`.
    pub open spec fn set_reg(self, x: int, val: u8) -> Machine {
        Machine { v: self.v.update(x, val), ..self }
    }

    /// The machine with the program counter moved past one more
    /// instruction if `cond` holds.
    pub open spec fn skip_if(self, cond: bool) -> Machine {
        if cond {
            Machine { pc: self.pc + 2, ..self }
        } else {
            self
        }
    }

    /// Whether the key named by the low four bits of register `x` is down.
    pub open spec fn key_down(self, x: int) -> bool {
        self.keys[(self.v[x] % 16) as int]
    }

    /// The `n` bytes of memory from the index register on.
    pub open spec fn sprite(self, n: int) -> Seq<u8> {
        self.ram.subrange(self.i as int, self.i + n)
    }

    /// What `instr` does to the machine, the program counter having been
    /// advanced past it already; or the fault it raises. `rng` is the random
    /// byte that a random instruction draws.
    pub open spec fn apply(self, instr: Instr, rng: u8) -> Result<Machine, Fault> {
        match instr {
            Instr::Nop => Ok(self),
            Instr::ClearScreen => Ok(Machine { screen: blank(), ..self }),
            Instr::Return => if self.stack.len() == 0 {
                Err(Fault::StackUnderflow)
            } else {
                Ok(Machine { pc: self.stack.last() as int, stack: self.stack.drop_last(), ..self })
            },
            Instr::Jump { addr } => Ok(Machine { pc: addr as int, ..self }),
            Instr::Call { addr } => if self.stack.len() >= 16 {
                Err(Fault::StackOverflow)
            } else {
                Ok(Machine { pc: addr as int, stack: self.stack.push(self.pc as u16), ..self })
            },
            Instr::SkipEqImm { x, nn } => Ok(self.skip_if(self.v[x as int] == nn)),
            Instr::SkipNeImm { x, nn } => Ok(self.skip_if(self.v[x as int] != nn)),
            Instr::SkipEqReg { x, y } => Ok(self.skip_if(self.v[x as int] == self.v[y as int])),
            Instr::LoadImm { x, nn } => Ok(self.set_reg(x as int, nn)),
            Instr::AddImm { x, nn } => Ok(
                self.set_reg(x as int, ((self.v[x as int] + nn) % 256) as u8),
            ),
            Instr::Move { x, y } => Ok(self.set_reg(x as int, self.v[y as int])),
            Instr::Or { x, y } => Ok(self.set_reg(x as int, self.v[x as int] | self.v[y as int])),
            Instr::And { x, y } => Ok(self.set_reg(x as int, self.v[x as int] & self.v[y as int])),
            Instr::Xor { x, y } => Ok(self.set_reg(x as int, self.v[x as int] ^ self.v[y as int])),
            Instr::AddCarry { x, y } => {
                let sum = self.v[x as int] + self.v[y as int];
                Ok(self.set_reg(x as int, (sum % 256) as u8).set_reg(0xF, flag(sum > 255)))
            },
            Instr::SubBorrow { x, y } => {
                let diff = self.v[x as int] - self.v[y as int];
                Ok(self.set_reg(x as int, (diff % 256) as u8).set_reg(0xF, flag(diff >= 0)))
            },
            Instr::ShiftRight { x, y } => {
                let vy = self.v[y as int];
                Ok(self.set_reg(x as int, vy >> 1).set_reg(0xF, vy & 1))
            },
            Instr::SubReverse { x, y } => {
                let diff = self.v[y as int] - self.v[x as int];
                Ok(self.set_reg(x as int, (diff % 256) as u8).set_reg(0xF, flag(diff >= 0)))
            },
            Instr::ShiftLeft { x, y } => {
                let vy = self.v[y as int];
                Ok(self.set_reg(x as int, ((vy * 2) % 256) as u8).set_reg(0xF, flag(vy >= 128)))
            },
            Instr::SkipNeReg { x, y } => Ok(self.skip_if(self.v[x as int] != self.v[y as int])),
            Instr::LoadIndex { addr } => Ok(Machine { i: addr, ..self }),
            Instr::JumpOffset { addr } => Ok(Machine { pc: addr + self.v[0], ..self }),
            Instr::Random { x, nn } => Ok(self.set_reg(x as int, rng & nn)),
            Instr::Draw { x, y, n } => if self.i + n > 4096 {
                Err(Fault::AddressOutOfRange)
            } else {
                let sprite = self.sprite(n as int);
                Ok(
                    Machine {
                        screen: draw(
                            self.screen,
                            sprite,
                            self.v[x as int] as int,
                            self.v[y as int] as int,
                        ),
                        ..self
                    }.set_reg(0xF, flag(has_on_bit(sprite))),
                )
            },
            Instr::SkipKey { x } => Ok(self.skip_if(self.key_down(x as int))),
            Instr::SkipNoKey { x } => Ok(self.skip_if(!self.key_down(x as int))),
            Instr::ReadDelay { x } => Ok(self.set_reg(x as int, self.dt)),
            Instr::WaitKey { x } => Err(Fault::NotImplemented),
            Instr::SetDelay { x } => Ok(Machine { dt: self.v[x as int], ..self }),
            Instr::SetSound { x } => Ok(Machine { st: self.v[x as int], ..self }),
            Instr::AddIndex { x } => Ok(
                Machine { i: ((self.i + self.v[x as int]) % 0x10000) as u16, ..self },
            ),
            Instr::Glyph { x } => Ok(Machine { i: ((self.v[x as int] % 16) * 5) as u16, ..self }),
            Instr::Bcd { x } => if self.i + 2 >= 4096 {
                Err(Fault::AddressOutOfRange)
            } else {
                let vx = self.v[x as int];
                Ok(
                    Machine {
                        ram: self.ram.update(self.i as int, vx / 100).update(
                            self.i + 1,
                            (vx / 10) % 10,
                        ).update(self.i + 2, vx % 10),
                        ..self
                    },
                )
            },
            Instr::Dump { x } => if self.i + x >= 4096 {
                Err(Fault::AddressOutOfRange)
            } else {
                Ok(
                    Machine {
                        ram: Seq::new(
                            self.ram.len(),
                            |a: int|
                                if self.i <= a <= self.i + x {
                                    self.v[a - self.i]
                                } else {
                                    self.ram[a]
                                },
                        ),
                        i: (self.i + x + 1) as u16,
                        ..self
                    },
                )
            },
            Instr::Load { x } => if self.i + x >= 4096 {
                Err(Fault::AddressOutOfRange)
            } else {
                Ok(
                    Machine {
                        v: Seq::new(
                            self.v.len(),
                            |k: int|
                                if k <= x {
                                    self.ram[self.i + k]
                                } else {
                                    self.v[k]
                                },
                        ),
                        i: (self.i + x + 1) as u16,
                        ..self
                    },
                )
            },
        }
    }

    /// The instruction word at the program counter.
    pub open spec fn word(self) -> int {
        word_of(self.ram[self.pc], self.ram[self.pc + 1])
    }

    /// Whether the instruction at the program counter is a random
    /// instruction: the only one whose effect depends on the random byte.
    pub open spec fn draws_random(self) -> bool {
        self.pc + 1 < 4096 && self.ram[self.pc] / 16 == 0xC
    }

    /// One tick: fetch the word at the program counter, advance the counter
    /// by 2, decode, execute.
    #[verifier::opaque]
    pub open spec fn step(self, rng: u8) -> Result<Machine, Fault> {
        if self.pc + 1 >= 4096 {
            Err(Fault::AddressOutOfRange)
        } else {
            match decode(self.word()) {
                None => Err(Fault::UnsupportedOpcode),
                Some(instr) => Machine { pc: self.pc + 2, ..self }.apply(instr, rng),
            }
        }
    }

    /// The timers after the end of a frame: each one less, unless it is 0.
    pub open spec fn timers_ticked(self) -> Machine {
        Machine {
            dt: if self.dt > 0 {
                (self.dt - 1) as u8
            } else {
                0
            },
            st: if self.st > 0 {
                (self.st - 1) as u8
            } else {
                0
            },
            ..self
        }
    }

    /// Whether the sound is due at the end of this frame: the sound timer
    /// is about to reach 0.
    pub open spec fn sounds(self) -> bool {
        self.st == 1
    }

    /// The machine after one tick for each byte of `rngs`, in order, each
    /// tick drawing its byte. The first fault stops the run: the result is
    /// then the machine as the fault left it, and the fault.
    pub open spec fn ticks(self, rngs: Seq<u8>) -> (Machine, Option<Fault>)
        decreases rngs.len(),
    {
        if rngs.len() == 0 {
            (self, None)
        } else {
            let (m, fault) = self.ticks(rngs.drop_last());
            if fault is Some {
                (m, fault)
            } else {
                match m.step(rngs.last()) {
                    Ok(next) => (next, None),
                    Err(f) => (m, Some(f)),
                }
            }
        }
    }

    /// One frame: a tick for each byte of `rngs`, then the timers. The
    /// result says whether the sound is due. A fault stops the frame
    /// before the timers are touched.
    pub open spec fn frame(self, rngs: Seq<u8>) -> (Machine, Result<bool, Fault>) {
        let (m, fault) = self.ticks(rngs);
        match fault {
            Some(f) => (m, Err(f)),
            None => (m.timers_ticked(), Ok(m.sounds())),
        }
    }

    /// One frame for each element of `rngs`, in order. The result counts
    /// the frames at whose end the sound was due. The first fault stops
    /// the run.
    pub open spec fn frames(self, rngs: Seq<Seq<u8>>) -> (Machine, Result<nat, Fault>)
        decreases rngs.len(),
    {
        if rngs.len() == 0 {
            (self, Ok(0))
        } else {
            let (m, res) = self.frames(rngs.drop_last());
            match res {
                Err(_) => (m, res),
                Ok(count) => {
                    let (next, sound) = m.frame(rngs.last());
                    match sound {
                        Ok(due) => (next, Ok(count + flag(due) as nat)),
                        Err(f) => (next, Err(f)),
                    }
                },
            }
        }
    }

    /// After a fault, further ticks change nothing: a run that faulted can
    /// be taken for a run of any greater length.
    pub proof fn lemma_ticks_padded(self, rngs: Seq<u8>, n: nat) -> (padded: Seq<u8>)
        requires
            self.ticks(rngs).1 is Some,
            rngs.len() <= n,
        ensures
            padded.len() == n,
            self.ticks(padded) == self.ticks(rngs),
        decreases n - rngs.len(),
    {
        if rngs.len() == n {
            rngs
        } else {
            let next = rngs.push(0);
            assert(next.drop_last() =~= rngs);
            self.lemma_ticks_padded(next, n)
        }
    }

    /// After a fault, further frames change nothing: a run of frames that
    /// faulted can be taken for a run of any greater number of frames.
    pub proof fn lemma_frames_padded(self, rngs: Seq<Seq<u8>>, n: nat) -> (padded: Seq<Seq<u8>>)
        requires
            self.frames(rngs).1 is Err,
            rngs.len() <= n,
            ten_each(rngs),
        ensures
            padded.len() == n,
            ten_each(padded),
            self.frames(padded) == self.frames(rngs),
        decreases n - rngs.len(),
    {
        if rngs.len() == n {
            rngs
        } else {
            let next = rngs.push(Seq::new(10, |k: int| 0u8));
            assert(next.drop_last() =~= rngs);
            self.lemma_frames_padded(next, n)
        }
    }
}

/// Whether every element of `rngs` holds the ten bytes of one frame.
pub open spec fn ten_each(rngs: Seq<Seq<u8>>) -> bool {
    forall|j: int| 0 <= j < rngs.len() ==> (#[trigger] rngs[j]).len() == 10
}

/// How a tick that got `res` relates the machine after it to the machine
/// before it: it is the next state if there is one, and unchanged on a
/// fault.
pub open spec fn moved(
    before: Machine,
    next: Result<Machine, Fault>,
    after: Machine,
    res: Result<(), Fault>,
) -> bool {
    match next {
        Ok(m) => res == Ok::<(), Fault>(()) && after == m,
        Err(fault) => res == Err::<(), Fault>(fault) && after == before,
    }
}

} // verus!
