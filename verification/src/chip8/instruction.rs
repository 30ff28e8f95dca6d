//! Instructions, the faults that stop the machine, and the decoder.

use vstd::prelude::*;

verus! {

/// Why the machine stopped. A fault leaves the machine as it was before
/// the instruction that raised it.
#[derive(Clone, Copy, Debug, PartialEq, Eq, Structural)]
pub enum Fault {
    /// The instruction word matches no defined instruction.
    UnsupportedOpcode,
    /// The instruction is defined but the machine does not carry it out.
    NotImplemented,
    /// A call with sixteen return addresses already on the stack.
    StackOverflow,
    /// A return with no return address on the stack.
    StackUnderflow,
    /// A fetch, a sprite or a register transfer reaches past the end of memory.
    AddressOutOfRange,
    /// A program image that does not fit between the origin and the end of memory.
    ProgramTooLarge,
}

/// A decoded instruction. `x` and `y` name registers, `nn` is an 8-bit
/// immediate, `addr` a 12-bit address, `n` a sprite height.
#[derive(Clone, Copy, Debug, PartialEq, Eq, Structural)]
pub enum Instr {
    /// `0000`: do nothing.
    Nop,
    /// `00E0`: turn every pixel off.
    ClearScreen,
    /// `00EE`: return from a call.
    Return,
    /// `1nnn`: jump.
    Jump { addr: u16 },
    /// `2nnn`: call.
    Call { addr: u16 },
    /// `3xnn`: skip the next instruction if `Vx == nn`.
    SkipEqImm { x: u8, nn: u8 },
    /// `4xnn`: skip the next instruction if `Vx != nn`.
    SkipNeImm { x: u8, nn: u8 },
    /// `5xy0`: skip the next instruction if `Vx == Vy`.
    SkipEqReg { x: u8, y: u8 },
    /// `6xnn`: `Vx = nn`.
    LoadImm { x: u8, nn: u8 },
    /// `7xnn`: `Vx += nn`, wrapping, no flag.
    AddImm { x: u8, nn: u8 },
    /// `8xy0`: `Vx = Vy`.
    Move { x: u8, y: u8 },
    /// `8xy1`: `Vx |= Vy`.
    Or { x: u8, y: u8 },
    /// `8xy2`: `Vx &= Vy`.
    And { x: u8, y: u8 },
    /// `8xy3`: `Vx ^= Vy`.
    Xor { x: u8, y: u8 },
    /// `8xy4`: `Vx += Vy`, wrapping; the flag gets the carry.
    AddCarry { x: u8, y: u8 },
    /// `8xy5`: `Vx -= Vy`, wrapping; the flag is 0 on a borrow, else 1.
    SubBorrow { x: u8, y: u8 },
    /// `8xy6`: `Vx = Vy >> 1`; the flag gets the bit shifted out.
    ShiftRight { x: u8, y: u8 },
    /// `8xy7`: `Vx = Vy - Vx`, wrapping; the flag is 0 on a borrow, else 1.
    SubReverse { x: u8, y: u8 },
    /// `8xyE`: `Vx = Vy << 1`; the flag gets the bit shifted out.
    ShiftLeft { x: u8, y: u8 },
    /// `9xy0`: skip the next instruction if `Vx != Vy`.
    SkipNeReg { x: u8, y: u8 },
    /// `Annn`: `I = nnn`.
    LoadIndex { addr: u16 },
    /// `Bnnn`: jump to `nnn + V0`.
    JumpOffset { addr: u16 },
    /// `Cxnn`: `Vx = random byte & nn`.
    Random { x: u8, nn: u8 },
    /// `Dxyn`: draw the `n`-byte sprite at `I` at column `Vx`, row `Vy`.
    Draw { x: u8, y: u8, n: u8 },
    /// `Ex9E`: skip the next instruction if the key named by `Vx` is down.
    SkipKey { x: u8 },
    /// `ExA1`: skip the next instruction if the key named by `Vx` is up.
    SkipNoKey { x: u8 },
    /// `Fx07`: `Vx = delay timer`.
    ReadDelay { x: u8 },
    /// `Fx08`: wait for a key press.
    WaitKey { x: u8 },
    /// `Fx15`: `delay timer = Vx`.
    SetDelay { x: u8 },
    /// `Fx18`: `sound timer = Vx`.
    SetSound { x: u8 },
    /// `Fx1E`: `I += Vx`.
    AddIndex { x: u8 },
    /// `Fx29`: `I` = address of the glyph of the digit in `Vx`.
    Glyph { x: u8 },
    /// `Fx33`: store the decimal digits of `Vx` at `I`, `I + 1`, `I + 2`.
    Bcd { x: u8 },
    /// `Fx55`: store `V0..=Vx` at `I`, then `I += x + 1`.
    Dump { x: u8 },
    /// `Fx65`: load `V0..=Vx` from `I`, then `I += x + 1`.
    Load { x: u8 },
}

impl Instr {
    /// Every operand is within its field: registers and sprite heights
    /// below 16, addresses below 4096.
    pub open spec fn wf(self) -> bool {
        match self {
            Instr::Nop | Instr::ClearScreen | Instr::Return => true,
            Instr::Jump { addr }
            | Instr::Call { addr }
            | Instr::LoadIndex { addr }
            | Instr::JumpOffset { addr } => addr < 0x1000,
            Instr::SkipEqImm { x, nn }
            | Instr::SkipNeImm { x, nn }
            | Instr::LoadImm { x, nn }
            | Instr::AddImm { x, nn }
            | Instr::Random { x, nn } => x < 16,
            Instr::SkipEqReg { x, y }
            | Instr::Move { x, y }
            | Instr::Or { x, y }
            | Instr::And { x, y }
            | Instr::Xor { x, y }
            | Instr::AddCarry { x, y }
            | Instr::SubBorrow { x, y }
            | Instr::ShiftRight { x, y }
            | Instr::SubReverse { x, y }
            | Instr::ShiftLeft { x, y }
            | Instr::SkipNeReg { x, y } => x < 16 && y < 16,
            Instr::Draw { x, y, n } => x < 16 && y < 16 && n < 16,
            Instr::SkipKey { x }
            | Instr::SkipNoKey { x }
            | Instr::ReadDelay { x }
            | Instr::WaitKey { x }
            | Instr::SetDelay { x }
            | Instr::SetSound { x }
            | Instr::AddIndex { x }
            | Instr::Glyph { x }
            | Instr::Bcd { x }
            | Instr::Dump { x }
            | Instr::Load { x } => x < 16,
        }
    }
}

/// The instruction word made of two consecutive bytes, high byte first.
pub open spec fn word_of(high_byte: u8, low_byte: u8) -> int {
    high_byte * 256 + low_byte
}

/// The instruction that a 16-bit word encodes, if it encodes one. The word
/// is read as four hexadecimal digits: the first picks the group, `x` and
/// `y` are the second and third, `n` the last, `nn` the last two, `addr`
/// the last three.
pub open spec fn decode(word: int) -> Option<Instr> {
    let group = word / 0x1000;
    let x = ((word / 0x100) % 16) as u8;
    let y = ((word / 0x10) % 16) as u8;
    let n = (word % 16) as u8;
    let nn = (word % 0x100) as u8;
    let addr = (word % 0x1000) as u16;
    if group == 0x0 {
        if word == 0x0000 {
            Some(Instr::Nop)
        } else if word == 0x00E0 {
            Some(Instr::ClearScreen)
        } else if word == 0x00EE {
            Some(Instr::Return)
        } else {
            None
        }
    } else if group == 0x1 {
        Some(Instr::Jump { addr })
    } else if group == 0x2 {
        Some(Instr::Call { addr })
    } else if group == 0x3 {
        Some(Instr::SkipEqImm { x, nn })
    } else if group == 0x4 {
        Some(Instr::SkipNeImm { x, nn })
    } else if group == 0x5 {
        if n == 0 {
            Some(Instr::SkipEqReg { x, y })
        } else {
            None
        }
    } else if group == 0x6 {
        Some(Instr::LoadImm { x, nn })
    } else if group == 0x7 {
        Some(Instr::AddImm { x, nn })
    } else if group == 0x8 {
        if n == 0x0 {
            Some(Instr::Move { x, y })
        } else if n == 0x1 {
            Some(Instr::Or { x, y })
        } else if n == 0x2 {
            Some(Instr::And { x, y })
        } else if n == 0x3 {
            Some(Instr::Xor { x, y })
        } else if n == 0x4 {
            Some(Instr::AddCarry { x, y })
        } else if n == 0x5 {
            Some(Instr::SubBorrow { x, y })
        } else if n == 0x6 {
            Some(Instr::ShiftRight { x, y })
        } else if n == 0x7 {
            Some(Instr::SubReverse { x, y })
        } else if n == 0xE {
            Some(Instr::ShiftLeft { x, y })
        } else {
            None
        }
    } else if group == 0x9 {
        if n == 0 {
            Some(Instr::SkipNeReg { x, y })
        } else {
            None
        }
    } else if group == 0xA {
        Some(Instr::LoadIndex { addr })
    } else if group == 0xB {
        Some(Instr::JumpOffset { addr })
    } else if group == 0xC {
        Some(Instr::Random { x, nn })
    } else if group == 0xD {
        Some(Instr::Draw { x, y, n })
    } else if group == 0xE {
        if nn == 0x9E {
            Some(Instr::SkipKey { x })
        } else if nn == 0xA1 {
            Some(Instr::SkipNoKey { x })
        } else {
            None
        }
    } else if group == 0xF {
        if nn == 0x07 {
            Some(Instr::ReadDelay { x })
        } else if nn == 0x08 {
            Some(Instr::WaitKey { x })
        } else if nn == 0x15 {
            Some(Instr::SetDelay { x })
        } else if nn == 0x18 {
            Some(Instr::SetSound { x })
        } else if nn == 0x1E {
            Some(Instr::AddIndex { x })
        } else if nn == 0x29 {
            Some(Instr::Glyph { x })
        } else if nn == 0x33 {
            Some(Instr::Bcd { x })
        } else if nn == 0x55 {
            Some(Instr::Dump { x })
        } else if nn == 0x65 {
            Some(Instr::Load { x })
        } else {
            None
        }
    } else {
        None
    }
}

impl Instr {
    /// Decodes the instruction word whose bytes are `high_byte` and
    /// `low_byte`. A word that encodes no instruction is an unsupported
    /// opcode.
    pub fn decode(high_byte: u8, low_byte: u8) -> (res: Result<Instr, Fault>)
        ensures
            match decode(word_of(high_byte, low_byte)) {
                Some(instr) => res == Ok::<Instr, Fault>(instr) && instr.wf(),
                None => res == Err::<Instr, Fault>(Fault::UnsupportedOpcode),
            },
    {
        let b3: u8 = high_byte >> 4;
        let b2: u8 = high_byte & 0x0F;
        let b1: u8 = low_byte >> 4;
        let b0: u8 = low_byte & 0x0F;
        let nn: u8 = low_byte;
        let nnn: u16 = (((high_byte as u16) << 8) | low_byte as u16) & 0xFFF;
        proof {
            assert(high_byte >> 4 == high_byte / 16) by (bit_vector);
            assert(high_byte & 0x0F == high_byte % 16) by (bit_vector);
            assert(low_byte >> 4 == low_byte / 16) by (bit_vector);
            assert(low_byte & 0x0F == low_byte % 16) by (bit_vector);
            assert((((high_byte as u16) << 8) | low_byte as u16) & 0xFFF == (high_byte as u16 % 16)
                * 256 + low_byte as u16) by (bit_vector);
        }
        match b3 {
            0x0 => match (b2, b1, b0) {
                (0x0, 0xE, 0xE) => Ok(Instr::Return),
                (0x0, 0xE, 0x0) => Ok(Instr::ClearScreen),
                (0x0, 0x0, 0x0) => Ok(Instr::Nop),
                _ => Err(Fault::UnsupportedOpcode),
            },
            0x1 => Ok(Instr::Jump { addr: nnn }),
            0x2 => Ok(Instr::Call { addr: nnn }),
            0x3 => Ok(Instr::SkipEqImm { x: b2, nn }),
            0x4 => Ok(Instr::SkipNeImm { x: b2, nn }),
            0x5 if b0 == 0 => Ok(Instr::SkipEqReg { x: b2, y: b1 }),
            0x6 => Ok(Instr::LoadImm { x: b2, nn }),
            0x7 => Ok(Instr::AddImm { x: b2, nn }),
            0x8 => match b0 {
                0x0 => Ok(Instr::Move { x: b2, y: b1 }),
                0x1 => Ok(Instr::Or { x: b2, y: b1 }),
                0x2 => Ok(Instr::And { x: b2, y: b1 }),
                0x3 => Ok(Instr::Xor { x: b2, y: b1 }),
                0x4 => Ok(Instr::AddCarry { x: b2, y: b1 }),
                0x5 => Ok(Instr::SubBorrow { x: b2, y: b1 }),
                0x6 => Ok(Instr::ShiftRight { x: b2, y: b1 }),
                0x7 => Ok(Instr::SubReverse { x: b2, y: b1 }),
                0xE => Ok(Instr::ShiftLeft { x: b2, y: b1 }),
                _ => Err(Fault::UnsupportedOpcode),
            },
            0x9 if b0 == 0 => Ok(Instr::SkipNeReg { x: b2, y: b1 }),
            0xA => Ok(Instr::LoadIndex { addr: nnn }),
            0xB => Ok(Instr::JumpOffset { addr: nnn }),
            0xC => Ok(Instr::Random { x: b2, nn }),
            0xD => Ok(Instr::Draw { x: b2, y: b1, n: b0 }),
            0xE => match (b1, b0) {
                (0x9, 0xE) => Ok(Instr::SkipKey { x: b2 }),
                (0xA, 0x1) => Ok(Instr::SkipNoKey { x: b2 }),
                _ => Err(Fault::UnsupportedOpcode),
            },
            0xF => match (b1, b0) {
                (0x0, 0x7) => Ok(Instr::ReadDelay { x: b2 }),
                (0x0, 0x8) => Ok(Instr::WaitKey { x: b2 }),
                (0x1, 0x5) => Ok(Instr::SetDelay { x: b2 }),
                (0x1, 0x8) => Ok(Instr::SetSound { x: b2 }),
                (0x1, 0xE) => Ok(Instr::AddIndex { x: b2 }),
                (0x2, 0x9) => Ok(Instr::Glyph { x: b2 }),
                (0x3, 0x3) => Ok(Instr::Bcd { x: b2 }),
                (0x5, 0x5) => Ok(Instr::Dump { x: b2 }),
                (0x6, 0x5) => Ok(Instr::Load { x: b2 }),
                _ => Err(Fault::UnsupportedOpcode),
            },
            _ => Err(Fault::UnsupportedOpcode),
        }
    }
}

} // verus!
