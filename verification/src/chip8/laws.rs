//! What holds of the machine whatever its state: the arithmetic flags, the
//! call and return pair, register transfers, skips and sprite drawing.

use super::instruction::{decode, word_of, Fault, Instr};
use super::machine::Machine;
use super::screen::{draw, lemma_draw_cell};
use vstd::prelude::*;

verus! {

/// Only a random instruction looks at the random byte: any other tick goes
/// the same way whatever the byte.
pub proof fn lemma_step_ignores_rng(m: Machine, r1: u8, r2: u8)
    requires
        !m.draws_random(),
    ensures
        m.step(r1) == m.step(r2),
{
    reveal(Machine::step);
}

/// Add with carry sets the flag register to 1 if the sum of the two
/// registers is over 255 and to 0 if it is not, and leaves the sum modulo
/// 256 in the first register, unless that is the flag register, which
/// keeps the flag.
pub proof fn lemma_add_carry(m: Machine, x: u8, y: u8, rng: u8)
    requires
        m.wf(),
        x < 16,
        y < 16,
    ensures
        m.apply(Instr::AddCarry { x, y }, rng) matches Ok(next) && {
            &&& next.v[15] == if m.v[x as int] + m.v[y as int] > 255 {
                1u8
            } else {
                0u8
            }
            &&& x != 15 ==> next.v[x as int] == (m.v[x as int] + m.v[y as int]) % 256
            &&& forall|k: int| 0 <= k < 15 && k != x ==> next.v[k] == m.v[k]
            &&& next == Machine { v: next.v, ..m }
        },
{
}

/// Subtract with borrow sets the flag register to 0 if the second
/// register is greater than the first and to 1 if it is not, and leaves
/// the difference modulo 256 in the first register, unless that is the
/// flag register, which keeps the flag.
pub proof fn lemma_sub_borrow(m: Machine, x: u8, y: u8, rng: u8)
    requires
        m.wf(),
        x < 16,
        y < 16,
    ensures
        m.apply(Instr::SubBorrow { x, y }, rng) matches Ok(next) && {
            &&& next.v[15] == if m.v[y as int] > m.v[x as int] {
                0u8
            } else {
                1u8
            }
            &&& x != 15 ==> next.v[x as int] == (m.v[x as int] - m.v[y as int]) % 256
            &&& forall|k: int| 0 <= k < 15 && k != x ==> next.v[k] == m.v[k]
            &&& next == Machine { v: next.v, ..m }
        },
{
}

/// The same with the operands swapped: the first register gets the second
/// minus the first.
pub proof fn lemma_sub_reverse(m: Machine, x: u8, y: u8, rng: u8)
    requires
        m.wf(),
        x < 16,
        y < 16,
    ensures
        m.apply(Instr::SubReverse { x, y }, rng) matches Ok(next) && {
            &&& next.v[15] == if m.v[x as int] > m.v[y as int] {
                0u8
            } else {
                1u8
            }
            &&& x != 15 ==> next.v[x as int] == (m.v[y as int] - m.v[x as int]) % 256
            &&& forall|k: int| 0 <= k < 15 && k != x ==> next.v[k] == m.v[k]
            &&& next == Machine { v: next.v, ..m }
        },
{
}

/// Shift right sets the flag register to the lowest bit of the source and
/// the destination to the source shifted right by one. The source keeps
/// its value where it is another register than the destination. (Where
/// the destination is the flag register it keeps the flag.)
pub proof fn lemma_shift_right(m: Machine, x: u8, y: u8, rng: u8)
    requires
        m.wf(),
        x < 16,
        y < 16,
    ensures
        m.apply(Instr::ShiftRight { x, y }, rng) matches Ok(next) && {
            &&& next.v[15] == m.v[y as int] & 1
            &&& x != 15 ==> next.v[x as int] == m.v[y as int] >> 1
            &&& y != x && y != 15 ==> next.v[y as int] == m.v[y as int]
            &&& forall|k: int| 0 <= k < 15 && k != x ==> next.v[k] == m.v[k]
            &&& next == Machine { v: next.v, ..m }
        },
{
}

/// A call followed by the return that is the first instruction of the
/// subroutine brings the machine back as it was, with the program counter
/// at the instruction after the call.
pub proof fn lemma_call_return(m: Machine, addr: u16, r1: u8, r2: u8)
    requires
        m.wf(),
        m.pc + 1 < 4096,
        decode(m.word()) == Some(Instr::Call { addr }),
        m.stack.len() < 16,
        addr + 1 < 4096,
        decode(word_of(m.ram[addr as int], m.ram[addr + 1])) == Some(Instr::Return),
    ensures
        m.step(r1) matches Ok(called) && {
            &&& called.pc == addr
            &&& called.stack == m.stack.push((m.pc + 2) as u16)
            &&& called.step(r2) matches Ok(back) && back == Machine { pc: m.pc + 2, ..m }
        },
{
    reveal(Machine::step);
    let called = m.step(r1)->Ok_0;
    assert(called.stack.drop_last() =~= m.stack);
}

/// The same for the two instructions by themselves: a call and then a
/// return, with nothing pushed or popped between them, leave the program
/// counter and the stack as they were before the call.
pub proof fn lemma_call_return_pair(m: Machine, addr: u16, r1: u8, r2: u8)
    requires
        m.wf(),
        m.stack.len() < 16,
    ensures
        m.apply(Instr::Call { addr }, r1) matches Ok(called) && {
            &&& called.pc == addr
            &&& called.stack.len() == m.stack.len() + 1
            &&& called.apply(Instr::Return, r2) == Ok::<Machine, Fault>(m)
        },
{
    let called = m.apply(Instr::Call { addr }, r1)->Ok_0;
    assert(called.stack.drop_last() =~= m.stack);
}

/// A register dump leaves registers `0..=x` in memory from the index
/// register on and moves the index register up by `x + 1`. A load from
/// the same address, whatever has become of the registers meanwhile,
/// brings those registers back and moves the index register up by
/// `x + 1` too.
pub proof fn lemma_dump_load(m: Machine, later: Machine, x: u8, r1: u8, r2: u8)
    requires
        m.wf(),
        x < 16,
        m.i + x < 4096,
        later.wf(),
    ensures
        m.apply(Instr::Dump { x }, r1) matches Ok(dumped) && {
            &&& dumped.i == m.i + x + 1
            &&& dumped.v == m.v
            &&& forall|k: int| 0 <= k <= x ==> dumped.ram[m.i + k] == m.v[k]
            &&& later.ram == dumped.ram && later.i == m.i ==> (later.apply(
                Instr::Load { x },
                r2,
            ) matches Ok(loaded) && {
                &&& loaded.i == m.i + x + 1
                &&& forall|k: int| 0 <= k <= x ==> loaded.v[k] == m.v[k]
                &&& forall|k: int| x < k < 16 ==> loaded.v[k] == later.v[k]
            })
        },
{
}

/// The three bytes that a decimal store writes are the decimal digits of
/// the register's value, hundreds first.
pub proof fn lemma_bcd_digits(m: Machine, x: u8, rng: u8)
    requires
        m.wf(),
        x < 16,
        m.i + 2 < 4096,
    ensures
        m.apply(Instr::Bcd { x }, rng) matches Ok(next) && {
            let h = next.ram[m.i as int];
            let t = next.ram[m.i + 1];
            let o = next.ram[m.i + 2];
            &&& h < 10 && t < 10 && o < 10
            &&& 100 * h + 10 * t + o == m.v[x as int]
            &&& forall|a: int| 0 <= a < 4096 && !(m.i <= a <= m.i + 2) ==> next.ram[a] == m.ram[a]
        },
{
}

/// Whether `instr` is one of the six skip instructions.
pub open spec fn skips_on_condition(instr: Instr) -> bool {
    instr is SkipEqImm || instr is SkipNeImm || instr is SkipEqReg || instr is SkipNeReg
        || instr is SkipKey || instr is SkipNoKey
}

/// Whether `instr` sets the program counter outright: a jump, a call or a
/// return.
pub open spec fn transfers_control(instr: Instr) -> bool {
    instr is Jump || instr is Call || instr is Return || instr is JumpOffset
}

/// Whether the condition of the skip instruction `instr` holds in `m`.
pub open spec fn skip_taken(m: Machine, instr: Instr) -> bool {
    match instr {
        Instr::SkipEqImm { x, nn } => m.v[x as int] == nn,
        Instr::SkipNeImm { x, nn } => m.v[x as int] != nn,
        Instr::SkipEqReg { x, y } => m.v[x as int] == m.v[y as int],
        Instr::SkipNeReg { x, y } => m.v[x as int] != m.v[y as int],
        Instr::SkipKey { x } => m.keys[(m.v[x as int] % 16) as int],
        Instr::SkipNoKey { x } => !m.keys[(m.v[x as int] % 16) as int],
        _ => false,
    }
}

/// The machine with the program counter moved past the instruction at it,
/// and past the next one too if `skip` holds.
pub open spec fn moved_on(m: Machine, skip: bool) -> Machine {
    Machine { pc: m.pc + if skip { 4int } else { 2int }, ..m }
}

/// A tick on a skip instruction moves the program counter by 4 if the
/// instruction's condition holds and by 2 if it does not, and changes
/// nothing else.
pub proof fn lemma_skip(m: Machine, instr: Instr, rng: u8)
    requires
        m.wf(),
        m.pc + 1 < 4096,
        decode(m.word()) == Some(instr),
        skips_on_condition(instr),
    ensures
        m.step(rng) == Ok::<Machine, Fault>(moved_on(m, skip_taken(m, instr))),
{
    reveal(Machine::step);
}

/// Whatever a tick does that is no jump, call, return or skip taken, it
/// moves the program counter by exactly 2.
pub proof fn lemma_pc_advances(m: Machine, instr: Instr, rng: u8)
    requires
        m.wf(),
        m.pc + 1 < 4096,
        decode(m.word()) == Some(instr),
        !transfers_control(instr),
        !skips_on_condition(instr),
    ensures
        (m.step(rng) matches Ok(next) ==> next.pc == m.pc + 2),
{
    reveal(Machine::step);
}

/// What is left of a timer that held `t` after it has gone down `n` times.
pub open spec fn decayed(t: u8, n: nat) -> u8 {
    if t >= n {
        (t - n) as u8
    } else {
        0
    }
}

/// The machine after the timers have gone down at the end of `n` frames.
pub open spec fn timers_ticked_times(m: Machine, n: nat) -> Machine
    decreases n,
{
    if n == 0 {
        m
    } else {
        timers_ticked_times(m, (n - 1) as nat).timers_ticked()
    }
}

/// A timer goes down by one at the end of each frame until it is 0, and
/// stays there: after `n` frames a timer that held `t` holds `t - n`, or
/// 0 if `n` is more than `t`. Nothing else changes.
pub proof fn lemma_timers_decay(m: Machine, n: nat)
    ensures
        timers_ticked_times(m, n) == (Machine {
            dt: decayed(m.dt, n),
            st: decayed(m.st, n),
            ..m
        }),
    decreases n,
{
    if n > 0 {
        lemma_timers_decay(m, (n - 1) as nat);
    }
}

/// Drawing the same sprite twice in the same place brings the grid back:
/// what the first draw toggled, the second toggles again.
pub proof fn lemma_draw_twice(grid: Seq<bool>, sprite: Seq<u8>, x: int, y: int)
    requires
        grid.len() == 2048,
        sprite.len() <= 32,
    ensures
        draw(draw(grid, sprite, x, y), sprite, x, y) == grid,
{
    let once = draw(grid, sprite, x, y);
    let twice = draw(once, sprite, x, y);
    lemma_draw_cell(grid, sprite, x, y, 0);
    lemma_draw_cell(once, sprite, x, y, 0);
    assert forall|k: int| 0 <= k < 2048 implies twice[k] == grid[k] by {
        lemma_draw_cell(grid, sprite, x, y, k);
        lemma_draw_cell(once, sprite, x, y, k);
    }
    assert(twice =~= grid);
}

} // verus!
