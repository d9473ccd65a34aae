//! The mathematical model of one processor cycle: fetch the opcode at the
//! program counter, advance the counter by two, execute the matched
//! instruction, and decrement the timers. [`spec_cycle`] is the single
//! function that `Processor::run_cycle` is proved against.

use crate::decode::op_hi;
use crate::decode::op_kk;
use crate::decode::op_n;
use crate::decode::op_nnn;
use crate::decode::op_x;
use crate::decode::op_y;
use crate::error::Error;
use crate::state::ProcState;
use vstd::prelude::*;

verus! {

/// 8-bit addition wrapping modulo 256.
pub open spec fn wrap_add8(a: u8, b: u8) -> u8 {
    if a + b <= 255 {
        (a + b) as u8
    } else {
        (a + b - 256) as u8
    }
}

/// 8-bit subtraction wrapping modulo 256.
pub open spec fn wrap_sub8(a: u8, b: u8) -> u8 {
    if a >= b {
        (a - b) as u8
    } else {
        (a - b + 256) as u8
    }
}

/// 8-bit doubling (left shift by one) wrapping modulo 256.
pub open spec fn wrap_shl8(a: u8) -> u8 {
    if a < 128 {
        (2 * a) as u8
    } else {
        (2 * a - 256) as u8
    }
}

/// 16-bit addition wrapping modulo 65536.
pub open spec fn wrap_add16(a: u16, b: u16) -> u16 {
    if a + b <= 0xFFFF {
        (a + b) as u16
    } else {
        (a + b - 0x10000) as u16
    }
}

/// 16-bit subtraction wrapping modulo 65536.
pub open spec fn wrap_sub16(a: u16, b: u16) -> u16 {
    if a >= b {
        (a - b) as u16
    } else {
        (a - b + 0x10000) as u16
    }
}

/// The lowest pressed key at or above position `i`, if any.
pub open spec fn first_pressed_from(keys: Seq<bool>, i: int) -> Option<int>
    recommends
        keys.len() == 16,
    decreases 16 - i,
{
    if i < 0 || i >= 16 {
        None
    } else if keys[i] {
        Some(i)
    } else {
        first_pressed_from(keys, i + 1)
    }
}

/// The lowest pressed key of the pad, if any: the "lowest index wins" scan
/// of the wait-for-key instruction.
pub open spec fn first_pressed(keys: Seq<bool>) -> Option<int> {
    first_pressed_from(keys, 0)
}

/// A scan that found no pressed key at the positions below `i` and a
/// pressed key at `i` reports `i`: the lowest index wins.
pub proof fn lemma_first_pressed_some(keys: Seq<bool>, k: int, i: int)
    requires
        keys.len() == 16,
        0 <= k <= i < 16,
        keys[i],
        forall|j: int| k <= j < i ==> !keys[j],
    ensures
        first_pressed_from(keys, k) == Some(i),
    decreases i - k,
{
    if k < i {
        lemma_first_pressed_some(keys, k + 1, i);
    }
}

/// A scan that found no pressed key at any position reports none.
pub proof fn lemma_first_pressed_none(keys: Seq<bool>, k: int)
    requires
        keys.len() == 16,
        0 <= k <= 16,
        forall|j: int| k <= j < 16 ==> !keys[j],
    ensures
        first_pressed_from(keys, k) is None,
    decreases 16 - k,
{
    if k < 16 {
        lemma_first_pressed_none(keys, k + 1);
    }
}

/// Whether bit `k` of a sprite row byte is set, bit 0 being the most
/// significant (leftmost pixel).
pub open spec fn sprite_bit(byte: u8, k: int) -> bool
    recommends
        0 <= k < 8,
{
    byte & (0x80u8 >> (k as u8)) != 0
}

/// XOR the first `k` bits of one sprite row byte onto the display at row
/// `yc`, columns `(vx + bit) % 64`: the display with those pixels toggled,
/// and whether any toggle turned a set pixel unset.
pub open spec fn draw_bits(disp: Seq<bool>, byte: u8, vx: int, yc: int, k: int) -> (Seq<
    bool,
>, bool)
    recommends
        disp.len() == 2048,
        0 <= vx,
        0 <= yc < 32,
        0 <= k <= 8,
    decreases k,
{
    if k <= 0 {
        (disp, false)
    } else {
        let (d1, c1) = draw_bits(disp, byte, vx, yc, k - 1);
        if sprite_bit(byte, k - 1) {
            let idx = (vx + k - 1) % 64 + yc * 64;
            (d1.update(idx, !d1[idx]), c1 || d1[idx])
        } else {
            (d1, c1)
        }
    }
}

/// XOR an `n`-row sprite read from `mem` at `index` onto the display at
/// position `(vx, vy)`, rows and columns wrapping modulo 32 and 64: the
/// resulting display, and whether any pixel was erased (the collision
/// flag).
pub open spec fn draw_sprite(
    disp: Seq<bool>,
    mem: Seq<u8>,
    index: int,
    vx: int,
    vy: int,
    n: int,
) -> (Seq<bool>, bool)
    recommends
        disp.len() == 2048,
        mem.len() == 4096,
        0 <= index,
        index + n <= 4096,
        0 <= vx,
        0 <= vy,
        0 <= n <= 15,
    decreases n,
{
    if n <= 0 {
        (disp, false)
    } else {
        let (d1, c1) = draw_sprite(disp, mem, index, vx, vy, n - 1);
        let (d2, c2) = draw_bits(d1, mem[index + n - 1], vx, (vy + n - 1) % 32, 8);
        (d2, c1 || c2)
    }
}

/// `s` with register `x` set to `v`.
pub open spec fn set_reg(s: ProcState, x: int, v: u8) -> ProcState
    recommends
        0 <= x < 16,
{
    ProcState { registers: s.registers.update(x, v), ..s }
}

/// `s` with the next instruction skipped if `cond` holds.
pub open spec fn skip_if(s: ProcState, cond: bool) -> ProcState {
    if cond {
        ProcState { program_counter: wrap_add16(s.program_counter, 2), ..s }
    } else {
        s
    }
}

/// The decode failure for opcode `op` in state `s`: it reports the program
/// counter as already advanced past the opcode, as the interpreter does.
pub open spec fn unknown_opcode(s: ProcState, op: u16) -> Error {
    Error::UnknownOpcode { pc: s.program_counter, opcode: op }
}

/// The `0nnn` family: clear the display (`00E0`), return from a subroutine
/// (`00EE`), or the legacy machine-code no-op (anything else).
pub open spec fn exec_zero(s: ProcState, op: u16) -> (ProcState, Option<Error>)
    recommends
        s.wf(),
{
    let kk = op_kk(op);
    if kk == 0xE0 {
        (ProcState { display: Seq::new(2048, |i: int| false), draw: true, ..s }, None)
    } else if kk == 0xEE {
        if s.stack_pointer == 0 {
            (s, Some(Error::StackUnderflow))
        } else {
            (
                ProcState {
                    stack_pointer: (s.stack_pointer - 1) as usize,
                    program_counter: s.stack[s.stack_pointer - 1],
                    ..s
                },
                None,
            )
        }
    } else {
        (s, None)
    }
}

/// The `8xy_` family: register-to-register moves, bitwise operations,
/// wrapping add and subtract with the carry or borrow reported in VF, and
/// the shifts with the shifted-out bit reported in VF.
pub open spec fn exec_alu(s: ProcState, op: u16) -> (ProcState, Option<Error>)
    recommends
        s.wf(),
{
    let x = op_x(op) as int;
    let y = op_y(op) as int;
    let vx = s.registers[x];
    let vy = s.registers[y];
    let n = op_n(op);
    if n == 0 {
        (set_reg(s, x, vy), None)
    } else if n == 1 {
        (set_reg(s, x, vx | vy), None)
    } else if n == 2 {
        (set_reg(s, x, vx & vy), None)
    } else if n == 3 {
        (set_reg(s, x, vx ^ vy), None)
    } else if n == 4 {
        let flagged = s.registers.update(15, if vx + vy > 255 { 1u8 } else { 0u8 });
        (ProcState { registers: flagged.update(x, wrap_add8(vx, vy)), ..s }, None)
    } else if n == 5 {
        let flagged = s.registers.update(15, if vx < vy { 0u8 } else { 1u8 });
        (ProcState { registers: flagged.update(x, wrap_sub8(vx, vy)), ..s }, None)
    } else if n == 6 {
        let flagged = s.registers.update(15, vx & 1);
        (ProcState { registers: flagged.update(x, flagged[x] / 2), ..s }, None)
    } else if n == 7 {
        let flagged = s.registers.update(15, if vy < vx { 0u8 } else { 1u8 });
        (ProcState { registers: flagged.update(x, wrap_sub8(vy, vx)), ..s }, None)
    } else if n == 0xE {
        let flagged = s.registers.update(15, if vx >= 128 { 1u8 } else { 0u8 });
        (ProcState { registers: flagged.update(x, wrap_shl8(flagged[x])), ..s }, None)
    } else {
        (s, Some(unknown_opcode(s, op)))
    }
}

/// The `Dxyn` instruction: draw an `n`-row sprite read from memory at the
/// index register onto the display at `(V[x], V[y])`, mark the display
/// dirty, and report in VF whether any pixel was erased. Reading past the
/// end of memory is a [`Error::MemoryOutOfBounds`] failure that changes
/// nothing.
pub open spec fn exec_draw(s: ProcState, x: int, y: int, n: int) -> (ProcState, Option<Error>)
    recommends
        s.wf(),
        0 <= x < 16,
        0 <= y < 16,
        0 <= n < 16,
{
    if n > 0 && s.index + n > 4096 {
        (s, Some(Error::MemoryOutOfBounds))
    } else {
        let cleared = s.registers.update(15, 0u8);
        let vx = cleared[x];
        let vy = cleared[y];
        let (disp, collision) = draw_sprite(
            s.display,
            s.memory,
            s.index as int,
            vx as int,
            vy as int,
            n,
        );
        (
            ProcState {
                display: disp,
                draw: true,
                registers: s.registers.update(15, if collision { 1u8 } else { 0u8 }),
                ..s
            },
            None,
        )
    }
}

/// The `Ex__` family: skip the next instruction according to whether key
/// `V[x]` is pressed (`Ex9E`) or not pressed (`ExA1`). A register value of
/// 16 or more names no key and is an [`Error::InvalidKey`] failure.
pub open spec fn exec_key(s: ProcState, op: u16) -> (ProcState, Option<Error>)
    recommends
        s.wf(),
{
    let vx = s.registers[op_x(op) as int];
    let kk = op_kk(op);
    if kk == 0x9E {
        if vx >= 16 {
            (s, Some(Error::InvalidKey))
        } else {
            (skip_if(s, s.keypad[vx as int]), None)
        }
    } else if kk == 0xA1 {
        if vx >= 16 {
            (s, Some(Error::InvalidKey))
        } else {
            (skip_if(s, !s.keypad[vx as int]), None)
        }
    } else {
        (s, Some(unknown_opcode(s, op)))
    }
}

/// The `Fx__` family: timer reads and writes, the wait-for-key scan, index
/// arithmetic, font addressing, BCD, and the block register store and load.
pub open spec fn exec_misc(s: ProcState, op: u16) -> (ProcState, Option<Error>)
    recommends
        s.wf(),
{
    let x = op_x(op) as int;
    let vx = s.registers[x];
    let kk = op_kk(op);
    if kk == 0x07 {
        (set_reg(s, x, s.delay_timer), None)
    } else if kk == 0x0A {
        match first_pressed(s.keypad) {
            Some(i) => (set_reg(s, x, i as u8), None),
            None => (ProcState { program_counter: wrap_sub16(s.program_counter, 2), ..s }, None),
        }
    } else if kk == 0x15 {
        (ProcState { delay_timer: vx, ..s }, None)
    } else if kk == 0x18 {
        (ProcState { sound_timer: vx, ..s }, None)
    } else if kk == 0x1E {
        (ProcState { index: wrap_add16(s.index, vx as u16), ..s }, None)
    } else if kk == 0x29 {
        (ProcState { index: (5 * vx) as u16, ..s }, None)
    } else if kk == 0x33 {
        if s.index + 3 > 4096 {
            (s, Some(Error::MemoryOutOfBounds))
        } else {
            let mem = s.memory.update(s.index as int, vx / 100).update(
                s.index as int + 1,
                (vx / 10) % 10,
            ).update(s.index as int + 2, vx % 10);
            (ProcState { memory: mem, ..s }, None)
        }
    } else if kk == 0x55 {
        if s.index + x + 1 > 4096 {
            (s, Some(Error::MemoryOutOfBounds))
        } else {
            let mem = Seq::new(
                4096,
                |i: int|
                    if s.index <= i < s.index + x + 1 {
                        s.registers[i - s.index]
                    } else {
                        s.memory[i]
                    },
            );
            (ProcState { memory: mem, ..s }, None)
        }
    } else if kk == 0x65 {
        if s.index + x + 1 > 4096 {
            (s, Some(Error::MemoryOutOfBounds))
        } else {
            let regs = Seq::new(
                16,
                |i: int|
                    if 0 <= i <= x {
                        s.memory[s.index + i]
                    } else {
                        s.registers[i]
                    },
            );
            (ProcState { registers: regs, ..s }, None)
        }
    } else {
        (s, Some(unknown_opcode(s, op)))
    }
}

/// Execute one already-fetched opcode in state `s`, whose program counter
/// has already been advanced past it. `rand` is the byte the random source
/// produced for this cycle; only the `Cxkk` instruction reads it.
pub open spec fn exec_op(s: ProcState, op: u16, rand: u8) -> (ProcState, Option<Error>)
    recommends
        s.wf(),
{
    let hi = op_hi(op);
    let x = op_x(op) as int;
    let y = op_y(op) as int;
    let kk = op_kk(op) as u8;
    let nnn = op_nnn(op);
    if hi == 0x0 {
        exec_zero(s, op)
    } else if hi == 0x1 {
        (ProcState { program_counter: nnn, ..s }, None)
    } else if hi == 0x2 {
        if s.stack_pointer >= 16 {
            (s, Some(Error::StackOverflow))
        } else {
            (
                ProcState {
                    stack: s.stack.update(s.stack_pointer as int, s.program_counter),
                    stack_pointer: (s.stack_pointer + 1) as usize,
                    program_counter: nnn,
                    ..s
                },
                None,
            )
        }
    } else if hi == 0x3 {
        (skip_if(s, s.registers[x] == kk), None)
    } else if hi == 0x4 {
        (skip_if(s, s.registers[x] != kk), None)
    } else if hi == 0x5 {
        (skip_if(s, s.registers[x] == s.registers[y]), None)
    } else if hi == 0x6 {
        (set_reg(s, x, kk), None)
    } else if hi == 0x7 {
        (set_reg(s, x, wrap_add8(s.registers[x], kk)), None)
    } else if hi == 0x8 {
        exec_alu(s, op)
    } else if hi == 0x9 {
        (skip_if(s, s.registers[x] != s.registers[y]), None)
    } else if hi == 0xA {
        (ProcState { index: nnn, ..s }, None)
    } else if hi == 0xB {
        (ProcState { program_counter: (nnn + s.registers[0]) as u16, ..s }, None)
    } else if hi == 0xC {
        (set_reg(s, x, rand & kk), None)
    } else if hi == 0xD {
        exec_draw(s, x, y, op_n(op) as int)
    } else if hi == 0xE {
        exec_key(s, op)
    } else if hi == 0xF {
        exec_misc(s, op)
    } else {
        (s, Some(unknown_opcode(s, op)))
    }
}

/// `s` with each timer decremented by one if it was above zero.
pub open spec fn tick_timers(s: ProcState) -> ProcState {
    ProcState {
        delay_timer: if s.delay_timer > 0 {
            (s.delay_timer - 1) as u8
        } else {
            0
        },
        sound_timer: if s.sound_timer > 0 {
            (s.sound_timer - 1) as u8
        } else {
            0
        },
        ..s
    }
}

/// One full cycle from state `s` with random byte `rand`: fetch, advance,
/// execute, and decrement the timers. On a failure the cycle returns the
/// error and the state keeps only the fetch advance (or nothing at all if
/// the program counter itself pointed past memory, so that no opcode could
/// be fetched).
pub open spec fn spec_cycle(s: ProcState, rand: u8) -> (ProcState, Result<(), Error>)
    recommends
        s.wf(),
{
    if s.program_counter + 1 >= 4096 {
        (s, Err(Error::MemoryOutOfBounds))
    } else {
        let op = s.fetch();
        let s1 = ProcState { program_counter: (s.program_counter + 2) as u16, ..s };
        let (s2, e) = exec_op(s1, op, rand);
        match e {
            Some(err) => (s2, Err(err)),
            None => (tick_timers(s2), Ok(())),
        }
    }
}

} // verus!
