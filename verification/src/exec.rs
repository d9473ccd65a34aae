//! The decode/execute engine: one externally visible operation, "execute
//! one cycle", proved equal to the mathematical model in [`crate::step`].

use crate::decode::lemma_opcode_fields;
use crate::error::Error;
use crate::state::ProcState;
use crate::state::Processor;
use crate::step::draw_bits;
use crate::step::draw_sprite;
use crate::step::exec_alu;
use crate::step::exec_draw;
use crate::step::exec_key;
use crate::step::exec_misc;
use crate::step::exec_op;
use crate::step::exec_zero;
use crate::step::lemma_first_pressed_none;
use crate::step::lemma_first_pressed_some;
use crate::step::spec_cycle;
use crate::step::tick_timers;
use vstd::prelude::*;

verus! {

impl Processor {
    /// Emulate one processor cycle: fetch the opcode at the program
    /// counter, advance the counter by two, execute the instruction, and
    /// decrement both timers. On a failure the cycle reports the error,
    /// keeps the fetch advance (nothing at all if the counter itself
    /// pointed past memory), undoes every other effect of the
    /// instruction, and does not touch the timers.
    ///
    /// The whole cycle is pinned down by [`spec_cycle`]: there is a byte
    /// `b` (the one the random source produced; only `Cxkk` reads it) such
    /// that the new state and the result are exactly `spec_cycle` of the
    /// old state and `b`.
    pub fn run_cycle(&mut self) -> (r: Result<(), Error>)
        requires
            old(self).wf(),
        ensures
            final(self).wf(),
            exists|b: u8| (#[trigger] spec_cycle(old(self)@, b)) == (final(self)@, r),
    {
        let ghost v0 = self@;
        if self.program_counter >= 4095 {
            proof {
                assert(spec_cycle(v0, 0u8) == (self@, Err::<(), Error>(Error::MemoryOutOfBounds)));
            }
            return Err(Error::MemoryOutOfBounds);
        }
        let op = self.opcode();
        self.program_counter = self.program_counter + 2;
        let ghost v1 = self@;
        proof {
            assert(v1 == (ProcState { program_counter: (v0.program_counter + 2) as u16, ..v0 }));
        }
        let e = self.execute(op);
        let ghost b = choose|b: u8| (#[trigger] exec_op(v1, op, b)) == (self@, e);
        match e {
            Some(err) => {
                proof {
                    assert(spec_cycle(v0, b) == (self@, Err::<(), Error>(err)));
                }
                Err(err)
            },
            None => {
                self.tick();
                proof {
                    assert(spec_cycle(v0, b) == (self@, Ok::<(), Error>(())));
                }
                Ok(())
            },
        }
    }

    /// Decrement each timer by one if it is above zero.
    fn tick(&mut self)
        ensures
            final(self)@ == tick_timers(old(self)@),
    {
        if self.delay_timer > 0 {
            self.delay_timer = self.delay_timer - 1;
        }
        if self.sound_timer > 0 {
            self.sound_timer = self.sound_timer - 1;
        }
    }

    /// Execute one fetched opcode, the program counter already advanced
    /// past it.
    fn execute(&mut self, op: u16) -> (e: Option<Error>)
        requires
            old(self).wf(),
            2 <= old(self).program_counter <= 4096,
        ensures
            final(self).wf(),
            exists|b: u8| (#[trigger] exec_op(old(self)@, op, b)) == (final(self)@, e),
    {
        let ghost v0 = self@;
        let ghost mut wb: u8 = 0;
        proof {
            lemma_opcode_fields(op);
        }
        let x = ((op >> 8u16) & 0xF) as usize;
        let y = ((op >> 4u16) & 0xF) as usize;
        let kk = (op & 0xFF) as u8;
        let nnn = op & 0xFFF;
        let e: Option<Error> = match op >> 12u16 {
            0x0 => {
                let e = self.exec_zero_family(op);
                proof {
                    assert(exec_op(v0, op, 0u8) == (self@, e));
                }
                e
            },
            0x1 => {
                self.program_counter = nnn;
                proof {
                    assert(exec_op(v0, op, 0u8) == (self@, Option::<Error>::None));
                }
                None
            },
            0x2 => {
                if self.stack_pointer >= 16 {
                    proof {
                        assert(exec_op(v0, op, 0u8) == (
                            self@,
                            Some(Error::StackOverflow),
                        ));
                    }
                    Some(Error::StackOverflow)
                } else {
                    self.stack[self.stack_pointer] = self.program_counter;
                    self.stack_pointer = self.stack_pointer + 1;
                    self.program_counter = nnn;
                    proof {
                        assert((self@, Option::<Error>::None) =~~= exec_op(v0, op, 0u8));
                    }
                    None
                }
            },
            0x3 => {
                if self.registers[x] == kk {
                    self.program_counter = self.program_counter + 2;
                }
                proof {
                    assert(exec_op(v0, op, 0u8) == (self@, Option::<Error>::None));
                }
                None
            },
            0x4 => {
                if self.registers[x] != kk {
                    self.program_counter = self.program_counter + 2;
                }
                proof {
                    assert(exec_op(v0, op, 0u8) == (self@, Option::<Error>::None));
                }
                None
            },
            0x5 => {
                if self.registers[x] == self.registers[y] {
                    self.program_counter = self.program_counter + 2;
                }
                proof {
                    assert(exec_op(v0, op, 0u8) == (self@, Option::<Error>::None));
                }
                None
            },
            0x6 => {
                self.registers[x] = kk;
                proof {
                    assert((self@, Option::<Error>::None) =~~= exec_op(v0, op, 0u8));
                }
                None
            },
            0x7 => {
                let sum: u16 = self.registers[x] as u16 + kk as u16;
                self.registers[x] = if sum <= 255 {
                    sum as u8
                } else {
                    (sum - 256) as u8
                };
                proof {
                    assert((self@, Option::<Error>::None) =~~= exec_op(v0, op, 0u8));
                }
                None
            },
            0x8 => {
                let e = self.exec_alu_family(op);
                proof {
                    assert(exec_op(v0, op, 0u8) == (self@, e));
                }
                e
            },
            0x9 => {
                if self.registers[x] != self.registers[y] {
                    self.program_counter = self.program_counter + 2;
                }
                proof {
                    assert(exec_op(v0, op, 0u8) == (self@, Option::<Error>::None));
                }
                None
            },
            0xA => {
                self.index = nnn;
                proof {
                    assert(exec_op(v0, op, 0u8) == (self@, Option::<Error>::None));
                }
                None
            },
            0xB => {
                self.program_counter = nnn + self.registers[0] as u16;
                proof {
                    assert(exec_op(v0, op, 0u8) == (self@, Option::<Error>::None));
                }
                None
            },
            0xC => {
                let b = self.random.next_byte();
                proof {
                    wb = b;
                }
                self.registers[x] = b & kk;
                proof {
                    assert((self@, Option::<Error>::None) =~~= exec_op(v0, op, b));
                }
                None
            },
            0xD => {
                let n = (op & 0xF) as usize;
                let e = self.exec_draw_op(x, y, n);
                proof {
                    assert(exec_op(v0, op, 0u8) == (self@, e));
                }
                e
            },
            0xE => {
                let e = self.exec_key_family(op);
                proof {
                    assert(exec_op(v0, op, 0u8) == (self@, e));
                }
                e
            },
            0xF => {
                let e = self.exec_misc_family(op);
                proof {
                    assert(exec_op(v0, op, 0u8) == (self@, e));
                }
                e
            },
            _ => {
                let e = Some(Error::UnknownOpcode { pc: self.program_counter, opcode: op });
                proof {
                    assert(exec_op(v0, op, 0u8) == (self@, e));
                }
                e
            },
        };
        proof {
            assert(exists|b: u8| (#[trigger] exec_op(v0, op, b)) == (self@, e)) by {
                assert(exec_op(v0, op, wb) == (self@, e));
            }
        }
        e
    }

    /// The `0nnn` family: clear, return, or the legacy no-op.
    fn exec_zero_family(&mut self, op: u16) -> (e: Option<Error>)
        requires
            old(self).wf(),
        ensures
            final(self).wf(),
            (final(self)@, e) == exec_zero(old(self)@, op),
    {
        let ghost v0 = self@;
        let kk = op & 0xFF;
        if kk == 0xE0 {
            self.display = [false; 2048];
            self.draw = true;
            proof {
                assert(self.display@ =~= Seq::new(2048, |i: int| false));
                assert((self@, Option::<Error>::None) =~~= exec_zero(v0, op));
            }
            None
        } else if kk == 0xEE {
            if self.stack_pointer == 0 {
                return Some(Error::StackUnderflow);
            }
            self.stack_pointer = self.stack_pointer - 1;
            self.program_counter = self.stack[self.stack_pointer];
            proof {
                assert((self@, Option::<Error>::None) =~~= exec_zero(v0, op));
            }
            None
        } else {
            None
        }
    }

    /// The `8xy_` family: moves, bitwise operations, wrapping arithmetic
    /// with the flag register, and the shifts.
    fn exec_alu_family(&mut self, op: u16) -> (e: Option<Error>)
        requires
            old(self).wf(),
        ensures
            final(self).wf(),
            (final(self)@, e) == exec_alu(old(self)@, op),
    {
        let ghost v0 = self@;
        proof {
            lemma_opcode_fields(op);
        }
        let x = ((op >> 8u16) & 0xF) as usize;
        let y = ((op >> 4u16) & 0xF) as usize;
        let vx = self.registers[x];
        let vy = self.registers[y];
        match op & 0xF {
            0x0 => {
                self.registers[x] = vy;
                proof {
                    assert((self@, Option::<Error>::None) =~~= exec_alu(v0, op));
                }
                None
            },
            0x1 => {
                self.registers[x] = vx | vy;
                proof {
                    assert((self@, Option::<Error>::None) =~~= exec_alu(v0, op));
                }
                None
            },
            0x2 => {
                self.registers[x] = vx & vy;
                proof {
                    assert((self@, Option::<Error>::None) =~~= exec_alu(v0, op));
                }
                None
            },
            0x3 => {
                self.registers[x] = vx ^ vy;
                proof {
                    assert((self@, Option::<Error>::None) =~~= exec_alu(v0, op));
                }
                None
            },
            0x4 => {
                let sum: u16 = vx as u16 + vy as u16;
                self.registers[15] = if sum > 255 {
                    1
                } else {
                    0
                };
                self.registers[x] = if sum <= 255 {
                    sum as u8
                } else {
                    (sum - 256) as u8
                };
                proof {
                    assert((self@, Option::<Error>::None) =~~= exec_alu(v0, op));
                }
                None
            },
            0x5 => {
                self.registers[15] = if vx < vy {
                    0
                } else {
                    1
                };
                self.registers[x] = if vx >= vy {
                    vx - vy
                } else {
                    ((vx as u16 + 256) - vy as u16) as u8
                };
                proof {
                    assert((self@, Option::<Error>::None) =~~= exec_alu(v0, op));
                }
                None
            },
            0x6 => {
                self.registers[15] = vx & 1;
                let cur = self.registers[x];
                self.registers[x] = cur / 2;
                proof {
                    assert((self@, Option::<Error>::None) =~~= exec_alu(v0, op));
                }
                None
            },
            0x7 => {
                self.registers[15] = if vy < vx {
                    0
                } else {
                    1
                };
                self.registers[x] = if vy >= vx {
                    vy - vx
                } else {
                    ((vy as u16 + 256) - vx as u16) as u8
                };
                proof {
                    assert((self@, Option::<Error>::None) =~~= exec_alu(v0, op));
                }
                None
            },
            0xE => {
                self.registers[15] = if vx >= 128 {
                    1
                } else {
                    0
                };
                let cur = self.registers[x];
                self.registers[x] = if cur < 128 {
                    cur * 2
                } else {
                    ((cur as u16 * 2) - 256) as u8
                };
                proof {
                    assert((self@, Option::<Error>::None) =~~= exec_alu(v0, op));
                }
                None
            },
            _ => Some(Error::UnknownOpcode { pc: self.program_counter, opcode: op }),
        }
    }

    /// The `Ex__` family: skip on key state.
    fn exec_key_family(&mut self, op: u16) -> (e: Option<Error>)
        requires
            old(self).wf(),
            old(self).program_counter <= 4096,
        ensures
            final(self).wf(),
            (final(self)@, e) == exec_key(old(self)@, op),
    {
        let ghost v0 = self@;
        proof {
            lemma_opcode_fields(op);
        }
        let x = ((op >> 8u16) & 0xF) as usize;
        let vx = self.registers[x];
        let kk = op & 0xFF;
        if kk == 0x9E {
            if vx >= 16 {
                return Some(Error::InvalidKey);
            }
            if self.keypad[vx as usize] {
                self.program_counter = self.program_counter + 2;
            }
            proof {
                assert(exec_key(v0, op) == (self@, Option::<Error>::None));
            }
            None
        } else if kk == 0xA1 {
            if vx >= 16 {
                return Some(Error::InvalidKey);
            }
            if !self.keypad[vx as usize] {
                self.program_counter = self.program_counter + 2;
            }
            proof {
                assert(exec_key(v0, op) == (self@, Option::<Error>::None));
            }
            None
        } else {
            Some(Error::UnknownOpcode { pc: self.program_counter, opcode: op })
        }
    }

    /// The `Fx__` family: timers, wait-for-key, index arithmetic, font
    /// addressing, BCD, and the block register store and load.
    fn exec_misc_family(&mut self, op: u16) -> (e: Option<Error>)
        requires
            old(self).wf(),
            2 <= old(self).program_counter <= 4096,
        ensures
            final(self).wf(),
            (final(self)@, e) == exec_misc(old(self)@, op),
    {
        let ghost v0 = self@;
        proof {
            lemma_opcode_fields(op);
        }
        let x = ((op >> 8u16) & 0xF) as usize;
        let vx = self.registers[x];
        match op & 0xFF {
            0x07 => {
                self.registers[x] = self.delay_timer;
                proof {
                    assert((self@, Option::<Error>::None) =~~= exec_misc(v0, op));
                }
                None
            },
            0x0A => {
                let mut i: usize = 0;
                #[verifier::loop_isolation(false)]
                while i < 16
                    invariant
                        i <= 16,
                        x < 16,
                        self == old(self),
                        forall|j: int| 0 <= j < i ==> !self.keypad@[j],
                    decreases 16 - i,
                {
                    if self.keypad[i] {
                        proof {
                            lemma_first_pressed_some(self@.keypad, 0, i as int);
                        }
                        self.registers[x] = i as u8;
                        proof {
                            assert((self@, Option::<Error>::None) =~~= exec_misc(v0, op));
                        }
                        return None;
                    }
                    i = i + 1;
                }
                proof {
                    lemma_first_pressed_none(self@.keypad, 0);
                }
                self.program_counter = self.program_counter - 2;
                proof {
                    assert(exec_misc(v0, op) == (self@, Option::<Error>::None));
                }
                None
            },
            0x15 => {
                self.delay_timer = vx;
                proof {
                    assert(exec_misc(v0, op) == (self@, Option::<Error>::None));
                }
                None
            },
            0x18 => {
                self.sound_timer = vx;
                proof {
                    assert(exec_misc(v0, op) == (self@, Option::<Error>::None));
                }
                None
            },
            0x1E => {
                let sum: u32 = self.index as u32 + vx as u32;
                self.index = if sum <= 0xFFFF {
                    sum as u16
                } else {
                    (sum - 0x10000) as u16
                };
                proof {
                    assert(exec_misc(v0, op) == (self@, Option::<Error>::None));
                }
                None
            },
            0x29 => {
                self.index = 5 * vx as u16;
                proof {
                    assert(exec_misc(v0, op) == (self@, Option::<Error>::None));
                }
                None
            },
            0x33 => {
                if self.index > 4093 {
                    Some(Error::MemoryOutOfBounds)
                } else {
                    let base = self.index as usize;
                    self.memory[base] = vx / 100;
                    self.memory[base + 1] = (vx / 10) % 10;
                    self.memory[base + 2] = vx % 10;
                    proof {
                        assert((self@, Option::<Error>::None) =~~= exec_misc(v0, op));
                    }
                    None
                }
            },
            0x55 => {
                if self.index as usize + x + 1 > 4096 {
                    Some(Error::MemoryOutOfBounds)
                } else {
                    let base = self.index as usize;
                    let mut k: usize = 0;
                    while k < x + 1
                        invariant
                            k <= x + 1,
                            x < 16,
                            base + x + 1 <= 4096,
                            base == v0.index,
                            self@ == (ProcState { memory: self.memory@, ..v0 }),
                            forall|j: int|
                                base <= j < base + k ==> self.memory@[j] == v0.registers[j - base],
                            forall|j: int|
                                (0 <= j < base || base + k <= j < 4096) ==> self.memory@[j]
                                    == v0.memory[j],
                        decreases x + 1 - k,
                    {
                        self.memory[base + k] = self.registers[k];
                        k = k + 1;
                    }
                    proof {
                        assert(self.memory@ =~= exec_misc(v0, op).0.memory);
                        assert((self@, Option::<Error>::None) =~~= exec_misc(v0, op));
                    }
                    None
                }
            },
            0x65 => {
                if self.index as usize + x + 1 > 4096 {
                    Some(Error::MemoryOutOfBounds)
                } else {
                    let base = self.index as usize;
                    let mut k: usize = 0;
                    while k < x + 1
                        invariant
                            k <= x + 1,
                            x < 16,
                            base + x + 1 <= 4096,
                            base == v0.index,
                            self@ == (ProcState { registers: self.registers@, ..v0 }),
                            forall|j: int|
                                0 <= j < k ==> self.registers@[j] == v0.memory[base + j],
                            forall|j: int|
                                k <= j < 16 ==> self.registers@[j] == v0.registers[j],
                        decreases x + 1 - k,
                    {
                        self.registers[k] = self.memory[base + k];
                        k = k + 1;
                    }
                    proof {
                        assert(self.registers@ =~= exec_misc(v0, op).0.registers);
                        assert((self@, Option::<Error>::None) =~~= exec_misc(v0, op));
                    }
                    None
                }
            },
            _ => Some(Error::UnknownOpcode { pc: self.program_counter, opcode: op }),
        }
    }

    /// The `Dxyn` instruction: XOR an `n`-row sprite from memory at the
    /// index register onto the display at `(V[x], V[y])`, wrapping, and
    /// report a collision in VF.
    fn exec_draw_op(&mut self, x: usize, y: usize, n: usize) -> (e: Option<Error>)
        requires
            old(self).wf(),
            x < 16,
            y < 16,
            n < 16,
        ensures
            final(self).wf(),
            (final(self)@, e) == exec_draw(old(self)@, x as int, y as int, n as int),
    {
        let ghost v0 = self@;
        if n > 0 && self.index as usize + n > 4096 {
            return Some(Error::MemoryOutOfBounds);
        }
        self.draw = true;
        self.registers[15] = 0;
        let vx = self.registers[x];
        let vy = self.registers[y];
        let mut collision = false;
        let mut row: usize = 0;
        while row < n
            invariant
                row <= n,
                n < 16,
                x < 16,
                y < 16,
                v0.wf(),
                n > 0 ==> v0.index + n <= 4096,
                self.index == v0.index,
                vx == v0.registers.update(15, 0u8)[x as int],
                vy == v0.registers.update(15, 0u8)[y as int],
                self@ == (ProcState {
                    display: self.display@,
                    draw: true,
                    registers: v0.registers.update(15, 0u8),
                    ..v0
                }),
                (self.display@, collision) == draw_sprite(
                    v0.display,
                    v0.memory,
                    v0.index as int,
                    vx as int,
                    vy as int,
                    row as int,
                ),
            decreases n - row,
        {
            let byte = self.memory[self.index as usize + row];
            let yc = (vy as usize + row) % 32;
            let ghost d_row = draw_sprite(
                v0.display,
                v0.memory,
                v0.index as int,
                vx as int,
                vy as int,
                row as int,
            ).0;
            let ghost c_row = draw_sprite(
                v0.display,
                v0.memory,
                v0.index as int,
                vx as int,
                vy as int,
                row as int,
            ).1;
            let mut bit: usize = 0;
            while bit < 8
                invariant
                    bit <= 8,
                    row < n,
                    n < 16,
                    x < 16,
                    v0.wf(),
                    n > 0 ==> v0.index + n <= 4096,
                    self.index == v0.index,
                    yc == (vy as int + row) % 32,
                    byte == v0.memory[v0.index + row],
                    d_row == draw_sprite(
                        v0.display,
                        v0.memory,
                        v0.index as int,
                        vx as int,
                        vy as int,
                        row as int,
                    ).0,
                    c_row == draw_sprite(
                        v0.display,
                        v0.memory,
                        v0.index as int,
                        vx as int,
                        vy as int,
                        row as int,
                    ).1,
                    self@ == (ProcState {
                        display: self.display@,
                        draw: true,
                        registers: v0.registers.update(15, 0u8),
                        ..v0
                    }),
                    ({
                        let (db, cb) = draw_bits(d_row, byte, vx as int, yc as int, bit as int);
                        self.display@ == db && collision == (c_row || cb)
                    }),
                decreases 8 - bit,
            {
                let mask: u8 = 0x80u8 >> (bit as u8);
                if byte & mask != 0 {
                    let xc = (vx as usize + bit) % 64;
                    let idx = xc + yc * 64;
                    let cur = self.display[idx];
                    if cur {
                        collision = true;
                    }
                    self.display[idx] = !cur;
                }
                bit = bit + 1;
            }
            row = row + 1;
        }
        self.registers[15] = if collision {
            1
        } else {
            0
        };
        proof {
            assert(self.registers@ =~= v0.registers.update(
                15,
                if collision {
                    1u8
                } else {
                    0u8
                },
            ));
            assert((self@, Option::<Error>::None) =~~= exec_draw(
                v0,
                x as int,
                y as int,
                n as int,
            ));
        }
        None
    }
}

} // verus!
