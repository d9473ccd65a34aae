//! The processor's state: memory, registers, call stack, timers, keypad and
//! framebuffer, with its mathematical model and its lifecycle operations.

use crate::error::Error;
use crate::font::font_table;
use crate::font::spec_font;
use crate::rng::RandomSource;
use vstd::prelude::*;

verus! {

/// The mathematical model of a processor: each table as a sequence, each
/// register as its machine integer. The random generator is deliberately
/// absent: it is opaque, and the cycle contract holds for every byte it may
/// produce.
#[verifier::ext_equal]
pub ghost struct ProcState {
    /// The 4096 bytes of memory.
    pub memory: Seq<u8>,
    /// The sixteen general-purpose registers V0 through VF.
    pub registers: Seq<u8>,
    /// The 16-bit index register.
    pub index: u16,
    /// The 16-bit program counter.
    pub program_counter: u16,
    /// The 64x32 framebuffer, row-major: pixel (x, y) at `x + y * 64`.
    pub display: Seq<bool>,
    /// Whether the framebuffer changed since the host last presented it.
    pub draw: bool,
    /// The delay timer.
    pub delay_timer: u8,
    /// The sound timer.
    pub sound_timer: u8,
    /// The sixteen 16-bit return-address slots.
    pub stack: Seq<u16>,
    /// The number of stack slots in use.
    pub stack_pointer: usize,
    /// The sixteen key-pressed flags.
    pub keypad: Seq<bool>,
}

impl ProcState {
    /// Well-formed: every table has its architectural size and the stack
    /// pointer lies within the sixteen slots.
    pub open spec fn wf(self) -> bool {
        &&& self.memory.len() == 4096
        &&& self.registers.len() == 16
        &&& self.display.len() == 2048
        &&& self.stack.len() == 16
        &&& self.keypad.len() == 16
        &&& self.stack_pointer <= 16
    }

    /// The state of a freshly constructed processor: the font in the first
    /// 80 bytes of memory, everything else zeroed, the program counter at
    /// 512, and the framebuffer marked for a first draw.
    pub open spec fn initial() -> ProcState {
        ProcState {
            memory: spec_font() + Seq::new(4016, |i: int| 0u8),
            registers: Seq::new(16, |i: int| 0u8),
            index: 0,
            program_counter: 512,
            display: Seq::new(2048, |i: int| false),
            draw: true,
            delay_timer: 0,
            sound_timer: 0,
            stack: Seq::new(16, |i: int| 0u16),
            stack_pointer: 0,
            keypad: Seq::new(16, |i: int| false),
        }
    }

    /// The two-byte opcode at the program counter, big-endian.
    pub open spec fn fetch(self) -> u16
        recommends
            self.wf(),
            self.program_counter + 1 < 4096,
    {
        ((self.memory[self.program_counter as int] as u16) << 8u16)
            | (self.memory[self.program_counter as int + 1] as u16)
    }
}

/// `mem` with `rom` copied in starting at address 512 and every other byte
/// kept.
pub open spec fn load_rom(mem: Seq<u8>, rom: Seq<u8>) -> Seq<u8>
    recommends
        mem.len() == 4096,
        rom.len() <= 4096 - 512,
{
    Seq::new(4096, |i: int| if 512 <= i < 512 + rom.len() { rom[i - 512] } else { mem[i] })
}

/// The CHIP-8 processor.
pub struct Processor {
    /// The processor's memory.
    pub memory: [u8; 4096],
    /// The registers V0 through VF.
    pub registers: [u8; 16],
    /// The index register, which points at an element of memory.
    pub index: u16,
    /// The address in memory of the current opcode.
    pub program_counter: u16,
    /// The display, row-major: pixel (x, y) at `x + y * 64`.
    pub display: [bool; 2048],
    /// Whether to update the display.
    pub draw: bool,
    /// The delay timer.
    pub delay_timer: u8,
    /// The sound timer.
    pub sound_timer: u8,
    /// The stack of return addresses.
    pub stack: [u16; 16],
    /// The number of stack slots in use.
    pub stack_pointer: usize,
    /// Keypad with 16 keys which can be pressed (`true`) or not (`false`),
    /// written by the host, read by the engine.
    pub keypad: [bool; 16],
    /// The random number generator.
    pub random: RandomSource,
}

impl View for Processor {
    type V = ProcState;

    open spec fn view(&self) -> ProcState {
        ProcState {
            memory: self.memory@,
            registers: self.registers@,
            index: self.index,
            program_counter: self.program_counter,
            display: self.display@,
            draw: self.draw,
            delay_timer: self.delay_timer,
            sound_timer: self.sound_timer,
            stack: self.stack@,
            stack_pointer: self.stack_pointer,
            keypad: self.keypad@,
        }
    }
}

impl Processor {
    /// Well-formed: see [`ProcState::wf`]. The table sizes are fixed by the
    /// field types, so only the stack pointer carries an obligation.
    pub open spec fn wf(&self) -> bool {
        self@.wf()
    }

    /// Create a new `Processor`.
    pub fn new() -> (p: Processor)
        ensures
            p@ == ProcState::initial(),
            p.wf(),
    {
        Processor::default()
    }

    /// Create a new `Processor` and load `file` into memory at address 512.
    /// Fails with [`Error::RomTooLarge`] if `file` does not fit between 512
    /// and the end of memory.
    pub fn with_file(file: &[u8]) -> (r: Result<Processor, Error>)
        ensures
            file@.len() <= 4096 - 512 ==> (r matches Ok(p) && p@ == (ProcState {
                memory: load_rom(ProcState::initial().memory, file@),
                ..ProcState::initial()
            }) && p.wf()),
            file@.len() > 4096 - 512 ==> (r matches Err(e) && e == Error::RomTooLarge),
    {
        let mut processor = Processor::default();
        match processor.load_file(file) {
            Ok(()) => Ok(processor),
            Err(e) => Err(e),
        }
    }

    /// Load `file` into memory starting at address 512. Fails with
    /// [`Error::RomTooLarge`], changing nothing, if `file` is longer than
    /// the 3584 bytes above the load address.
    pub fn load_file(&mut self, file: &[u8]) -> (r: Result<(), Error>)
        ensures
            file@.len() <= 4096 - 512 ==> (r matches Ok(()) && final(self)@ == (ProcState {
                memory: load_rom(old(self)@.memory, file@),
                ..old(self)@
            })),
            file@.len() > 4096 - 512 ==> (r matches Err(e) && e == Error::RomTooLarge
                && final(self)@ == old(self)@),
            old(self).wf() ==> final(self).wf(),
    {
        if file.len() > 4096 - 512 {
            return Err(Error::RomTooLarge);
        }
        let mut i: usize = 0;
        while i < file.len()
            invariant
                i <= file.len(),
                file.len() <= 4096 - 512,
                self.memory@.len() == 4096,
                forall|j: int| 0 <= j < i ==> self.memory@[512 + j] == file@[j],
                forall|j: int| (0 <= j < 512 || 512 + i <= j < 4096)
                    ==> self.memory@[j] == old(self).memory@[j],
                self.registers == old(self).registers,
                self.index == old(self).index,
                self.program_counter == old(self).program_counter,
                self.display == old(self).display,
                self.draw == old(self).draw,
                self.delay_timer == old(self).delay_timer,
                self.sound_timer == old(self).sound_timer,
                self.stack == old(self).stack,
                self.stack_pointer == old(self).stack_pointer,
                self.keypad == old(self).keypad,
            decreases file.len() - i,
        {
            self.memory[512 + i] = file[i];
            i = i + 1;
        }
        proof {
            assert(self.memory@ =~= load_rom(old(self)@.memory, file@));
            assert(self@ =~= (ProcState { memory: load_rom(old(self)@.memory, file@), ..old(self)@ }));
        }
        Ok(())
    }

    /// Set the state of a key. `key` names one of the sixteen pad keys.
    pub fn set_key(&mut self, key: usize, pressed: bool)
        requires
            key < 16,
        ensures
            final(self)@ == (ProcState {
                keypad: old(self)@.keypad.update(key as int, pressed),
                ..old(self)@
            }),
    {
        self.keypad[key] = pressed;
        proof {
            assert(self@ =~= (ProcState {
                keypad: old(self)@.keypad.update(key as int, pressed),
                ..old(self)@
            }));
        }
    }

    /// Get the current opcode: the two bytes at the program counter,
    /// big-endian. The program counter must point at two bytes of memory.
    pub fn opcode(&self) -> (op: u16)
        requires
            self.program_counter + 1 < 4096,
        ensures
            op == self@.fetch(),
    {
        let pc = self.program_counter as usize;
        ((self.memory[pc] as u16) << 8u16) | (self.memory[pc + 1] as u16)
    }
}

impl Default for Processor {
    /// A processor in [`ProcState::initial`] state: font preloaded, all
    /// other memory zeroed, the program counter at 512.
    fn default() -> (p: Processor)
        ensures
            p@ == ProcState::initial(),
            p.wf(),
    {
        let font = font_table();
        let mut memory: [u8; 4096] = [0; 4096];
        let mut i: usize = 0;
        while i < 80
            invariant
                i <= 80,
                font@ == spec_font(),
                forall|j: int| 0 <= j < i ==> memory@[j] == spec_font()[j],
                forall|j: int| i <= j < 4096 ==> memory@[j] == 0u8,
            decreases 80 - i,
        {
            memory[i] = font[i];
            i = i + 1;
        }
        let p = Processor {
            memory,
            registers: [0; 16],
            index: 0,
            program_counter: 512,
            display: [false; 2048],
            draw: true,
            delay_timer: 0,
            sound_timer: 0,
            stack: [0; 16],
            stack_pointer: 0,
            keypad: [false; 16],
            random: RandomSource::from_entropy(),
        };
        proof {
            assert(p@.memory =~= ProcState::initial().memory);
            assert(p@.registers =~= ProcState::initial().registers);
            assert(p@.display =~= ProcState::initial().display);
            assert(p@.stack =~= ProcState::initial().stack);
            assert(p@.keypad =~= ProcState::initial().keypad);
            assert(p@ =~= ProcState::initial());
        }
        p
    }
}

} // verus!
