use vstd::prelude::*;
use crate::display::{cells_valid, drawn};
use crate::error::VmError;
use crate::instruction::{Instruction, Opcode};
use crate::timer::Timers;

verus! {

/// Bytes of addressable memory.
pub const RAM_SIZE: usize = 4096;

/// General-purpose registers, `V0` to `VF`.
pub const GPR_COUNT: usize = 16;

/// The register that receives carry, borrow, shift and collision flags.
pub const FLAG_REGISTER: usize = 15;

/// Keys of the hexadecimal keypad.
pub const NUMBER_OF_KEYS: usize = 16;

/// Pixels in a display row.
pub const SCREEN_WIDTH: usize = 64;

/// Rows of the display.
pub const SCREEN_HEIGHT: usize = 32;

/// Cells of the display buffer.
pub const SCREEN_CELLS: usize = 2048;

/// Return addresses that the call stack can hold.
pub const STACK_LIMIT: usize = 16;

/// The address at which a program image is loaded and at which execution
/// starts.
pub const PROGRAM_START: u16 = 0x200;

/// The largest program image that fits between `PROGRAM_START` and the end of
/// memory.
pub const MAX_PROGRAM_SIZE: usize = 3584;

/// Bytes of the built-in font.
pub const FONT_SIZE: usize = 80;

/// Bytes of one glyph of the built-in font.
pub const GLYPH_SIZE: usize = 5;

/// The sprites of the sixteen hexadecimal digits, five bytes each, which
/// occupy the first bytes of memory.
pub const FONT_SET: [u8; 80] = [
    0xf0, 0x90, 0x90, 0x90, 0xf0,
    0x20, 0x60, 0x20, 0x20, 0x70,
    0xf0, 0x10, 0xf0, 0x80, 0xf0,
    0xf0, 0x10, 0xf0, 0x10, 0xf0,
    0x90, 0x90, 0xf0, 0x10, 0x10,
    0xf0, 0x80, 0xf0, 0x10, 0xf0,
    0xf0, 0x80, 0xf0, 0x90, 0xf0,
    0xf0, 0x10, 0x20, 0x40, 0x40,
    0xf0, 0x90, 0xf0, 0x90, 0xf0,
    0xf0, 0x90, 0xf0, 0x10, 0xf0,
    0xf0, 0x90, 0xf0, 0x90, 0x90,
    0xe0, 0x90, 0xe0, 0x90, 0xe0,
    0xf0, 0x80, 0x80, 0x80, 0x80,
    0xe0, 0x90, 0x90, 0x90, 0xe0,
    0xf0, 0x80, 0xf0, 0x80, 0xf0,
    0xf0, 0x80, 0xf0, 0x80, 0x80,
];

/// The machine as a mathematical value.
///
/// Every transition of the interpreter is defined on this model, and the
/// executable machine is proved to follow it.
#[verifier::ext_equal]
pub ghost struct State {
    /// Memory, `RAM_SIZE` bytes.
    pub ram: Seq<u8>,
    /// The general-purpose registers `V0` to `VF`.
    pub v: Seq<u8>,
    /// The index register.
    pub i: u16,
    /// The program counter.
    pub pc: u16,
    /// The display buffer, row by row; a cell is 1 where the pixel is on.
    pub gfx: Seq<u8>,
    /// The delay and sound timers.
    pub timers: Timers,
    /// The call stack, most recent call last. An entry is the address of the
    /// call instruction itself.
    pub stack: Seq<u16>,
    /// The keypad: `true` where a key is held down.
    pub key: Seq<bool>,
    /// Whether the program counter is to stay where the last instruction
    /// left it: after a jump or a call, and while the machine waits for a key.
    pub jmp: bool,
    /// The last instruction that was executed.
    pub instruction: Instruction,
    /// Whether the last tick drew on the display.
    pub draw: bool,
}

/// Whether an instruction can be fetched at `pc`: both of its bytes lie in
/// memory.
pub open spec fn fetchable(pc: u16) -> bool {
    pc as int + 1 < RAM_SIZE as int
}

/// The flag register's value for a condition.
pub open spec fn flag(condition: bool) -> u8 {
    if condition {
        1
    } else {
        0
    }
}

/// The highest key below `limit` that is held down, or -1 if there is none.
pub open spec fn last_pressed(key: Seq<bool>, limit: int) -> int
    decreases limit,
{
    if limit <= 0 {
        -1
    } else if key[limit - 1] {
        limit - 1
    } else {
        last_pressed(key, limit - 1)
    }
}

/// Memory right after a program image has been loaded: the font at address 0,
/// the image at `PROGRAM_START`, and zero everywhere else.
pub open spec fn initial_ram(rom: Seq<u8>) -> Seq<u8> {
    Seq::new(
        RAM_SIZE as nat,
        |a: int|
            if a < FONT_SIZE as int {
                FONT_SET[a]
            } else if PROGRAM_START as int <= a < PROGRAM_START as int + rom.len() {
                rom[a - PROGRAM_START as int]
            } else {
                0u8
            },
    )
}

impl State {
    /// The sizes and ranges that every reachable machine keeps.
    pub open spec fn wf(self) -> bool {
        &&& self.ram.len() == RAM_SIZE
        &&& self.v.len() == GPR_COUNT
        &&& self.gfx.len() == SCREEN_CELLS
        &&& cells_valid(self.gfx)
        &&& self.timers.wf()
        &&& self.stack.len() <= STACK_LIMIT
        &&& forall|k: int| 0 <= k < self.stack.len() ==> fetchable(#[trigger] self.stack[k])
        &&& self.key.len() == NUMBER_OF_KEYS
        &&& self.instruction.wf()
    }

    /// The machine right after the program image `rom` has been loaded.
    pub open spec fn initial(rom: Seq<u8>) -> State {
        State {
            ram: initial_ram(rom),
            v: Seq::new(GPR_COUNT as nat, |r: int| 0u8),
            i: 0,
            pc: PROGRAM_START,
            gfx: Seq::new(SCREEN_CELLS as nat, |c: int| 0u8),
            timers: Timers { delay: 0, sound: 0, residue: 0 },
            stack: Seq::empty(),
            key: Seq::new(NUMBER_OF_KEYS as nat, |k: int| false),
            jmp: false,
            instruction: Instruction { opcode: 0, x: 0, y: 0, kk: 0, nnn: 0, n: 0 },
            draw: false,
        }
    }

    /// The register that the instruction's `x` field names.
    pub open spec fn vx(self) -> u8 {
        self.v[self.instruction.x as int]
    }

    /// The register that the instruction's `y` field names.
    pub open spec fn vy(self) -> u8 {
        self.v[self.instruction.y as int]
    }

    /// The machine with `value` in the register that `x` names.
    pub open spec fn with_vx(self, value: u8) -> State {
        State { v: self.v.update(self.instruction.x as int, value), ..self }
    }

    /// The machine with the flag register set to 1 or 0.
    pub open spec fn with_flag(self, condition: bool) -> State {
        State { v: self.v.update(FLAG_REGISTER as int, flag(condition)), ..self }
    }

    /// The machine with the program counter moved past one more instruction
    /// if `condition` holds.
    pub open spec fn skip_if(self, condition: bool) -> State {
        if condition {
            State { pc: (self.pc + 2) as u16, ..self }
        } else {
            self
        }
    }

    /// The key that the low nibble of `Vx` names.
    pub open spec fn key_of_vx(self) -> int {
        self.vx() as int % 16
    }

    /// Clear the display.
    pub open spec fn cls(self) -> State {
        State { gfx: Seq::new(SCREEN_CELLS as nat, |c: int| 0u8), ..self }
    }

    /// Return from a subroutine: the program counter goes back to the call,
    /// past which it is then advanced.
    pub open spec fn ret(self) -> State {
        State { pc: self.stack.last(), stack: self.stack.drop_last(), ..self }
    }

    /// Jump to `nnn`.
    pub open spec fn jmp(self) -> State {
        State { pc: self.instruction.nnn, jmp: true, ..self }
    }

    /// Call the subroutine at `nnn`.
    pub open spec fn call(self) -> State {
        State {
            stack: self.stack.push(self.pc),
            pc: self.instruction.nnn,
            jmp: true,
            ..self
        }
    }

    /// Skip the next instruction if `Vx == kk`.
    pub open spec fn se_vb(self) -> State {
        self.skip_if(self.vx() == self.instruction.kk)
    }

    /// Skip the next instruction if `Vx != kk`.
    pub open spec fn sne_vb(self) -> State {
        self.skip_if(self.vx() != self.instruction.kk)
    }

    /// Skip the next instruction if `Vx == Vy`.
    pub open spec fn se_vv(self) -> State {
        self.skip_if(self.vx() == self.vy())
    }

    /// Skip the next instruction if `Vx != Vy`.
    pub open spec fn sne_vv(self) -> State {
        self.skip_if(self.vx() != self.vy())
    }

    /// `Vx = kk`.
    pub open spec fn ld_vb(self) -> State {
        self.with_vx(self.instruction.kk)
    }

    /// `Vx = (Vx + kk) mod 256`; the flag register is left alone.
    pub open spec fn add_vb(self) -> State {
        self.with_vx(((self.vx() + self.instruction.kk) % 256) as u8)
    }

    /// `Vx = Vy`.
    pub open spec fn ld_vv(self) -> State {
        self.with_vx(self.vy())
    }

    /// `Vx = Vx | Vy`.
    pub open spec fn or(self) -> State {
        self.with_vx(self.vx() | self.vy())
    }

    /// `Vx = Vx & Vy`.
    pub open spec fn and(self) -> State {
        self.with_vx(self.vx() & self.vy())
    }

    /// `Vx = Vx ^ Vy`.
    pub open spec fn xor(self) -> State {
        self.with_vx(self.vx() ^ self.vy())
    }

    /// `Vx = (Vx + Vy) mod 256`, with the carry in `VF`. Where `x` names `VF`
    /// itself, the sum is what stays there.
    pub open spec fn add_vv(self) -> State {
        self.with_flag(self.vx() + self.vy() > 255).with_vx(((self.vx() + self.vy()) % 256) as u8)
    }

    /// `Vx = (Vx - Vy) mod 256`, with 1 in `VF` if `Vx > Vy` (no borrow).
    pub open spec fn sub(self) -> State {
        self.with_flag(self.vx() > self.vy()).with_vx(((self.vx() - self.vy()) % 256) as u8)
    }

    /// `Vx = Vx / 2`, with the bit that was shifted out in `VF`.
    pub open spec fn shr(self) -> State {
        self.with_flag(self.vx() % 2 == 1).with_vx(self.vx() / 2)
    }

    /// `Vx = (Vy - Vx) mod 256`, with 1 in `VF` if `Vy > Vx` (no borrow).
    pub open spec fn subn(self) -> State {
        self.with_flag(self.vy() > self.vx()).with_vx(((self.vy() - self.vx()) % 256) as u8)
    }

    /// `Vx = (Vx * 2) mod 256`, with the bit that was shifted out in `VF`.
    pub open spec fn shl(self) -> State {
        self.with_flag(self.vx() >= 128).with_vx(((self.vx() * 2) % 256) as u8)
    }

    /// `I = nnn`.
    pub open spec fn ld_i(self) -> State {
        State { i: self.instruction.nnn, ..self }
    }

    /// Jump to `V0 + nnn`.
    pub open spec fn jmp_v(self) -> State {
        State { pc: (self.v[0] + self.instruction.nnn) as u16, jmp: true, ..self }
    }

    /// `Vx = random & kk`.
    pub open spec fn rnd(self, random: u8) -> State {
        self.with_vx(random & self.instruction.kk)
    }

    /// Whether the `n` sprite rows at `I` lie in memory.
    pub open spec fn sprite_in_memory(self) -> bool {
        self.i as int + self.instruction.n as int <= RAM_SIZE as int
    }

    /// Draw the `n` sprite rows at `I` with their top left corner at
    /// (`Vx`, `Vy`); `VF` tells whether a pixel was turned off.
    pub open spec fn drw(self) -> State {
        let canvas = drawn(
            self.gfx,
            self.ram.subrange(self.i as int, self.i as int + self.instruction.n as int),
            self.vx() as int,
            self.vy() as int,
            (8 * self.instruction.n) as nat,
        );
        State { gfx: canvas.cells, draw: true, ..self.with_flag(canvas.collision) }
    }

    /// Skip the next instruction if the key that `Vx` names is held down.
    pub open spec fn skp(self) -> State {
        self.skip_if(self.key[self.key_of_vx()])
    }

    /// Skip the next instruction if the key that `Vx` names is not held down.
    pub open spec fn sknp(self) -> State {
        self.skip_if(!self.key[self.key_of_vx()])
    }

    /// `Vx = delay timer`.
    pub open spec fn ld_vdt(self) -> State {
        self.with_vx(self.timers.delay)
    }

    /// Wait for a key: `Vx` receives the highest key that is held down. While
    /// none is, the machine stays on this instruction.
    pub open spec fn ld_vk(self) -> State {
        let k = last_pressed(self.key, NUMBER_OF_KEYS as int);
        if k >= 0 {
            self.with_vx(k as u8)
        } else {
            State { jmp: true, ..self }
        }
    }

    /// `delay timer = Vx`.
    pub open spec fn ld_dtv(self) -> State {
        State { timers: Timers { delay: self.vx(), ..self.timers }, ..self }
    }

    /// `sound timer = Vx`.
    pub open spec fn ld_stv(self) -> State {
        State { timers: Timers { sound: self.vx(), ..self.timers }, ..self }
    }

    /// `I = (I + Vx) mod 65536`: the index register is sixteen bits wide and
    /// wraps as such. The flag register is left alone.
    pub open spec fn add_iv(self) -> State {
        State { i: ((self.i + self.vx()) % 0x1_0000) as u16, ..self }
    }

    /// `I` = the address of the glyph for the low nibble of `Vx`.
    pub open spec fn ld_fv(self) -> State {
        State { i: (GLYPH_SIZE as int * (self.vx() as int % 16)) as u16, ..self }
    }

    /// Whether the three bytes at `I` lie in memory.
    pub open spec fn digits_in_memory(self) -> bool {
        self.i as int + 2 < RAM_SIZE as int
    }

    /// The hundreds, tens and ones of `Vx` go to memory at `I`, `I + 1` and
    /// `I + 2`.
    pub open spec fn ld_bv(self) -> State {
        let i = self.i as int;
        State {
            ram: self.ram.update(i, self.vx() / 100).update(i + 1, (self.vx() / 10) % 10).update(
                i + 2,
                self.vx() % 10,
            ),
            ..self
        }
    }

    /// Whether the `x + 1` bytes at `I` lie in memory.
    pub open spec fn registers_in_memory(self) -> bool {
        self.i as int + (self.instruction.x as int) < RAM_SIZE as int
    }

    /// `V0` to `Vx` go to memory at `I` onwards.
    pub open spec fn ld_iv(self) -> State {
        let i = self.i as int;
        State {
            ram: Seq::new(
                RAM_SIZE as nat,
                |a: int|
                    if i <= a <= i + self.instruction.x as int {
                        self.v[a - i]
                    } else {
                        self.ram[a]
                    },
            ),
            ..self
        }
    }

    /// `V0` to `Vx` are read from memory at `I` onwards.
    pub open spec fn ld_vi(self) -> State {
        State {
            v: Seq::new(
                GPR_COUNT as nat,
                |r: int|
                    if r <= self.instruction.x as int {
                        self.ram[self.i as int + r]
                    } else {
                        self.v[r]
                    },
            ),
            ..self
        }
    }

    /// The fault, if any, that keeps the current instruction from being
    /// executed.
    pub open spec fn fault(self) -> Option<VmError> {
        match self.instruction.operation() {
            Opcode::invalid => Some(VmError::UnknownOpcode),
            Opcode::ret => if self.stack.len() == 0 {
                Some(VmError::StackUnderflow)
            } else {
                None
            },
            Opcode::call => if self.stack.len() >= STACK_LIMIT as int {
                Some(VmError::StackOverflow)
            } else {
                None
            },
            Opcode::drw => if self.sprite_in_memory() {
                None
            } else {
                Some(VmError::MemoryBoundsViolation)
            },
            Opcode::ld_bv => if self.digits_in_memory() {
                None
            } else {
                Some(VmError::MemoryBoundsViolation)
            },
            Opcode::ld_iv | Opcode::ld_vi => if self.registers_in_memory() {
                None
            } else {
                Some(VmError::MemoryBoundsViolation)
            },
            _ => None,
        }
    }

    /// The effect of the current instruction, where nothing is at fault.
    pub open spec fn effect(self, random: u8) -> State {
        match self.instruction.operation() {
            Opcode::sys | Opcode::noop | Opcode::invalid => self,
            Opcode::cls => self.cls(),
            Opcode::ret => self.ret(),
            Opcode::jmp => self.jmp(),
            Opcode::call => self.call(),
            Opcode::se_vb => self.se_vb(),
            Opcode::sne_vb => self.sne_vb(),
            Opcode::se_vv => self.se_vv(),
            Opcode::ld_vb => self.ld_vb(),
            Opcode::add_vb => self.add_vb(),
            Opcode::ld_vv => self.ld_vv(),
            Opcode::or => self.or(),
            Opcode::and => self.and(),
            Opcode::xor => self.xor(),
            Opcode::add_vv => self.add_vv(),
            Opcode::sub => self.sub(),
            Opcode::shr => self.shr(),
            Opcode::subn => self.subn(),
            Opcode::shl => self.shl(),
            Opcode::sne_vv => self.sne_vv(),
            Opcode::ld_i => self.ld_i(),
            Opcode::jmp_v => self.jmp_v(),
            Opcode::rnd => self.rnd(random),
            Opcode::drw => self.drw(),
            Opcode::skp => self.skp(),
            Opcode::sknp => self.sknp(),
            Opcode::ld_vdt => self.ld_vdt(),
            Opcode::ld_vk => self.ld_vk(),
            Opcode::ld_dtv => self.ld_dtv(),
            Opcode::ld_stv => self.ld_stv(),
            Opcode::add_iv => self.add_iv(),
            Opcode::ld_fv => self.ld_fv(),
            Opcode::ld_bv => self.ld_bv(),
            Opcode::ld_iv => self.ld_iv(),
            Opcode::ld_vi => self.ld_vi(),
        }
    }

    /// One instruction's worth of change: what executing `instruction` makes
    /// of the machine, or the fault that stops it.
    ///
    /// The program counter must address a whole instruction. It is left for
    /// the caller to advance, unless the instruction has set it (`jmp`).
    pub open spec fn execute(self, instruction: Instruction, random: u8) -> Result<State, VmError> {
        let ready = State { instruction, jmp: false, ..self };
        if !fetchable(self.pc) {
            Err(VmError::MemoryBoundsViolation)
        } else if ready.fault() is Some {
            Err(ready.fault()->0)
        } else {
            Ok(ready.effect(random))
        }
    }

    /// The instruction at the program counter.
    pub open spec fn fetched(self) -> Instruction {
        Instruction::decoded(self.ram[self.pc as int], self.ram[self.pc as int + 1])
    }

    /// The machine with the program counter moved past the instruction that
    /// was executed, unless that instruction has set it.
    pub open spec fn advanced(self) -> State {
        if self.jmp {
            self
        } else {
            State { pc: (self.pc + 2) as u16, ..self }
        }
    }

    /// The machine after `elapsed` more nanoseconds have passed.
    pub open spec fn aged(self, elapsed: nat) -> State {
        State { timers: self.timers.after(elapsed), ..self }
    }

    /// One tick: the redraw flag is cleared, the instruction at the program
    /// counter is fetched and executed, the program counter is advanced, and
    /// the timers run for `elapsed` nanoseconds.
    pub open spec fn tick(self, elapsed: nat, random: u8) -> Result<State, VmError> {
        if !fetchable(self.pc) {
            Err(VmError::MemoryBoundsViolation)
        } else {
            match (State { draw: false, ..self }).execute(self.fetched(), random) {
                Ok(next) => Ok(next.advanced().aged(elapsed)),
                Err(e) => Err(e),
            }
        }
    }
}

} // verus!
