use rand::Rng;
use vstd::prelude::*;
use crate::display::draw_sprite;
use crate::error::VmError;
use crate::instruction::{Instruction, Opcode};
use crate::model::{
    fetchable, initial_ram, last_pressed, State, FLAG_REGISTER, FONT_SET, FONT_SIZE, GLYPH_SIZE,
    GPR_COUNT, MAX_PROGRAM_SIZE, NUMBER_OF_KEYS, PROGRAM_START, RAM_SIZE, SCREEN_CELLS,
    STACK_LIMIT,
};
use crate::timer::Timers;

verus! {

/// The virtual machine.
///
/// Its fields are private and always satisfy `State::wf`, so that no public
/// function needs a precondition on the machine itself. What a function does
/// is stated over the machine's view, a `State`.
pub struct CHIP8 {
    ram: Vec<u8>,
    // General purpose registers
    v: Vec<u8>,
    // Index register
    i: u16,
    // Program counter
    pc: u16,
    // Pixels
    gfx: Vec<u8>,
    timers: Timers,
    // Stack and stack pointer: the entries below `sp` are in use
    stack: Vec<u16>,
    sp: usize,
    // Input state
    key: Vec<bool>,
    jmp: bool,
    instruction: Instruction,
    draw: bool,
}

impl View for CHIP8 {
    type V = State;

    closed spec fn view(&self) -> State {
        State {
            ram: self.ram@,
            v: self.v@,
            i: self.i,
            pc: self.pc,
            gfx: self.gfx@,
            timers: self.timers,
            stack: self.stack@.take(self.sp as int),
            key: self.key@,
            jmp: self.jmp,
            instruction: self.instruction,
            draw: self.draw,
        }
    }
}

/// A vector of `len` zero bytes.
fn zeros(len: usize) -> (bytes: Vec<u8>)
    ensures
        bytes@ == Seq::new(len as nat, |k: int| 0u8),
{
    let mut bytes: Vec<u8> = Vec::new();
    let mut k: usize = 0;
    while k < len
        invariant
            k <= len,
            bytes@ == Seq::new(k as nat, |j: int| 0u8),
        decreases len - k,
    {
        bytes.push(0);
        k += 1;
    }
    bytes
}

/// A vector of `len` zero words.
fn zeros16(len: usize) -> (words: Vec<u16>)
    ensures
        words@ == Seq::new(len as nat, |k: int| 0u16),
{
    let mut words: Vec<u16> = Vec::new();
    let mut k: usize = 0;
    while k < len
        invariant
            k <= len,
            words@ == Seq::new(k as nat, |j: int| 0u16),
        decreases len - k,
    {
        words.push(0);
        k += 1;
    }
    words
}

/// A byte from the thread-local generator of the `rand` crate:
/// `rand::thread_rng()` and then `Rng::gen::<u8>()`.
///
/// Nothing is claimed of the byte: it may be any value, and two calls may
/// differ. The generator is seeded by the operating system on its first use in
/// a thread, and the call does not return if that fails.
#[verifier::external_body]
fn random_byte() -> (byte: u8) {
    let mut rng = rand::thread_rng();
    rng.gen::<u8>()
}

impl CHIP8 {
    #[verifier::type_invariant]
    spec fn inv(self) -> bool {
        &&& self@.wf()
        &&& self.stack.len() == STACK_LIMIT
        &&& self.sp <= STACK_LIMIT
    }

    /// A machine with the program image `rom` loaded: the font and the image
    /// are in memory, the program counter is at the image's first byte, and
    /// everything else is zero.
    pub fn new(rom: &[u8]) -> (chip: CHIP8)
        requires
            rom.len() <= MAX_PROGRAM_SIZE,
        ensures
            chip@ == State::initial(rom@),
            chip@.wf(),
    {
        let mut ram = zeros(RAM_SIZE);
        let mut k: usize = 0;
        while k < FONT_SIZE
            invariant
                k <= FONT_SIZE,
                ram.len() == RAM_SIZE,
                forall|a: int| 0 <= a < k ==> ram[a] == FONT_SET[a],
                forall|a: int| k <= a < RAM_SIZE ==> ram[a] == 0,
            decreases FONT_SIZE - k,
        {
            ram[k] = FONT_SET[k];
            k += 1;
        }
        let mut k: usize = 0;
        while k < rom.len()
            invariant
                k <= rom.len(),
                rom.len() <= MAX_PROGRAM_SIZE,
                ram.len() == RAM_SIZE,
                forall|a: int| 0 <= a < FONT_SIZE ==> ram[a] == FONT_SET[a],
                forall|a: int| FONT_SIZE <= a < PROGRAM_START ==> ram[a] == 0,
                forall|a: int|
                    PROGRAM_START <= a < PROGRAM_START + k ==> ram[a] == rom[a - PROGRAM_START],
                forall|a: int| PROGRAM_START + k <= a < RAM_SIZE ==> ram[a] == 0,
            decreases rom.len() - k,
        {
            ram[PROGRAM_START as usize + k] = rom[k];
            k += 1;
        }
        let mut key: Vec<bool> = Vec::new();
        let mut k: usize = 0;
        while k < NUMBER_OF_KEYS
            invariant
                k <= NUMBER_OF_KEYS,
                key@ == Seq::new(k as nat, |j: int| false),
            decreases NUMBER_OF_KEYS - k,
        {
            key.push(false);
            k += 1;
        }
        assert(ram@ =~= initial_ram(rom@));
        let chip = CHIP8 {
            ram,
            v: zeros(GPR_COUNT),
            i: 0,
            pc: PROGRAM_START,
            gfx: zeros(SCREEN_CELLS),
            timers: Timers { delay: 0, sound: 0, residue: 0 },
            stack: zeros16(STACK_LIMIT),
            sp: 0,
            key,
            jmp: false,
            instruction: Instruction::new(),
            draw: false,
        };
        assert(chip@ =~= State::initial(rom@));
        chip
    }

    /// The program counter.
    pub fn pc(&self) -> (pc: u16)
        ensures
            pc == self@.pc,
    {
        self.pc
    }

    /// The index register.
    pub fn index(&self) -> (i: u16)
        ensures
            i == self@.i,
    {
        self.i
    }

    /// The general-purpose register `Vr`.
    pub fn register(&self, r: usize) -> (value: u8)
        requires
            r < GPR_COUNT,
        ensures
            value == self@.v[r as int],
    {
        proof {
            use_type_invariant(self);
        }
        self.v[r]
    }

    /// The byte of memory at `address`.
    pub fn memory(&self, address: usize) -> (value: u8)
        requires
            address < RAM_SIZE,
        ensures
            value == self@.ram[address as int],
    {
        proof {
            use_type_invariant(self);
        }
        self.ram[address]
    }

    /// The display buffer: `SCREEN_CELLS` cells, row by row, each 0 or 1.
    pub fn gfx(&self) -> (cells: &Vec<u8>)
        ensures
            cells@ == self@.gfx,
            self@.wf(),
    {
        proof {
            use_type_invariant(self);
        }
        &self.gfx
    }

    /// Whether the last tick drew on the display.
    pub fn draw(&self) -> (draw: bool)
        ensures
            draw == self@.draw,
    {
        self.draw
    }

    /// The delay timer.
    pub fn delay_timer(&self) -> (value: u8)
        ensures
            value == self@.timers.delay,
    {
        self.timers.delay
    }

    /// The sound timer. The host sounds its buzzer while this is not zero.
    pub fn sound_timer(&self) -> (value: u8)
        ensures
            value == self@.timers.sound,
    {
        self.timers.sound
    }

    /// The number of calls that have not returned yet.
    pub fn stack_depth(&self) -> (depth: usize)
        ensures
            depth == self@.stack.len(),
    {
        proof {
            use_type_invariant(self);
        }
        self.sp
    }

    /// The last instruction that was executed.
    pub fn instruction(&self) -> (instruction: Instruction)
        ensures
            instruction == self@.instruction,
    {
        self.instruction
    }

    /// Whether `key` is held down.
    pub fn key(&self, key: usize) -> (pressed: bool)
        requires
            key < NUMBER_OF_KEYS,
        ensures
            pressed == self@.key[key as int],
    {
        proof {
            use_type_invariant(self);
        }
        self.key[key]
    }

    /// Records that `key` is held down, or no longer so. Nothing else changes.
    pub fn set_key(&mut self, key: usize, pressed: bool)
        requires
            key < NUMBER_OF_KEYS,
        ensures
            final(self)@ == (State { key: old(self)@.key.update(key as int, pressed), ..old(self)@ }),
            final(self)@.wf(),
    {
        proof {
            use_type_invariant(&*self);
        }
        self.key[key] = pressed;
    }

    fn cls(&mut self)
        ensures
            final(self)@ == old(self)@.cls(),
    {
        proof {
            use_type_invariant(&*self);
        }
        self.gfx = zeros(SCREEN_CELLS);
    }

    fn ret(&mut self) -> (r: Result<(), VmError>)
        ensures
            old(self)@.stack.len() == 0 ==> r == Err::<(), VmError>(VmError::StackUnderflow)
                && final(self)@ == old(self)@,
            old(self)@.stack.len() > 0 ==> r is Ok && final(self)@ == old(self)@.ret(),
    {
        proof {
            use_type_invariant(&*self);
        }
        if self.sp == 0 {
            return Err(VmError::StackUnderflow);
        }
        let ghost before = self@;
        assert(before.stack.drop_last() =~= self.stack@.take(self.sp as int - 1));
        self.sp = self.sp - 1;
        self.pc = self.stack[self.sp];
        assert(self@ =~= before.ret());
        Ok(())
    }

    fn jmp(&mut self)
        ensures
            final(self)@ == old(self)@.jmp(),
    {
        proof {
            use_type_invariant(&*self);
        }
        self.pc = self.instruction.nnn;
        self.jmp = true;
    }

    fn call(&mut self) -> (r: Result<(), VmError>)
        requires
            fetchable(old(self)@.pc),
        ensures
            old(self)@.stack.len() >= STACK_LIMIT ==> r == Err::<(), VmError>(
                VmError::StackOverflow,
            ) && final(self)@ == old(self)@,
            old(self)@.stack.len() < STACK_LIMIT ==> r is Ok && final(self)@ == old(self)@.call(),
    {
        proof {
            use_type_invariant(&*self);
        }
        if self.sp >= STACK_LIMIT {
            return Err(VmError::StackOverflow);
        }
        let ghost before = self@;
        let top: usize = self.sp;
        assert forall|entry: u16|
            #[trigger] self.stack@.update(top as int, entry).take(top as int) == before.stack by {
            assert(self.stack@.update(top as int, entry).take(top as int) =~= before.stack);
        }
        self.stack[top] = self.pc;
        assert(self.stack@.take(top + 1) =~= before.stack.push(self.pc));
        self.sp = top + 1;
        self.pc = self.instruction.nnn;
        self.jmp = true;
        assert(self@ =~= before.call());
        Ok(())
    }

    fn se_vb(&mut self)
        requires
            fetchable(old(self)@.pc),
        ensures
            final(self)@ == old(self)@.se_vb(),
    {
        proof {
            use_type_invariant(&*self);
        }
        if self.v[self.instruction.x] == self.instruction.kk {
            self.pc += 2;
        }
    }

    fn sne_vb(&mut self)
        requires
            fetchable(old(self)@.pc),
        ensures
            final(self)@ == old(self)@.sne_vb(),
    {
        proof {
            use_type_invariant(&*self);
        }
        if self.v[self.instruction.x] != self.instruction.kk {
            self.pc += 2;
        }
    }

    fn se_vv(&mut self)
        requires
            fetchable(old(self)@.pc),
        ensures
            final(self)@ == old(self)@.se_vv(),
    {
        proof {
            use_type_invariant(&*self);
        }
        if self.v[self.instruction.x] == self.v[self.instruction.y] {
            self.pc += 2;
        }
    }

    fn ld_vb(&mut self)
        ensures
            final(self)@ == old(self)@.ld_vb(),
    {
        proof {
            use_type_invariant(&*self);
        }
        let x: usize = self.instruction.x;
        self.v[x] = self.instruction.kk;
    }

    fn add_vb(&mut self)
        ensures
            final(self)@ == old(self)@.add_vb(),
    {
        proof {
            use_type_invariant(&*self);
        }
        let x: usize = self.instruction.x;
        self.v[x] = self.v[x].wrapping_add(self.instruction.kk);
    }

    fn ld_vv(&mut self)
        ensures
            final(self)@ == old(self)@.ld_vv(),
    {
        proof {
            use_type_invariant(&*self);
        }
        let x: usize = self.instruction.x;
        self.v[x] = self.v[self.instruction.y];
    }

    fn or(&mut self)
        ensures
            final(self)@ == old(self)@.or(),
    {
        proof {
            use_type_invariant(&*self);
        }
        let x: usize = self.instruction.x;
        self.v[x] = self.v[x] | self.v[self.instruction.y];
    }

    fn and(&mut self)
        ensures
            final(self)@ == old(self)@.and(),
    {
        proof {
            use_type_invariant(&*self);
        }
        let x: usize = self.instruction.x;
        self.v[x] = self.v[x] & self.v[self.instruction.y];
    }

    fn xor(&mut self)
        ensures
            final(self)@ == old(self)@.xor(),
    {
        proof {
            use_type_invariant(&*self);
        }
        let x: usize = self.instruction.x;
        self.v[x] = self.v[x] ^ self.v[self.instruction.y];
    }

    fn add_vv(&mut self)
        ensures
            final(self)@ == old(self)@.add_vv(),
    {
        proof {
            use_type_invariant(&*self);
        }
        let x: usize = self.instruction.x;
        let a: u16 = self.v[x] as u16;
        let b: u16 = self.v[self.instruction.y] as u16;
        let res: u16 = a + b;
        self.v[FLAG_REGISTER] = if res > 255 {
            1
        } else {
            0
        };
        self.v[x] = (res % 256) as u8;
    }

    fn sub(&mut self)
        ensures
            final(self)@ == old(self)@.sub(),
    {
        proof {
            use_type_invariant(&*self);
        }
        let x: usize = self.instruction.x;
        let a: u8 = self.v[x];
        let b: u8 = self.v[self.instruction.y];
        self.v[FLAG_REGISTER] = if a > b {
            1
        } else {
            0
        };
        self.v[x] = a.wrapping_sub(b);
    }

    fn shr(&mut self)
        ensures
            final(self)@ == old(self)@.shr(),
    {
        proof {
            use_type_invariant(&*self);
        }
        let x: usize = self.instruction.x;
        let a: u8 = self.v[x];
        assert(a & 1 == a % 2 && a >> 1 == a / 2) by (bit_vector);
        self.v[FLAG_REGISTER] = a & 1;
        self.v[x] = a >> 1;
    }

    fn subn(&mut self)
        ensures
            final(self)@ == old(self)@.subn(),
    {
        proof {
            use_type_invariant(&*self);
        }
        let x: usize = self.instruction.x;
        let a: u8 = self.v[x];
        let b: u8 = self.v[self.instruction.y];
        self.v[FLAG_REGISTER] = if b > a {
            1
        } else {
            0
        };
        self.v[x] = b.wrapping_sub(a);
    }

    fn shl(&mut self)
        ensures
            final(self)@ == old(self)@.shl(),
    {
        proof {
            use_type_invariant(&*self);
        }
        let x: usize = self.instruction.x;
        let a: u8 = self.v[x];
        assert((a & 0x80 != 0) == (a >= 128)) by (bit_vector);
        self.v[FLAG_REGISTER] = if a & 0x80 != 0 {
            1
        } else {
            0
        };
        self.v[x] = a.wrapping_mul(2);
    }

    fn sne_vv(&mut self)
        requires
            fetchable(old(self)@.pc),
        ensures
            final(self)@ == old(self)@.sne_vv(),
    {
        proof {
            use_type_invariant(&*self);
        }
        if self.v[self.instruction.x] != self.v[self.instruction.y] {
            self.pc += 2;
        }
    }

    fn ld_i(&mut self)
        ensures
            final(self)@ == old(self)@.ld_i(),
    {
        proof {
            use_type_invariant(&*self);
        }
        self.i = self.instruction.nnn;
    }

    fn jmp_v(&mut self)
        ensures
            final(self)@ == old(self)@.jmp_v(),
    {
        proof {
            use_type_invariant(&*self);
        }
        self.pc = (self.v[0] as u16) + self.instruction.nnn;
        self.jmp = true;
    }

    fn rnd(&mut self, random: u8)
        ensures
            final(self)@ == old(self)@.rnd(random),
    {
        proof {
            use_type_invariant(&*self);
        }
        let x: usize = self.instruction.x;
        self.v[x] = random & self.instruction.kk;
    }

    fn drw(&mut self) -> (r: Result<(), VmError>)
        ensures
            !old(self)@.sprite_in_memory() ==> r == Err::<(), VmError>(
                VmError::MemoryBoundsViolation,
            ) && final(self)@ == old(self)@,
            old(self)@.sprite_in_memory() ==> r is Ok && final(self)@ == old(self)@.drw(),
    {
        proof {
            use_type_invariant(&*self);
        }
        let x: u8 = self.v[self.instruction.x];
        let y: u8 = self.v[self.instruction.y];
        let height: u8 = self.instruction.n;
        let start: usize = self.i as usize;
        if start + height as usize > RAM_SIZE {
            return Err(VmError::MemoryBoundsViolation);
        }
        let ghost before = self@;
        let collision = draw_sprite(&mut self.gfx, &self.ram, start, height, x, y);
        self.v[FLAG_REGISTER] = if collision {
            1
        } else {
            0
        };
        self.draw = true;
        assert(self@ =~= before.drw());
        Ok(())
    }

    /// The key that the low nibble of `Vx` names.
    fn key_of_vx(&self) -> (key: usize)
        ensures
            key == self@.key_of_vx(),
            key < NUMBER_OF_KEYS,
    {
        proof {
            use_type_invariant(self);
        }
        let value: u8 = self.v[self.instruction.x];
        assert(value & 0x0F == value % 16) by (bit_vector);
        (value & 0x0F) as usize
    }

    fn skp(&mut self)
        requires
            fetchable(old(self)@.pc),
        ensures
            final(self)@ == old(self)@.skp(),
    {
        proof {
            use_type_invariant(&*self);
        }
        if self.key[self.key_of_vx()] {
            self.pc += 2;
        }
    }

    fn sknp(&mut self)
        requires
            fetchable(old(self)@.pc),
        ensures
            final(self)@ == old(self)@.sknp(),
    {
        proof {
            use_type_invariant(&*self);
        }
        if !self.key[self.key_of_vx()] {
            self.pc += 2;
        }
    }

    fn ld_vdt(&mut self)
        ensures
            final(self)@ == old(self)@.ld_vdt(),
    {
        proof {
            use_type_invariant(&*self);
        }
        let x: usize = self.instruction.x;
        self.v[x] = self.timers.delay;
    }

    fn ld_vk(&mut self)
        ensures
            final(self)@ == old(self)@.ld_vk(),
    {
        proof {
            use_type_invariant(&*self);
        }
        let mut key_pressed = false;
        let mut last: usize = 0;
        let mut k: usize = 0;
        while k < NUMBER_OF_KEYS
            invariant
                k <= NUMBER_OF_KEYS,
                self.key.len() == NUMBER_OF_KEYS,
                key_pressed <==> last_pressed(self.key@, k as int) >= 0,
                key_pressed ==> last == last_pressed(self.key@, k as int),
                last < NUMBER_OF_KEYS,
            decreases NUMBER_OF_KEYS - k,
        {
            if self.key[k] {
                last = k;
                key_pressed = true;
            }
            k += 1;
        }
        if key_pressed {
            let x: usize = self.instruction.x;
            self.v[x] = last as u8;
        } else {
            self.jmp = true;
        }
    }

    fn ld_dtv(&mut self)
        ensures
            final(self)@ == old(self)@.ld_dtv(),
    {
        proof {
            use_type_invariant(&*self);
        }
        self.timers.delay = self.v[self.instruction.x];
    }

    fn ld_stv(&mut self)
        ensures
            final(self)@ == old(self)@.ld_stv(),
    {
        proof {
            use_type_invariant(&*self);
        }
        self.timers.sound = self.v[self.instruction.x];
    }

    fn add_iv(&mut self)
        ensures
            final(self)@ == old(self)@.add_iv(),
    {
        proof {
            use_type_invariant(&*self);
        }
        self.i = self.i.wrapping_add(self.v[self.instruction.x] as u16);
    }

    fn ld_fv(&mut self)
        ensures
            final(self)@ == old(self)@.ld_fv(),
    {
        proof {
            use_type_invariant(&*self);
        }
        let value: u8 = self.v[self.instruction.x];
        assert(value & 0x0F == value % 16) by (bit_vector);
        let glyph: u16 = (value & 0x0F) as u16;
        assert(GLYPH_SIZE == 5);
        self.i = glyph * 5;
    }

    fn ld_bv(&mut self) -> (r: Result<(), VmError>)
        ensures
            !old(self)@.digits_in_memory() ==> r == Err::<(), VmError>(
                VmError::MemoryBoundsViolation,
            ) && final(self)@ == old(self)@,
            old(self)@.digits_in_memory() ==> r is Ok && final(self)@ == old(self)@.ld_bv(),
    {
        proof {
            use_type_invariant(&*self);
        }
        let i: usize = self.i as usize;
        if i + 2 >= RAM_SIZE {
            return Err(VmError::MemoryBoundsViolation);
        }
        let value: u8 = self.v[self.instruction.x];
        self.ram[i] = value / 100;
        self.ram[i + 1] = (value / 10) % 10;
        self.ram[i + 2] = (value % 100) % 10;
        Ok(())
    }

    fn ld_iv(&mut self) -> (r: Result<(), VmError>)
        ensures
            !old(self)@.registers_in_memory() ==> r == Err::<(), VmError>(
                VmError::MemoryBoundsViolation,
            ) && final(self)@ == old(self)@,
            old(self)@.registers_in_memory() ==> r is Ok && final(self)@ == old(self)@.ld_iv(),
    {
        proof {
            use_type_invariant(&*self);
        }
        let i: usize = self.i as usize;
        let x: usize = self.instruction.x;
        if i + x >= RAM_SIZE {
            return Err(VmError::MemoryBoundsViolation);
        }
        let ghost before = self@;
        let mut r: usize = 0;
        while r < x + 1
            invariant
                r <= x + 1,
                x < GPR_COUNT,
                i + x < RAM_SIZE,
                before.wf(),
                self.sp <= STACK_LIMIT,
                self.stack.len() == STACK_LIMIT,
                self@ == (State { ram: self.ram@, ..before }),
                self.ram.len() == RAM_SIZE,
                forall|a: int|
                    0 <= a < RAM_SIZE ==> self.ram[a] == if i <= a < i + r {
                        before.v[a - i]
                    } else {
                        before.ram[a]
                    },
            decreases x + 1 - r,
        {
            self.ram[i + r] = self.v[r];
            r += 1;
        }
        assert(self@ =~= before.ld_iv());
        Ok(())
    }

    fn ld_vi(&mut self) -> (r: Result<(), VmError>)
        ensures
            !old(self)@.registers_in_memory() ==> r == Err::<(), VmError>(
                VmError::MemoryBoundsViolation,
            ) && final(self)@ == old(self)@,
            old(self)@.registers_in_memory() ==> r is Ok && final(self)@ == old(self)@.ld_vi(),
    {
        proof {
            use_type_invariant(&*self);
        }
        let i: usize = self.i as usize;
        let x: usize = self.instruction.x;
        if i + x >= RAM_SIZE {
            return Err(VmError::MemoryBoundsViolation);
        }
        let ghost before = self@;
        let mut r: usize = 0;
        while r < x + 1
            invariant
                r <= x + 1,
                x < GPR_COUNT,
                i + x < RAM_SIZE,
                before.wf(),
                self.sp <= STACK_LIMIT,
                self.stack.len() == STACK_LIMIT,
                self@ == (State { v: self.v@, ..before }),
                self.v.len() == GPR_COUNT,
                forall|k: int|
                    0 <= k < GPR_COUNT ==> self.v[k] == if k < r {
                        before.ram[i + k]
                    } else {
                        before.v[k]
                    },
            decreases x + 1 - r,
        {
            self.v[r] = self.ram[i + r];
            r += 1;
        }
        assert(self@ =~= before.ld_vi());
        Ok(())
    }

    /// Executes `instruction`: one instruction's worth of change to the
    /// machine, with `random` as the byte that a random-number instruction
    /// draws.
    ///
    /// The program counter is not advanced past the instruction; that is left
    /// to the tick. A fault leaves the machine as it was.
    pub fn execute(&mut self, instruction: Instruction, random: u8) -> (r: Result<(), VmError>)
        requires
            instruction.wf(),
        ensures
            match old(self)@.execute(instruction, random) {
                Ok(next) => r is Ok && final(self)@ == next,
                Err(e) => r == Err::<(), VmError>(e) && final(self)@ == old(self)@,
            },
            final(self)@.wf(),
    {
        proof {
            use_type_invariant(&*self);
        }
        if self.pc as usize + 1 >= RAM_SIZE {
            return Err(VmError::MemoryBoundsViolation);
        }
        let operation = match Opcode::from_u16(instruction.opcode) {
            Some(operation) => operation,
            None => {
                return Err(VmError::UnknownOpcode);
            },
        };
        let previous = self.instruction;
        let jumped = self.jmp;
        self.instruction = instruction;
        self.jmp = false;
        let r = match operation {
            Opcode::sys | Opcode::noop => Ok(()),
            Opcode::cls => {
                self.cls();
                Ok(())
            },
            Opcode::ret => self.ret(),
            Opcode::jmp => {
                self.jmp();
                Ok(())
            },
            Opcode::call => self.call(),
            Opcode::se_vb => {
                self.se_vb();
                Ok(())
            },
            Opcode::sne_vb => {
                self.sne_vb();
                Ok(())
            },
            Opcode::se_vv => {
                self.se_vv();
                Ok(())
            },
            Opcode::ld_vb => {
                self.ld_vb();
                Ok(())
            },
            Opcode::add_vb => {
                self.add_vb();
                Ok(())
            },
            Opcode::ld_vv => {
                self.ld_vv();
                Ok(())
            },
            Opcode::or => {
                self.or();
                Ok(())
            },
            Opcode::and => {
                self.and();
                Ok(())
            },
            Opcode::xor => {
                self.xor();
                Ok(())
            },
            Opcode::add_vv => {
                self.add_vv();
                Ok(())
            },
            Opcode::sub => {
                self.sub();
                Ok(())
            },
            Opcode::shr => {
                self.shr();
                Ok(())
            },
            Opcode::subn => {
                self.subn();
                Ok(())
            },
            Opcode::shl => {
                self.shl();
                Ok(())
            },
            Opcode::sne_vv => {
                self.sne_vv();
                Ok(())
            },
            Opcode::ld_i => {
                self.ld_i();
                Ok(())
            },
            Opcode::jmp_v => {
                self.jmp_v();
                Ok(())
            },
            Opcode::rnd => {
                self.rnd(random);
                Ok(())
            },
            Opcode::drw => self.drw(),
            Opcode::skp => {
                self.skp();
                Ok(())
            },
            Opcode::sknp => {
                self.sknp();
                Ok(())
            },
            Opcode::ld_vdt => {
                self.ld_vdt();
                Ok(())
            },
            Opcode::ld_vk => {
                self.ld_vk();
                Ok(())
            },
            Opcode::ld_dtv => {
                self.ld_dtv();
                Ok(())
            },
            Opcode::ld_stv => {
                self.ld_stv();
                Ok(())
            },
            Opcode::add_iv => {
                self.add_iv();
                Ok(())
            },
            Opcode::ld_fv => {
                self.ld_fv();
                Ok(())
            },
            Opcode::ld_bv => self.ld_bv(),
            Opcode::ld_iv => self.ld_iv(),
            Opcode::ld_vi => self.ld_vi(),
            Opcode::invalid => Err(VmError::UnknownOpcode),
        };
        proof {
            use_type_invariant(&*self);
        }
        if r.is_err() {
            self.instruction = previous;
            self.jmp = jumped;
            assert(self@ =~= old(self)@);
        }
        r
    }

    /// The instruction at the program counter, if both of its bytes lie in
    /// memory.
    fn fetch(&self) -> (r: Result<Instruction, VmError>)
        ensures
            fetchable(self@.pc) ==> r == Ok::<Instruction, VmError>(self@.fetched()),
            !fetchable(self@.pc) ==> r == Err::<Instruction, VmError>(
                VmError::MemoryBoundsViolation,
            ),
            r is Ok ==> r->Ok_0.wf(),
            self@.wf(),
    {
        proof {
            use_type_invariant(self);
        }
        let pc: usize = self.pc as usize;
        if pc + 1 >= RAM_SIZE {
            return Err(VmError::MemoryBoundsViolation);
        }
        Ok(Instruction::decode(self.ram[pc], self.ram[pc + 1]))
    }

    /// Runs one tick on an instruction that has been fetched already.
    fn run(&mut self, instruction: Instruction, elapsed_nanos: u64, random: u8) -> (r: Result<(), VmError>)
        requires
            fetchable(old(self)@.pc),
            instruction == old(self)@.fetched(),
            instruction.wf(),
        ensures
            match old(self)@.tick(elapsed_nanos as nat, random) {
                Ok(next) => r is Ok && final(self)@ == next,
                Err(e) => r == Err::<(), VmError>(e) && final(self)@ == old(self)@,
            },
    {
        proof {
            use_type_invariant(&*self);
        }
        let drawn = self.draw;
        self.draw = false;
        match self.execute(instruction, random) {
            Ok(()) => {
                proof {
                    use_type_invariant(&*self);
                }
                if !self.jmp {
                    self.pc += 2;
                }
                self.timers.advance(elapsed_nanos);
                Ok(())
            },
            Err(e) => {
                proof {
                    use_type_invariant(&*self);
                }
                self.draw = drawn;
                assert(self@ =~= old(self)@);
                Err(e)
            },
        }
    }

    /// One tick with a given random byte: the redraw flag is cleared, the
    /// instruction at the program counter is fetched and executed with
    /// `random` as the byte that a random-number instruction draws, the
    /// program counter is advanced unless the instruction has set it, and the
    /// timers run for `elapsed_nanos` nanoseconds.
    ///
    /// A fault is returned to the host, and leaves the machine as it was.
    pub fn tick_with(&mut self, elapsed_nanos: u64, random: u8) -> (r: Result<(), VmError>)
        ensures
            match old(self)@.tick(elapsed_nanos as nat, random) {
                Ok(next) => r is Ok && final(self)@ == next,
                Err(e) => r == Err::<(), VmError>(e) && final(self)@ == old(self)@,
            },
            final(self)@.wf(),
    {
        let r = match self.fetch() {
            Ok(instruction) => self.run(instruction, elapsed_nanos, random),
            Err(e) => Err(e),
        };
        proof {
            use_type_invariant(&*self);
        }
        r
    }

    /// One tick, as `tick_with`, in which a random-number instruction draws
    /// its byte from the thread's random number generator. No other
    /// instruction draws from it.
    pub fn tick(&mut self, elapsed_nanos: u64) -> (r: Result<(), VmError>)
        ensures
            exists|random: u8|
                match #[trigger] old(self)@.tick(elapsed_nanos as nat, random) {
                    Ok(next) => r is Ok && final(self)@ == next,
                    Err(e) => r == Err::<(), VmError>(e) && final(self)@ == old(self)@,
                },
            !(fetchable(old(self)@.pc) && old(self)@.fetched().operation() == Opcode::rnd)
                ==> match old(self)@.tick(elapsed_nanos as nat, 0) {
                Ok(next) => r is Ok && final(self)@ == next,
                Err(e) => r == Err::<(), VmError>(e) && final(self)@ == old(self)@,
            },
            final(self)@.wf(),
    {
        let r = match self.fetch() {
            Ok(instruction) => {
                let random: u8 = match Opcode::from_u16(instruction.opcode) {
                    Some(Opcode::rnd) => random_byte(),
                    _ => 0,
                };
                let r = self.run(instruction, elapsed_nanos, random);
                assert(match old(self)@.tick(elapsed_nanos as nat, random) {
                    Ok(next) => r is Ok && self@ == next,
                    Err(e) => r == Err::<(), VmError>(e) && self@ == old(self)@,
                });
                r
            },
            Err(e) => {
                assert(old(self)@.tick(elapsed_nanos as nat, 0u8) == Err::<State, VmError>(e));
                Err(e)
            },
        };
        proof {
            use_type_invariant(&*self);
        }
        r
    }
}

} // verus!
