use vstd::prelude::*;
use crate::display::{covers, fits, lemma_drawn_twice, lemma_drawn_valid};
use crate::error::VmError;
use crate::instruction::{Instruction, Opcode};
use crate::model::{
    fetchable, flag, last_pressed, State, FLAG_REGISTER, GPR_COUNT, NUMBER_OF_KEYS, RAM_SIZE,
    STACK_LIMIT,
};
use crate::timer::lemma_after_additive;

verus! {

/// A machine and an instruction on which `State::execute` is defined: the
/// machine is well formed and its program counter addresses an instruction.
pub open spec fn ready(s: State, instruction: Instruction) -> bool {
    &&& s.wf()
    &&& instruction.wf()
    &&& fetchable(s.pc)
}

/// Register-to-register addition stores the sum modulo 256 and leaves the
/// carry in `VF`: 1 if the sum is over 255, else 0. No other register
/// changes. Where the destination is `VF` itself, the sum is what it holds.
pub proof fn lemma_add_carry(s: State, instruction: Instruction, random: u8)
    requires
        ready(s, instruction),
        instruction.operation() == Opcode::add_vv,
    ensures
        s.execute(instruction, random) is Ok,
        ({
            let t = s.execute(instruction, random)->Ok_0;
            let a = s.v[instruction.x as int];
            let b = s.v[instruction.y as int];
            &&& t.v[instruction.x as int] == (a + b) % 256
            &&& instruction.x != FLAG_REGISTER ==> (t.v[FLAG_REGISTER as int] == 1 <==> a + b > 255)
            &&& instruction.x != FLAG_REGISTER ==> t.v[FLAG_REGISTER as int] <= 1
            &&& forall|r: int|
                0 <= r < GPR_COUNT && r != instruction.x && r != FLAG_REGISTER ==> t.v[r] == s.v[r]
        }),
{
}

/// Subtraction stores `(Vx - Vy) mod 256` and leaves 1 in `VF` exactly if
/// `Vx > Vy`, that is, if nothing was borrowed.
pub proof fn lemma_sub_borrow(s: State, instruction: Instruction, random: u8)
    requires
        ready(s, instruction),
        instruction.operation() == Opcode::sub,
    ensures
        s.execute(instruction, random) is Ok,
        ({
            let t = s.execute(instruction, random)->Ok_0;
            let a = s.v[instruction.x as int];
            let b = s.v[instruction.y as int];
            &&& t.v[instruction.x as int] == (a - b) % 256
            &&& instruction.x != FLAG_REGISTER ==> (t.v[FLAG_REGISTER as int] == 1 <==> a > b)
            &&& instruction.x != FLAG_REGISTER ==> t.v[FLAG_REGISTER as int] <= 1
            &&& forall|r: int|
                0 <= r < GPR_COUNT && r != instruction.x && r != FLAG_REGISTER ==> t.v[r] == s.v[r]
        }),
{
}

/// Reversed subtraction stores `(Vy - Vx) mod 256` and leaves 1 in `VF`
/// exactly if `Vy > Vx`.
pub proof fn lemma_subn_borrow(s: State, instruction: Instruction, random: u8)
    requires
        ready(s, instruction),
        instruction.operation() == Opcode::subn,
    ensures
        s.execute(instruction, random) is Ok,
        ({
            let t = s.execute(instruction, random)->Ok_0;
            let a = s.v[instruction.x as int];
            let b = s.v[instruction.y as int];
            &&& t.v[instruction.x as int] == (b - a) % 256
            &&& instruction.x != FLAG_REGISTER ==> (t.v[FLAG_REGISTER as int] == 1 <==> b > a)
            &&& instruction.x != FLAG_REGISTER ==> t.v[FLAG_REGISTER as int] <= 1
            &&& forall|r: int|
                0 <= r < GPR_COUNT && r != instruction.x && r != FLAG_REGISTER ==> t.v[r] == s.v[r]
        }),
{
}

/// The right shift stores `Vx >> 1` and leaves the lowest bit of the old
/// value, `Vx & 1`, in `VF`.
pub proof fn lemma_shr_bits(s: State, instruction: Instruction, random: u8)
    requires
        ready(s, instruction),
        instruction.operation() == Opcode::shr,
    ensures
        s.execute(instruction, random) is Ok,
        ({
            let t = s.execute(instruction, random)->Ok_0;
            let a = s.v[instruction.x as int];
            &&& t.v[instruction.x as int] == a >> 1
            &&& instruction.x != FLAG_REGISTER ==> t.v[FLAG_REGISTER as int] == a & 1
        }),
{
    let a = s.v[instruction.x as int];
    assert(a >> 1 == a / 2 && a & 1 == a % 2) by (bit_vector);
}

/// The left shift stores `(Vx * 2) mod 256` and leaves the highest bit of the
/// old value in `VF`: 1 if `Vx & 0x80` is not zero, else 0.
pub proof fn lemma_shl_bits(s: State, instruction: Instruction, random: u8)
    requires
        ready(s, instruction),
        instruction.operation() == Opcode::shl,
    ensures
        s.execute(instruction, random) is Ok,
        ({
            let t = s.execute(instruction, random)->Ok_0;
            let a = s.v[instruction.x as int];
            &&& t.v[instruction.x as int] == (a * 2) % 256
            &&& instruction.x != FLAG_REGISTER ==> t.v[FLAG_REGISTER as int] == flag(a & 0x80 != 0)
        }),
{
    let a = s.v[instruction.x as int];
    assert((a & 0x80 != 0) == (a >= 128)) by (bit_vector);
}

/// The three bytes that the decimal store writes are decimal digits, and
/// they spell the value of `Vx`: hundreds, tens, ones.
pub proof fn lemma_bcd_digits(s: State, instruction: Instruction, random: u8)
    requires
        ready(s, instruction),
        instruction.operation() == Opcode::ld_bv,
        s.i + 2 < RAM_SIZE,
    ensures
        s.execute(instruction, random) is Ok,
        ({
            let t = s.execute(instruction, random)->Ok_0;
            let i = s.i as int;
            &&& t.ram[i] < 10 && t.ram[i + 1] < 10 && t.ram[i + 2] < 10
            &&& 100 * t.ram[i] + 10 * t.ram[i + 1] + t.ram[i + 2] == s.v[instruction.x as int]
            &&& forall|a: int| 0 <= a < RAM_SIZE && !(i <= a <= i + 2) ==> t.ram[a] == s.ram[a]
        }),
{
}

/// Storing `V0` to `Vx` at `I` and loading them back from the same address
/// restores them, whatever the registers held in between: the load needs
/// only the memory that the store left, the same `I` and the same `x`.
pub proof fn lemma_store_then_load(
    s: State,
    store: Instruction,
    between: State,
    load: Instruction,
    random: u8,
)
    requires
        ready(s, store),
        store.operation() == Opcode::ld_iv,
        s.i + store.x < RAM_SIZE,
        ready(between, load),
        load.operation() == Opcode::ld_vi,
        load.x == store.x,
        between.i == s.i,
        between.ram == s.execute(store, random)->Ok_0.ram,
    ensures
        s.execute(store, random) is Ok,
        between.execute(load, random) is Ok,
        forall|r: int|
            0 <= r <= store.x ==> between.execute(load, random)->Ok_0.v[r] == s.v[r],
        forall|r: int|
            store.x < r < GPR_COUNT ==> between.execute(load, random)->Ok_0.v[r] == between.v[r],
{
}

/// Storing and then at once loading leaves every register as it was.
pub proof fn lemma_store_load_round_trip(
    s: State,
    store: Instruction,
    load: Instruction,
    random: u8,
)
    requires
        ready(s, store),
        store.operation() == Opcode::ld_iv,
        s.i + store.x < RAM_SIZE,
        load.wf(),
        load.operation() == Opcode::ld_vi,
        load.x == store.x,
    ensures
        s.execute(store, random) is Ok,
        s.execute(store, random)->Ok_0.execute(load, random) is Ok,
        s.execute(store, random)->Ok_0.execute(load, random)->Ok_0.v == s.v,
{
    let t = s.execute(store, random)->Ok_0;
    lemma_store_then_load(s, store, t, load, random);
    assert(t.execute(load, random)->Ok_0.v =~= s.v);
}

/// A skip-if-equal-to-immediate moves the program counter by four in all if
/// `Vx == kk`, and by two if not.
pub proof fn lemma_skip_equal(s: State, elapsed: nat, random: u8)
    requires
        s.wf(),
        fetchable(s.pc),
        s.fetched().operation() == Opcode::se_vb,
    ensures
        s.tick(elapsed, random) is Ok,
        s.tick(elapsed, random)->Ok_0.pc == s.pc + (if s.v[s.fetched().x as int]
            == s.fetched().kk {
            4int
        } else {
            2int
        }),
{
    Instruction::lemma_decoded_wf(s.ram[s.pc as int], s.ram[s.pc as int + 1]);
}

/// A call followed at once by a return brings the program counter to the
/// instruction after the call, and the call stack back to what it was. The
/// call needs room on the stack, and its target must be a return instruction
/// that lies in memory.
pub proof fn lemma_call_then_return(s: State, elapsed: nat, random: u8)
    requires
        s.wf(),
        fetchable(s.pc),
        s.fetched().operation() == Opcode::call,
        s.stack.len() < STACK_LIMIT,
        fetchable(s.fetched().nnn),
        Instruction::decoded(
            s.ram[s.fetched().nnn as int],
            s.ram[s.fetched().nnn as int + 1],
        ).operation() == Opcode::ret,
    ensures
        s.tick(elapsed, random) is Ok,
        s.tick(elapsed, random)->Ok_0.pc == s.fetched().nnn,
        s.tick(elapsed, random)->Ok_0.tick(elapsed, random) is Ok,
        s.tick(elapsed, random)->Ok_0.tick(elapsed, random)->Ok_0.pc == s.pc + 2,
        s.tick(elapsed, random)->Ok_0.tick(elapsed, random)->Ok_0.stack == s.stack,
{
    Instruction::lemma_decoded_wf(s.ram[s.pc as int], s.ram[s.pc as int + 1]);
    let t = s.tick(elapsed, random)->Ok_0;
    assert(t.stack == s.stack.push(s.pc));
    assert(t.stack.drop_last() =~= s.stack);
    assert(t.stack.last() == s.pc);
}

/// Drawing a sprite twice at the same place restores the display. The second
/// drawing leaves 1 in `VF` exactly if the sprite has a pixel on a cell that
/// was off before the first. This holds where no pixel is clamped and the
/// flag register is not one of the coordinates.
pub proof fn lemma_draw_twice_restores(s: State, instruction: Instruction, random: u8)
    requires
        ready(s, instruction),
        instruction.operation() == Opcode::drw,
        s.i + instruction.n <= RAM_SIZE,
        instruction.x != FLAG_REGISTER,
        instruction.y != FLAG_REGISTER,
        fits(
            s.ram.subrange(s.i as int, s.i + instruction.n),
            s.v[instruction.x as int] as int,
            s.v[instruction.y as int] as int,
        ),
    ensures
        s.execute(instruction, random) is Ok,
        s.execute(instruction, random)->Ok_0.execute(instruction, random) is Ok,
        s.execute(instruction, random)->Ok_0.execute(instruction, random)->Ok_0.gfx == s.gfx,
        s.execute(instruction, random)->Ok_0.execute(instruction, random)->Ok_0.v[FLAG_REGISTER as int]
            == 1 <==> exists|k: int|
            0 <= k < 2048 && #[trigger] covers(
                s.ram.subrange(s.i as int, s.i + instruction.n),
                s.v[instruction.x as int] as int,
                s.v[instruction.y as int] as int,
                (8 * instruction.n) as nat,
                k,
            ) && s.gfx[k] == 0,
{
    let sprite = s.ram.subrange(s.i as int, s.i + instruction.n);
    let x = s.v[instruction.x as int] as int;
    let y = s.v[instruction.y as int] as int;
    lemma_drawn_twice(s.gfx, sprite, x, y);
    assert(8 * sprite.len() == (8 * instruction.n) as nat);
}

/// `last_pressed` finds the highest key below `limit` that is held down: the
/// key it gives is held down and none above it is, and it gives -1 exactly if
/// no key below `limit` is held down.
pub proof fn lemma_last_pressed(key: Seq<bool>, limit: int)
    requires
        0 <= limit <= key.len(),
    ensures
        -1 <= last_pressed(key, limit) < limit,
        last_pressed(key, limit) >= 0 ==> key[last_pressed(key, limit)],
        forall|j: int| last_pressed(key, limit) < j < limit ==> !key[j],
    decreases limit,
{
    if limit > 0 && !key[limit - 1] {
        lemma_last_pressed(key, limit - 1);
    }
}

/// The wait for a key lets the machine go on, with the highest key that is
/// held down in `Vx`, as soon as a key is held down. While none is, a tick
/// changes nothing but the timers and the redraw flag.
pub proof fn lemma_wait_for_key(s: State, elapsed: nat, random: u8)
    requires
        s.wf(),
        fetchable(s.pc),
        s.fetched().operation() == Opcode::ld_vk,
    ensures
        s.tick(elapsed, random) is Ok,
        (forall|k: int| 0 <= k < NUMBER_OF_KEYS ==> !s.key[k]) ==> s.tick(elapsed, random)->Ok_0
            == (State { jmp: true, draw: false, instruction: s.fetched(), ..s }).aged(elapsed),
        (exists|k: int| 0 <= k < NUMBER_OF_KEYS && s.key[k]) ==> {
            let t = s.tick(elapsed, random)->Ok_0;
            let k = t.v[s.fetched().x as int] as int;
            &&& t.pc == s.pc + 2
            &&& 0 <= k < NUMBER_OF_KEYS
            &&& s.key[k]
            &&& forall|j: int| k < j < NUMBER_OF_KEYS ==> !s.key[j]
        },
{
    Instruction::lemma_decoded_wf(s.ram[s.pc as int], s.ram[s.pc as int + 1]);
    lemma_last_pressed(s.key, NUMBER_OF_KEYS as int);
}

/// Only the random-number instruction looks at the random byte.
pub proof fn lemma_random_matters_to_rnd_only(s: State, elapsed: nat, first: u8, second: u8)
    requires
        s.fetched().operation() != Opcode::rnd,
    ensures
        s.tick(elapsed, first) == s.tick(elapsed, second),
{
}

/// The machine-code call of the first CHIP-8 computers does nothing, whatever its
/// address: the tick only moves on to the next instruction.
pub proof fn lemma_sys_does_nothing(s: State, elapsed: nat, random: u8)
    requires
        s.wf(),
        fetchable(s.pc),
        s.ram[s.pc as int] < 16,
        s.ram[s.pc as int + 1] != 0xE0,
        s.ram[s.pc as int + 1] != 0xEE,
    ensures
        s.fetched().operation() == Opcode::sys,
        s.tick(elapsed, random) == Ok::<State, VmError>(
            (State {
                pc: (s.pc + 2) as u16,
                jmp: false,
                draw: false,
                instruction: s.fetched(),
                ..s
            }).aged(elapsed),
        ),
{
}

/// Executing an instruction keeps the machine well formed: memory, registers
/// and display keep their sizes, every display cell stays 0 or 1, the call
/// stack stays within its limit and holds addresses of instructions.
pub proof fn lemma_execute_keeps_wf(s: State, instruction: Instruction, random: u8)
    requires
        ready(s, instruction),
        s.execute(instruction, random) is Ok,
    ensures
        s.execute(instruction, random)->Ok_0.wf(),
{
    let t = (State { instruction, jmp: false, ..s });
    if instruction.operation() == Opcode::drw {
        lemma_drawn_valid(
            t.gfx,
            t.ram.subrange(t.i as int, t.i as int + instruction.n as int),
            t.vx() as int,
            t.vy() as int,
            (8 * instruction.n) as nat,
        );
    }
}

/// A tick keeps the machine well formed, and leaves less than one timer
/// period of elapsed time unconsumed.
pub proof fn lemma_tick_keeps_wf(s: State, elapsed: nat, random: u8)
    requires
        s.wf(),
        s.tick(elapsed, random) is Ok,
    ensures
        s.tick(elapsed, random)->Ok_0.wf(),
{
    Instruction::lemma_decoded_wf(s.ram[s.pc as int], s.ram[s.pc as int + 1]);
    lemma_execute_keeps_wf((State { draw: false, ..s }), s.fetched(), random);
}

/// The timers decay with the time that has passed, not with the number of
/// ticks it was handed over in: ageing the machine by `first` and then by
/// `second` nanoseconds is ageing it by `first + second`.
pub proof fn lemma_aged_additive(s: State, first: nat, second: nat)
    ensures
        s.aged(first).aged(second) == s.aged(first + second),
{
    lemma_after_additive(s.timers, first, second);
}

} // verus!
