#![allow(non_camel_case_types)]

use vstd::prelude::*;

verus! {

/// The operations of the instruction set, named by their assembler mnemonics.
///
/// `noop` and `invalid` are not instructions of the machine: `noop` is a
/// reserved code that does nothing, and `invalid` is the class of every bit
/// pattern that names no operation.
#[derive(Clone, Copy, Debug, PartialEq, Eq, Structural)]
pub enum Opcode {
    sys,
    cls,
    ret,
    jmp,
    call,
    se_vb,
    sne_vb,
    se_vv,
    ld_vb,
    add_vb,
    ld_vv,
    or,
    and,
    xor,
    add_vv,
    sub,
    shr,
    subn,
    shl,
    sne_vv,
    ld_i,
    jmp_v,
    rnd,
    drw,
    skp,
    sknp,
    ld_vdt,
    ld_vk,
    ld_dtv,
    ld_stv,
    add_iv,
    ld_fv,
    ld_bv,
    ld_iv,
    ld_vi,
    noop,
    invalid,
}

impl Opcode {
    /// The number by which a decoded instruction names this operation: the
    /// instruction word with its operand fields cleared. `invalid` has a
    /// number that no 16-bit word can hold.
    pub open spec fn code(self) -> int {
        match self {
            Opcode::sys => 0x0000,
            Opcode::cls => 0x00E0,
            Opcode::ret => 0x00EE,
            Opcode::jmp => 0x1000,
            Opcode::call => 0x2000,
            Opcode::se_vb => 0x3000,
            Opcode::sne_vb => 0x4000,
            Opcode::se_vv => 0x5000,
            Opcode::ld_vb => 0x6000,
            Opcode::add_vb => 0x7000,
            Opcode::ld_vv => 0x8000,
            Opcode::or => 0x8001,
            Opcode::and => 0x8002,
            Opcode::xor => 0x8003,
            Opcode::add_vv => 0x8004,
            Opcode::sub => 0x8005,
            Opcode::shr => 0x8006,
            Opcode::subn => 0x8007,
            Opcode::shl => 0x800E,
            Opcode::sne_vv => 0x9000,
            Opcode::ld_i => 0xA000,
            Opcode::jmp_v => 0xB000,
            Opcode::rnd => 0xC000,
            Opcode::drw => 0xD000,
            Opcode::skp => 0xE09E,
            Opcode::sknp => 0xE0A1,
            Opcode::ld_vdt => 0xF007,
            Opcode::ld_vk => 0xF00A,
            Opcode::ld_dtv => 0xF015,
            Opcode::ld_stv => 0xF018,
            Opcode::add_iv => 0xF01E,
            Opcode::ld_fv => 0xF029,
            Opcode::ld_bv => 0xF033,
            Opcode::ld_iv => 0xF055,
            Opcode::ld_vi => 0xF065,
            Opcode::noop => 0xFFFF,
            Opcode::invalid => 0x1_0000,
        }
    }

    /// The operation that the number `n` names, if it names one.
    pub open spec fn lookup(n: u16) -> Option<Opcode> {
        match n {
            0x0000 => Some(Opcode::sys),
            0x00E0 => Some(Opcode::cls),
            0x00EE => Some(Opcode::ret),
            0x1000 => Some(Opcode::jmp),
            0x2000 => Some(Opcode::call),
            0x3000 => Some(Opcode::se_vb),
            0x4000 => Some(Opcode::sne_vb),
            0x5000 => Some(Opcode::se_vv),
            0x6000 => Some(Opcode::ld_vb),
            0x7000 => Some(Opcode::add_vb),
            0x8000 => Some(Opcode::ld_vv),
            0x8001 => Some(Opcode::or),
            0x8002 => Some(Opcode::and),
            0x8003 => Some(Opcode::xor),
            0x8004 => Some(Opcode::add_vv),
            0x8005 => Some(Opcode::sub),
            0x8006 => Some(Opcode::shr),
            0x8007 => Some(Opcode::subn),
            0x800E => Some(Opcode::shl),
            0x9000 => Some(Opcode::sne_vv),
            0xA000 => Some(Opcode::ld_i),
            0xB000 => Some(Opcode::jmp_v),
            0xC000 => Some(Opcode::rnd),
            0xD000 => Some(Opcode::drw),
            0xE09E => Some(Opcode::skp),
            0xE0A1 => Some(Opcode::sknp),
            0xF007 => Some(Opcode::ld_vdt),
            0xF00A => Some(Opcode::ld_vk),
            0xF015 => Some(Opcode::ld_dtv),
            0xF018 => Some(Opcode::ld_stv),
            0xF01E => Some(Opcode::add_iv),
            0xF029 => Some(Opcode::ld_fv),
            0xF033 => Some(Opcode::ld_bv),
            0xF055 => Some(Opcode::ld_iv),
            0xF065 => Some(Opcode::ld_vi),
            0xFFFF => Some(Opcode::noop),
            _ => None,
        }
    }

    /// The operation that `n` names, or `invalid` if it names none.
    pub open spec fn named_by(n: u16) -> Opcode {
        match Opcode::lookup(n) {
            Some(op) => op,
            None => Opcode::invalid,
        }
    }

    /// `lookup` is the inverse of `code`: a number names the one operation
    /// that has this number for its code.
    pub proof fn lemma_lookup_code(n: u16, op: Opcode)
        ensures
            Opcode::lookup(n) == Some(op) <==> op.code() == n,
    {
    }

    /// No two operations share a number.
    pub proof fn lemma_code_injective(a: Opcode, b: Opcode)
        requires
            a.code() == b.code(),
        ensures
            a == b,
    {
    }

    /// Looks an operation up by its number. `None` is returned exactly for the
    /// numbers that name no operation.
    pub fn from_u16(n: u16) -> (r: Option<Opcode>)
        ensures
            r == Opcode::lookup(n),
    {
        match n {
            0x0000 => Some(Opcode::sys),
            0x00E0 => Some(Opcode::cls),
            0x00EE => Some(Opcode::ret),
            0x1000 => Some(Opcode::jmp),
            0x2000 => Some(Opcode::call),
            0x3000 => Some(Opcode::se_vb),
            0x4000 => Some(Opcode::sne_vb),
            0x5000 => Some(Opcode::se_vv),
            0x6000 => Some(Opcode::ld_vb),
            0x7000 => Some(Opcode::add_vb),
            0x8000 => Some(Opcode::ld_vv),
            0x8001 => Some(Opcode::or),
            0x8002 => Some(Opcode::and),
            0x8003 => Some(Opcode::xor),
            0x8004 => Some(Opcode::add_vv),
            0x8005 => Some(Opcode::sub),
            0x8006 => Some(Opcode::shr),
            0x8007 => Some(Opcode::subn),
            0x800E => Some(Opcode::shl),
            0x9000 => Some(Opcode::sne_vv),
            0xA000 => Some(Opcode::ld_i),
            0xB000 => Some(Opcode::jmp_v),
            0xC000 => Some(Opcode::rnd),
            0xD000 => Some(Opcode::drw),
            0xE09E => Some(Opcode::skp),
            0xE0A1 => Some(Opcode::sknp),
            0xF007 => Some(Opcode::ld_vdt),
            0xF00A => Some(Opcode::ld_vk),
            0xF015 => Some(Opcode::ld_dtv),
            0xF018 => Some(Opcode::ld_stv),
            0xF01E => Some(Opcode::add_iv),
            0xF029 => Some(Opcode::ld_fv),
            0xF033 => Some(Opcode::ld_bv),
            0xF055 => Some(Opcode::ld_iv),
            0xF065 => Some(Opcode::ld_vi),
            0xFFFF => Some(Opcode::noop),
            _ => None,
        }
    }
}

/// A decoded instruction: the number of its operation and the operand fields
/// of the instruction word.
///
/// Every field is cut out of the word whatever the operation; an operation
/// reads the fields that its format defines and ignores the others.
#[derive(Clone, Copy, Debug, PartialEq, Eq, Structural)]
pub struct Instruction {
    /// The number of the operation (see `Opcode::code`).
    pub opcode: u16,
    /// The second nibble of the word: a register index.
    pub x: usize,
    /// The third nibble of the word: a register index.
    pub y: usize,
    /// The low byte of the word: an immediate value.
    pub kk: u8,
    /// The low twelve bits of the word: an address.
    pub nnn: u16,
    /// The low nibble of the word: a sprite height.
    pub n: u8,
}

/// The number of the operation that the word `first * 256 + second` names.
///
/// The high nibble of `first` selects a family. Family 0 is the screen clear,
/// the return, or else the machine-code call, whatever its address. Families
/// 5, 8 and 9 carry a selector in the low nibble of `second`, families E and F
/// in the whole of `second`; the other families need no selector.
pub open spec fn operation_number(first: u8, second: u8) -> int {
    let family = first as int / 16;
    if family == 0x0 {
        if second == 0xE0 || second == 0xEE {
            second as int
        } else {
            0
        }
    } else if family == 0x5 || family == 0x8 || family == 0x9 {
        family * 0x1000 + second as int % 16
    } else if family == 0xE || family == 0xF {
        family * 0x1000 + second as int
    } else {
        family * 0x1000
    }
}

impl Instruction {
    /// The instruction that the two bytes at the program counter encode.
    pub open spec fn decoded(first: u8, second: u8) -> Instruction {
        Instruction {
            opcode: operation_number(first, second) as u16,
            x: (first as int % 16) as usize,
            y: (second as int / 16) as usize,
            kk: second,
            nnn: ((first as int % 16) * 256 + second as int) as u16,
            n: (second as int % 16) as u8,
        }
    }

    /// The fields are in the ranges that an instruction word can give them.
    pub open spec fn wf(&self) -> bool {
        &&& self.x < 16
        &&& self.y < 16
        &&& self.nnn < 0x1000
        &&& self.n < 16
    }

    /// Whether the fields are in the ranges that an instruction word can give
    /// them.
    pub fn is_wf(&self) -> (b: bool)
        ensures
            b == self.wf(),
    {
        self.x < 16 && self.y < 16 && self.nnn < 0x1000 && self.n < 16
    }

    /// The operation of this instruction; `invalid` if its number names none.
    pub open spec fn operation(&self) -> Opcode {
        Opcode::named_by(self.opcode)
    }

    /// Decoding never fails and always gives fields in range.
    pub proof fn lemma_decoded_wf(first: u8, second: u8)
        ensures
            Instruction::decoded(first, second).wf(),
            0 <= operation_number(first, second) < 0x1_0000,
    {
    }

    /// The operand fields are bit fields of the instruction word: `x` is bits
    /// 8 to 11, `y` bits 4 to 7, `kk` the low byte, `nnn` the low twelve bits
    /// and `n` the low nibble.
    pub proof fn lemma_decoded_bits(first: u8, second: u8)
        ensures
            ({
                let word: u16 = ((first as u16) << 8) | (second as u16);
                let i = Instruction::decoded(first, second);
                &&& word == first * 256 + second
                &&& i.x == (word >> 8) & 0xF
                &&& i.y == (word >> 4) & 0xF
                &&& i.kk == word & 0xFF
                &&& i.nnn == word & 0xFFF
                &&& i.n == word & 0xF
            }),
    {
        let word: u16 = ((first as u16) << 8) | (second as u16);
        assert(word == first * 256 + second) by (bit_vector)
            requires
                word == ((first as u16) << 8) | (second as u16),
        ;
        assert((word >> 8) & 0xF == first % 16 && (word >> 4) & 0xF == second / 16 && word & 0xFF
            == second && word & 0xFFF == (first % 16) * 256 + second && word & 0xF == second % 16)
            by (bit_vector)
            requires
                word == ((first as u16) << 8) | (second as u16),
        ;
    }

    /// Decodes the instruction word `first * 256 + second` into `self`.
    pub fn parse(&mut self, first: u8, second: u8)
        ensures
            *final(self) == Instruction::decoded(first, second),
            final(self).wf(),
    {
        let op: u16 = (first >> 4) as u16;
        let low: u16 = second as u16;
        let x: u8 = first & 0x0F;
        let y: u8 = (second & 0xF0) >> 4;
        let n: u8 = second & 0x0F;
        let nnn: u16 = ((x as u16) << 8) | low;
        proof {
            assert((first >> 4) == first / 16) by (bit_vector);
            assert((first & 0x0F) == first % 16) by (bit_vector);
            assert(((second & 0xF0) >> 4) == second / 16) by (bit_vector);
            assert((second & 0x0F) == second % 16) by (bit_vector);
            assert((((x as u16) << 8) | (second as u16)) == (x as u16) * 256 + (second as u16))
                by (bit_vector)
                requires
                    x < 16,
            ;
            assert(op < 16);
            assert(((op << 12) | low) == op * 0x1000 + low) by (bit_vector)
                requires
                    op < 16,
                    low < 256,
            ;
            assert(((op << 12) | (n as u16)) == op * 0x1000 + (n as u16)) by (bit_vector)
                requires
                    op < 16,
                    n < 16,
            ;
            assert((op << 12) == op * 0x1000) by (bit_vector)
                requires
                    op < 16,
            ;
        }
        self.opcode = match op {
            0x0 => {
                if second == 0xE0 || second == 0xEE {
                    low
                } else {
                    0
                }
            },
            0x5 | 0x8 | 0x9 => (op << 12) | (n as u16),
            0xE | 0xF => (op << 12) | low,
            _ => op << 12,
        };
        self.x = x as usize;
        self.y = y as usize;
        self.kk = second;
        self.nnn = nnn;
        self.n = n;
    }

    /// The instruction that the word `first * 256 + second` encodes. Decoding
    /// never fails: a word that names no operation gives an instruction whose
    /// number `Opcode::from_u16` does not know.
    pub fn decode(first: u8, second: u8) -> (i: Instruction)
        ensures
            i == Instruction::decoded(first, second),
            i.wf(),
    {
        let mut i = Instruction::new();
        i.parse(first, second);
        i
    }

    /// An instruction with every field zero. Its operation is `sys`, which
    /// does nothing.
    pub fn new() -> (i: Instruction)
        ensures
            i == (Instruction { opcode: 0, x: 0, y: 0, kk: 0, nnn: 0, n: 0 }),
            i.wf(),
    {
        Instruction { opcode: 0, x: 0, y: 0, kk: 0, nnn: 0, n: 0 }
    }
}

impl Default for Instruction {
    fn default() -> (i: Instruction)
        ensures
            i == (Instruction { opcode: 0, x: 0, y: 0, kk: 0, nnn: 0, n: 0 }),
    {
        Instruction::new()
    }
}

} // verus!
