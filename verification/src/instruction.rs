//! Instructions: two raw bytes and the fields that are read out of them.
//!
//! An instruction is a 16-bit word, high byte first. Written as four
//! nibbles `a b c d`, its fields are `x = b`, `y = c`, `n = d`, `kk = cd`
//! and `nnn = bcd`. Every word decodes; there is no failure here.

use vstd::prelude::*;

use crate::machine::{wrap, ChipRegisters, RegistersView};

verus! {

/// One instruction, kept as the two bytes it was fetched as.
#[derive(Debug)]
pub struct Instruction {
    pub data: [u8; 2],
}

/// The four nibbles of a 16-bit word, most significant first.
pub open spec fn nibbles_of(word: int) -> Seq<u8> {
    seq![
        (word / 4096) as u8,
        ((word / 256) % 16) as u8,
        ((word / 16) % 16) as u8,
        (word % 16) as u8,
    ]
}

/// The word of the instruction that lies at `pc`: the byte there and the
/// byte after it, high byte first.
pub open spec fn word_at(ram: Seq<u8>, pc: u16) -> int {
    ram[wrap(pc as int)] as int * 256 + ram[wrap(pc + 1)] as int
}

/// The address of the instruction after the one at `pc`.
pub open spec fn next_pc(pc: u16) -> u16 {
    ((pc + 2) % 65536) as u16
}

impl Instruction {
    /// The instruction as one number in `0..65536`, high byte first.
    pub open spec fn word(&self) -> int {
        self.data[0] as int * 256 + self.data[1] as int
    }

    /// The four nibbles of the instruction, most significant first.
    pub open spec fn nibbles(&self) -> Seq<u8> {
        nibbles_of(self.word())
    }

    /// The instruction with the bytes `next_instruction`, high byte first.
    pub fn new(next_instruction: [u8; 2]) -> (ins: Instruction)
        ensures
            ins.data == next_instruction,
    {
        Self { data: next_instruction }
    }

    /// Fetches the instruction at the program counter and moves the
    /// program counter past it.
    pub fn get_next_instruction(ram: [u8; 4096], registers: &mut ChipRegisters) -> (ins:
        Instruction)
        ensures
            ins.data[0] == ram@[wrap(old(registers)@.pc as int)],
            ins.data[1] == ram@[wrap(old(registers)@.pc + 1)],
            ins.word() == word_at(ram@, old(registers)@.pc),
            final(registers)@ == (RegistersView {
                pc: next_pc(old(registers)@.pc),
                ..old(registers)@
            }),
    {
        let pc: u16 = registers.program_counter();
        let next_instruction: [u8; 2] = [
            ram[pc as usize % 4096],
            ram[(pc as usize + 1) % 4096],
        ];
        registers.set_program_counter(pc.wrapping_add(2));
        Instruction::new(next_instruction)
    }

    /// The address field: the low twelve bits.
    pub fn get_nnn(&self) -> (nnn: u16)
        ensures
            nnn as int == self.word() % 4096,
            nnn < 4096,
    {
        let hi: u8 = self.data[0];
        let lo: u8 = self.data[1];
        let mut k: u16 = lo as u16;
        let mut j: u16 = (hi & 0b1111) as u16;
        j <<= 8;
        k |= j;
        assert(((lo as u16) | (((hi & 0b1111) as u16) << 8)) == (hi % 16) as u16 * 256 + lo as u16)
            by (bit_vector);
        k
    }

    /// The low nibble.
    pub fn get_n(&self) -> (n: u8)
        ensures
            n as int == self.word() % 16,
            n < 16,
    {
        let lo: u8 = self.data[1];
        assert(lo & 0b1111 == lo % 16) by (bit_vector);
        lo & 0b1111
    }

    /// The second nibble, which names a register.
    pub fn get_x(&self) -> (x: u8)
        ensures
            x as int == (self.word() / 256) % 16,
            x < 16,
    {
        let hi: u8 = self.data[0];
        assert(hi & 0b1111 == hi % 16) by (bit_vector);
        hi & 0b1111
    }

    /// The third nibble, which names a register.
    pub fn get_y(&self) -> (y: u8)
        ensures
            y as int == (self.word() / 16) % 16,
            y < 16,
    {
        let lo: u8 = self.data[1];
        assert(lo >> 4 == lo / 16) by (bit_vector);
        lo >> 4
    }

    /// The low byte.
    pub fn get_kk(&self) -> (kk: u8)
        ensures
            kk as int == self.word() % 256,
    {
        self.data[1]
    }

    /// The four nibbles, most significant first.
    pub fn get_bits(&self) -> (bits: [u8; 4])
        ensures
            bits@ == self.nibbles(),
            forall|k: int| 0 <= k < 4 ==> bits[k] < 16,
    {
        let hi: u8 = self.data[0];
        let lo: u8 = self.data[1];
        assert(hi >> 4 == hi / 16 && hi & 0b1111 == hi % 16) by (bit_vector);
        assert(lo >> 4 == lo / 16 && lo & 0b1111 == lo % 16) by (bit_vector);
        let bits: [u8; 4] = [hi >> 4, hi & 0b1111, lo >> 4, lo & 0b1111];
        assert(bits@ =~= self.nibbles());
        bits
    }
}

} // verus!
