//! The executor: what one instruction does to the machine.
//!
//! A cycle fetches the instruction at the program counter, moves the
//! program counter past it, classifies it and applies it. An operation
//! that redirects control sets the program counter itself: a skip moves it
//! one instruction further, a wait for a key moves it back onto the
//! instruction. A cycle that fails changes nothing, so the program counter
//! then still points at the instruction that failed.
//!
//! Flags go to `VF` after the operands were read and after the result was
//! written, so the flag stands even where `VF` is an operand or the target.

use vstd::prelude::*;

use crate::alu::{
    add_with_carry,
    decimal_digits,
    difference_with_borrow,
    doubled,
    halved,
    shift_left,
    shift_right,
    subtract_with_borrow,
    sum_with_carry,
    to_decimal,
};
use crate::guest_graphics::{
    blank,
    collides,
    drawn,
    sprite_bit_at,
    touches,
    ChipDisplay,
    DisplayView,
    Sprite,
};
use crate::host_graphics::{key_down, Input};
use crate::instruction::{next_pc, nibbles_of, word_at, Instruction};
use crate::machine::{
    glyph_address,
    read_memory,
    wrap,
    write_memory,
    ChipError,
    ChipRegisters,
    RegistersView,
    FONT_START,
};
use crate::opcode::{decode, OpCode, Operation};

verus! {

/// What the machine is to the specifications: memory, registers, display.
pub ghost struct MachineView {
    pub ram: Seq<u8>,
    pub regs: RegistersView,
    pub display: DisplayView,
}

impl MachineView {
    /// The memory has 4096 bytes, and the registers and the display are
    /// well formed.
    pub open spec fn wf(self) -> bool {
        self.ram.len() == 4096 && self.regs.wf() && self.display.wf()
    }

    /// The machine with `value` in register `x`.
    pub open spec fn with_register(self, x: int, value: u8) -> MachineView {
        MachineView { regs: RegistersView { v: self.regs.v.update(x, value), ..self.regs }, ..self }
    }

    /// The machine with the byte of `result` in register `x` and then the
    /// flag of `result` in `VF`.
    pub open spec fn with_flagged(self, x: int, result: (u8, u8)) -> MachineView {
        MachineView {
            regs: RegistersView {
                v: self.regs.v.update(x, result.0).update(0xF, result.1),
                ..self.regs
            },
            ..self
        }
    }

    /// The machine with the program counter at `pc`.
    pub open spec fn with_pc(self, pc: u16) -> MachineView {
        MachineView { regs: RegistersView { pc, ..self.regs }, ..self }
    }

    /// The machine with the index register at `i`.
    pub open spec fn with_index(self, i: u16) -> MachineView {
        MachineView { regs: RegistersView { i, ..self.regs }, ..self }
    }

    /// The machine after a skip that is taken if `taken`.
    pub open spec fn skip_if(self, taken: bool) -> MachineView {
        if taken {
            self.with_pc(next_pc(self.regs.pc))
        } else {
            self
        }
    }
}

/// The `n` bytes of memory from `i` on, wrapping around the memory.
pub open spec fn sprite_rows(ram: Seq<u8>, i: u16, n: int) -> Seq<u8> {
    Seq::new(n as nat, |k: int| ram[wrap(i + k)])
}

/// The memory after the first `count` of `values` were stored from `i` on,
/// wrapping around the memory.
pub open spec fn stored(ram: Seq<u8>, values: Seq<u8>, i: u16, count: int) -> Seq<u8> {
    Seq::new(
        4096,
        |a: int|
            if (a - i) % 4096 < count {
                values[(a - i) % 4096]
            } else {
                ram[a]
            },
    )
}

/// The registers after the first `count` of them were loaded from the
/// memory from `i` on, wrapping around the memory.
pub open spec fn loaded(v: Seq<u8>, ram: Seq<u8>, i: u16, count: int) -> Seq<u8> {
    Seq::new(
        16,
        |k: int|
            if k < count {
                ram[wrap(i + k)]
            } else {
                v[k]
            },
    )
}

/// The three values of `digits`, in their order.
pub open spec fn digits_seq(digits: (u8, u8, u8)) -> Seq<u8> {
    seq![digits.0, digits.1, digits.2]
}

/// What the operation `op` of the instruction `word` makes of the machine
/// `m`, whose program counter is already past the instruction. `keys` and
/// `now` say which keys are down, `random` is the byte that a random
/// operation draws.
pub open spec fn apply(
    op: OpCode,
    word: int,
    m: MachineView,
    keys: Seq<Option<u64>>,
    now: u64,
    random: u8,
) -> Result<MachineView, ChipError> {
    let x = (word / 256) % 16;
    let y = (word / 16) % 16;
    let n = word % 16;
    let kk = (word % 256) as u8;
    let nnn = (word % 4096) as u16;
    let vx = m.regs.v[x];
    let vy = m.regs.v[y];
    let pressed = key_down(keys, vx as int, now);
    match op {
        OpCode::Cls => Ok(
            MachineView { display: DisplayView { back: blank(), dirty: true, ..m.display }, ..m },
        ),
        OpCode::Jmp => Ok(m.with_pc(nnn)),
        OpCode::LdVxBy => Ok(m.with_register(x, kk)),
        OpCode::Add => Ok(m.with_register(x, sum_with_carry(vx, kk).0)),
        OpCode::LdI => Ok(m.with_index(nnn)),
        OpCode::Display => {
            let rows = sprite_rows(m.ram, m.regs.i, n);
            let hit = collides(m.display.back, rows, vx as int, vy as int);
            Ok(
                MachineView {
                    display: DisplayView {
                        front: m.display.front,
                        back: drawn(m.display.back, rows, vx as int, vy as int),
                        dirty: m.display.dirty || touches(rows, vx as int, vy as int),
                    },
                    ..m
                }.with_register(0xF, if hit { 1u8 } else { 0u8 }),
            )
        },
        OpCode::Ret => if m.regs.stack.len() == 0 {
            Err(ChipError::StackUnderflow)
        } else {
            Ok(
                MachineView {
                    regs: RegistersView {
                        pc: m.regs.stack.last(),
                        stack: m.regs.stack.drop_last(),
                        ..m.regs
                    },
                    ..m
                },
            )
        },
        OpCode::Call => if m.regs.stack.len() >= 16 {
            Err(ChipError::StackOverflow)
        } else {
            Ok(
                MachineView {
                    regs: RegistersView {
                        pc: nnn,
                        stack: m.regs.stack.push(m.regs.pc),
                        ..m.regs
                    },
                    ..m
                },
            )
        },
        OpCode::SeVxBy => Ok(m.skip_if(vx == kk)),
        OpCode::SneVxBy => Ok(m.skip_if(vx != kk)),
        OpCode::SeVxVy => Ok(m.skip_if(vx == vy)),
        OpCode::LdVxVy => Ok(m.with_register(x, vy)),
        OpCode::OrVxVy => Ok(m.with_register(x, vx | vy)),
        OpCode::AndVxVy => Ok(m.with_register(x, vx & vy)),
        OpCode::XorVxVy => Ok(m.with_register(x, vx ^ vy)),
        OpCode::AddVxVy => Ok(m.with_flagged(x, sum_with_carry(vx, vy))),
        OpCode::SubVxVy => Ok(m.with_flagged(x, difference_with_borrow(vx, vy))),
        OpCode::ShrVxVy => Ok(m.with_flagged(x, halved(vx))),
        OpCode::SubnVxVy => Ok(m.with_flagged(x, difference_with_borrow(vy, vx))),
        OpCode::ShlVxVy => Ok(m.with_flagged(x, doubled(vx))),
        OpCode::SneVxVy => Ok(m.skip_if(vx != vy)),
        OpCode::JpV0Addr => Ok(m.with_pc((nnn + m.regs.v[0]) as u16)),
        OpCode::RndVxBy => Ok(m.with_register(x, random & kk)),
        OpCode::SkpVx => Ok(m.skip_if(pressed)),
        OpCode::SknpVx => Ok(m.skip_if(!pressed)),
        OpCode::LdVxDt => Ok(m.with_register(x, m.regs.delay)),
        OpCode::LdVxK => Ok(
            if pressed {
                m
            } else {
                m.with_pc(((m.regs.pc - 2) % 65536) as u16)
            },
        ),
        OpCode::LdDtVx => Ok(MachineView { regs: RegistersView { delay: vx, ..m.regs }, ..m }),
        OpCode::LdStVx => Ok(MachineView { regs: RegistersView { sound: vx, ..m.regs }, ..m }),
        OpCode::AddIVx => Ok(m.with_index(((m.regs.i + vx) % 65536) as u16)),
        OpCode::LdFVx => Ok(m.with_index(glyph_address(vx) as u16)),
        OpCode::LdBVx => Ok(
            MachineView { ram: stored(m.ram, digits_seq(decimal_digits(vx)), m.regs.i, 3), ..m },
        ),
        OpCode::LdIVx => Ok(MachineView { ram: stored(m.ram, m.regs.v, m.regs.i, x + 1), ..m }),
        OpCode::LdVxI => Ok(
            MachineView {
                regs: RegistersView { v: loaded(m.regs.v, m.ram, m.regs.i, x + 1), ..m.regs },
                ..m
            },
        ),
    }
}

/// What one cycle makes of the machine `m`: the instruction at the program
/// counter is fetched and classified; an instruction that no rule matches
/// is an error, any other is applied with the program counter past it.
pub open spec fn step_result(m: MachineView, keys: Seq<Option<u64>>, now: u64, random: u8) -> Result<
    MachineView,
    ChipError,
> {
    let word = word_at(m.ram, m.regs.pc);
    match decode(nibbles_of(word)) {
        None => Err(ChipError::IllegalOpcode(word as u16)),
        Some(op) => apply(op, word, m.with_pc(next_pc(m.regs.pc)), keys, now, random),
    }
}

/// The sprite of `n` rows that lies in memory at `i`.
fn read_sprite(ram: &[u8; 4096], i: u16, n: u8) -> (sprite: Sprite)
    requires
        n <= 15,
    ensures
        sprite@ == sprite_rows(ram@, i, n as int),
{
    let mut sprite_data: Vec<u8> = Vec::new();
    let mut k: usize = 0;
    while k < n as usize
        invariant
            k <= n <= 15,
            sprite_data@ == sprite_rows(ram@, i, k as int),
        decreases n - k,
    {
        sprite_data.push(read_memory(ram, i as usize + k));
        assert(sprite_data@ =~= sprite_rows(ram@, i, k + 1));
        k += 1;
    }
    Sprite::new_from_bytes(sprite_data.as_slice())
}

/// Stores the first `count` of `values` in memory from `i` on.
fn store_bytes(ram: &mut [u8; 4096], values: &[u8], i: u16, count: usize)
    requires
        count <= values@.len() <= 16,
    ensures
        final(ram)@ == stored(old(ram)@, values@, i, count as int),
{
    let mut k: usize = 0;
    assert(ram@ =~= stored(old(ram)@, values@, i, 0));
    while k < count
        invariant
            k <= count <= values@.len() <= 16,
            ram@ == stored(old(ram)@, values@, i, k as int),
        decreases count - k,
    {
        write_memory(ram, i as usize + k, values[k]);
        assert(ram@ =~= stored(old(ram)@, values@, i, k + 1)) by {
            assert forall|a: int| 0 <= a < 4096 implies ram@[a] == stored(
                old(ram)@,
                values@,
                i,
                k + 1,
            )[a] by {
                if a == wrap(i + k) {
                    assert((a - i) % 4096 == k);
                }
            }
        }
        k += 1;
    }
}

/// Loads the first `count` registers from the memory at the index register.
fn load_registers(ram: &[u8; 4096], registers: &mut ChipRegisters, count: u8)
    requires
        count <= 16,
    ensures
        final(registers)@ == (RegistersView {
            v: loaded(old(registers)@.v, ram@, old(registers)@.i, count as int),
            ..old(registers)@
        }),
{
    let i: u16 = registers.index();
    let mut k: u8 = 0;
    assert(registers@.v =~= loaded(old(registers)@.v, ram@, i, 0));
    while k < count
        invariant
            k <= count <= 16,
            i == old(registers)@.i,
            old(registers)@.v.len() == 16,
            registers@ == (RegistersView {
                v: loaded(old(registers)@.v, ram@, i, k as int),
                ..old(registers)@
            }),
        decreases count - k,
    {
        registers.set_register(k, read_memory(ram, i as usize + k as usize));
        assert(registers@.v =~= loaded(old(registers)@.v, ram@, i, k + 1));
        k += 1;
    }
}

/// The machine that the three parts make up.
pub open spec fn machine(ram: Seq<u8>, regs: RegistersView, display: DisplayView) -> MachineView {
    MachineView { ram, regs, display }
}

/// Applies the operation `op` of the instruction `ins` to the machine,
/// whose program counter is already past the instruction. `random` is the
/// byte that a random operation draws. An operation that fails changes
/// nothing.
pub fn execute(
    op: OpCode,
    ins: &Instruction,
    ram: &mut [u8; 4096],
    registers: &mut ChipRegisters,
    display: &mut ChipDisplay,
    input: &Input,
    now: u64,
    random: u8,
) -> (done: Result<(), ChipError>)
    ensures
        match apply(
            op,
            ins.word(),
            machine(old(ram)@, old(registers)@, old(display)@),
            input@,
            now,
            random,
        ) {
            Ok(after) => done == Ok::<(), ChipError>(()) && machine(
                final(ram)@,
                final(registers)@,
                final(display)@,
            ) == after,
            Err(error) => done == Err::<(), ChipError>(error) && machine(
                final(ram)@,
                final(registers)@,
                final(display)@,
            ) == machine(old(ram)@, old(registers)@, old(display)@),
        },
{
    let x: u8 = ins.get_x();
    let y: u8 = ins.get_y();
    let vx: u8 = registers.register(x);
    let vy: u8 = registers.register(y);
    match op {
        OpCode::Cls => display.clear(),
        OpCode::Jmp => registers.set_program_counter(ins.get_nnn()),
        OpCode::LdVxBy => registers.set_register(x, ins.get_kk()),
        OpCode::Add => registers.set_register(x, add_with_carry(vx, ins.get_kk()).0),
        OpCode::LdI => registers.set_index(ins.get_nnn()),
        OpCode::Display => {
            let sprite: Sprite = read_sprite(ram, registers.index(), ins.get_n());
            let xor: bool = display.draw_sprite(vx, vy, sprite);
            registers.set_register(0xF, if xor { 1 } else { 0 });
        },
        OpCode::Ret => {
            match registers.pop_return_address() {
                Ok(address) => registers.set_program_counter(address),
                Err(error) => {
                    return Err(error);
                },
            }
        },
        OpCode::Call => {
            let pc: u16 = registers.program_counter();
            match registers.push_return_address(pc) {
                Ok(()) => registers.set_program_counter(ins.get_nnn()),
                Err(error) => {
                    return Err(error);
                },
            }
        },
        OpCode::SeVxBy => {
            if vx == ins.get_kk() {
                skip(registers);
            }
        },
        OpCode::SneVxBy => {
            if vx != ins.get_kk() {
                skip(registers);
            }
        },
        OpCode::SeVxVy => {
            if vx == vy {
                skip(registers);
            }
        },
        OpCode::LdVxVy => registers.set_register(x, vy),
        OpCode::OrVxVy => registers.set_register(x, vx | vy),
        OpCode::AndVxVy => registers.set_register(x, vx & vy),
        OpCode::XorVxVy => registers.set_register(x, vx ^ vy),
        OpCode::AddVxVy => set_flagged(registers, x, add_with_carry(vx, vy)),
        OpCode::SubVxVy => set_flagged(registers, x, subtract_with_borrow(vx, vy)),
        OpCode::ShrVxVy => set_flagged(registers, x, shift_right(vx)),
        OpCode::SubnVxVy => set_flagged(registers, x, subtract_with_borrow(vy, vx)),
        OpCode::ShlVxVy => set_flagged(registers, x, shift_left(vx)),
        OpCode::SneVxVy => {
            if vx != vy {
                skip(registers);
            }
        },
        OpCode::JpV0Addr => {
            let addt: u8 = registers.register(0x0);
            registers.set_program_counter(ins.get_nnn() + addt as u16);
        },
        OpCode::RndVxBy => registers.set_register(x, random & ins.get_kk()),
        OpCode::SkpVx => {
            if input.key_is_down(vx as usize, now) {
                skip(registers);
            }
        },
        OpCode::SknpVx => {
            if !input.key_is_down(vx as usize, now) {
                skip(registers);
            }
        },
        OpCode::LdVxDt => {
            let delay: u8 = registers.delay_timer();
            registers.set_register(x, delay);
        },
        OpCode::LdVxK => {
            if !input.key_is_down(vx as usize, now) {
                let pc: u16 = registers.program_counter();
                registers.set_program_counter(pc.wrapping_sub(2));
            }
        },
        OpCode::LdDtVx => registers.set_delay_timer(vx),
        OpCode::LdStVx => registers.set_sound_timer(vx),
        OpCode::AddIVx => {
            let i: u16 = registers.index();
            registers.set_index(i.wrapping_add(vx as u16));
        },
        OpCode::LdFVx => {
            assert(vx & 0b1111 == vx % 16) by (bit_vector);
            registers.set_index(FONT_START + 5 * (vx & 0b1111) as u16);
        },
        OpCode::LdBVx => {
            let (hundreds, tens, ones) = to_decimal(vx);
            let digits: [u8; 3] = [hundreds, tens, ones];
            assert(digits@ =~= digits_seq(decimal_digits(vx)));
            store_bytes(ram, digits.as_slice(), registers.index(), 3);
        },
        OpCode::LdIVx => {
            let values: [u8; 16] = registers.registers();
            store_bytes(ram, values.as_slice(), registers.index(), x as usize + 1);
        },
        OpCode::LdVxI => load_registers(ram, registers, x + 1),
    }
    Ok(())
}

/// Moves the program counter one instruction further.
fn skip(registers: &mut ChipRegisters)
    ensures
        final(registers)@ == (RegistersView {
            pc: next_pc(old(registers)@.pc),
            ..old(registers)@
        }),
{
    let pc: u16 = registers.program_counter();
    registers.set_program_counter(pc.wrapping_add(2));
}

/// Puts the byte of `result` in register `x`, then its flag in `VF`.
fn set_flagged(registers: &mut ChipRegisters, x: u8, result: (u8, u8))
    requires
        x < 16,
    ensures
        final(registers)@ == (RegistersView {
            v: old(registers)@.v.update(x as int, result.0).update(0xF, result.1),
            ..old(registers)@
        }),
{
    registers.set_register(x, result.0);
    registers.set_register(0xF, result.1);
}

/// Runs one cycle: fetches the instruction at the program counter,
/// classifies it and applies it. `now` is the time in milliseconds at which
/// the keys are read, `random` the byte that a random operation draws. A
/// cycle that fails changes nothing.
pub fn step(
    ram: &mut [u8; 4096],
    registers: &mut ChipRegisters,
    display: &mut ChipDisplay,
    input: &Input,
    now: u64,
    random: u8,
) -> (done: Result<(), ChipError>)
    ensures
        match step_result(
            machine(old(ram)@, old(registers)@, old(display)@),
            input@,
            now,
            random,
        ) {
            Ok(after) => done == Ok::<(), ChipError>(()) && machine(
                final(ram)@,
                final(registers)@,
                final(display)@,
            ) == after,
            Err(error) => done == Err::<(), ChipError>(error) && machine(
                final(ram)@,
                final(registers)@,
                final(display)@,
            ) == machine(old(ram)@, old(registers)@, old(display)@),
        },
{
    let pc: u16 = registers.program_counter();
    let next_instruction: Instruction = Instruction::get_next_instruction(*ram, registers);
    let next_op: Option<OpCode> = Operation::get_op_code(&next_instruction);
    match next_op {
        Some(op) => {
            let done = execute(op, &next_instruction, ram, registers, display, input, now, random);
            if done.is_err() {
                registers.set_program_counter(pc);
            }
            done
        },
        None => {
            registers.set_program_counter(pc);
            let word: u16 = next_instruction.data[0] as u16 * 256 + next_instruction.data[1] as u16;
            Err(ChipError::IllegalOpcode(word))
        },
    }
}

/// Registers that were stored come back when they are loaded from the same
/// place: loading `count` registers from where `count` registers were
/// stored gives those registers, whatever the registers held in between,
/// and leaves the other registers alone.
pub proof fn lemma_store_load_round_trip(
    ram: Seq<u8>,
    v: Seq<u8>,
    fresh: Seq<u8>,
    i: u16,
    count: int,
)
    requires
        0 <= count <= 16,
    ensures
        forall|k: int|
            0 <= k < count ==> loaded(fresh, stored(ram, v, i, count), i, count)[k] == v[k],
        forall|k: int|
            count <= k < 16 ==> loaded(fresh, stored(ram, v, i, count), i, count)[k] == fresh[k],
        loaded(fresh, stored(ram, v, i, count), i, count).len() == 16,
        v.len() == 16 ==> loaded(v, stored(ram, v, i, count), i, count) == v,
{
    assert forall|k: int| 0 <= k < count implies loaded(fresh, stored(ram, v, i, count), i, count)[k]
        == v[k] by {
        assert((wrap(i + k) - i) % 4096 == k);
    }
    if v.len() == 16 {
        assert(loaded(v, stored(ram, v, i, count), i, count) =~= v);
    }
}

/// Storing puts value `k` at the place `k` after `i`, wrapped, for each
/// `k` below `count`, and leaves every other place alone.
pub proof fn lemma_store_frame(ram: Seq<u8>, v: Seq<u8>, i: u16, count: int, k: int, a: int)
    requires
        0 <= count <= 4096,
        0 <= a < 4096,
    ensures
        stored(ram, v, i, count).len() == 4096,
        0 <= k < count ==> stored(ram, v, i, count)[wrap(i + k)] == v[k],
        (a - i) % 4096 >= count ==> stored(ram, v, i, count)[a] == ram[a],
{
    if 0 <= k < count {
        assert((wrap(i + k) - i) % 4096 == k);
    }
}

/// The round trip through the machine: after registers `V0` to `Vx` were
/// stored, loading `V0` to `Vx` from the same index register gives them
/// back, whatever the registers hold by then.
pub proof fn lemma_store_then_load(
    word: int,
    m: MachineView,
    fresh: Seq<u8>,
    keys: Seq<Option<u64>>,
    now: u64,
    random: u8,
)
    requires
        0 <= word < 65536,
    ensures
        ({
            let x = (word / 256) % 16;
            let after_store = apply(OpCode::LdIVx, word, m, keys, now, random)->Ok_0;
            let reset = MachineView { regs: RegistersView { v: fresh, ..m.regs }, ..after_store };
            let after_load = apply(OpCode::LdVxI, word, reset, keys, now, random)->Ok_0;
            &&& apply(OpCode::LdIVx, word, m, keys, now, random) is Ok
            &&& apply(OpCode::LdVxI, word, reset, keys, now, random) is Ok
            &&& forall|k: int| 0 <= k <= x ==> after_load.regs.v[k] == m.regs.v[k]
            &&& forall|k: int| x < k < 16 ==> after_load.regs.v[k] == fresh[k]
        }),
{
    let x = (word / 256) % 16;
    lemma_store_load_round_trip(m.ram, m.regs.v, fresh, m.regs.i, x + 1);
}

/// A return goes back to where the call came from: after a call and a
/// return the program counter is past the call, and the stack is what it
/// was.
pub proof fn lemma_call_then_return(
    call: int,
    ret: int,
    m: MachineView,
    keys: Seq<Option<u64>>,
    now: u64,
    random: u8,
)
    requires
        m.regs.stack.len() < 16,
    ensures
        ({
            let called = apply(OpCode::Call, call, m, keys, now, random);
            let returned = apply(OpCode::Ret, ret, called->Ok_0, keys, now, random);
            &&& called is Ok
            &&& called->Ok_0.regs.pc == call % 4096
            &&& returned == Ok::<MachineView, ChipError>(m)
        }),
{
    assert(m.regs.stack.push(m.regs.pc).drop_last() =~= m.regs.stack);
}

/// The stack fails only at its ends: a call fails exactly with sixteen
/// calls open, a return exactly with none, and no other operation fails.
pub proof fn lemma_failures(
    op: OpCode,
    word: int,
    m: MachineView,
    keys: Seq<Option<u64>>,
    now: u64,
    random: u8,
)
    ensures
        apply(op, word, m, keys, now, random) is Err <==> (op == OpCode::Call
            && m.regs.stack.len() >= 16) || (op == OpCode::Ret && m.regs.stack.len() == 0),
        op == OpCode::Call && m.regs.stack.len() >= 16 ==> apply(op, word, m, keys, now, random)
            == Err::<MachineView, ChipError>(ChipError::StackOverflow),
        op == OpCode::Ret && m.regs.stack.len() == 0 ==> apply(op, word, m, keys, now, random)
            == Err::<MachineView, ChipError>(ChipError::StackUnderflow),
{
}

/// A sprite none of whose pixels is set draws nothing.
proof fn lemma_no_touch_no_change(back: Seq<bool>, rows: Seq<u8>, ox: int, oy: int)
    requires
        back.len() == 2048,
        !touches(rows, ox, oy),
    ensures
        drawn(back, rows, ox, oy) == back,
{
    assert forall|k: int| 0 <= k < 2048 implies drawn(back, rows, ox, oy)[k] == back[k] by {
        assert(!sprite_bit_at(rows, ox, oy, k / 32, k % 32));
    }
    assert(drawn(back, rows, ox, oy) =~= back);
}

/// No operation takes the machine out of its shape: the memory keeps its
/// size, there are sixteen registers and at most sixteen open calls, and
/// a display that is not marked dirty shows what was drawn.
pub proof fn lemma_apply_keeps_shape(
    op: OpCode,
    word: int,
    m: MachineView,
    keys: Seq<Option<u64>>,
    now: u64,
    random: u8,
)
    requires
        m.wf(),
        0 <= word < 65536,
    ensures
        apply(op, word, m, keys, now, random) matches Ok(after) ==> after.wf(),
{
    let x = (word / 256) % 16;
    let y = (word / 16) % 16;
    let n = word % 16;
    if op == OpCode::Display {
        let rows = sprite_rows(m.ram, m.regs.i, n);
        let vx = m.regs.v[x];
        let vy = m.regs.v[y];
        if !touches(rows, vx as int, vy as int) {
            lemma_no_touch_no_change(m.display.back, rows, vx as int, vy as int);
        }
    }
}

/// A cycle keeps the machine in its shape too.
pub proof fn lemma_step_keeps_shape(m: MachineView, keys: Seq<Option<u64>>, now: u64, random: u8)
    requires
        m.wf(),
    ensures
        step_result(m, keys, now, random) matches Ok(after) ==> after.wf(),
{
    let word = word_at(m.ram, m.regs.pc);
    match decode(nibbles_of(word)) {
        None => {},
        Some(op) => {
            lemma_apply_keeps_shape(op, word, m.with_pc(next_pc(m.regs.pc)), keys, now, random);
        },
    }
}

/// A program that clears the display and then jumps to its own jump runs
/// for ever without error: the first cycle leaves the back buffer blank and
/// the display dirty, and no later cycle changes anything.
pub proof fn lemma_clear_then_spin(
    m: MachineView,
    keys: Seq<Option<u64>>,
    now: u64,
    random: u8,
    later_keys: Seq<Option<u64>>,
    later: u64,
    later_random: u8,
)
    requires
        m.ram.len() == 4096,
        m.regs.pc + 3 < 4096,
        m.ram[m.regs.pc as int] == 0x00,
        m.ram[m.regs.pc + 1] == 0xE0,
        m.ram[m.regs.pc + 2] == 0x10 + (m.regs.pc + 2) / 256,
        m.ram[m.regs.pc + 3] == (m.regs.pc + 2) % 256,
    ensures
        ({
            let cleared = MachineView {
                display: DisplayView { back: blank(), dirty: true, ..m.display },
                ..m
            }.with_pc((m.regs.pc + 2) as u16);
            &&& step_result(m, keys, now, random) == Ok::<MachineView, ChipError>(cleared)
            &&& step_result(cleared, later_keys, later, later_random) == Ok::<
                MachineView,
                ChipError,
            >(cleared)
        }),
{
    let pc = m.regs.pc;
    assert(word_at(m.ram, pc) == 0x00E0);
    assert(nibbles_of(0x00E0) =~= seq![0u8, 0u8, 0xEu8, 0u8]);
    let jump = word_at(m.ram, (pc + 2) as u16);
    assert(jump == 0x1000 + pc + 2);
    assert(nibbles_of(jump)[0] == 1);
    assert(jump % 4096 == pc + 2);
}

/// A cycle that fails fails for good: whether a cycle fails, and how,
/// depends on the memory, the program counter and the stack alone, and a
/// failed cycle changes none of them.
pub proof fn lemma_errors_are_final(
    m: MachineView,
    keys: Seq<Option<u64>>,
    now: u64,
    random: u8,
    later_keys: Seq<Option<u64>>,
    later: u64,
    later_random: u8,
)
    requires
        step_result(m, keys, now, random) is Err,
    ensures
        step_result(m, later_keys, later, later_random) == step_result(m, keys, now, random),
{
}

} // verus!
