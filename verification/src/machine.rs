//! The state of the machine: the registers, the call stack, the timers,
//! and the memory with what is loaded into it.
//!
//! Memory has 4096 bytes. The address registers are sixteen bits wide; an
//! address is wrapped into the memory where it is used, so no access ever
//! falls outside it. Writes below the start of the program are allowed.

use vstd::prelude::*;

use crate::guest_graphics::{get_fonts, glyph, Sprite};

verus! {

/// The size of the memory in bytes.
pub const MEMORY_SIZE: usize = 4096;

/// Where a program is loaded, and where the program counter starts.
pub const PROGRAM_START: u16 = 0x200;

/// Where the glyphs of the built-in font are loaded.
pub const FONT_START: u16 = 0x50;

/// The most calls that can be open at once.
pub const STACK_DEPTH: usize = 16;

/// What ends a run.
#[derive(Copy, Clone, Debug, PartialEq, Eq, Structural)]
pub enum ChipError {
    /// The instruction, given as its 16-bit word, matches no rule.
    IllegalOpcode(u16),
    /// A call with sixteen calls open already.
    StackOverflow,
    /// A return with no call open.
    StackUnderflow,
}

/// What the registers are to the specifications. `stack` holds the return
/// addresses of the open calls, the latest last.
pub ghost struct RegistersView {
    pub v: Seq<u8>,
    pub i: u16,
    pub delay: u8,
    pub sound: u8,
    pub pc: u16,
    pub stack: Seq<u16>,
}

impl RegistersView {
    /// There are sixteen registers and at most sixteen open calls.
    pub open spec fn wf(self) -> bool {
        self.v.len() == 16 && self.stack.len() <= 16
    }
}

/// The registers as they are when the machine starts.
pub open spec fn initial_registers() -> RegistersView {
    RegistersView {
        v: Seq::new(16, |x: int| 0u8),
        i: 0,
        delay: 0,
        sound: 0,
        pc: PROGRAM_START,
        stack: Seq::empty(),
    }
}

/// The registers of the machine. `sp` is the place of the latest return
/// address in `stack`, and -1 while no call is open; the places of `stack`
/// above `sp` hold zero.
pub struct ChipRegisters {
    v: [u8; 16],
    i: u16,
    delay: u8,
    sound: u8,
    pc: u16,
    sp: i8,
    stack: [u16; 16],
}

impl View for ChipRegisters {
    type V = RegistersView;

    closed spec fn view(&self) -> RegistersView {
        RegistersView {
            v: self.v@,
            i: self.i,
            delay: self.delay,
            sound: self.sound,
            pc: self.pc,
            stack: self.stack@.subrange(0, self.sp + 1),
        }
    }
}

impl ChipRegisters {
    /// The stack pointer is in range, and no closed call leaves its return
    /// address behind: what the view shows is all there is.
    #[verifier::type_invariant]
    spec fn stack_is_clean(&self) -> bool {
        &&& -1 <= self.sp <= 15
        &&& forall|k: int| self.sp < k < 16 ==> self.stack@[k] == 0
    }

    /// Everything is zero, but the program counter, which is at the start
    /// of the program.
    pub fn new() -> (registers: ChipRegisters)
        ensures
            registers@ == initial_registers(),
    {
        let registers = Self {
            v: [0u8; 16],
            i: 0u16,
            delay: 0u8,
            sound: 0u8,
            pc: PROGRAM_START,
            sp: -1i8,
            stack: [0u16; 16],
        };
        assert(registers@.v =~= initial_registers().v);
        assert(registers@.stack =~= initial_registers().stack);
        registers
    }

    /// The value of register `x`.
    pub fn register(&self, x: u8) -> (value: u8)
        requires
            x < 16,
        ensures
            value == self@.v[x as int],
            self@.wf(),
    {
        proof {
            use_type_invariant(self);
        }
        self.v[x as usize]
    }

    /// Puts `value` in register `x`.
    pub fn set_register(&mut self, x: u8, value: u8)
        requires
            x < 16,
        ensures
            final(self)@ == (RegistersView { v: old(self)@.v.update(x as int, value), ..old(self)@ }),
            final(self)@.wf(),
    {
        proof {
            use_type_invariant(&*self);
        }
        self.v[x as usize] = value;
    }

    /// The registers `V0` to `VF`, in their order.
    pub fn registers(&self) -> (values: [u8; 16])
        ensures
            values@ == self@.v,
            self@.wf(),
    {
        proof {
            use_type_invariant(self);
        }
        self.v
    }

    /// The index register.
    pub fn index(&self) -> (i: u16)
        ensures
            i == self@.i,
            self@.wf(),
    {
        proof {
            use_type_invariant(self);
        }
        self.i
    }

    /// Sets the index register.
    pub fn set_index(&mut self, i: u16)
        ensures
            final(self)@ == (RegistersView { i, ..old(self)@ }),
    {
        proof {
            use_type_invariant(&*self);
        }
        self.i = i;
    }

    /// The program counter.
    pub fn program_counter(&self) -> (pc: u16)
        ensures
            pc == self@.pc,
            self@.wf(),
    {
        proof {
            use_type_invariant(self);
        }
        self.pc
    }

    /// Sets the program counter.
    pub fn set_program_counter(&mut self, pc: u16)
        ensures
            final(self)@ == (RegistersView { pc, ..old(self)@ }),
    {
        proof {
            use_type_invariant(&*self);
        }
        self.pc = pc;
    }

    /// The delay timer.
    pub fn delay_timer(&self) -> (delay: u8)
        ensures
            delay == self@.delay,
    {
        self.delay
    }

    /// Sets the delay timer.
    pub fn set_delay_timer(&mut self, delay: u8)
        ensures
            final(self)@ == (RegistersView { delay, ..old(self)@ }),
    {
        proof {
            use_type_invariant(&*self);
        }
        self.delay = delay;
    }

    /// The sound timer.
    pub fn sound_timer(&self) -> (sound: u8)
        ensures
            sound == self@.sound,
    {
        self.sound
    }

    /// Sets the sound timer.
    pub fn set_sound_timer(&mut self, sound: u8)
        ensures
            final(self)@ == (RegistersView { sound, ..old(self)@ }),
    {
        proof {
            use_type_invariant(&*self);
        }
        self.sound = sound;
    }

    /// The number of open calls.
    pub fn stack_depth(&self) -> (depth: usize)
        ensures
            depth == self@.stack.len(),
            depth <= 16,
    {
        proof {
            use_type_invariant(self);
        }
        (self.sp + 1) as usize
    }

    /// Opens a call: puts `address` on the stack as the address to return
    /// to. With sixteen calls open this fails, and nothing changes.
    pub fn push_return_address(&mut self, address: u16) -> (pushed: Result<(), ChipError>)
        ensures
            old(self)@.stack.len() < 16 ==> pushed == Ok::<(), ChipError>(()) && final(self)@ == (
            RegistersView { stack: old(self)@.stack.push(address), ..old(self)@ }),
            old(self)@.stack.len() >= 16 ==> pushed == Err::<(), ChipError>(
                ChipError::StackOverflow,
            ) && final(self)@ == old(self)@,
            final(self)@.wf(),
    {
        proof {
            use_type_invariant(&*self);
        }
        if self.sp as isize + 1 >= STACK_DEPTH as isize {
            return Err(ChipError::StackOverflow);
        }
        self.sp += 1;
        self.stack[self.sp as usize] = address;
        assert(self@.stack =~= old(self)@.stack.push(address));
        Ok(())
    }

    /// Closes the latest call: takes its return address off the stack.
    /// With no call open this fails, and nothing changes.
    pub fn pop_return_address(&mut self) -> (popped: Result<u16, ChipError>)
        ensures
            old(self)@.stack.len() > 0 ==> popped == Ok::<u16, ChipError>(old(self)@.stack.last())
                && final(self)@ == (RegistersView {
                stack: old(self)@.stack.drop_last(),
                ..old(self)@
            }),
            old(self)@.stack.len() == 0 ==> popped == Err::<u16, ChipError>(
                ChipError::StackUnderflow,
            ) && final(self)@ == old(self)@,
            final(self)@.wf(),
    {
        proof {
            use_type_invariant(&*self);
        }
        if self.sp < 0 {
            return Err(ChipError::StackUnderflow);
        }
        let address: u16 = self.stack[self.sp as usize];
        self.stack[self.sp as usize] = 0;
        self.sp -= 1;
        assert(self@.stack =~= old(self)@.stack.drop_last());
        Ok(address)
    }

    /// One tick of the timer clock: each timer that is not yet at zero
    /// goes down by one.
    pub fn tick_timers(&mut self)
        ensures
            final(self)@ == (RegistersView {
                delay: if old(self)@.delay > 0 { (old(self)@.delay - 1) as u8 } else { 0 },
                sound: if old(self)@.sound > 0 { (old(self)@.sound - 1) as u8 } else { 0 },
                ..old(self)@
            }),
    {
        proof {
            use_type_invariant(&*self);
        }
        if self.delay > 0 {
            self.delay -= 1;
        }
        if self.sound > 0 {
            self.sound -= 1;
        }
    }
}

impl Default for ChipRegisters {
    fn default() -> (registers: Self)
        ensures
            registers@ == initial_registers(),
    {
        Self::new()
    }
}

/// The place in memory that `address` names: memory wraps around.
pub open spec fn wrap(address: int) -> int {
    address % 4096
}

/// The byte at `address`, wrapped into the memory.
pub fn read_memory(ram: &[u8; 4096], address: usize) -> (value: u8)
    ensures
        value == ram@[wrap(address as int)],
{
    ram[address % MEMORY_SIZE]
}

/// Puts `value` at `address`, wrapped into the memory.
pub fn write_memory(ram: &mut [u8; 4096], address: usize, value: u8)
    ensures
        final(ram)@ == old(ram)@.update(wrap(address as int), value),
{
    ram[address % MEMORY_SIZE] = value;
}

/// The memory `ram` with `program` laid over it from the start of the
/// program on.
pub open spec fn with_program(ram: Seq<u8>, program: Seq<u8>) -> Seq<u8> {
    Seq::new(
        4096,
        |a: int|
            if PROGRAM_START <= a < PROGRAM_START + program.len() {
                program[a - PROGRAM_START]
            } else {
                ram[a]
            },
    )
}

/// The most bytes that a program can have.
pub const MAX_PROGRAM_SIZE: usize = 3584;

/// Loads `program` into the memory at the start of the program.
pub fn load_program(ram: &mut [u8; 4096], program: &[u8])
    requires
        program@.len() <= MAX_PROGRAM_SIZE,
    ensures
        final(ram)@ == with_program(old(ram)@, program@),
{
    let base_ram_position: usize = PROGRAM_START as usize;
    let mut i: usize = 0;
    while i < program.len()
        invariant
            i <= program@.len() <= MAX_PROGRAM_SIZE,
            base_ram_position == 0x200,
            ram@ == with_program(old(ram)@, program@.subrange(0, i as int)),
        decreases program.len() - i,
    {
        ram[i + base_ram_position] = program[i];
        assert(ram@ =~= with_program(old(ram)@, program@.subrange(0, i + 1)));
        i += 1;
    }
    assert(program@.subrange(0, i as int) =~= program@);
}

/// The memory `ram` with the sixteen glyphs of the font laid over it, five
/// bytes each, from `FONT_START` on.
pub open spec fn with_fonts(ram: Seq<u8>) -> Seq<u8> {
    Seq::new(
        4096,
        |a: int|
            if FONT_START <= a < FONT_START + 80 {
                glyph((a - FONT_START) / 5)[(a - FONT_START) % 5]
            } else {
                ram[a]
            },
    )
}

/// Where the glyph of the hex digit in the low nibble of `value` lies.
pub open spec fn glyph_address(value: u8) -> int {
    FONT_START + 5 * (value % 16)
}

/// Loads the built-in font into the memory.
pub fn load_fonts(ram: &mut [u8; 4096])
    ensures
        final(ram)@ == with_fonts(old(ram)@),
{
    let font: [Sprite; 16] = get_fonts();
    let mut digit: usize = 0;
    while digit < 16
        invariant
            digit <= 16,
            forall|d: int|
                0 <= d < 16 ==> (#[trigger] font[d]).height == 5 && font[d]@ == glyph(d),
            ram@.len() == 4096,
            forall|a: int|
                0 <= a < 4096 ==> ram@[a] == (if FONT_START <= a < FONT_START + 5 * digit {
                    glyph((a - FONT_START) / 5)[(a - FONT_START) % 5]
                } else {
                    old(ram)@[a]
                }),
        decreases 16 - digit,
    {
        let sprite: Sprite = font[digit];
        let mut row: usize = 0;
        while row < 5
            invariant
                row <= 5,
                digit < 16,
                sprite.height == 5,
                sprite@ == glyph(digit as int),
                ram@.len() == 4096,
                forall|a: int|
                    0 <= a < 4096 ==> ram@[a] == (if FONT_START <= a < FONT_START + 5 * digit
                        + row {
                        glyph((a - FONT_START) / 5)[(a - FONT_START) % 5]
                    } else {
                        old(ram)@[a]
                    }),
            decreases 5 - row,
        {
            assert(sprite@[row as int] == sprite.sprite_data@[row as int]);
            ram[FONT_START as usize + 5 * digit + row] = sprite.sprite_data[row];
            row += 1;
        }
        digit += 1;
    }
    assert(ram@ =~= with_fonts(old(ram)@));
}

/// The memory of a machine that is about to start `program`: zero, but for
/// the font and the program.
pub open spec fn initial_memory(program: Seq<u8>) -> Seq<u8> {
    with_program(with_fonts(Seq::new(4096, |a: int| 0u8)), program)
}

/// The memory with which a machine starts `program`.
pub fn new_memory(program: &[u8]) -> (ram: [u8; 4096])
    requires
        program@.len() <= MAX_PROGRAM_SIZE,
    ensures
        ram@ == initial_memory(program@),
{
    let mut ram: [u8; 4096] = [0u8; 4096];
    assert(ram@ =~= Seq::new(4096, |a: int| 0u8));
    load_fonts(&mut ram);
    load_program(&mut ram, program);
    ram
}

/// After the font was loaded, the glyph of each digit lies at its address.
pub proof fn lemma_font_in_memory(ram: Seq<u8>, value: u8, row: int)
    requires
        0 <= row < 5,
    ensures
        FONT_START <= glyph_address(value) + row < PROGRAM_START,
        with_fonts(ram)[glyph_address(value) + row] == glyph(value as int % 16)[row],
{
}

} // verus!
