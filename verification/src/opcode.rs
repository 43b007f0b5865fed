//! The opcode rule table and the classification of instructions.
//!
//! A rule is a list of matchers that is laid over the four nibbles of an
//! instruction from the left: a literal takes one nibble and must equal it,
//! `X`, `Y` and `N` take one nibble each, `Kk` takes two and `Nnn` three.
//! An instruction is classified by the first rule of the table whose
//! literals all agree with it. The table is built so that no instruction
//! agrees with two rules; an instruction that agrees with none is illegal.
//! The encodings are those of CHIP-8.

use vstd::prelude::*;

use crate::instruction::Instruction;

verus! {

/// The symbolic operations of the machine.
#[derive(Copy, Clone, Debug, PartialEq, Eq, Structural)]
pub enum OpCode {
    /// Clear the display.
    Cls,
    /// Jump to `nnn`.
    Jmp,
    /// Load `kk` into `Vx`.
    LdVxBy,
    /// Add `kk` to `Vx`, without a flag.
    Add,
    /// Load `nnn` into the index register.
    LdI,
    /// Draw `n` rows of sprite at `(Vx, Vy)`.
    Display,
    /// Return from a subroutine.
    Ret,
    /// Call the subroutine at `nnn`.
    Call,
    /// Skip if `Vx == kk`.
    SeVxBy,
    /// Skip if `Vx != kk`.
    SneVxBy,
    /// Skip if `Vx == Vy`.
    SeVxVy,
    /// Copy `Vy` into `Vx`.
    LdVxVy,
    /// `Vx |= Vy`.
    OrVxVy,
    /// `Vx &= Vy`.
    AndVxVy,
    /// `Vx ^= Vy`.
    XorVxVy,
    /// `Vx += Vy`, carry into `VF`.
    AddVxVy,
    /// `Vx -= Vy`, `VF` set when nothing was borrowed.
    SubVxVy,
    /// Shift `Vx` right by one, the lost bit into `VF`.
    ShrVxVy,
    /// `Vx = Vy - Vx`, `VF` set when nothing was borrowed.
    SubnVxVy,
    /// Shift `Vx` left by one, the lost bit into `VF`.
    ShlVxVy,
    /// Skip if `Vx != Vy`.
    SneVxVy,
    /// Jump to `nnn + V0`.
    JpV0Addr,
    /// `Vx` = a random byte masked with `kk`.
    RndVxBy,
    /// Skip if the key named by `Vx` is down.
    SkpVx,
    /// Skip if the key named by `Vx` is not down.
    SknpVx,
    /// Copy the delay timer into `Vx`.
    LdVxDt,
    /// Wait until the key named by `Vx` is down.
    LdVxK,
    /// Copy `Vx` into the delay timer.
    LdDtVx,
    /// Copy `Vx` into the sound timer.
    LdStVx,
    /// Add `Vx` to the index register.
    AddIVx,
    /// Point the index register at the glyph of `Vx`.
    LdFVx,
    /// Store the decimal digits of `Vx` at the index register.
    LdBVx,
    /// Store `V0..=Vx` at the index register.
    LdIVx,
    /// Load `V0..=Vx` from the index register.
    LdVxI,
}

/// One matcher of a rule: a literal nibble, or a placeholder for a field.
#[derive(Copy, Clone, Debug, PartialEq, Eq, Structural)]
pub enum OperationComponent {
    Literal(u8),
    Nnn,
    N,
    X,
    Y,
    Kk,
}

use self::OperationComponent::{Kk, Literal, Nnn, N, X, Y};

/// A rule of the table: its matchers, and the operation it stands for.
pub struct Operation {
    pub definition: Vec<OperationComponent>,
    pub op_code: OpCode,
}

/// What an `Operation` is to the specifications.
pub ghost struct Rule {
    pub definition: Seq<OperationComponent>,
    pub op_code: OpCode,
}

impl View for Operation {
    type V = Rule;

    open spec fn view(&self) -> Rule {
        Rule { definition: self.definition@, op_code: self.op_code }
    }
}

impl OperationComponent {
    /// How many nibbles the matcher takes.
    pub open spec fn width(self) -> int {
        match self {
            Nnn => 3,
            Kk => 2,
            _ => 1,
        }
    }
}

/// The nibble at which matcher `k` of `def` starts: the widths before it.
pub open spec fn offset(def: Seq<OperationComponent>, k: int) -> int
    decreases k,
{
    if k <= 0 {
        0
    } else {
        offset(def, k - 1) + def[k - 1].width()
    }
}

/// The matchers of `def` take exactly the four nibbles of an instruction.
pub open spec fn spans_word(def: Seq<OperationComponent>) -> bool {
    offset(def, def.len() as int) == 4
}

/// The matchers of `def` take no more than the four nibbles of an
/// instruction, so each of them lies on the instruction.
pub open spec fn fits_word(def: Seq<OperationComponent>) -> bool {
    offset(def, def.len() as int) <= 4
}

/// Matcher `k` of `def` has nothing against `nibbles`: it is a placeholder,
/// or a literal equal to the nibble it lies on.
pub open spec fn literal_holds(def: Seq<OperationComponent>, nibbles: Seq<u8>, k: int) -> bool {
    def[k] matches Literal(c) ==> nibbles[offset(def, k)] == c
}

/// A rule matches when each of its literals equals the nibble it lies on.
pub open spec fn rule_matches(def: Seq<OperationComponent>, nibbles: Seq<u8>) -> bool {
    forall|k: int| 0 <= k < def.len() ==> #[trigger] literal_holds(def, nibbles, k)
}

/// The operation of the first rule at or after `from` that matches.
pub open spec fn first_match(rules: Seq<Rule>, nibbles: Seq<u8>, from: int) -> Option<OpCode>
    decreases rules.len() - from,
{
    if from < 0 || from >= rules.len() {
        None
    } else if rule_matches(rules[from].definition, nibbles) {
        Some(rules[from].op_code)
    } else {
        first_match(rules, nibbles, from + 1)
    }
}

/// Rule `i` of the table.
pub open spec fn rule(i: int) -> Rule {
    if i == 0 {
        Rule { definition: seq![Literal(0x0), Literal(0x0), Literal(0xE), Literal(0x0)], op_code: OpCode::Cls }
    } else if i == 1 {
        Rule { definition: seq![Literal(0x1), Nnn], op_code: OpCode::Jmp }
    } else if i == 2 {
        Rule { definition: seq![Literal(0x6), X, Kk], op_code: OpCode::LdVxBy }
    } else if i == 3 {
        Rule { definition: seq![Literal(0x7), X, Kk], op_code: OpCode::Add }
    } else if i == 4 {
        Rule { definition: seq![Literal(0xA), Nnn], op_code: OpCode::LdI }
    } else if i == 5 {
        Rule { definition: seq![Literal(0xD), X, Y, N], op_code: OpCode::Display }
    } else if i == 6 {
        Rule { definition: seq![Literal(0x0), Literal(0x0), Literal(0xE), Literal(0xE)], op_code: OpCode::Ret }
    } else if i == 7 {
        Rule { definition: seq![Literal(0x2), Nnn], op_code: OpCode::Call }
    } else if i == 8 {
        Rule { definition: seq![Literal(0x3), X, Kk], op_code: OpCode::SeVxBy }
    } else if i == 9 {
        Rule { definition: seq![Literal(0x4), X, Kk], op_code: OpCode::SneVxBy }
    } else if i == 10 {
        Rule { definition: seq![Literal(0x5), X, Y, Literal(0x0)], op_code: OpCode::SeVxVy }
    } else if i == 11 {
        Rule { definition: seq![Literal(0x8), X, Y, Literal(0x0)], op_code: OpCode::LdVxVy }
    } else if i == 12 {
        Rule { definition: seq![Literal(0x8), X, Y, Literal(0x1)], op_code: OpCode::OrVxVy }
    } else if i == 13 {
        Rule { definition: seq![Literal(0x8), X, Y, Literal(0x2)], op_code: OpCode::AndVxVy }
    } else if i == 14 {
        Rule { definition: seq![Literal(0x8), X, Y, Literal(0x3)], op_code: OpCode::XorVxVy }
    } else if i == 15 {
        Rule { definition: seq![Literal(0x8), X, Y, Literal(0x4)], op_code: OpCode::AddVxVy }
    } else if i == 16 {
        Rule { definition: seq![Literal(0x8), X, Y, Literal(0x5)], op_code: OpCode::SubVxVy }
    } else if i == 17 {
        Rule { definition: seq![Literal(0x8), X, Y, Literal(0x6)], op_code: OpCode::ShrVxVy }
    } else if i == 18 {
        Rule { definition: seq![Literal(0x8), X, Y, Literal(0x7)], op_code: OpCode::SubnVxVy }
    } else if i == 19 {
        Rule { definition: seq![Literal(0x8), X, Y, Literal(0xE)], op_code: OpCode::ShlVxVy }
    } else if i == 20 {
        Rule { definition: seq![Literal(0x9), X, Y, Literal(0x0)], op_code: OpCode::SneVxVy }
    } else if i == 21 {
        Rule { definition: seq![Literal(0xB), Nnn], op_code: OpCode::JpV0Addr }
    } else if i == 22 {
        Rule { definition: seq![Literal(0xC), X, Kk], op_code: OpCode::RndVxBy }
    } else if i == 23 {
        Rule { definition: seq![Literal(0xE), X, Literal(0x9), Literal(0xE)], op_code: OpCode::SkpVx }
    } else if i == 24 {
        Rule { definition: seq![Literal(0xE), X, Literal(0xA), Literal(0x1)], op_code: OpCode::SknpVx }
    } else if i == 25 {
        Rule { definition: seq![Literal(0xF), X, Literal(0x0), Literal(0x7)], op_code: OpCode::LdVxDt }
    } else if i == 26 {
        Rule { definition: seq![Literal(0xF), X, Literal(0x0), Literal(0xA)], op_code: OpCode::LdVxK }
    } else if i == 27 {
        Rule { definition: seq![Literal(0xF), X, Literal(0x1), Literal(0x5)], op_code: OpCode::LdDtVx }
    } else if i == 28 {
        Rule { definition: seq![Literal(0xF), X, Literal(0x1), Literal(0x8)], op_code: OpCode::LdStVx }
    } else if i == 29 {
        Rule { definition: seq![Literal(0xF), X, Literal(0x1), Literal(0xE)], op_code: OpCode::AddIVx }
    } else if i == 30 {
        Rule { definition: seq![Literal(0xF), X, Literal(0x2), Literal(0x9)], op_code: OpCode::LdFVx }
    } else if i == 31 {
        Rule { definition: seq![Literal(0xF), X, Literal(0x3), Literal(0x3)], op_code: OpCode::LdBVx }
    } else if i == 32 {
        Rule { definition: seq![Literal(0xF), X, Literal(0x5), Literal(0x5)], op_code: OpCode::LdIVx }
    } else {
        Rule { definition: seq![Literal(0xF), X, Literal(0x6), Literal(0x5)], op_code: OpCode::LdVxI }
    }
}

/// The number of rules.
pub open spec fn rule_count() -> int {
    34
}

/// The table, in the order in which it is searched.
pub open spec fn rule_table() -> Seq<Rule> {
    Seq::new(rule_count() as nat, |i: int| rule(i))
}

/// The operation that the table gives to an instruction, if any.
pub open spec fn classify(nibbles: Seq<u8>) -> Option<OpCode> {
    first_match(rule_table(), nibbles, 0)
}

/// The encoding of each operation, written out nibble by nibble: the
/// instruction with the nibbles `n` stands for `op`.
pub open spec fn encodes(n: Seq<u8>, op: OpCode) -> bool {
    match op {
        OpCode::Cls => n[0] == 0x0 && n[1] == 0x0 && n[2] == 0xE && n[3] == 0x0,
        OpCode::Jmp => n[0] == 0x1,
        OpCode::LdVxBy => n[0] == 0x6,
        OpCode::Add => n[0] == 0x7,
        OpCode::LdI => n[0] == 0xA,
        OpCode::Display => n[0] == 0xD,
        OpCode::Ret => n[0] == 0x0 && n[1] == 0x0 && n[2] == 0xE && n[3] == 0xE,
        OpCode::Call => n[0] == 0x2,
        OpCode::SeVxBy => n[0] == 0x3,
        OpCode::SneVxBy => n[0] == 0x4,
        OpCode::SeVxVy => n[0] == 0x5 && n[3] == 0x0,
        OpCode::LdVxVy => n[0] == 0x8 && n[3] == 0x0,
        OpCode::OrVxVy => n[0] == 0x8 && n[3] == 0x1,
        OpCode::AndVxVy => n[0] == 0x8 && n[3] == 0x2,
        OpCode::XorVxVy => n[0] == 0x8 && n[3] == 0x3,
        OpCode::AddVxVy => n[0] == 0x8 && n[3] == 0x4,
        OpCode::SubVxVy => n[0] == 0x8 && n[3] == 0x5,
        OpCode::ShrVxVy => n[0] == 0x8 && n[3] == 0x6,
        OpCode::SubnVxVy => n[0] == 0x8 && n[3] == 0x7,
        OpCode::ShlVxVy => n[0] == 0x8 && n[3] == 0xE,
        OpCode::SneVxVy => n[0] == 0x9 && n[3] == 0x0,
        OpCode::JpV0Addr => n[0] == 0xB,
        OpCode::RndVxBy => n[0] == 0xC,
        OpCode::SkpVx => n[0] == 0xE && n[2] == 0x9 && n[3] == 0xE,
        OpCode::SknpVx => n[0] == 0xE && n[2] == 0xA && n[3] == 0x1,
        OpCode::LdVxDt => n[0] == 0xF && n[2] == 0x0 && n[3] == 0x7,
        OpCode::LdVxK => n[0] == 0xF && n[2] == 0x0 && n[3] == 0xA,
        OpCode::LdDtVx => n[0] == 0xF && n[2] == 0x1 && n[3] == 0x5,
        OpCode::LdStVx => n[0] == 0xF && n[2] == 0x1 && n[3] == 0x8,
        OpCode::AddIVx => n[0] == 0xF && n[2] == 0x1 && n[3] == 0xE,
        OpCode::LdFVx => n[0] == 0xF && n[2] == 0x2 && n[3] == 0x9,
        OpCode::LdBVx => n[0] == 0xF && n[2] == 0x3 && n[3] == 0x3,
        OpCode::LdIVx => n[0] == 0xF && n[2] == 0x5 && n[3] == 0x5,
        OpCode::LdVxI => n[0] == 0xF && n[2] == 0x6 && n[3] == 0x5,
    }
}

/// The operation that the instruction with the nibbles `n` encodes, if it
/// encodes one.
pub open spec fn decode(n: Seq<u8>) -> Option<OpCode> {
    if encodes(n, OpCode::Cls) {
        Some(OpCode::Cls)
    } else if encodes(n, OpCode::Jmp) {
        Some(OpCode::Jmp)
    } else if encodes(n, OpCode::LdVxBy) {
        Some(OpCode::LdVxBy)
    } else if encodes(n, OpCode::Add) {
        Some(OpCode::Add)
    } else if encodes(n, OpCode::LdI) {
        Some(OpCode::LdI)
    } else if encodes(n, OpCode::Display) {
        Some(OpCode::Display)
    } else if encodes(n, OpCode::Ret) {
        Some(OpCode::Ret)
    } else if encodes(n, OpCode::Call) {
        Some(OpCode::Call)
    } else if encodes(n, OpCode::SeVxBy) {
        Some(OpCode::SeVxBy)
    } else if encodes(n, OpCode::SneVxBy) {
        Some(OpCode::SneVxBy)
    } else if encodes(n, OpCode::SeVxVy) {
        Some(OpCode::SeVxVy)
    } else if encodes(n, OpCode::LdVxVy) {
        Some(OpCode::LdVxVy)
    } else if encodes(n, OpCode::OrVxVy) {
        Some(OpCode::OrVxVy)
    } else if encodes(n, OpCode::AndVxVy) {
        Some(OpCode::AndVxVy)
    } else if encodes(n, OpCode::XorVxVy) {
        Some(OpCode::XorVxVy)
    } else if encodes(n, OpCode::AddVxVy) {
        Some(OpCode::AddVxVy)
    } else if encodes(n, OpCode::SubVxVy) {
        Some(OpCode::SubVxVy)
    } else if encodes(n, OpCode::ShrVxVy) {
        Some(OpCode::ShrVxVy)
    } else if encodes(n, OpCode::SubnVxVy) {
        Some(OpCode::SubnVxVy)
    } else if encodes(n, OpCode::ShlVxVy) {
        Some(OpCode::ShlVxVy)
    } else if encodes(n, OpCode::SneVxVy) {
        Some(OpCode::SneVxVy)
    } else if encodes(n, OpCode::JpV0Addr) {
        Some(OpCode::JpV0Addr)
    } else if encodes(n, OpCode::RndVxBy) {
        Some(OpCode::RndVxBy)
    } else if encodes(n, OpCode::SkpVx) {
        Some(OpCode::SkpVx)
    } else if encodes(n, OpCode::SknpVx) {
        Some(OpCode::SknpVx)
    } else if encodes(n, OpCode::LdVxDt) {
        Some(OpCode::LdVxDt)
    } else if encodes(n, OpCode::LdVxK) {
        Some(OpCode::LdVxK)
    } else if encodes(n, OpCode::LdDtVx) {
        Some(OpCode::LdDtVx)
    } else if encodes(n, OpCode::LdStVx) {
        Some(OpCode::LdStVx)
    } else if encodes(n, OpCode::AddIVx) {
        Some(OpCode::AddIVx)
    } else if encodes(n, OpCode::LdFVx) {
        Some(OpCode::LdFVx)
    } else if encodes(n, OpCode::LdBVx) {
        Some(OpCode::LdBVx)
    } else if encodes(n, OpCode::LdIVx) {
        Some(OpCode::LdIVx)
    } else if encodes(n, OpCode::LdVxI) {
        Some(OpCode::LdVxI)
    } else {
        None
    }
}

/// The place of the rule that stands for `op`.
pub open spec fn rule_index(op: OpCode) -> int {
    match op {
        OpCode::Cls => 0,
        OpCode::Jmp => 1,
        OpCode::LdVxBy => 2,
        OpCode::Add => 3,
        OpCode::LdI => 4,
        OpCode::Display => 5,
        OpCode::Ret => 6,
        OpCode::Call => 7,
        OpCode::SeVxBy => 8,
        OpCode::SneVxBy => 9,
        OpCode::SeVxVy => 10,
        OpCode::LdVxVy => 11,
        OpCode::OrVxVy => 12,
        OpCode::AndVxVy => 13,
        OpCode::XorVxVy => 14,
        OpCode::AddVxVy => 15,
        OpCode::SubVxVy => 16,
        OpCode::ShrVxVy => 17,
        OpCode::SubnVxVy => 18,
        OpCode::ShlVxVy => 19,
        OpCode::SneVxVy => 20,
        OpCode::JpV0Addr => 21,
        OpCode::RndVxBy => 22,
        OpCode::SkpVx => 23,
        OpCode::SknpVx => 24,
        OpCode::LdVxDt => 25,
        OpCode::LdVxK => 26,
        OpCode::LdDtVx => 27,
        OpCode::LdStVx => 28,
        OpCode::AddIVx => 29,
        OpCode::LdFVx => 30,
        OpCode::LdBVx => 31,
        OpCode::LdIVx => 32,
        OpCode::LdVxI => 33,
    }
}

impl Operation {
    /// The rule that gives the operation `op_code` to the instructions that
    /// `definition` matches.
    pub fn new(op_code: OpCode, definition: Vec<OperationComponent>) -> (op: Self)
        ensures
            op@ == (Rule { definition: definition@, op_code }),
    {
        Self { definition, op_code }
    }

    /// The rule table.
    pub fn get_operations() -> (ops: Vec<Operation>)
        ensures
            ops@.len() == rule_count(),
            forall|i: int| 0 <= i < rule_count() ==> (#[trigger] ops@[i])@ == rule(i),
    {
        let ops = vec![
            Self::new(
                OpCode::Cls,
                vec![
                    OperationComponent::Literal(0x0),
                    OperationComponent::Literal(0x0),
                    OperationComponent::Literal(0xE),
                    OperationComponent::Literal(0x0),
                ],
            ),
            Self::new(
                OpCode::Jmp,
                vec![OperationComponent::Literal(0x1), OperationComponent::Nnn],
            ),
            Self::new(
                OpCode::LdVxBy,
                vec![
                    OperationComponent::Literal(0x6),
                    OperationComponent::X,
                    OperationComponent::Kk,
                ],
            ),
            Self::new(
                OpCode::Add,
                vec![
                    OperationComponent::Literal(0x7),
                    OperationComponent::X,
                    OperationComponent::Kk,
                ],
            ),
            Self::new(
                OpCode::LdI,
                vec![OperationComponent::Literal(0xA), OperationComponent::Nnn],
            ),
            Self::new(
                OpCode::Display,
                vec![
                    OperationComponent::Literal(0xD),
                    OperationComponent::X,
                    OperationComponent::Y,
                    OperationComponent::N,
                ],
            ),
            Self::new(
                OpCode::Ret,
                vec![
                    OperationComponent::Literal(0x0),
                    OperationComponent::Literal(0x0),
                    OperationComponent::Literal(0xE),
                    OperationComponent::Literal(0xE),
                ],
            ),
            Self::new(
                OpCode::Call,
                vec![OperationComponent::Literal(0x2), OperationComponent::Nnn],
            ),
            Self::new(
                OpCode::SeVxBy,
                vec![
                    OperationComponent::Literal(0x3),
                    OperationComponent::X,
                    OperationComponent::Kk,
                ],
            ),
            Self::new(
                OpCode::SneVxBy,
                vec![
                    OperationComponent::Literal(0x4),
                    OperationComponent::X,
                    OperationComponent::Kk,
                ],
            ),
            Self::new(
                OpCode::SeVxVy,
                vec![
                    OperationComponent::Literal(0x5),
                    OperationComponent::X,
                    OperationComponent::Y,
                    OperationComponent::Literal(0x0),
                ],
            ),
            Self::new(
                OpCode::LdVxVy,
                vec![
                    OperationComponent::Literal(0x8),
                    OperationComponent::X,
                    OperationComponent::Y,
                    OperationComponent::Literal(0x0),
                ],
            ),
            Self::new(
                OpCode::OrVxVy,
                vec![
                    OperationComponent::Literal(0x8),
                    OperationComponent::X,
                    OperationComponent::Y,
                    OperationComponent::Literal(0x1),
                ],
            ),
            Self::new(
                OpCode::AndVxVy,
                vec![
                    OperationComponent::Literal(0x8),
                    OperationComponent::X,
                    OperationComponent::Y,
                    OperationComponent::Literal(0x2),
                ],
            ),
            Self::new(
                OpCode::XorVxVy,
                vec![
                    OperationComponent::Literal(0x8),
                    OperationComponent::X,
                    OperationComponent::Y,
                    OperationComponent::Literal(0x3),
                ],
            ),
            Self::new(
                OpCode::AddVxVy,
                vec![
                    OperationComponent::Literal(0x8),
                    OperationComponent::X,
                    OperationComponent::Y,
                    OperationComponent::Literal(0x4),
                ],
            ),
            Self::new(
                OpCode::SubVxVy,
                vec![
                    OperationComponent::Literal(0x8),
                    OperationComponent::X,
                    OperationComponent::Y,
                    OperationComponent::Literal(0x5),
                ],
            ),
            Self::new(
                OpCode::ShrVxVy,
                vec![
                    OperationComponent::Literal(0x8),
                    OperationComponent::X,
                    OperationComponent::Y,
                    OperationComponent::Literal(0x6),
                ],
            ),
            Self::new(
                OpCode::SubnVxVy,
                vec![
                    OperationComponent::Literal(0x8),
                    OperationComponent::X,
                    OperationComponent::Y,
                    OperationComponent::Literal(0x7),
                ],
            ),
            Self::new(
                OpCode::ShlVxVy,
                vec![
                    OperationComponent::Literal(0x8),
                    OperationComponent::X,
                    OperationComponent::Y,
                    OperationComponent::Literal(0xE),
                ],
            ),
            Self::new(
                OpCode::SneVxVy,
                vec![
                    OperationComponent::Literal(0x9),
                    OperationComponent::X,
                    OperationComponent::Y,
                    OperationComponent::Literal(0x0),
                ],
            ),
            Self::new(
                OpCode::JpV0Addr,
                vec![OperationComponent::Literal(0xB), OperationComponent::Nnn],
            ),
            Self::new(
                OpCode::RndVxBy,
                vec![
                    OperationComponent::Literal(0xC),
                    OperationComponent::X,
                    OperationComponent::Kk,
                ],
            ),
            Self::new(
                OpCode::SkpVx,
                vec![
                    OperationComponent::Literal(0xE),
                    OperationComponent::X,
                    OperationComponent::Literal(0x9),
                    OperationComponent::Literal(0xE),
                ],
            ),
            Self::new(
                OpCode::SknpVx,
                vec![
                    OperationComponent::Literal(0xE),
                    OperationComponent::X,
                    OperationComponent::Literal(0xA),
                    OperationComponent::Literal(0x1),
                ],
            ),
            Self::new(
                OpCode::LdVxDt,
                vec![
                    OperationComponent::Literal(0xF),
                    OperationComponent::X,
                    OperationComponent::Literal(0x0),
                    OperationComponent::Literal(0x7),
                ],
            ),
            Self::new(
                OpCode::LdVxK,
                vec![
                    OperationComponent::Literal(0xF),
                    OperationComponent::X,
                    OperationComponent::Literal(0x0),
                    OperationComponent::Literal(0xA),
                ],
            ),
            Self::new(
                OpCode::LdDtVx,
                vec![
                    OperationComponent::Literal(0xF),
                    OperationComponent::X,
                    OperationComponent::Literal(0x1),
                    OperationComponent::Literal(0x5),
                ],
            ),
            Self::new(
                OpCode::LdStVx,
                vec![
                    OperationComponent::Literal(0xF),
                    OperationComponent::X,
                    OperationComponent::Literal(0x1),
                    OperationComponent::Literal(0x8),
                ],
            ),
            Self::new(
                OpCode::AddIVx,
                vec![
                    OperationComponent::Literal(0xF),
                    OperationComponent::X,
                    OperationComponent::Literal(0x1),
                    OperationComponent::Literal(0xE),
                ],
            ),
            Self::new(
                OpCode::LdFVx,
                vec![
                    OperationComponent::Literal(0xF),
                    OperationComponent::X,
                    OperationComponent::Literal(0x2),
                    OperationComponent::Literal(0x9),
                ],
            ),
            Self::new(
                OpCode::LdBVx,
                vec![
                    OperationComponent::Literal(0xF),
                    OperationComponent::X,
                    OperationComponent::Literal(0x3),
                    OperationComponent::Literal(0x3),
                ],
            ),
            Self::new(
                OpCode::LdIVx,
                vec![
                    OperationComponent::Literal(0xF),
                    OperationComponent::X,
                    OperationComponent::Literal(0x5),
                    OperationComponent::Literal(0x5),
                ],
            ),
            Self::new(
                OpCode::LdVxI,
                vec![
                    OperationComponent::Literal(0xF),
                    OperationComponent::X,
                    OperationComponent::Literal(0x6),
                    OperationComponent::Literal(0x5),
                ],
            ),
        ];
        proof {
            assert(ops@[0]@.definition =~= rule(0).definition);
            assert(ops@[1]@.definition =~= rule(1).definition);
            assert(ops@[2]@.definition =~= rule(2).definition);
            assert(ops@[3]@.definition =~= rule(3).definition);
            assert(ops@[4]@.definition =~= rule(4).definition);
            assert(ops@[5]@.definition =~= rule(5).definition);
            assert(ops@[6]@.definition =~= rule(6).definition);
            assert(ops@[7]@.definition =~= rule(7).definition);
            assert(ops@[8]@.definition =~= rule(8).definition);
            assert(ops@[9]@.definition =~= rule(9).definition);
            assert(ops@[10]@.definition =~= rule(10).definition);
            assert(ops@[11]@.definition =~= rule(11).definition);
            assert(ops@[12]@.definition =~= rule(12).definition);
            assert(ops@[13]@.definition =~= rule(13).definition);
            assert(ops@[14]@.definition =~= rule(14).definition);
            assert(ops@[15]@.definition =~= rule(15).definition);
            assert(ops@[16]@.definition =~= rule(16).definition);
            assert(ops@[17]@.definition =~= rule(17).definition);
            assert(ops@[18]@.definition =~= rule(18).definition);
            assert(ops@[19]@.definition =~= rule(19).definition);
            assert(ops@[20]@.definition =~= rule(20).definition);
            assert(ops@[21]@.definition =~= rule(21).definition);
            assert(ops@[22]@.definition =~= rule(22).definition);
            assert(ops@[23]@.definition =~= rule(23).definition);
            assert(ops@[24]@.definition =~= rule(24).definition);
            assert(ops@[25]@.definition =~= rule(25).definition);
            assert(ops@[26]@.definition =~= rule(26).definition);
            assert(ops@[27]@.definition =~= rule(27).definition);
            assert(ops@[28]@.definition =~= rule(28).definition);
            assert(ops@[29]@.definition =~= rule(29).definition);
            assert(ops@[30]@.definition =~= rule(30).definition);
            assert(ops@[31]@.definition =~= rule(31).definition);
            assert(ops@[32]@.definition =~= rule(32).definition);
            assert(ops@[33]@.definition =~= rule(33).definition);
        }
        ops
    }
}

/// Each matcher takes at least one nibble, so offsets grow with the place.
proof fn lemma_offset_grows(def: Seq<OperationComponent>, k: int, m: int)
    requires
        0 <= k <= m,
    ensures
        offset(def, k) + (m - k) <= offset(def, m),
        0 <= offset(def, k),
    decreases m,
{
    if m > 0 {
        if k < m {
            lemma_offset_grows(def, k, m - 1);
        } else {
            lemma_offset_grows(def, k - 1, m - 1);
        }
    }
}

/// A rule of at most four matchers matches when its matchers each hold.
proof fn lemma_matches_unrolled(def: Seq<OperationComponent>, n: Seq<u8>)
    requires
        def.len() <= 4,
    ensures
        rule_matches(def, n) <==> {
            &&& 0 < def.len() ==> literal_holds(def, n, 0)
            &&& 1 < def.len() ==> literal_holds(def, n, 1)
            &&& 2 < def.len() ==> literal_holds(def, n, 2)
            &&& 3 < def.len() ==> literal_holds(def, n, 3)
        },
{
}

/// Every rule of the table takes exactly four nibbles.
pub proof fn lemma_rules_span_word(i: int)
    requires
        0 <= i < rule_count(),
    ensures
        spans_word(rule(i).definition),
        rule(i).definition.len() <= 4,
{
    reveal_with_fuel(offset, 5);
}

/// Rule `i` matches exactly the instructions that encode its operation.
pub proof fn lemma_rule_encodes(i: int, n: Seq<u8>)
    requires
        0 <= i < rule_count(),
        n.len() == 4,
    ensures
        rule_matches(rule(i).definition, n) <==> encodes(n, rule(i).op_code),
{
    reveal_with_fuel(offset, 5);
    lemma_matches_unrolled(rule(i).definition, n);
}

/// The rule at the place that `rule_index` gives stands for that operation.
pub proof fn lemma_rule_index(op: OpCode)
    ensures
        0 <= rule_index(op) < rule_count(),
        rule(rule_index(op)).op_code == op,
{
}

/// No instruction encodes two operations.
pub proof fn lemma_encodes_unique(n: Seq<u8>, a: OpCode, b: OpCode)
    requires
        encodes(n, a),
        encodes(n, b),
    ensures
        a == b,
{
}

/// No instruction matches two rules of the table.
pub proof fn lemma_rules_unambiguous(n: Seq<u8>, i: int, j: int)
    requires
        n.len() == 4,
        0 <= i < rule_count(),
        0 <= j < rule_count(),
        rule_matches(rule(i).definition, n),
        rule_matches(rule(j).definition, n),
    ensures
        i == j,
{
    lemma_rule_encodes(i, n);
    lemma_rule_encodes(j, n);
    lemma_encodes_unique(n, rule(i).op_code, rule(j).op_code);
}

/// What `first_match` finds from `from` on is a rule that matches, and
/// where it finds nothing, no rule from `from` on matches.
proof fn lemma_first_match(rules: Seq<Rule>, n: Seq<u8>, from: int)
    requires
        0 <= from <= rules.len(),
    ensures
        match first_match(rules, n, from) {
            Some(op) => exists|i: int|
                from <= i < rules.len() && #[trigger] rule_matches(rules[i].definition, n)
                    && rules[i].op_code == op,
            None => forall|i: int|
                from <= i < rules.len() ==> !#[trigger] rule_matches(rules[i].definition, n),
        },
    decreases rules.len() - from,
{
    if from < rules.len() && !rule_matches(rules[from].definition, n) {
        lemma_first_match(rules, n, from + 1);
    }
}

/// The table gives an instruction the operation that it encodes, and none
/// to an instruction that encodes no operation.
pub proof fn lemma_classify_encodes(n: Seq<u8>)
    requires
        n.len() == 4,
    ensures
        forall|op: OpCode| classify(n) == Some(op) <==> encodes(n, op),
        classify(n) == decode(n),
{
    let rules = rule_table();
    lemma_first_match(rules, n, 0);
    assert forall|i: int| 0 <= i < rule_count() implies (rule_matches(
        #[trigger] rules[i].definition,
        n,
    ) <==> encodes(n, rules[i].op_code)) by {
        lemma_rule_encodes(i, n);
    }
    assert forall|op: OpCode| classify(n) == Some(op) <==> encodes(n, op) by {
        lemma_rule_index(op);
        let j = rule_index(op);
        assert(rules[j].op_code == op);
        if encodes(n, op) {
            assert(rule_matches(rules[j].definition, n));
            let found = classify(n)->Some_0;
            lemma_encodes_unique(n, found, op);
        }
    }
}

impl Operation {
    /// Whether the rule matches the four nibbles `bits`: whether each of
    /// its literals equals the nibble it lies on.
    pub fn accepts(&self, bits: &[u8; 4]) -> (ok: bool)
        requires
            fits_word(self.definition@),
        ensures
            ok == rule_matches(self.definition@, bits@),
    {
        let n: usize = self.definition.len();
        let mut i: usize = 0;
        let mut k: usize = 0;
        while k < n
            invariant
                k <= n,
                n == self.definition@.len(),
                fits_word(self.definition@),
                i == offset(self.definition@, k as int),
                forall|j: int| 0 <= j < k ==> #[trigger] literal_holds(self.definition@, bits@, j),
            decreases n - k,
        {
            proof {
                lemma_offset_grows(self.definition@, k as int, n as int);
            }
            match self.definition[k] {
                Literal(c) => {
                    if bits[i] != c {
                        assert(!literal_holds(self.definition@, bits@, k as int));
                        return false;
                    }
                    i += 1;
                },
                Nnn => i += 3,
                N => i += 1,
                X => i += 1,
                Y => i += 1,
                Kk => i += 2,
            }
            k += 1;
        }
        true
    }

    /// The operation that the rule table gives to `instruction`: that of
    /// the first rule that matches, which is the only one, and `None` for
    /// an instruction that no rule matches.
    pub fn get_op_code(instruction: &Instruction) -> (op: Option<OpCode>)
        ensures
            op == classify(instruction.nibbles()),
            op == decode(instruction.nibbles()),
    {
        let operations = Operation::get_operations();
        let instruction_bits: [u8; 4] = instruction.get_bits();
        let mut i: usize = 0;
        proof {
            lemma_classify_encodes(instruction.nibbles());
        }
        while i < operations.len()
            invariant
                i <= operations.len(),
                operations@.len() == rule_count(),
                forall|j: int| 0 <= j < rule_count() ==> (#[trigger] operations@[j])@ == rule(j),
                instruction_bits@ == instruction.nibbles(),
                classify(instruction.nibbles()) == decode(instruction.nibbles()),
                classify(instruction.nibbles()) == first_match(
                    rule_table(),
                    instruction.nibbles(),
                    i as int,
                ),
            decreases operations.len() - i,
        {
            proof {
                lemma_rules_span_word(i as int);
            }
            assert(operations@[i as int]@ == rule_table()[i as int]);
            if operations[i].accepts(&instruction_bits) {
                return Some(operations[i].op_code);
            }
            i += 1;
        }
        None
    }
}

} // verus!
