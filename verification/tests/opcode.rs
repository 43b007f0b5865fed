use chip8::instruction::Instruction;
use chip8::opcode::{OpCode, Operation, OperationComponent};

fn classify(word: u16) -> Option<OpCode> {
    Operation::get_op_code(&Instruction::new([(word >> 8) as u8, word as u8]))
}

#[test]
fn clear_display_is_classified() {
    assert_eq!(Operation::get_op_code(&Instruction::new([0x00, 0xE0])), Some(OpCode::Cls));
}

#[test]
fn jump_is_classified_with_its_address() {
    let ins = Instruction::new([0x12, 0x34]);
    assert_eq!(Operation::get_op_code(&ins), Some(OpCode::Jmp));
    assert_eq!(ins.get_nnn(), 0x234);
}

#[test]
fn add_with_carry_is_8xy4_and_and_is_8xy2() {
    assert_eq!(
        Operation::get_op_code(&Instruction::new([0x81, 0x24])),
        Some(OpCode::AddVxVy)
    );
    assert_eq!(
        Operation::get_op_code(&Instruction::new([0x81, 0x22])),
        Some(OpCode::AndVxVy)
    );
    for x in 0..16u16 {
        for y in 0..16u16 {
            assert_eq!(classify(0x8001 | x << 8 | y << 4), Some(OpCode::OrVxVy));
            assert_eq!(classify(0x8002 | x << 8 | y << 4), Some(OpCode::AndVxVy));
            assert_eq!(classify(0x8003 | x << 8 | y << 4), Some(OpCode::XorVxVy));
            assert_eq!(classify(0x8004 | x << 8 | y << 4), Some(OpCode::AddVxVy));
        }
    }
}

#[test]
fn unmatched_instruction_is_none() {
    assert_eq!(Operation::get_op_code(&Instruction::new([0x51, 0x23])), None);
    for low in 1..16u16 {
        assert_eq!(classify(0x5000 | low), None);
        assert_eq!(classify(0x5AB0 | low), None);
        assert_eq!(classify(0x9000 | low), None);
    }
    assert_eq!(classify(0x0000), None);
    assert_eq!(classify(0x00E1), None);
    assert_eq!(classify(0x01E0), None);
    assert_eq!(classify(0x8128), None);
    assert_eq!(classify(0x812F), None);
    assert_eq!(classify(0xE19F), None);
    assert_eq!(classify(0xE1A0), None);
    assert_eq!(classify(0xF100), None);
    assert_eq!(classify(0xF1FF), None);
}

#[test]
fn every_operation_has_its_encoding() {
    let cases = [
        (0x00E0, OpCode::Cls),
        (0x00EE, OpCode::Ret),
        (0x1ABC, OpCode::Jmp),
        (0x2ABC, OpCode::Call),
        (0x3A12, OpCode::SeVxBy),
        (0x4A12, OpCode::SneVxBy),
        (0x5AB0, OpCode::SeVxVy),
        (0x6A12, OpCode::LdVxBy),
        (0x7A12, OpCode::Add),
        (0x8AB0, OpCode::LdVxVy),
        (0x8AB1, OpCode::OrVxVy),
        (0x8AB2, OpCode::AndVxVy),
        (0x8AB3, OpCode::XorVxVy),
        (0x8AB4, OpCode::AddVxVy),
        (0x8AB5, OpCode::SubVxVy),
        (0x8AB6, OpCode::ShrVxVy),
        (0x8AB7, OpCode::SubnVxVy),
        (0x8ABE, OpCode::ShlVxVy),
        (0x9AB0, OpCode::SneVxVy),
        (0xA123, OpCode::LdI),
        (0xB123, OpCode::JpV0Addr),
        (0xCA12, OpCode::RndVxBy),
        (0xDAB5, OpCode::Display),
        (0xEA9E, OpCode::SkpVx),
        (0xEAA1, OpCode::SknpVx),
        (0xFA07, OpCode::LdVxDt),
        (0xFA0A, OpCode::LdVxK),
        (0xFA15, OpCode::LdDtVx),
        (0xFA18, OpCode::LdStVx),
        (0xFA1E, OpCode::AddIVx),
        (0xFA29, OpCode::LdFVx),
        (0xFA33, OpCode::LdBVx),
        (0xFA55, OpCode::LdIVx),
        (0xFA65, OpCode::LdVxI),
    ];
    assert_eq!(cases.len(), Operation::get_operations().len());
    for (word, op) in cases {
        assert_eq!(classify(word), Some(op), "{:04x}", word);
    }
}

#[test]
fn placeholders_match_every_nibble() {
    for x in 0..16u16 {
        for kk in [0x00u16, 0x5A, 0xFF] {
            assert_eq!(classify(0x6000 | x << 8 | kk), Some(OpCode::LdVxBy));
        }
        for y in 0..16u16 {
            for n in 0..16u16 {
                assert_eq!(classify(0xD000 | x << 8 | y << 4 | n), Some(OpCode::Display));
            }
            assert_eq!(classify(0x8005 | x << 8 | y << 4), Some(OpCode::SubVxVy));
        }
        assert_eq!(classify(0xF033 | x << 8), Some(OpCode::LdBVx));
    }
    for nnn in 0..0x1000u16 {
        assert_eq!(classify(0x1000 | nnn), Some(OpCode::Jmp));
        assert_eq!(classify(0xB000 | nnn), Some(OpCode::JpV0Addr));
    }
}

#[test]
fn table_has_each_operation_once() {
    let operations = Operation::get_operations();
    assert_eq!(operations.len(), 34);
    for (i, a) in operations.iter().enumerate() {
        for b in &operations[i + 1..] {
            assert_ne!(a.op_code, b.op_code);
        }
    }
    assert_eq!(operations[0].op_code, OpCode::Cls);
    assert_eq!(
        operations[0].definition,
        vec![
            OperationComponent::Literal(0x0),
            OperationComponent::Literal(0x0),
            OperationComponent::Literal(0xE),
            OperationComponent::Literal(0x0),
        ]
    );
    assert_eq!(operations[1].op_code, OpCode::Jmp);
    assert_eq!(
        operations[1].definition,
        vec![OperationComponent::Literal(0x1), OperationComponent::Nnn]
    );
    assert_eq!(operations[33].op_code, OpCode::LdVxI);
}

#[test]
fn every_rule_spans_four_nibbles() {
    for operation in Operation::get_operations() {
        let mut width = 0;
        for component in &operation.definition {
            width += match component {
                OperationComponent::Nnn => 3,
                OperationComponent::Kk => 2,
                _ => 1,
            };
            if let OperationComponent::Literal(nibble) = component {
                assert!(*nibble < 16);
            }
        }
        assert_eq!(width, 4);
    }
}

#[test]
fn no_instruction_matches_two_rules() {
    let operations = Operation::get_operations();
    let mut legal = 0u32;
    for word in 0..=0xFFFFu32 {
        let ins = Instruction::new([(word >> 8) as u8, word as u8]);
        let bits = ins.get_bits();
        let mut found: Option<OpCode> = None;
        let mut matches = 0;
        for operation in &operations {
            if operation.accepts(&bits) {
                matches += 1;
                if found.is_none() {
                    found = Some(operation.op_code);
                }
            }
        }
        assert!(matches <= 1, "{:04x}", word);
        if matches == 1 {
            legal += 1;
        }
        if word % 7 == 0 {
            assert_eq!(Operation::get_op_code(&ins), found);
        }
    }
    // 00E0 and 00EE; ten rules that fix only the first nibble; eleven that
    // fix the first and the last; eleven that fix all but the second.
    assert_eq!(legal, 2 + 10 * 4096 + 11 * 256 + 11 * 16);
}

#[test]
fn accepts_compares_literals_only() {
    let rule = Operation::new(
        OpCode::SkpVx,
        vec![
            OperationComponent::Literal(0xE),
            OperationComponent::X,
            OperationComponent::Literal(0x9),
            OperationComponent::Literal(0xE),
        ],
    );
    assert_eq!(rule.op_code, OpCode::SkpVx);
    assert!(rule.accepts(&[0xE, 0x0, 0x9, 0xE]));
    assert!(rule.accepts(&[0xE, 0xF, 0x9, 0xE]));
    assert!(!rule.accepts(&[0xD, 0x0, 0x9, 0xE]));
    assert!(!rule.accepts(&[0xE, 0x0, 0x8, 0xE]));
    assert!(!rule.accepts(&[0xE, 0x0, 0x9, 0xF]));
    let wide = Operation::new(
        OpCode::Jmp,
        vec![OperationComponent::Literal(0x1), OperationComponent::Nnn],
    );
    assert!(wide.accepts(&[0x1, 0xF, 0xF, 0xF]));
    assert!(!wide.accepts(&[0x2, 0x0, 0x0, 0x0]));
    let tail = Operation::new(
        OpCode::LdVxBy,
        vec![OperationComponent::Kk, OperationComponent::N, OperationComponent::Literal(0x7)],
    );
    assert!(tail.accepts(&[0x1, 0x2, 0x3, 0x7]));
    assert!(!tail.accepts(&[0x7, 0x7, 0x7, 0x0]));
}
