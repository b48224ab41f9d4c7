use popper_codegen::error::DecodeError;
use popper_codegen::instr::{Instruction, Literal};

fn round_trip(i: &Instruction) -> Instruction {
    let bytes = i.to_bytecode();
    Instruction::from_bytecode(&bytes).expect("the encoding decodes")
}

fn name(s: &str) -> Vec<u8> {
    s.as_bytes().to_vec()
}

#[test]
fn round_trip_of_each_simple_instruction() {
    let all = vec![
        Instruction::Add,
        Instruction::Sub,
        Instruction::Mul,
        Instruction::Div,
        Instruction::Neg,
        Instruction::Return,
        Instruction::Nop,
        Instruction::Pop,
        Instruction::EndJmp,
    ];
    for i in all.iter() {
        assert_eq!(&round_trip(i), i);
    }
}

#[test]
fn round_trip_of_literals_and_names() {
    let all = vec![
        Instruction::PushLiteral(Literal::Int(-42)),
        Instruction::PushLiteral(Literal::Int(i64::MIN)),
        Instruction::PushLiteral(Literal::Int(i64::MAX)),
        Instruction::PushLiteral(Literal::Float(1.5f64.to_bits())),
        Instruction::PushLiteral(Literal::Bool(true)),
        Instruction::PushLiteral(Literal::Bool(false)),
        Instruction::PushLiteral(Literal::Str(name("hello, world"))),
        Instruction::PushLiteral(Literal::Str(Vec::new())),
        Instruction::PushVariable(name("x")),
        Instruction::Call(name("print")),
        Instruction::Store(name("counter")),
    ];
    for i in all.iter() {
        assert_eq!(&round_trip(i), i);
    }
}

#[test]
fn round_trip_of_nested_blocks_of_depth_four() {
    let inner = Instruction::JIF(
        false,
        vec![Instruction::PushVariable(name("z")), Instruction::Pop],
    );
    let third = Instruction::Jmp(true, vec![inner, Instruction::Nop]);
    let second = Instruction::JIT(false, vec![Instruction::Add, third, Instruction::Sub]);
    let outer = Instruction::JIT(
        true,
        vec![
            Instruction::PushLiteral(Literal::Int(1)),
            second,
            Instruction::JIF(true, Vec::new()),
            Instruction::Store(name("y")),
        ],
    );
    assert_eq!(round_trip(&outer), outer);
}

#[test]
fn encoding_of_simple_instructions_is_one_opcode_byte() {
    assert_eq!(Instruction::Add.to_bytecode(), vec![0x07]);
    assert_eq!(Instruction::Pop.to_bytecode(), vec![0x0E]);
    assert_eq!(Instruction::EndJmp.to_bytecode(), vec![0x10]);
}

#[test]
fn encoding_of_operands() {
    assert_eq!(
        Instruction::PushLiteral(Literal::Int(5)).to_bytecode(),
        vec![0x01, 0, 5, 0, 0, 0, 0, 0, 0, 0]
    );
    assert_eq!(
        Instruction::Store(name("x")).to_bytecode(),
        vec![0x06, 1, 0, 0, 0, 0, 0, 0, 0, b'x']
    );
    assert_eq!(
        Instruction::JIT(true, vec![Instruction::Pop]).to_bytecode(),
        vec![0x0F, 1, 1, 0, 0, 0, 0, 0, 0, 0, 0x0E]
    );
    assert_eq!(
        Instruction::Call(name("f")).to_bytecode(),
        vec![0x05, 1, 0, 0, 0, 0, 0, 0, 0, b'f']
    );
}

#[test]
fn invalid_opcode_is_refused() {
    assert_eq!(
        Instruction::from_bytecode(&vec![0xFF]),
        Err(DecodeError::InvalidOpcode(0xFF))
    );
    assert_eq!(
        Instruction::from_bytecode(&vec![0xFF, 0x07, 0x07]),
        Err(DecodeError::InvalidOpcode(0xFF))
    );
    assert_eq!(
        Instruction::from_bytecode(&vec![0x00]),
        Err(DecodeError::InvalidOpcode(0x00))
    );
}

#[test]
fn invalid_opcode_inside_a_block_is_refused() {
    let bytes = vec![0x0F, 0, 2, 0, 0, 0, 0, 0, 0, 0, 0x07, 0x42];
    assert_eq!(
        Instruction::from_bytecode(&bytes),
        Err(DecodeError::InvalidOpcode(0x42))
    );
}

#[test]
fn empty_and_cut_streams_are_truncated() {
    assert_eq!(
        Instruction::from_bytecode(&Vec::new()),
        Err(DecodeError::Truncated)
    );
    assert_eq!(
        Instruction::from_bytecode(&vec![0x01, 0, 5, 0]),
        Err(DecodeError::Truncated)
    );
    assert_eq!(
        Instruction::from_bytecode(&vec![0x02, 9, 0, 0, 0, 0, 0, 0, 0, b'x']),
        Err(DecodeError::Truncated)
    );
    assert_eq!(
        Instruction::from_bytecode(&vec![0x03, 0, 1, 0, 0, 0, 0, 0, 0, 0]),
        Err(DecodeError::Truncated)
    );
}

#[test]
fn trailing_bytes_are_refused() {
    assert_eq!(
        Instruction::from_bytecode(&vec![0x07, 0x07]),
        Err(DecodeError::TrailingBytes)
    );
}

#[test]
fn bad_literal_kind_and_flag_are_refused() {
    assert_eq!(
        Instruction::from_bytecode(&vec![0x01, 9]),
        Err(DecodeError::InvalidLiteralKind(9))
    );
    assert_eq!(
        Instruction::from_bytecode(&vec![0x01, 2, 7]),
        Err(DecodeError::InvalidFlag(7))
    );
    assert_eq!(
        Instruction::from_bytecode(&vec![0x04, 3, 0, 0, 0, 0, 0, 0, 0, 0]),
        Err(DecodeError::InvalidFlag(3))
    );
}

#[test]
fn copy_gives_an_equal_instruction() {
    let i = Instruction::Jmp(
        true,
        vec![
            Instruction::PushLiteral(Literal::Str(name("s"))),
            Instruction::JIF(false, vec![Instruction::Neg]),
        ],
    );
    assert_eq!(i.copy(), i);
    assert_eq!(Literal::Int(3).copy(), Literal::Int(3));
}
