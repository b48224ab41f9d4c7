//! Instructions of the stack machine and their binary codec.
//!
//! An instruction is one opcode byte followed by its operands. A literal or a
//! name is self-delimiting (a kind byte, and a length in front of any byte
//! string). The three block instructions carry a flag byte, a count and the
//! nested instructions, so the format nests to any depth. Multi-byte numbers
//! are little-endian 64-bit.
use crate::error::DecodeError;
use vstd::prelude::*;

verus! {

broadcast use vstd::std_specs::vec::group_vec_axioms;

/// A value pushed by `PushLiteral`.
#[derive(Clone, Debug, PartialEq)]
pub enum Literal {
    Int(i64),
    /// the IEEE-754 bit pattern of a 64-bit float
    Float(u64),
    Bool(bool),
    /// the bytes of a string
    Str(Vec<u8>),
}

/// One instruction of the stack machine. Names are the bytes of the name.
#[derive(Debug, PartialEq)]
pub enum Instruction {
    PushLiteral(Literal),
    PushVariable(Vec<u8>),
    /// run the block if the retained condition is false
    JIF(bool, Vec<Instruction>),
    /// run the block
    Jmp(bool, Vec<Instruction>),
    /// run the block if the retained condition is true
    JIT(bool, Vec<Instruction>),
    Call(Vec<u8>),
    Store(Vec<u8>),
    Add,
    Sub,
    Mul,
    Div,
    Neg,
    Return,
    Nop,
    Pop,
    EndJmp,
}

/// The mathematical value of a `Literal`.
pub enum LitV {
    Int(i64),
    Float(u64),
    Bool(bool),
    Str(Seq<u8>),
}

/// The mathematical value of an `Instruction`: nested blocks are sequences.
pub enum InstrV {
    PushLiteral(LitV),
    PushVariable(Seq<u8>),
    JIF(bool, Seq<InstrV>),
    Jmp(bool, Seq<InstrV>),
    JIT(bool, Seq<InstrV>),
    Call(Seq<u8>),
    Store(Seq<u8>),
    Add,
    Sub,
    Mul,
    Div,
    Neg,
    Return,
    Nop,
    Pop,
    EndJmp,
}

impl View for Literal {
    type V = LitV;

    open spec fn view(&self) -> LitV {
        match self {
            Literal::Int(v) => LitV::Int(*v),
            Literal::Float(b) => LitV::Float(*b),
            Literal::Bool(b) => LitV::Bool(*b),
            Literal::Str(s) => LitV::Str(s@),
        }
    }
}

/// The views of the first `n` instructions of `v`.
pub open spec fn view_prefix(v: &Vec<Instruction>, n: int) -> Seq<InstrV>
    decreases v, n,
{
    if n <= 0 || n > v.len() {
        Seq::empty()
    } else {
        view_prefix(v, n - 1).push(view_instr(&v[n - 1]))
    }
}

/// The views of all instructions of `v`.
pub open spec fn view_block(v: &Vec<Instruction>) -> Seq<InstrV>
    decreases v, v.len() + 1,
{
    view_prefix(v, v.len() as int)
}

pub open spec fn view_instr(i: &Instruction) -> InstrV
    decreases i,
{
    match i {
        Instruction::PushLiteral(l) => InstrV::PushLiteral(l@),
        Instruction::PushVariable(n) => InstrV::PushVariable(n@),
        Instruction::JIF(f, b) => InstrV::JIF(*f, view_block(b)),
        Instruction::Jmp(f, b) => InstrV::Jmp(*f, view_block(b)),
        Instruction::JIT(f, b) => InstrV::JIT(*f, view_block(b)),
        Instruction::Call(n) => InstrV::Call(n@),
        Instruction::Store(n) => InstrV::Store(n@),
        Instruction::Add => InstrV::Add,
        Instruction::Sub => InstrV::Sub,
        Instruction::Mul => InstrV::Mul,
        Instruction::Div => InstrV::Div,
        Instruction::Neg => InstrV::Neg,
        Instruction::Return => InstrV::Return,
        Instruction::Nop => InstrV::Nop,
        Instruction::Pop => InstrV::Pop,
        Instruction::EndJmp => InstrV::EndJmp,
    }
}

impl View for Instruction {
    type V = InstrV;

    open spec fn view(&self) -> InstrV {
        view_instr(self)
    }
}


/// Holds when every byte string and every block is short enough for its
/// 64-bit length prefix.
pub open spec fn wf_lit(l: LitV) -> bool {
    match l {
        LitV::Str(s) => s.len() <= u64::MAX,
        _ => true,
    }
}

pub open spec fn wf_instr(i: InstrV) -> bool
    decreases i,
{
    match i {
        InstrV::PushLiteral(l) => wf_lit(l),
        InstrV::PushVariable(n) => n.len() <= u64::MAX,
        InstrV::Call(n) => n.len() <= u64::MAX,
        InstrV::Store(n) => n.len() <= u64::MAX,
        InstrV::JIF(_, b) => b.len() <= u64::MAX && forall|k: int| 0 <= k < b.len() ==> wf_instr(#[trigger] b[k]),
        InstrV::Jmp(_, b) => b.len() <= u64::MAX && forall|k: int| 0 <= k < b.len() ==> wf_instr(#[trigger] b[k]),
        InstrV::JIT(_, b) => b.len() <= u64::MAX && forall|k: int| 0 <= k < b.len() ==> wf_instr(#[trigger] b[k]),
        _ => true,
    }
}

/// The eight little-endian bytes of `x`.
pub open spec fn le_bytes(x: u64) -> Seq<u8> {
    seq![
        x as u8,
        (x >> 8u64) as u8,
        (x >> 16u64) as u8,
        (x >> 24u64) as u8,
        (x >> 32u64) as u8,
        (x >> 40u64) as u8,
        (x >> 48u64) as u8,
        (x >> 56u64) as u8,
    ]
}

/// The number whose little-endian bytes start at `p` in `b`.
pub open spec fn le_value(b: Seq<u8>, p: int) -> u64 {
    (b[p] as u64) | ((b[p + 1] as u64) << 8u64) | ((b[p + 2] as u64) << 16u64) | ((b[p + 3] as u64)
        << 24u64) | ((b[p + 4] as u64) << 32u64) | ((b[p + 5] as u64) << 40u64) | ((b[p + 6] as u64)
        << 48u64) | ((b[p + 7] as u64) << 56u64)
}

pub open spec fn flag_byte(f: bool) -> u8 {
    if f {
        1
    } else {
        0
    }
}

/// A byte string: its length, then its bytes.
pub open spec fn enc_bytes(s: Seq<u8>) -> Seq<u8> {
    le_bytes(s.len() as u64) + s
}

pub open spec fn enc_lit(l: LitV) -> Seq<u8> {
    match l {
        LitV::Int(v) => seq![0u8] + le_bytes(v as u64),
        LitV::Float(b) => seq![1u8] + le_bytes(b),
        LitV::Bool(b) => seq![2u8, flag_byte(b)],
        LitV::Str(s) => seq![3u8] + enc_bytes(s),
    }
}

/// The opcode byte of each instruction.
pub open spec fn opcode(i: InstrV) -> u8 {
    match i {
        InstrV::PushLiteral(_) => 0x01,
        InstrV::PushVariable(_) => 0x02,
        InstrV::JIF(_, _) => 0x03,
        InstrV::Jmp(_, _) => 0x04,
        InstrV::Call(_) => 0x05,
        InstrV::Store(_) => 0x06,
        InstrV::Add => 0x07,
        InstrV::Sub => 0x08,
        InstrV::Mul => 0x09,
        InstrV::Div => 0x0A,
        InstrV::Neg => 0x0B,
        InstrV::Return => 0x0C,
        InstrV::Nop => 0x0D,
        InstrV::Pop => 0x0E,
        InstrV::JIT(_, _) => 0x0F,
        InstrV::EndJmp => 0x10,
    }
}

/// The bytes of an instruction.
pub open spec fn enc_instr(i: InstrV) -> Seq<u8>
    decreases i,
{
    match i {
        InstrV::PushLiteral(l) => seq![opcode(i)] + enc_lit(l),
        InstrV::PushVariable(n) => seq![opcode(i)] + enc_bytes(n),
        InstrV::Call(n) => seq![opcode(i)] + enc_bytes(n),
        InstrV::Store(n) => seq![opcode(i)] + enc_bytes(n),
        InstrV::JIF(f, b) => seq![opcode(i), flag_byte(f)] + le_bytes(b.len() as u64) + enc_list(b),
        InstrV::Jmp(f, b) => seq![opcode(i), flag_byte(f)] + le_bytes(b.len() as u64) + enc_list(b),
        InstrV::JIT(f, b) => seq![opcode(i), flag_byte(f)] + le_bytes(b.len() as u64) + enc_list(b),
        _ => seq![opcode(i)],
    }
}

/// The bytes of a sequence of instructions, one after the other.
pub open spec fn enc_list(b: Seq<InstrV>) -> Seq<u8>
    decreases b,
{
    if b.len() == 0 {
        Seq::empty()
    } else {
        enc_instr(b[0]) + enc_list(b.subrange(1, b.len() as int))
    }
}

pub open spec fn parse_u64(b: Seq<u8>, p: int) -> Result<u64, DecodeError> {
    if 0 <= p && p + 8 <= b.len() {
        Ok(le_value(b, p))
    } else {
        Err(DecodeError::Truncated)
    }
}

pub open spec fn parse_flag(b: Seq<u8>, p: int) -> Result<bool, DecodeError> {
    if 0 <= p < b.len() {
        if b[p] == 0 {
            Ok(false)
        } else if b[p] == 1 {
            Ok(true)
        } else {
            Err(DecodeError::InvalidFlag(b[p]))
        }
    } else {
        Err(DecodeError::Truncated)
    }
}

/// A byte string at `p`, and the position after it.
pub open spec fn parse_bytes(b: Seq<u8>, p: int) -> Result<(Seq<u8>, int), DecodeError> {
    match parse_u64(b, p) {
        Ok(n) => if n <= b.len() - (p + 8) {
            Ok((b.subrange(p + 8, p + 8 + n), p + 8 + n))
        } else {
            Err(DecodeError::Truncated)
        },
        Err(e) => Err(e),
    }
}

pub open spec fn parse_lit(b: Seq<u8>, p: int) -> Result<(LitV, int), DecodeError> {
    if 0 <= p < b.len() {
        let k = b[p];
        if k == 0 {
            match parse_u64(b, p + 1) {
                Ok(v) => Ok((LitV::Int(v as i64), p + 9)),
                Err(e) => Err(e),
            }
        } else if k == 1 {
            match parse_u64(b, p + 1) {
                Ok(v) => Ok((LitV::Float(v), p + 9)),
                Err(e) => Err(e),
            }
        } else if k == 2 {
            match parse_flag(b, p + 1) {
                Ok(f) => Ok((LitV::Bool(f), p + 2)),
                Err(e) => Err(e),
            }
        } else if k == 3 {
            match parse_bytes(b, p + 1) {
                Ok((s, e)) => Ok((LitV::Str(s), e)),
                Err(e) => Err(e),
            }
        } else {
            Err(DecodeError::InvalidLiteralKind(k))
        }
    } else {
        Err(DecodeError::Truncated)
    }
}

/// The instruction without operands that has opcode `op`, if any.
pub open spec fn simple_instr(op: u8) -> Option<InstrV> {
    if op == 0x07 {
        Some(InstrV::Add)
    } else if op == 0x08 {
        Some(InstrV::Sub)
    } else if op == 0x09 {
        Some(InstrV::Mul)
    } else if op == 0x0A {
        Some(InstrV::Div)
    } else if op == 0x0B {
        Some(InstrV::Neg)
    } else if op == 0x0C {
        Some(InstrV::Return)
    } else if op == 0x0D {
        Some(InstrV::Nop)
    } else if op == 0x0E {
        Some(InstrV::Pop)
    } else if op == 0x10 {
        Some(InstrV::EndJmp)
    } else {
        None
    }
}

/// The block instruction with opcode `op` (`0x03`, `0x04` or `0x0F`).
pub open spec fn block_instr(op: u8, f: bool, items: Seq<InstrV>) -> InstrV {
    if op == 0x03 {
        InstrV::JIF(f, items)
    } else if op == 0x04 {
        InstrV::Jmp(f, items)
    } else {
        InstrV::JIT(f, items)
    }
}

/// The instruction whose opcode is at `p` in `b`, and the position after it.
pub open spec fn parse_instr(b: Seq<u8>, p: int) -> Result<(InstrV, int), DecodeError>
    decreases b.len() - p, 0int,
{
    if 0 <= p < b.len() {
        let op = b[p];
        if op == 0x01 {
            match parse_lit(b, p + 1) {
                Ok((l, e)) => Ok((InstrV::PushLiteral(l), e)),
                Err(e) => Err(e),
            }
        } else if op == 0x02 || op == 0x05 || op == 0x06 {
            match parse_bytes(b, p + 1) {
                Ok((n, e)) => Ok((
                    if op == 0x02 {
                        InstrV::PushVariable(n)
                    } else if op == 0x05 {
                        InstrV::Call(n)
                    } else {
                        InstrV::Store(n)
                    },
                    e,
                )),
                Err(e) => Err(e),
            }
        } else if op == 0x03 || op == 0x04 || op == 0x0F {
            match parse_flag(b, p + 1) {
                Ok(f) => match parse_u64(b, p + 2) {
                    Ok(n) => if p + 10 <= b.len() {
                        match parse_list(b, p + 10, n as nat, Seq::empty()) {
                            Ok((items, e)) => Ok((block_instr(op, f, items), e)),
                            Err(e) => Err(e),
                        }
                    } else {
                        Err(DecodeError::Truncated)
                    },
                    Err(e) => Err(e),
                },
                Err(e) => Err(e),
            }
        } else if let Some(i) = simple_instr(op) {
            Ok((i, p + 1))
        } else {
            Err(DecodeError::InvalidOpcode(op))
        }
    } else {
        Err(DecodeError::Truncated)
    }
}

/// `n` instructions from `p` on, appended to `acc`, and the position after them.
pub open spec fn parse_list(b: Seq<u8>, p: int, n: nat, acc: Seq<InstrV>) -> Result<
    (Seq<InstrV>, int),
    DecodeError,
>
    decreases b.len() - p, 1int,
{
    if n == 0 {
        Ok((acc, p))
    } else {
        match parse_instr(b, p) {
            Ok((i, e)) => if p < e <= b.len() {
                parse_list(b, e, (n - 1) as nat, acc.push(i))
            } else {
                Err(DecodeError::Truncated)
            },
            Err(e) => Err(e),
        }
    }
}

/// The instruction that the whole of `b` encodes.
pub open spec fn decode_spec(b: Seq<u8>) -> Result<InstrV, DecodeError> {
    match parse_instr(b, 0) {
        Ok((i, e)) => if e == b.len() {
            Ok(i)
        } else {
            Err(DecodeError::TrailingBytes)
        },
        Err(e) => Err(e),
    }
}


proof fn lemma_le_value(b: Seq<u8>, p: int, x: u64)
    requires
        0 <= p,
        p + 8 <= b.len(),
        b.subrange(p, p + 8) == le_bytes(x),
    ensures
        le_value(b, p) == x,
{
    let s = b.subrange(p, p + 8);
    assert(s[0] == b[p] && s[1] == b[p + 1] && s[2] == b[p + 2] && s[3] == b[p + 3]);
    assert(s[4] == b[p + 4] && s[5] == b[p + 5] && s[6] == b[p + 6] && s[7] == b[p + 7]);
    let (b0, b1, b2, b3, b4, b5, b6, b7) = (b[p], b[p + 1], b[p + 2], b[p + 3], b[p + 4], b[p + 5], b[p + 6], b[p + 7]);
    assert(b0 == x as u8 && b1 == (x >> 8u64) as u8 && b2 == (x >> 16u64) as u8 && b3 == (x >> 24u64) as u8);
    assert(b4 == (x >> 32u64) as u8 && b5 == (x >> 40u64) as u8 && b6 == (x >> 48u64) as u8 && b7 == (x >> 56u64) as u8);
    assert((b0 as u64) | ((b1 as u64) << 8u64) | ((b2 as u64) << 16u64) | ((b3 as u64) << 24u64) | ((b4 as u64) << 32u64)
        | ((b5 as u64) << 40u64) | ((b6 as u64) << 48u64) | ((b7 as u64) << 56u64) == x) by (bit_vector)
        requires
            b0 == x as u8,
            b1 == (x >> 8u64) as u8,
            b2 == (x >> 16u64) as u8,
            b3 == (x >> 24u64) as u8,
            b4 == (x >> 32u64) as u8,
            b5 == (x >> 40u64) as u8,
            b6 == (x >> 48u64) as u8,
            b7 == (x >> 56u64) as u8,
    ;
}

/// A piece `t` at offset `q` of a piece `s` found at `p` in `b` is found at `p + q`.
proof fn lemma_piece(b: Seq<u8>, p: int, s: Seq<u8>, q: int, t: Seq<u8>)
    requires
        0 <= p,
        p + s.len() <= b.len(),
        b.subrange(p, p + s.len()) == s,
        0 <= q,
        q + t.len() <= s.len(),
        s.subrange(q, q + t.len()) == t,
    ensures
        b.subrange(p + q, p + q + t.len()) == t,
{
    assert forall|k: int| 0 <= k < t.len() implies b.subrange(p + q, p + q + t.len())[k] == t[k] by {
        assert(t[k] == s[q + k]);
        assert(s[q + k] == b.subrange(p, p + s.len())[q + k]);
    }
    assert(b.subrange(p + q, p + q + t.len()) =~= t);
}

proof fn lemma_parse_bytes(b: Seq<u8>, p: int, s: Seq<u8>)
    requires
        0 <= p,
        p + enc_bytes(s).len() <= b.len(),
        b.subrange(p, p + enc_bytes(s).len()) == enc_bytes(s),
        s.len() <= u64::MAX,
    ensures
        parse_bytes(b, p) == Ok::<(Seq<u8>, int), DecodeError>((s, p + enc_bytes(s).len())),
{
    let e = enc_bytes(s);
    assert(e.subrange(0, 8) =~= le_bytes(s.len() as u64));
    lemma_piece(b, p, e, 0, le_bytes(s.len() as u64));
    lemma_le_value(b, p, s.len() as u64);
    assert(e.subrange(8, 8 + s.len() as int) =~= s);
    lemma_piece(b, p, e, 8, s);
}

proof fn lemma_parse_lit(b: Seq<u8>, p: int, l: LitV)
    requires
        wf_lit(l),
        0 <= p,
        p + enc_lit(l).len() <= b.len(),
        b.subrange(p, p + enc_lit(l).len()) == enc_lit(l),
    ensures
        parse_lit(b, p) == Ok::<(LitV, int), DecodeError>((l, p + enc_lit(l).len())),
{
    let e = enc_lit(l);
    assert(b[p] == b.subrange(p, p + e.len())[0]);
    match l {
        LitV::Int(v) => {
            assert(e.subrange(1, 9) =~= le_bytes(v as u64));
            lemma_piece(b, p, e, 1, le_bytes(v as u64));
            lemma_le_value(b, p + 1, v as u64);
            assert((v as u64) as i64 == v) by (bit_vector);
        },
        LitV::Float(x) => {
            assert(e.subrange(1, 9) =~= le_bytes(x));
            lemma_piece(b, p, e, 1, le_bytes(x));
            lemma_le_value(b, p + 1, x);
        },
        LitV::Bool(f) => {
            assert(b[p + 1] == b.subrange(p, p + e.len())[1]);
        },
        LitV::Str(s) => {
            assert(e.subrange(1, e.len() as int) =~= enc_bytes(s));
            lemma_piece(b, p, e, 1, enc_bytes(s));
            lemma_parse_bytes(b, p + 1, s);
        },
    }
}

proof fn lemma_parse_instr(b: Seq<u8>, p: int, i: InstrV)
    requires
        wf_instr(i),
        0 <= p,
        p + enc_instr(i).len() <= b.len(),
        b.subrange(p, p + enc_instr(i).len()) == enc_instr(i),
    ensures
        parse_instr(b, p) == Ok::<(InstrV, int), DecodeError>((i, p + enc_instr(i).len())),
    decreases i,
{
    let e = enc_instr(i);
    assert(b[p] == b.subrange(p, p + e.len())[0]);
    assert(b[p] == opcode(i));
    match i {
        InstrV::PushLiteral(l) => {
            assert(e.subrange(1, e.len() as int) =~= enc_lit(l));
            lemma_piece(b, p, e, 1, enc_lit(l));
            lemma_parse_lit(b, p + 1, l);
        },
        InstrV::PushVariable(n) => {
            assert(e.subrange(1, e.len() as int) =~= enc_bytes(n));
            lemma_piece(b, p, e, 1, enc_bytes(n));
            lemma_parse_bytes(b, p + 1, n);
        },
        InstrV::Call(n) => {
            assert(e.subrange(1, e.len() as int) =~= enc_bytes(n));
            lemma_piece(b, p, e, 1, enc_bytes(n));
            lemma_parse_bytes(b, p + 1, n);
        },
        InstrV::Store(n) => {
            assert(e.subrange(1, e.len() as int) =~= enc_bytes(n));
            lemma_piece(b, p, e, 1, enc_bytes(n));
            lemma_parse_bytes(b, p + 1, n);
        },
        InstrV::JIF(f, items) => {
            lemma_parse_block(b, p, i, f, items);
        },
        InstrV::Jmp(f, items) => {
            lemma_parse_block(b, p, i, f, items);
        },
        InstrV::JIT(f, items) => {
            lemma_parse_block(b, p, i, f, items);
        },
        _ => {},
    }
}

proof fn lemma_parse_block(b: Seq<u8>, p: int, i: InstrV, f: bool, items: Seq<InstrV>)
    requires
        i == block_instr(opcode(i), f, items),
        opcode(i) == 0x03 || opcode(i) == 0x04 || opcode(i) == 0x0F,
        enc_instr(i) == seq![opcode(i), flag_byte(f)] + le_bytes(items.len() as u64) + enc_list(items),
        items.len() <= u64::MAX,
        forall|k: int| 0 <= k < items.len() ==> wf_instr(#[trigger] items[k]),
        0 <= p,
        p + enc_instr(i).len() <= b.len(),
        b.subrange(p, p + enc_instr(i).len()) == enc_instr(i),
        b[p] == opcode(i),
    ensures
        parse_instr(b, p) == Ok::<(InstrV, int), DecodeError>((i, p + enc_instr(i).len())),
    decreases i, 0int,
{
    let e = enc_instr(i);
    assert(b[p + 1] == b.subrange(p, p + e.len())[1]);
    assert(e.subrange(2, 10) =~= le_bytes(items.len() as u64));
    lemma_piece(b, p, e, 2, le_bytes(items.len() as u64));
    lemma_le_value(b, p + 2, items.len() as u64);
    assert(e.subrange(10, e.len() as int) =~= enc_list(items));
    lemma_piece(b, p, e, 10, enc_list(items));
    lemma_parse_list(b, p + 10, items, Seq::empty());
    assert(Seq::<InstrV>::empty() + items =~= items);
}

proof fn lemma_parse_list(b: Seq<u8>, p: int, items: Seq<InstrV>, acc: Seq<InstrV>)
    requires
        forall|k: int| 0 <= k < items.len() ==> wf_instr(#[trigger] items[k]),
        0 <= p,
        p + enc_list(items).len() <= b.len(),
        b.subrange(p, p + enc_list(items).len()) == enc_list(items),
    ensures
        parse_list(b, p, items.len(), acc) == Ok::<(Seq<InstrV>, int), DecodeError>(
            (acc + items, p + enc_list(items).len()),
        ),
    decreases items,
{
    if items.len() == 0 {
        assert(acc + items =~= acc);
    } else {
        let first = items[0];
        let rest = items.subrange(1, items.len() as int);
        let e = enc_list(items);
        let e0 = enc_instr(first);
        assert(e == e0 + enc_list(rest));
        assert(e.subrange(0, e0.len() as int) =~= e0);
        lemma_piece(b, p, e, 0, e0);
        lemma_parse_instr(b, p, first);
        assert(e.subrange(e0.len() as int, e.len() as int) =~= enc_list(rest));
        lemma_piece(b, p, e, e0.len() as int, enc_list(rest));
        assert forall|k: int| 0 <= k < rest.len() implies wf_instr(#[trigger] rest[k]) by {
            assert(rest[k] == items[k + 1]);
        }
        lemma_parse_list(b, p + e0.len(), rest, acc.push(first));
        assert(acc.push(first) + rest =~= acc + items);
    }
}

proof fn lemma_view_block_wf(b: &Vec<Instruction>)
    ensures
        view_block(b).len() <= u64::MAX,
        forall|k: int| 0 <= k < view_block(b).len() ==> wf_instr(#[trigger] view_block(b)[k]),
    decreases b, 1int,
{
    lemma_view_block(b);
    assert forall|k: int| 0 <= k < view_block(b).len() implies wf_instr(
        #[trigger] view_block(b)[k],
    ) by {
        lemma_view_wf_at(b, k);
    }
}

proof fn lemma_view_wf(i: &Instruction)
    ensures
        wf_instr(i@),
    decreases i,
{
    match i {
        Instruction::JIF(f, b) => {
            lemma_view_block_wf(b);
            assert(i@ == InstrV::JIF(*f, view_block(b)));
            assert(wf_instr(InstrV::JIF(*f, view_block(b))));
        },
        Instruction::Jmp(f, b) => {
            lemma_view_block_wf(b);
            assert(wf_instr(InstrV::Jmp(*f, view_block(b))));
        },
        Instruction::JIT(f, b) => {
            lemma_view_block_wf(b);
            assert(wf_instr(InstrV::JIT(*f, view_block(b))));
        },
        Instruction::PushLiteral(l) => {
            if let Literal::Str(s) = l {
                assert(s@.len() == s.len());
            }
        },
        Instruction::PushVariable(n) => {
            assert(n@.len() == n.len());
        },
        Instruction::Call(n) => {
            assert(n@.len() == n.len());
        },
        Instruction::Store(n) => {
            assert(n@.len() == n.len());
        },
        _ => {},
    }
}

proof fn lemma_view_wf_at(b: &Vec<Instruction>, k: int)
    requires
        0 <= k < b.len(),
    ensures
        wf_instr(view_block(b)[k]),
    decreases b, 0int,
{
    lemma_view_block(b);
    lemma_view_wf(&b[k]);
}

/// Decoding the encoding of an instruction gives the instruction back, for
/// every instruction whose byte strings and blocks fit their length prefix,
/// with blocks nested to any depth.
pub proof fn lemma_round_trip(i: InstrV)
    requires
        wf_instr(i),
    ensures
        decode_spec(enc_instr(i)) == Ok::<InstrV, DecodeError>(i),
{
    let e = enc_instr(i);
    assert(e.subrange(0, e.len() as int) =~= e);
    lemma_parse_instr(e, 0, i);
}

/// Every instruction survives the trip through its bytes: decoding what
/// `to_bytecode` writes gives back an instruction equal to it.
pub proof fn lemma_bytecode_round_trip(i: &Instruction)
    ensures
        decode_spec(enc_instr(i@)) == Ok::<InstrV, DecodeError>(i@),
{
    lemma_view_wf(i);
    lemma_round_trip(i@);
}


fn push_u64(out: &mut Vec<u8>, x: u64)
    ensures
        final(out)@ == old(out)@ + le_bytes(x),
{
    out.push(x as u8);
    out.push((x >> 8u64) as u8);
    out.push((x >> 16u64) as u8);
    out.push((x >> 24u64) as u8);
    out.push((x >> 32u64) as u8);
    out.push((x >> 40u64) as u8);
    out.push((x >> 48u64) as u8);
    out.push((x >> 56u64) as u8);
    assert(final(out)@ =~= old(out)@ + le_bytes(x));
}

fn push_bytes(out: &mut Vec<u8>, s: &Vec<u8>)
    ensures
        final(out)@ == old(out)@ + enc_bytes(s@),
{
    push_u64(out, s.len() as u64);
    let ghost start = out@;
    let mut k: usize = 0;
    while k < s.len()
        invariant
            k <= s.len(),
            out@ == start + s@.subrange(0, k as int),
        decreases s.len() - k,
    {
        out.push(s[k]);
        k = k + 1;
        assert(out@ =~= start + s@.subrange(0, k as int));
    }
    assert(s@.subrange(0, s.len() as int) =~= s@);
    assert(final(out)@ =~= old(out)@ + enc_bytes(s@));
}

fn copy_bytes(s: &Vec<u8>) -> (r: Vec<u8>)
    ensures
        r@ == s@,
{
    let mut r: Vec<u8> = Vec::new();
    let mut k: usize = 0;
    while k < s.len()
        invariant
            k <= s.len(),
            r@ == s@.subrange(0, k as int),
        decreases s.len() - k,
    {
        r.push(s[k]);
        k = k + 1;
        assert(r@ =~= s@.subrange(0, k as int));
    }
    assert(s@.subrange(0, s.len() as int) =~= s@);
    r
}

impl Literal {
    /// A literal with the same value.
    pub fn copy(&self) -> (r: Literal)
        ensures
            r@ == self@,
    {
        match self {
            Literal::Int(v) => Literal::Int(*v),
            Literal::Float(b) => Literal::Float(*b),
            Literal::Bool(b) => Literal::Bool(*b),
            Literal::Str(s) => Literal::Str(copy_bytes(s)),
        }
    }

    fn write_to(&self, out: &mut Vec<u8>)
        ensures
            final(out)@ == old(out)@ + enc_lit(self@),
    {
        let ghost start = out@;
        match self {
            Literal::Int(v) => {
                out.push(0u8);
                push_u64(out, *v as u64);
            },
            Literal::Float(b) => {
                out.push(1u8);
                push_u64(out, *b);
            },
            Literal::Bool(b) => {
                out.push(2u8);
                out.push(if *b { 1u8 } else { 0u8 });
            },
            Literal::Str(s) => {
                out.push(3u8);
                push_bytes(out, s);
            },
        }
        assert(out@ =~= start + enc_lit(self@));
    }
}

pub proof fn lemma_view_prefix(v: &Vec<Instruction>, n: int)
    requires
        0 <= n <= v.len(),
    ensures
        view_prefix(v, n).len() == n,
        forall|k: int| 0 <= k < n ==> #[trigger] view_prefix(v, n)[k] == v[k]@,
    decreases n,
{
    if n > 0 {
        lemma_view_prefix(v, n - 1);
    }
}

pub proof fn lemma_view_block(v: &Vec<Instruction>)
    ensures
        view_block(v).len() == v.len(),
        forall|k: int| 0 <= k < v.len() ==> #[trigger] view_block(v)[k] == v[k]@,
{
    lemma_view_prefix(v, v.len() as int);
}

pub proof fn lemma_view_block_push(before: &Vec<Instruction>, after: &Vec<Instruction>, x: &Instruction)
    requires
        after@ == before@.push(*x),
    ensures
        view_block(after) == view_block(before).push(x@),
{
    lemma_view_block(before);
    lemma_view_block(after);
    assert(view_block(after) =~= view_block(before).push(x@));
}

proof fn lemma_enc_list_push(s: Seq<InstrV>, x: InstrV)
    ensures
        enc_list(s.push(x)) == enc_list(s) + enc_instr(x),
    decreases s.len(),
{
    let t = s.push(x);
    if s.len() == 0 {
        assert(t.subrange(1, t.len() as int) =~= Seq::<InstrV>::empty());
        assert(t[0] == x);
        assert(enc_list(Seq::<InstrV>::empty()) == Seq::<u8>::empty());
        assert(enc_list(t) =~= enc_list(s) + enc_instr(x));
    } else {
        let rest = s.subrange(1, s.len() as int);
        assert(t.subrange(1, t.len() as int) =~= rest.push(x));
        lemma_enc_list_push(rest, x);
        assert(t[0] == s[0]);
        assert(enc_list(t) =~= enc_list(s) + enc_instr(x));
    }
}

impl Instruction {
    fn opcode_byte(&self) -> (r: u8)
        ensures
            r == opcode(self@),
    {
        match self {
            Instruction::PushLiteral(_) => 0x01,
            Instruction::PushVariable(_) => 0x02,
            Instruction::JIF(_, _) => 0x03,
            Instruction::Jmp(_, _) => 0x04,
            Instruction::Call(_) => 0x05,
            Instruction::Store(_) => 0x06,
            Instruction::Add => 0x07,
            Instruction::Sub => 0x08,
            Instruction::Mul => 0x09,
            Instruction::Div => 0x0A,
            Instruction::Neg => 0x0B,
            Instruction::Return => 0x0C,
            Instruction::Nop => 0x0D,
            Instruction::Pop => 0x0E,
            Instruction::JIT(_, _) => 0x0F,
            Instruction::EndJmp => 0x10,
        }
    }

    /// An instruction with the same value, nested blocks copied.
    pub fn copy(&self) -> (r: Instruction)
        ensures
            r@ == self@,
        decreases self,
    {
        match self {
            Instruction::PushLiteral(l) => Instruction::PushLiteral(l.copy()),
            Instruction::PushVariable(n) => Instruction::PushVariable(copy_bytes(n)),
            Instruction::Call(n) => Instruction::Call(copy_bytes(n)),
            Instruction::Store(n) => Instruction::Store(copy_bytes(n)),
            Instruction::JIF(f, b) => Instruction::JIF(*f, copy_block(b)),
            Instruction::Jmp(f, b) => Instruction::Jmp(*f, copy_block(b)),
            Instruction::JIT(f, b) => Instruction::JIT(*f, copy_block(b)),
            Instruction::Add => Instruction::Add,
            Instruction::Sub => Instruction::Sub,
            Instruction::Mul => Instruction::Mul,
            Instruction::Div => Instruction::Div,
            Instruction::Neg => Instruction::Neg,
            Instruction::Return => Instruction::Return,
            Instruction::Nop => Instruction::Nop,
            Instruction::Pop => Instruction::Pop,
            Instruction::EndJmp => Instruction::EndJmp,
        }
    }

    fn write_to(&self, out: &mut Vec<u8>)
        ensures
            final(out)@ == old(out)@ + enc_instr(self@),
        decreases self,
    {
        let ghost start = out@;
        out.push(self.opcode_byte());
        match self {
            Instruction::PushLiteral(l) => {
                l.write_to(out);
            },
            Instruction::PushVariable(n) | Instruction::Call(n) | Instruction::Store(n) => {
                push_bytes(out, n);
            },
            Instruction::JIF(f, b) | Instruction::Jmp(f, b) | Instruction::JIT(f, b) => {
                out.push(if *f { 1u8 } else { 0u8 });
                push_u64(out, b.len() as u64);
                write_block(b, out);
                proof {
                    lemma_view_block(b);
                }
            },
            _ => {},
        }
        assert(out@ =~= start + enc_instr(self@));
    }

    /// The bytes of this instruction.
    pub fn to_bytecode(&self) -> (r: Vec<u8>)
        ensures
            r@ == enc_instr(self@),
    {
        let mut out: Vec<u8> = Vec::new();
        self.write_to(&mut out);
        assert(out@ =~= enc_instr(self@));
        out
    }
}

fn write_block(b: &Vec<Instruction>, out: &mut Vec<u8>)
    ensures
        final(out)@ == old(out)@ + enc_list(view_block(b)),
    decreases b,
{
    let ghost head = out@;
    proof {
        lemma_view_block(b);
        assert(view_block(b).subrange(0, 0) =~= Seq::<InstrV>::empty());
        assert(out@ =~= head + enc_list(Seq::<InstrV>::empty()));
    }
    let mut k: usize = 0;
    while k < b.len()
        invariant
            k <= b.len(),
            view_block(b).len() == b.len(),
            forall|j: int| 0 <= j < b.len() ==> #[trigger] view_block(b)[j] == b[j]@,
            out@ == head + enc_list(view_block(b).subrange(0, k as int)),
        decreases b.len() - k,
    {
        b[k].write_to(out);
        proof {
            let s = view_block(b).subrange(0, k as int);
            lemma_enc_list_push(s, b[k as int]@);
            assert(view_block(b).subrange(0, k + 1) =~= s.push(b[k as int]@));
        }
        k = k + 1;
    }
    assert(view_block(b).subrange(0, b.len() as int) =~= view_block(b));
}

fn copy_block(b: &Vec<Instruction>) -> (r: Vec<Instruction>)
    ensures
        view_block(&r) == view_block(b),
    decreases b,
{
    let mut r: Vec<Instruction> = Vec::new();
    proof {
        lemma_view_block(b);
        lemma_view_block(&r);
    }
    let mut k: usize = 0;
    while k < b.len()
        invariant
            k <= b.len(),
            view_block(b).len() == b.len(),
            forall|j: int| 0 <= j < b.len() ==> #[trigger] view_block(b)[j] == b[j]@,
            view_block(&r) == view_block(b).subrange(0, k as int),
        decreases b.len() - k,
    {
        let x = b[k].copy();
        let ghost before = r;
        r.push(x);
        proof {
            lemma_view_block_push(&before, &r, &x);
            assert(view_block(&r) =~= view_block(b).subrange(0, k + 1));
        }
        k = k + 1;
    }
    assert(view_block(b).subrange(0, b.len() as int) =~= view_block(b));
    r
}


/// Holds of the bytes that start an instruction.
pub open spec fn is_opcode(b: u8) -> bool {
    0x01 <= b <= 0x10
}

fn read_u64(b: &Vec<u8>, p: usize) -> (r: Result<u64, DecodeError>)
    requires
        p <= b.len(),
    ensures
        r == parse_u64(b@, p as int),
{
    if b.len() - p >= 8 {
        Ok((b[p] as u64) | ((b[p + 1] as u64) << 8u64) | ((b[p + 2] as u64) << 16u64) | ((b[p
            + 3] as u64) << 24u64) | ((b[p + 4] as u64) << 32u64) | ((b[p + 5] as u64) << 40u64)
            | ((b[p + 6] as u64) << 48u64) | ((b[p + 7] as u64) << 56u64))
    } else {
        Err(DecodeError::Truncated)
    }
}

fn read_flag(b: &Vec<u8>, p: usize) -> (r: Result<bool, DecodeError>)
    requires
        p <= b.len(),
    ensures
        r == parse_flag(b@, p as int),
{
    if p < b.len() {
        if b[p] == 0 {
            Ok(false)
        } else if b[p] == 1 {
            Ok(true)
        } else {
            Err(DecodeError::InvalidFlag(b[p]))
        }
    } else {
        Err(DecodeError::Truncated)
    }
}

fn read_bytes(b: &Vec<u8>, p: usize) -> (r: Result<(Vec<u8>, usize), DecodeError>)
    requires
        p <= b.len(),
    ensures
        match r {
            Ok((s, e)) => parse_bytes(b@, p as int) == Ok::<(Seq<u8>, int), DecodeError>((s@, e as int)),
            Err(x) => parse_bytes(b@, p as int) == Err::<(Seq<u8>, int), DecodeError>(x),
        },
{
    match read_u64(b, p) {
        Ok(n) => {
            if n <= (b.len() - p - 8) as u64 {
                let start = p + 8;
                let end = start + n as usize;
                let mut s: Vec<u8> = Vec::new();
                let mut k: usize = start;
                while k < end
                    invariant
                        start <= k <= end <= b.len(),
                        s@ == b@.subrange(start as int, k as int),
                    decreases end - k,
                {
                    s.push(b[k]);
                    k = k + 1;
                    assert(s@ =~= b@.subrange(start as int, k as int));
                }
                Ok((s, end))
            } else {
                Err(DecodeError::Truncated)
            }
        },
        Err(x) => Err(x),
    }
}

fn read_lit(b: &Vec<u8>, p: usize) -> (r: Result<(Literal, usize), DecodeError>)
    requires
        p <= b.len(),
    ensures
        match r {
            Ok((l, e)) => parse_lit(b@, p as int) == Ok::<(LitV, int), DecodeError>((l@, e as int)),
            Err(x) => parse_lit(b@, p as int) == Err::<(LitV, int), DecodeError>(x),
        },
{
    if p < b.len() {
        let k = b[p];
        if k == 0 {
            match read_u64(b, p + 1) {
                Ok(v) => Ok((Literal::Int(v as i64), p + 9)),
                Err(x) => Err(x),
            }
        } else if k == 1 {
            match read_u64(b, p + 1) {
                Ok(v) => Ok((Literal::Float(v), p + 9)),
                Err(x) => Err(x),
            }
        } else if k == 2 {
            match read_flag(b, p + 1) {
                Ok(f) => Ok((Literal::Bool(f), p + 2)),
                Err(x) => Err(x),
            }
        } else if k == 3 {
            match read_bytes(b, p + 1) {
                Ok((s, e)) => Ok((Literal::Str(s), e)),
                Err(x) => Err(x),
            }
        } else {
            Err(DecodeError::InvalidLiteralKind(k))
        }
    } else {
        Err(DecodeError::Truncated)
    }
}

fn read_instr(b: &Vec<u8>, p: usize) -> (r: Result<(Instruction, usize), DecodeError>)
    requires
        p <= b.len(),
    ensures
        match r {
            Ok((i, e)) => parse_instr(b@, p as int) == Ok::<(InstrV, int), DecodeError>((i@, e as int)),
            Err(x) => parse_instr(b@, p as int) == Err::<(InstrV, int), DecodeError>(x),
        },
    decreases b.len() - p,
{
    if p >= b.len() {
        return Err(DecodeError::Truncated);
    }
    let op = b[p];
    if op == 0x01 {
        match read_lit(b, p + 1) {
            Ok((l, e)) => Ok((Instruction::PushLiteral(l), e)),
            Err(x) => Err(x),
        }
    } else if op == 0x02 || op == 0x05 || op == 0x06 {
        match read_bytes(b, p + 1) {
            Ok((n, e)) => Ok((
                if op == 0x02 {
                    Instruction::PushVariable(n)
                } else if op == 0x05 {
                    Instruction::Call(n)
                } else {
                    Instruction::Store(n)
                },
                e,
            )),
            Err(x) => Err(x),
        }
    } else if op == 0x03 || op == 0x04 || op == 0x0F {
        let f = match read_flag(b, p + 1) {
            Ok(f) => f,
            Err(x) => return Err(x),
        };
        let n = match read_u64(b, p + 2) {
            Ok(n) => n,
            Err(x) => return Err(x),
        };
        let mut items: Vec<Instruction> = Vec::new();
        let mut q: usize = p + 10;
        let mut left: u64 = n;
        proof {
            lemma_view_block(&items);
            assert(view_block(&items) =~= Seq::<InstrV>::empty());
        }
        while left > 0
            invariant
                p + 10 <= q <= b.len(),
                op == b@[p as int],
                op == 0x03 || op == 0x04 || op == 0x0F,
                parse_flag(b@, p + 1) == Ok::<bool, DecodeError>(f),
                parse_u64(b@, p + 2) == Ok::<u64, DecodeError>(n),
                parse_list(b@, p + 10, n as nat, Seq::empty()) == parse_list(
                    b@,
                    q as int,
                    left as nat,
                    view_block(&items),
                ),
            decreases left,
        {
            match read_instr(b, q) {
                Ok((i, e)) => {
                    if q < e && e <= b.len() {
                        let ghost before = items;
                        items.push(i);
                        proof {
                            lemma_view_block_push(&before, &items, &i);
                        }
                        q = e;
                        left = left - 1;
                    } else {
                        assert(parse_list(b@, q as int, left as nat, view_block(&items)) == Err::<
                            (Seq<InstrV>, int),
                            DecodeError,
                        >(DecodeError::Truncated));
                        return Err(DecodeError::Truncated);
                    }
                },
                Err(x) => {
                    assert(parse_list(b@, q as int, left as nat, view_block(&items)) == Err::<
                        (Seq<InstrV>, int),
                        DecodeError,
                    >(x));
                    return Err(x);
                },
            }
        }
        let r = if op == 0x03 {
            Instruction::JIF(f, items)
        } else if op == 0x04 {
            Instruction::Jmp(f, items)
        } else {
            Instruction::JIT(f, items)
        };
        Ok((r, q))
    } else if op == 0x07 {
        Ok((Instruction::Add, p + 1))
    } else if op == 0x08 {
        Ok((Instruction::Sub, p + 1))
    } else if op == 0x09 {
        Ok((Instruction::Mul, p + 1))
    } else if op == 0x0A {
        Ok((Instruction::Div, p + 1))
    } else if op == 0x0B {
        Ok((Instruction::Neg, p + 1))
    } else if op == 0x0C {
        Ok((Instruction::Return, p + 1))
    } else if op == 0x0D {
        Ok((Instruction::Nop, p + 1))
    } else if op == 0x0E {
        Ok((Instruction::Pop, p + 1))
    } else if op == 0x10 {
        Ok((Instruction::EndJmp, p + 1))
    } else {
        Err(DecodeError::InvalidOpcode(op))
    }
}

impl Instruction {
    /// The instruction that the whole of `bytecode` encodes. A stream that
    /// starts with a byte that is no opcode is refused with that byte.
    pub fn from_bytecode(bytecode: &Vec<u8>) -> (r: Result<Instruction, DecodeError>)
        ensures
            match r {
                Ok(i) => decode_spec(bytecode@) == Ok::<InstrV, DecodeError>(i@),
                Err(x) => decode_spec(bytecode@) == Err::<InstrV, DecodeError>(x),
            },
            bytecode@.len() > 0 && !is_opcode(bytecode@[0]) ==> r == Err::<Instruction, DecodeError>(
                DecodeError::InvalidOpcode(bytecode@[0]),
            ),
    {
        match read_instr(bytecode, 0) {
            Ok((i, e)) => {
                if e == bytecode.len() {
                    Ok(i)
                } else {
                    Err(DecodeError::TrailingBytes)
                }
            },
            Err(x) => Err(x),
        }
    }
}

} // verus!
