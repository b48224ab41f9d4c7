//! Lowering of the typed tree into stack-machine instructions.
//!
//! Each expression becomes a sequence that leaves exactly one value on the
//! operand stack. Control flow becomes nested blocks: a loop is a block that
//! repeats while the retained condition holds, a branch is a block guarded by
//! the retained condition. `if ... else` guards the two branches by the same
//! condition value, once for true and once for false, so an interpreter keeps
//! that value until both guards have looked at it.
use crate::ast::{
    BinOpKind, Block, Constant, Expression, If, IfElse, LetStmt, Statement, While,
};
use crate::error::{Construct, LowerError};
use crate::instr::{
    lemma_view_block, lemma_view_block_push, view_block, InstrV, Instruction, LitV, Literal,
};
use vstd::prelude::*;
use vstd::utf8::encode_utf8;

verus! {

broadcast use vstd::std_specs::vec::group_vec_axioms;

/// The bytes that stand for a name in an instruction.
pub open spec fn name_bytes(s: String) -> Seq<u8> {
    encode_utf8(s@)
}

/// The instruction for an arithmetic operator, if it has one.
pub open spec fn op_instr(op: BinOpKind) -> Option<InstrV> {
    match op {
        BinOpKind::Add => Some(InstrV::Add),
        BinOpKind::Sub => Some(InstrV::Sub),
        BinOpKind::Mul => Some(InstrV::Mul),
        BinOpKind::Div => Some(InstrV::Div),
        _ => None,
    }
}

/// The code of the first `n` expressions of `v`, one after the other.
pub open spec fn exprs_code(v: &Vec<Expression>, n: int) -> Result<Seq<InstrV>, LowerError>
    decreases v, n,
{
    if n <= 0 || n > v.len() {
        Ok(Seq::empty())
    } else {
        match exprs_code(v, n - 1) {
            Ok(c) => match expr_code(&v[n - 1]) {
                Ok(d) => Ok(c + d),
                Err(e) => Err(e),
            },
            Err(e) => Err(e),
        }
    }
}

/// The code of an expression: it leaves the expression's value on the stack.
pub open spec fn expr_code(e: &Expression) -> Result<Seq<InstrV>, LowerError>
    decreases e,
{
    match e {
        Expression::Constant(c) => match c {
            Constant::Int(v) => Ok(seq![InstrV::PushLiteral(LitV::Int(*v))]),
            Constant::Float(b) => Ok(seq![InstrV::PushLiteral(LitV::Float(*b))]),
            Constant::Bool(b) => Ok(seq![InstrV::PushLiteral(LitV::Bool(*b))]),
            Constant::StringLiteral(s) => Ok(seq![InstrV::PushLiteral(LitV::Str(name_bytes(*s)))]),
            Constant::Ident(id) => Ok(seq![InstrV::PushVariable(name_bytes(id.name))]),
            Constant::List(_) => Err(LowerError::UnsupportedConstruct(Construct::ListLiteral)),
            Constant::Null => Err(LowerError::UnsupportedConstruct(Construct::NullLiteral)),
        },
        Expression::Call(c) => match exprs_code(&c.arguments, c.arguments.len() as int) {
            Ok(a) => Ok(a.push(InstrV::Call(name_bytes(c.name)))),
            Err(e) => Err(e),
        },
        Expression::BinOp(b) => match expr_code(&b.lhs) {
            Ok(l) => match expr_code(&b.rhs) {
                Ok(r) => match op_instr(b.op) {
                    Some(i) => Ok(l + r.push(i)),
                    None => Err(LowerError::UnsupportedConstruct(Construct::Operator(b.op))),
                },
                Err(e) => Err(e),
            },
            Err(e) => Err(e),
        },
        Expression::Reference(_) => Err(LowerError::UnsupportedConstruct(Construct::Reference)),
        Expression::Deref(_) => Err(LowerError::UnsupportedConstruct(Construct::Deref)),
        Expression::StructInstance(_) => Err(
            LowerError::UnsupportedConstruct(Construct::StructInstance),
        ),
        Expression::StructFieldAccess(_) => Err(
            LowerError::UnsupportedConstruct(Construct::StructFieldAccess),
        ),
    }
}

/// The code of the first `n` statements of `v`, one after the other.
pub open spec fn stmts_code(v: &Vec<Statement>, n: int) -> Result<Seq<InstrV>, LowerError>
    decreases v, n,
{
    if n <= 0 || n > v.len() {
        Ok(Seq::empty())
    } else {
        match stmts_code(v, n - 1) {
            Ok(c) => match stmt_code(&v[n - 1]) {
                Ok(d) => Ok(c + d),
                Err(e) => Err(e),
            },
            Err(e) => Err(e),
        }
    }
}

/// The code of a statement.
///
/// A loop evaluates its condition once in front of the loop block, and the
/// block ends with a second copy of the last instruction of the condition's
/// code, which refreshes the condition before the next round. That is the
/// whole condition only where its code is one instruction long.
pub open spec fn stmt_code(s: &Statement) -> Result<Seq<InstrV>, LowerError>
    decreases s,
{
    match s {
        Statement::Expression(e) => match expr_code(e) {
            Ok(c) => Ok(c.push(InstrV::Pop)),
            Err(x) => Err(x),
        },
        Statement::Let(l) => match expr_code(&l.value) {
            Ok(c) => Ok(c.push(InstrV::Store(name_bytes(l.name.name)))),
            Err(x) => Err(x),
        },
        Statement::Assign(a) => match &a.name {
            Expression::Constant(Constant::Ident(id)) => match expr_code(&a.value) {
                Ok(c) => Ok(c.push(InstrV::Store(name_bytes(id.name)))),
                Err(x) => Err(x),
            },
            _ => Err(LowerError::NotAnAddress),
        },
        Statement::Block(b) => stmts_code(&b.statements, b.statements.len() as int),
        Statement::If(i) => match expr_code(&i.condition) {
            Ok(c) => match stmt_code(&i.body) {
                Ok(t) => Ok(c.push(InstrV::JIT(false, t))),
                Err(x) => Err(x),
            },
            Err(x) => Err(x),
        },
        Statement::IfElse(i) => match expr_code(&i.condition) {
            Ok(c) => match stmt_code(&i.body) {
                Ok(t) => match stmt_code(&i.else_body) {
                    Ok(f) => Ok(c.push(InstrV::JIT(false, t)).push(InstrV::JIF(false, f))),
                    Err(x) => Err(x),
                },
                Err(x) => Err(x),
            },
            Err(x) => Err(x),
        },
        Statement::While(w) => match expr_code(&w.condition) {
            Ok(c) => match stmt_code(&w.body) {
                Ok(t) => Ok(c.push(InstrV::JIT(true, t.push(c.last())))),
                Err(x) => Err(x),
            },
            Err(x) => Err(x),
        },
        Statement::Function(_) => Err(LowerError::UnsupportedConstruct(Construct::FunctionStatement)),
        Statement::Extern(_) => Err(LowerError::UnsupportedConstruct(Construct::ExternStatement)),
        Statement::Struct(_) => Err(LowerError::UnsupportedConstruct(Construct::StructStatement)),
        Statement::Return(_) => Err(LowerError::UnsupportedConstruct(Construct::ReturnStatement)),
    }
}

/// The code of a whole program.
pub open spec fn program_code(stmts: &Vec<Statement>) -> Result<Seq<InstrV>, LowerError> {
    stmts_code(stmts, stmts.len() as int)
}

/// The code of an expression is never empty.
pub proof fn lemma_expr_code_nonempty(e: &Expression)
    ensures
        expr_code(e) is Ok ==> expr_code(e)->Ok_0.len() > 0,
{
}

pub(crate) fn name_to_bytes(s: &String) -> (r: Vec<u8>)
    ensures
        r@ == name_bytes(*s),
{
    let b = s.as_str().as_bytes();
    let mut r: Vec<u8> = Vec::new();
    let mut k: usize = 0;
    while k < b.len()
        invariant
            k <= b@.len(),
            b@ == name_bytes(*s),
            r@ == b@.subrange(0, k as int),
        decreases b@.len() - k,
    {
        r.push(b[k]);
        k = k + 1;
        assert(r@ =~= b@.subrange(0, k as int));
    }
    assert(b@.subrange(0, b@.len() as int) =~= b@);
    r
}

/// The stack lowering engine: the instructions emitted so far.
pub struct SbCompiler {
    pub instructions: Vec<Instruction>,
}

impl View for SbCompiler {
    type V = Seq<InstrV>;

    open spec fn view(&self) -> Seq<InstrV> {
        view_block(&self.instructions)
    }
}


/// Once the code of some expression of `v` fails, the code of every longer
/// prefix fails with the same error.
proof fn lemma_exprs_code_err(v: &Vec<Expression>, k: int, m: int)
    requires
        0 <= k <= m <= v.len(),
        exprs_code(v, k) is Err,
    ensures
        exprs_code(v, m) == exprs_code(v, k),
    decreases m - k,
{
    if k < m {
        lemma_exprs_code_err(v, k, m - 1);
    }
}

proof fn lemma_stmts_code_err(v: &Vec<Statement>, k: int, m: int)
    requires
        0 <= k <= m <= v.len(),
        stmts_code(v, k) is Err,
    ensures
        stmts_code(v, m) == stmts_code(v, k),
    decreases m - k,
{
    if k < m {
        lemma_stmts_code_err(v, k, m - 1);
    }
}

impl SbCompiler {
    pub fn new() -> (r: Self)
        ensures
            r@ == Seq::<InstrV>::empty(),
    {
        let r = SbCompiler { instructions: Vec::new() };
        proof {
            lemma_view_block(&r.instructions);
            assert(r@ =~= Seq::<InstrV>::empty());
        }
        r
    }

    fn emit(&mut self, i: Instruction)
        ensures
            final(self)@ == old(self)@.push(i@),
    {
        let ghost before = self.instructions;
        let ghost iv = i;
        self.instructions.push(i);
        proof {
            lemma_view_block_push(&before, &self.instructions, &iv);
        }
    }

    fn visit_exprs(&mut self, v: &Vec<Expression>) -> (r: Result<(), LowerError>)
        ensures
            match exprs_code(v, v.len() as int) {
                Ok(c) => r is Ok && final(self)@ == old(self)@ + c,
                Err(x) => r == Err::<(), LowerError>(x),
            },
        decreases v,
    {
        let ghost start = self@;
        let mut k: usize = 0;
        assert(self@ =~= start + Seq::<InstrV>::empty());
        while k < v.len()
            invariant
                k <= v.len(),
                exprs_code(v, k as int) is Ok,
                self@ == start + exprs_code(v, k as int)->Ok_0,
            decreases v.len() - k,
        {
            let ghost mid = self@;
            match self.visit_expr(&v[k]) {
                Ok(()) => {
                    assert(self@ =~= start + exprs_code(v, k + 1)->Ok_0);
                },
                Err(x) => {
                    proof {
                        lemma_exprs_code_err(v, k + 1, v.len() as int);
                    }
                    return Err(x);
                },
            }
            k = k + 1;
        }
        Ok(())
    }

    /// Emits the code of an expression.
    pub fn visit_expr(&mut self, e: &Expression) -> (r: Result<(), LowerError>)
        ensures
            match expr_code(e) {
                Ok(c) => r is Ok && final(self)@ == old(self)@ + c,
                Err(x) => r == Err::<(), LowerError>(x),
            },
        decreases e,
    {
        let ghost start = self@;
        match e {
            Expression::Constant(c) => match c {
                Constant::Int(v) => {
                    self.emit(Instruction::PushLiteral(Literal::Int(*v)));
                },
                Constant::Float(b) => {
                    self.emit(Instruction::PushLiteral(Literal::Float(*b)));
                },
                Constant::Bool(b) => {
                    self.emit(Instruction::PushLiteral(Literal::Bool(*b)));
                },
                Constant::StringLiteral(s) => {
                    self.emit(Instruction::PushLiteral(Literal::Str(name_to_bytes(s))));
                },
                Constant::Ident(id) => {
                    self.emit(Instruction::PushVariable(name_to_bytes(&id.name)));
                },
                Constant::List(_) => {
                    return Err(LowerError::UnsupportedConstruct(Construct::ListLiteral));
                },
                Constant::Null => {
                    return Err(LowerError::UnsupportedConstruct(Construct::NullLiteral));
                },
            },
            Expression::Call(c) => {
                match self.visit_exprs(&c.arguments) {
                    Ok(()) => {},
                    Err(x) => {
                        return Err(x);
                    },
                }
                self.emit(Instruction::Call(name_to_bytes(&c.name)));
            },
            Expression::BinOp(b) => {
                match self.visit_expr(&b.lhs) {
                    Ok(()) => {},
                    Err(x) => {
                        return Err(x);
                    },
                }
                match self.visit_expr(&b.rhs) {
                    Ok(()) => {},
                    Err(x) => {
                        return Err(x);
                    },
                }
                let i = match b.op {
                    BinOpKind::Add => Instruction::Add,
                    BinOpKind::Sub => Instruction::Sub,
                    BinOpKind::Mul => Instruction::Mul,
                    BinOpKind::Div => Instruction::Div,
                    _ => {
                        return Err(LowerError::UnsupportedConstruct(Construct::Operator(b.op)));
                    },
                };
                self.emit(i);
            },
            Expression::Reference(_) => {
                return Err(LowerError::UnsupportedConstruct(Construct::Reference));
            },
            Expression::Deref(_) => {
                return Err(LowerError::UnsupportedConstruct(Construct::Deref));
            },
            Expression::StructInstance(_) => {
                return Err(LowerError::UnsupportedConstruct(Construct::StructInstance));
            },
            Expression::StructFieldAccess(_) => {
                return Err(LowerError::UnsupportedConstruct(Construct::StructFieldAccess));
            },
        }
        assert(self@ =~= start + expr_code(e)->Ok_0);
        Ok(())
    }
}

impl SbCompiler {
    fn visit_stmts(&mut self, v: &Vec<Statement>) -> (r: Result<(), LowerError>)
        ensures
            match stmts_code(v, v.len() as int) {
                Ok(c) => r is Ok && final(self)@ == old(self)@ + c,
                Err(x) => r == Err::<(), LowerError>(x),
            },
        decreases v, 0int,
    {
        let ghost start = self@;
        let mut k: usize = 0;
        assert(self@ =~= start + Seq::<InstrV>::empty());
        while k < v.len()
            invariant
                k <= v.len(),
                stmts_code(v, k as int) is Ok,
                self@ == start + stmts_code(v, k as int)->Ok_0,
            decreases v.len() - k,
        {
            match self.visit_stmt(&v[k]) {
                Ok(()) => {
                    assert(self@ =~= start + stmts_code(v, k + 1)->Ok_0);
                },
                Err(x) => {
                    proof {
                        lemma_stmts_code_err(v, k + 1, v.len() as int);
                    }
                    return Err(x);
                },
            }
            k = k + 1;
        }
        Ok(())
    }

    /// Emits the statements of a block in order, with no framing.
    pub fn visit_block(&mut self, block: &Block) -> (r: Result<(), LowerError>)
        ensures
            match stmts_code(&block.statements, block.statements.len() as int) {
                Ok(c) => r is Ok && final(self)@ == old(self)@ + c,
                Err(x) => r == Err::<(), LowerError>(x),
            },
        decreases block, 1int,
    {
        self.visit_stmts(&block.statements)
    }

    /// Emits an expression, then drops its value.
    pub fn visit_expr_stmt(&mut self, expr: &Expression) -> (r: Result<(), LowerError>)
        ensures
            match expr_code(expr) {
                Ok(c) => r is Ok && final(self)@ == old(self)@ + c.push(InstrV::Pop),
                Err(x) => r == Err::<(), LowerError>(x),
            },
    {
        match self.visit_expr(expr) {
            Ok(()) => {},
            Err(x) => {
                return Err(x);
            },
        }
        self.emit(Instruction::Pop);
        assert(self@ =~= old(self)@ + expr_code(expr)->Ok_0.push(InstrV::Pop));
        Ok(())
    }

    /// Emits the value, then stores it under the name.
    pub fn visit_let_stmt(&mut self, let_stmt: &LetStmt) -> (r: Result<(), LowerError>)
        ensures
            match stmt_code(&Statement::Let(*let_stmt)) {
                Ok(c) => r is Ok && final(self)@ == old(self)@ + c,
                Err(x) => r == Err::<(), LowerError>(x),
            },
    {
        match self.visit_expr(&let_stmt.value) {
            Ok(()) => {},
            Err(x) => {
                return Err(x);
            },
        }
        self.emit(Instruction::Store(name_to_bytes(&let_stmt.name.name)));
        assert(self@ =~= old(self)@ + expr_code(&let_stmt.value)->Ok_0.push(
            InstrV::Store(name_bytes(let_stmt.name.name)),
        ));
        Ok(())
    }

    /// The code of a statement on its own, as a nested block.
    pub fn build_stmt(stmt: &Statement) -> (r: Result<Vec<Instruction>, LowerError>)
        ensures
            match stmt_code(stmt) {
                Ok(c) => r is Ok && view_block(&r->Ok_0) == c,
                Err(x) => r == Err::<Vec<Instruction>, LowerError>(x),
            },
        decreases stmt, 2int,
    {
        let mut inner = SbCompiler::new();
        match inner.visit_stmt(stmt) {
            Ok(()) => {
                assert(inner@ =~= stmt_code(stmt)->Ok_0);
                Ok(inner.instructions)
            },
            Err(x) => Err(x),
        }
    }

    /// Emits the condition, then a block that repeats while it holds. The
    /// block ends by re-running the last instruction of the condition.
    pub fn visit_while_stmt(&mut self, while_stmt: &While) -> (r: Result<(), LowerError>)
        ensures
            match stmt_code(&Statement::While(*while_stmt)) {
                Ok(c) => r is Ok && final(self)@ == old(self)@ + c,
                Err(x) => r == Err::<(), LowerError>(x),
            },
        decreases while_stmt, 1int,
    {
        match self.visit_expr(&while_stmt.condition) {
            Ok(()) => {},
            Err(x) => {
                return Err(x);
            },
        }
        let ghost c = expr_code(&while_stmt.condition)->Ok_0;
        proof {
            lemma_expr_code_nonempty(&while_stmt.condition);
            lemma_view_block(&self.instructions);
            assert(self@.last() == c.last());
        }
        let last = self.instructions[self.instructions.len() - 1].copy();
        let mut body = match SbCompiler::build_stmt(&while_stmt.body) {
            Ok(b) => b,
            Err(x) => {
                return Err(x);
            },
        };
        let ghost before = body;
        let ghost lv = last;
        body.push(last);
        proof {
            lemma_view_block_push(&before, &body, &lv);
        }
        self.emit(Instruction::JIT(true, body));
        assert(self@ =~= old(self)@ + stmt_code(&Statement::While(*while_stmt))->Ok_0);
        Ok(())
    }

    /// Emits the condition, then the body guarded by it.
    pub fn visit_if_stmt(&mut self, if_stmt: &If) -> (r: Result<(), LowerError>)
        ensures
            match stmt_code(&Statement::If(*if_stmt)) {
                Ok(c) => r is Ok && final(self)@ == old(self)@ + c,
                Err(x) => r == Err::<(), LowerError>(x),
            },
        decreases if_stmt, 1int,
    {
        match self.visit_expr(&if_stmt.condition) {
            Ok(()) => {},
            Err(x) => {
                return Err(x);
            },
        }
        let body = match SbCompiler::build_stmt(&if_stmt.body) {
            Ok(b) => b,
            Err(x) => {
                return Err(x);
            },
        };
        self.emit(Instruction::JIT(false, body));
        assert(self@ =~= old(self)@ + stmt_code(&Statement::If(*if_stmt))->Ok_0);
        Ok(())
    }

    /// Emits the condition once, then the body guarded by its truth and the
    /// other body guarded by its falsity.
    pub fn visit_if_else_stmt(&mut self, if_else_stmt: &IfElse) -> (r: Result<(), LowerError>)
        ensures
            match stmt_code(&Statement::IfElse(*if_else_stmt)) {
                Ok(c) => r is Ok && final(self)@ == old(self)@ + c,
                Err(x) => r == Err::<(), LowerError>(x),
            },
        decreases if_else_stmt, 1int,
    {
        match self.visit_expr(&if_else_stmt.condition) {
            Ok(()) => {},
            Err(x) => {
                return Err(x);
            },
        }
        let body = match SbCompiler::build_stmt(&if_else_stmt.body) {
            Ok(b) => b,
            Err(x) => {
                return Err(x);
            },
        };
        let else_body = match SbCompiler::build_stmt(&if_else_stmt.else_body) {
            Ok(b) => b,
            Err(x) => {
                return Err(x);
            },
        };
        self.emit(Instruction::JIT(false, body));
        self.emit(Instruction::JIF(false, else_body));
        assert(self@ =~= old(self)@ + stmt_code(&Statement::IfElse(*if_else_stmt))->Ok_0);
        Ok(())
    }

    /// Emits the code of a statement.
    pub fn visit_stmt(&mut self, stmt: &Statement) -> (r: Result<(), LowerError>)
        ensures
            match stmt_code(stmt) {
                Ok(c) => r is Ok && final(self)@ == old(self)@ + c,
                Err(x) => r == Err::<(), LowerError>(x),
            },
        decreases stmt, 1int,
    {
        match stmt {
            Statement::Expression(e) => self.visit_expr_stmt(e),
            Statement::Let(l) => self.visit_let_stmt(l),
            Statement::Assign(a) => {
                match &a.name {
                    Expression::Constant(Constant::Ident(id)) => {
                        match self.visit_expr(&a.value) {
                            Ok(()) => {},
                            Err(x) => {
                                return Err(x);
                            },
                        }
                        self.emit(Instruction::Store(name_to_bytes(&id.name)));
                        assert(self@ =~= old(self)@ + stmt_code(stmt)->Ok_0);
                        Ok(())
                    },
                    _ => Err(LowerError::NotAnAddress),
                }
            },
            Statement::While(w) => self.visit_while_stmt(w),
            Statement::Block(b) => self.visit_block(b),
            Statement::If(i) => self.visit_if_stmt(i),
            Statement::IfElse(i) => self.visit_if_else_stmt(i),
            Statement::Function(_) => Err(LowerError::UnsupportedConstruct(Construct::FunctionStatement)),
            Statement::Extern(_) => Err(LowerError::UnsupportedConstruct(Construct::ExternStatement)),
            Statement::Struct(_) => Err(LowerError::UnsupportedConstruct(Construct::StructStatement)),
            Statement::Return(_) => Err(LowerError::UnsupportedConstruct(Construct::ReturnStatement)),
        }
    }
}

/// Lowers a whole program. The first error aborts it: no partial code is
/// handed out.
pub fn compile(stmts: &Vec<Statement>) -> (r: Result<Vec<Instruction>, LowerError>)
    ensures
        match program_code(stmts) {
            Ok(c) => r is Ok && view_block(&r->Ok_0) == c,
            Err(x) => r == Err::<Vec<Instruction>, LowerError>(x),
        },
{
    let mut c = SbCompiler::new();
    match c.visit_stmts(stmts) {
        Ok(()) => {
            assert(c@ =~= program_code(stmts)->Ok_0);
            Ok(c.instructions)
        },
        Err(x) => Err(x),
    }
}

} // verus!
