use popper_codegen::ast::{
    Assign, BinOp, BinOpKind, Block, Call, Constant, Expression, Ident, If, IfElse, LetStmt,
    Reference, Return, Span, Statement, While,
};
use popper_codegen::error::{Construct, LowerError};
use popper_codegen::instr::{Instruction, Literal};
use popper_codegen::sbc::{compile, SbCompiler};

fn sp() -> Span {
    Span::new(0, 0)
}

fn lit(v: i64) -> Expression {
    Expression::Constant(Constant::Int(v))
}

fn var(n: &str) -> Expression {
    Expression::Constant(Constant::Ident(Ident { name: n.to_string(), span: sp() }))
}

fn call(n: &str) -> Expression {
    Expression::Call(Call { name: n.to_string(), arguments: Vec::new(), span: sp() })
}

fn bin(op: BinOpKind, l: Expression, r: Expression) -> Expression {
    Expression::BinOp(BinOp { op, lhs: Box::new(l), rhs: Box::new(r), span: sp() })
}

fn let_stmt(n: &str, e: Expression) -> Statement {
    Statement::Let(LetStmt { name: Ident { name: n.to_string(), span: sp() }, value: e, span: sp() })
}

fn assign(target: Expression, e: Expression) -> Statement {
    Statement::Assign(Assign { name: target, value: e, span: sp() })
}

fn name(s: &str) -> Vec<u8> {
    s.as_bytes().to_vec()
}

#[test]
fn let_then_assign_lowers_in_order() {
    let prog = vec![
        let_stmt("x", lit(5)),
        assign(var("x"), bin(BinOpKind::Add, var("x"), lit(1))),
    ];
    let code = compile(&prog).unwrap();
    assert_eq!(
        code,
        vec![
            Instruction::PushLiteral(Literal::Int(5)),
            Instruction::Store(name("x")),
            Instruction::PushVariable(name("x")),
            Instruction::PushLiteral(Literal::Int(1)),
            Instruction::Add,
            Instruction::Store(name("x")),
        ]
    );
}

#[test]
fn if_else_guards_both_branches_by_one_condition() {
    let prog = vec![Statement::IfElse(IfElse {
        condition: Expression::Constant(Constant::Bool(true)),
        body: Box::new(Statement::Expression(call("a"))),
        else_body: Box::new(Statement::Expression(call("b"))),
        span: sp(),
    })];
    let code = compile(&prog).unwrap();
    assert_eq!(
        code,
        vec![
            Instruction::PushLiteral(Literal::Bool(true)),
            Instruction::JIT(false, vec![Instruction::Call(name("a")), Instruction::Pop]),
            Instruction::JIF(false, vec![Instruction::Call(name("b")), Instruction::Pop]),
        ]
    );
}

/// Runs straight-line code with guarded blocks: the condition pushed last is
/// kept for both guards. Returns the names called, in order.
fn run_guards(code: &[Instruction], cond: &mut Option<bool>, calls: &mut Vec<Vec<u8>>) {
    for i in code {
        match i {
            Instruction::PushLiteral(Literal::Bool(b)) => *cond = Some(*b),
            Instruction::Call(n) => calls.push(n.clone()),
            Instruction::JIT(_, body) => {
                if *cond == Some(true) {
                    run_guards(body, cond, calls);
                }
            }
            Instruction::JIF(_, body) => {
                if *cond == Some(false) {
                    run_guards(body, cond, calls);
                }
            }
            _ => {}
        }
    }
}

#[test]
fn if_else_runs_exactly_one_branch() {
    for flag in [true, false] {
        let prog = vec![Statement::IfElse(IfElse {
            condition: Expression::Constant(Constant::Bool(flag)),
            body: Box::new(Statement::Expression(call("a"))),
            else_body: Box::new(Statement::Expression(call("b"))),
            span: sp(),
        })];
        let code = compile(&prog).unwrap();
        let mut calls = Vec::new();
        run_guards(&code, &mut None, &mut calls);
        let expected = if flag { name("a") } else { name("b") };
        assert_eq!(calls, vec![expected]);
    }
}

#[test]
fn if_guards_its_body() {
    let prog = vec![Statement::If(If {
        condition: var("c"),
        body: Box::new(Statement::Block(Block {
            statements: vec![Statement::Expression(call("a")), let_stmt("y", lit(2))],
            span: sp(),
        })),
        span: sp(),
    })];
    assert_eq!(
        compile(&prog).unwrap(),
        vec![
            Instruction::PushVariable(name("c")),
            Instruction::JIT(
                false,
                vec![
                    Instruction::Call(name("a")),
                    Instruction::Pop,
                    Instruction::PushLiteral(Literal::Int(2)),
                    Instruction::Store(name("y")),
                ]
            ),
        ]
    );
}

#[test]
fn while_repeats_the_condition_instruction_at_the_end_of_its_block() {
    let prog = vec![Statement::While(While {
        condition: var("go"),
        body: Box::new(Statement::Expression(call("step"))),
        span: sp(),
    })];
    assert_eq!(
        compile(&prog).unwrap(),
        vec![
            Instruction::PushVariable(name("go")),
            Instruction::JIT(
                true,
                vec![
                    Instruction::Call(name("step")),
                    Instruction::Pop,
                    Instruction::PushVariable(name("go")),
                ]
            ),
        ]
    );
}

#[test]
fn while_with_a_longer_condition_refreshes_only_its_last_instruction() {
    let prog = vec![Statement::While(While {
        condition: bin(BinOpKind::Sub, var("n"), lit(1)),
        body: Box::new(Statement::Expression(call("step"))),
        span: sp(),
    })];
    let code = compile(&prog).unwrap();
    assert_eq!(
        code,
        vec![
            Instruction::PushVariable(name("n")),
            Instruction::PushLiteral(Literal::Int(1)),
            Instruction::Sub,
            Instruction::JIT(
                true,
                vec![Instruction::Call(name("step")), Instruction::Pop, Instruction::Sub]
            ),
        ]
    );
}

#[test]
fn call_pushes_its_arguments_first() {
    let e = Expression::Call(Call {
        name: "f".to_string(),
        arguments: vec![lit(1), var("x")],
        span: sp(),
    });
    let mut c = SbCompiler::new();
    c.visit_expr_stmt(&e).unwrap();
    assert_eq!(
        c.instructions,
        vec![
            Instruction::PushLiteral(Literal::Int(1)),
            Instruction::PushVariable(name("x")),
            Instruction::Call(name("f")),
            Instruction::Pop,
        ]
    );
}

#[test]
fn assignment_to_a_non_name_is_not_an_address() {
    let prog = vec![assign(lit(5), lit(1))];
    assert_eq!(compile(&prog), Err(LowerError::NotAnAddress));
}

#[test]
fn shapes_without_a_stack_form_are_refused() {
    let reference = Expression::Reference(Reference { expr: Box::new(var("x")), span: sp() });
    assert_eq!(
        compile(&vec![Statement::Expression(reference)]),
        Err(LowerError::UnsupportedConstruct(Construct::Reference))
    );
    assert_eq!(
        compile(&vec![Statement::Return(Return { expression: None, span: sp() })]),
        Err(LowerError::UnsupportedConstruct(Construct::ReturnStatement))
    );
    assert_eq!(
        compile(&vec![Statement::Expression(bin(BinOpKind::Mod, lit(1), lit(2)))]),
        Err(LowerError::UnsupportedConstruct(Construct::Operator(BinOpKind::Mod)))
    );
}

#[test]
fn first_error_aborts_the_program() {
    let prog = vec![
        let_stmt("x", lit(1)),
        Statement::Expression(Expression::Constant(Constant::Null)),
        let_stmt("y", lit(2)),
    ];
    assert_eq!(
        compile(&prog),
        Err(LowerError::UnsupportedConstruct(Construct::NullLiteral))
    );
}

#[test]
fn string_literal_pushes_its_bytes() {
    let prog = vec![Statement::Expression(Expression::Constant(Constant::StringLiteral(
        "hi".to_string(),
    )))];
    assert_eq!(
        compile(&prog).unwrap(),
        vec![Instruction::PushLiteral(Literal::Str(name("hi"))), Instruction::Pop]
    );
}

#[test]
fn lowered_program_survives_the_codec() {
    let prog = vec![Statement::While(While {
        condition: var("go"),
        body: Box::new(Statement::IfElse(IfElse {
            condition: var("c"),
            body: Box::new(Statement::Expression(call("a"))),
            else_body: Box::new(Statement::Expression(call("b"))),
            span: sp(),
        })),
        span: sp(),
    })];
    for i in compile(&prog).unwrap().iter() {
        assert_eq!(&Instruction::from_bytecode(&i.to_bytecode()).unwrap(), i);
    }
}
