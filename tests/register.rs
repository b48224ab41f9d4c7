use popper_codegen::ast::{
    Argument, Assign, BinOp, BinOpKind, Constant, Expression, External, Function, FunctionSign,
    Ident, LetStmt, Return, Span, Statement, StructField, StructFieldAccess, StructFieldInstance,
    StructInstance, StructStmt, Type, TypeKind, While,
};
use popper_codegen::codegen::{compile, Compiler};
use popper_codegen::error::{Construct, LowerError};
use popper_codegen::ir::{FunctionType, IrInstr, IrValue, TypeEnum};
use popper_codegen::tag::{Tag, Tagged};

fn sp() -> Span {
    Span::new(0, 0)
}

fn ty(k: TypeKind) -> Type {
    Type::new(sp(), k, Vec::new())
}

fn lit(v: i64) -> Expression {
    Expression::Constant(Constant::Int(v))
}

fn var(n: &str) -> Expression {
    Expression::Constant(Constant::Ident(Ident { name: n.to_string(), span: sp() }))
}

fn add(l: Expression, r: Expression) -> Expression {
    Expression::BinOp(BinOp { op: BinOpKind::Add, lhs: Box::new(l), rhs: Box::new(r), span: sp() })
}

fn let_stmt(n: &str, e: Expression) -> Statement {
    Statement::Let(LetStmt { name: Ident { name: n.to_string(), span: sp() }, value: e, span: sp() })
}

fn assign(target: Expression, e: Expression) -> Statement {
    Statement::Assign(Assign { name: target, value: e, span: sp() })
}

fn ret(e: Expression) -> Statement {
    Statement::Return(Return { expression: Some(Box::new(e)), span: sp() })
}

fn function(name: &str, args: Vec<Argument>, body: Vec<Statement>) -> Statement {
    Statement::Function(Function {
        name: name.to_string(),
        arguments: args,
        returntype: ty(TypeKind::Int),
        body,
        is_var_args: false,
        span: sp(),
    })
}

fn point_decl() -> Statement {
    Statement::Struct(StructStmt::new(
        "Point".to_string(),
        vec![
            StructField::new("x".to_string(), ty(TypeKind::Int), sp()),
            StructField::new("y".to_string(), ty(TypeKind::Int), sp()),
        ],
        sp(),
    ))
}

fn point(x: i64, y: i64) -> Expression {
    Expression::StructInstance(StructInstance::new(
        "Point".to_string(),
        vec![
            StructFieldInstance::new("x".to_string(), lit(x), sp()),
            StructFieldInstance::new("y".to_string(), lit(y), sp()),
        ],
        sp(),
    ))
}

fn i32t() -> TypeEnum {
    TypeEnum::IntType(32)
}

fn point_ty() -> TypeEnum {
    TypeEnum::StructType(vec![i32t(), i32t()])
}

#[test]
fn let_of_a_sum_then_assign_lowers() {
    let prog = vec![function(
        "main",
        Vec::new(),
        vec![
            let_stmt("x", add(lit(1), lit(2))),
            assign(var("x"), add(var("x"), lit(1))),
            ret(var("x")),
        ],
    )];
    let m = compile(&prog).unwrap();
    assert_eq!(m.functions.len(), 1);
    let f = &m.functions[0];
    assert_eq!(f.name, "main");
    let x = IrValue::Register(0, i32t(), false);
    assert_eq!(
        f.entry,
        vec![
            IrInstr::IntAdd(0, IrValue::ConstInt(32, 1), IrValue::ConstInt(32, 2)),
            IrInstr::IntAdd(1, IrValue::Register(0, i32t(), false), IrValue::ConstInt(32, 1)),
            IrInstr::Store(x, IrValue::Register(1, i32t(), false)),
            IrInstr::Ret(IrValue::Register(0, i32t(), false)),
        ]
    );
}

#[test]
fn constant_let_gets_a_storage_slot() {
    let prog = vec![function(
        "main",
        Vec::new(),
        vec![let_stmt("x", lit(5)), assign(var("x"), add(var("x"), lit(1))), ret(var("x"))],
    )];
    let m = compile(&prog).unwrap();
    assert_eq!(
        m.functions[0].entry,
        vec![
            IrInstr::Const(0, IrValue::ConstInt(32, 5)),
            IrInstr::IntAdd(1, IrValue::Register(0, i32t(), false), IrValue::ConstInt(32, 1)),
            IrInstr::Store(IrValue::Register(0, i32t(), false), IrValue::Register(1, i32t(), false)),
            IrInstr::Ret(IrValue::Register(0, i32t(), false)),
        ]
    );
}

#[test]
fn assignment_to_a_literal_is_not_an_address() {
    let prog = vec![function("main", Vec::new(), vec![assign(lit(5), lit(1))])];
    assert_eq!(compile(&prog).unwrap_err(), LowerError::NotAnAddress);
}

#[test]
fn assignment_to_a_parameter_is_not_an_address() {
    let arg = Argument { name: "a".to_string(), ty: ty(TypeKind::Int), span: sp() };
    let prog = vec![function("f", vec![arg], vec![assign(var("a"), lit(1))])];
    assert_eq!(compile(&prog).unwrap_err(), LowerError::NotAnAddress);
}

#[test]
fn field_access_resolves_index_and_value() {
    let access = Expression::StructFieldAccess(StructFieldAccess::new(
        var("p"),
        "y".to_string(),
        false,
        sp(),
    ));
    let prog = vec![
        point_decl(),
        function("main", Vec::new(), vec![let_stmt("p", point(1, 2)), ret(access)]),
    ];
    let m = compile(&prog).unwrap();
    let entry = &m.functions[0].entry;
    assert_eq!(entry.len(), 3);
    assert_eq!(
        entry[0],
        IrInstr::Const(
            0,
            IrValue::ConstStruct(point_ty(), vec![IrValue::ConstInt(32, 1), IrValue::ConstInt(32, 2)])
        )
    );
    assert_eq!(
        entry[1],
        IrInstr::FieldPtr(1, i32t(), point_ty(), IrValue::Register(0, point_ty(), true), 1)
    );
    assert_eq!(entry[2], IrInstr::Ret(IrValue::Register(1, i32t(), false)));
    // the field the address points at holds 2
    match &entry[0] {
        IrInstr::Const(_, IrValue::ConstStruct(_, fields)) => {
            assert_eq!(fields[1], IrValue::ConstInt(32, 2))
        }
        _ => panic!("expected the struct constant"),
    }
}

#[test]
fn field_access_in_address_mode_is_not_loadable() {
    let access = Expression::StructFieldAccess(StructFieldAccess::new(
        var("p"),
        "x".to_string(),
        false,
        sp(),
    ));
    let prog = vec![
        point_decl(),
        function("main", Vec::new(), vec![let_stmt("p", point(1, 2)), assign(access, lit(7))]),
    ];
    let m = compile(&prog).unwrap();
    let entry = &m.functions[0].entry;
    assert_eq!(
        entry[1],
        IrInstr::FieldPtr(1, i32t(), point_ty(), IrValue::Register(0, point_ty(), true), 0)
    );
    assert_eq!(
        entry[2],
        IrInstr::Store(IrValue::Register(1, i32t(), true), IrValue::ConstInt(32, 7))
    );
}

#[test]
fn undeclared_struct_instance_is_unresolved() {
    let prog = vec![function("main", Vec::new(), vec![let_stmt("p", point(1, 2))])];
    assert_eq!(
        compile(&prog).unwrap_err(),
        LowerError::UnresolvedStruct("Point".to_string())
    );
}

#[test]
fn undeclared_struct_type_is_unresolved() {
    let c = Compiler::new();
    let t = ty(TypeKind::StructInstance("Nowhere".to_string()));
    assert_eq!(
        c.lower_type(&t).unwrap_err(),
        LowerError::UnresolvedStruct("Nowhere".to_string())
    );
}

#[test]
fn unknown_field_is_unresolved() {
    let access = Expression::StructFieldAccess(StructFieldAccess::new(
        var("p"),
        "z".to_string(),
        false,
        sp(),
    ));
    let prog = vec![
        point_decl(),
        function("main", Vec::new(), vec![let_stmt("p", point(1, 2)), ret(access)]),
    ];
    assert_eq!(
        compile(&prog).unwrap_err(),
        LowerError::UnresolvedField("Point".to_string(), "z".to_string())
    );
}

#[test]
fn unknown_variable_is_unresolved() {
    let prog = vec![function("main", Vec::new(), vec![ret(var("nope"))])];
    assert_eq!(
        compile(&prog).unwrap_err(),
        LowerError::UnresolvedVariable("nope".to_string())
    );
}

#[test]
fn empty_list_literal_is_refused() {
    let prog = vec![function(
        "main",
        Vec::new(),
        vec![let_stmt("l", Expression::Constant(Constant::List(Vec::new())))],
    )];
    assert_eq!(compile(&prog).unwrap_err(), LowerError::EmptyAggregateLiteral);
}

#[test]
fn list_literal_takes_the_type_of_its_first_element() {
    let mut c = Compiler::new();
    let l = Expression::Constant(Constant::List(vec![lit(1), lit(2), lit(3)]));
    let v = c.compile_expr(&l, false).unwrap();
    assert_eq!(
        v.value,
        IrValue::ConstArray(
            i32t(),
            vec![IrValue::ConstInt(32, 1), IrValue::ConstInt(32, 2), IrValue::ConstInt(32, 3)]
        )
    );
    assert_eq!(v.value.get_type(), TypeEnum::ArrayType(Box::new(i32t()), 3));
}

#[test]
fn string_literal_becomes_a_global() {
    let mut c = Compiler::new();
    let s = Expression::Constant(Constant::StringLiteral("ok".to_string()));
    let v = c.compile_expr(&s, false).unwrap();
    let arr = TypeEnum::ArrayType(Box::new(TypeEnum::IntType(8)), 2);
    assert_eq!(v.value, IrValue::Global(0, TypeEnum::PointerType(Box::new(arr))));
    assert_eq!(
        c.module.globals,
        vec![IrValue::ConstArray(
            TypeEnum::IntType(8),
            vec![IrValue::ConstInt(8, b'o' as i64), IrValue::ConstInt(8, b'k' as i64)]
        )]
    );
}

#[test]
fn extern_then_call() {
    let sign = FunctionSign {
        name: "puts".to_string(),
        arguments: vec![Argument { name: "s".to_string(), ty: ty(TypeKind::Int), span: sp() }],
        return_type: ty(TypeKind::Int),
        is_var_args: true,
        span: sp(),
    };
    let call = Expression::Call(popper_codegen::ast::Call {
        name: "puts".to_string(),
        arguments: vec![lit(4)],
        span: sp(),
    });
    let prog = vec![
        Statement::Extern(External::new(sp(), vec![sign])),
        function("main", Vec::new(), vec![Statement::Expression(call), ret(lit(0))]),
    ];
    let m = compile(&prog).unwrap();
    assert_eq!(m.externs.len(), 1);
    assert_eq!(m.externs[0].0, "puts");
    assert_eq!(
        m.externs[0].1,
        FunctionType { args: vec![i32t()], ret: Box::new(i32t()), is_var_args: true }
    );
    assert_eq!(
        m.functions[0].entry,
        vec![
            IrInstr::Call(0, "puts".to_string(), vec![IrValue::ConstInt(32, 4)]),
            IrInstr::Ret(IrValue::ConstInt(32, 0)),
        ]
    );
}

#[test]
fn reference_and_deref() {
    let r = Expression::Reference(popper_codegen::ast::Reference {
        expr: Box::new(var("x")),
        span: sp(),
    });
    let d = Expression::Deref(popper_codegen::ast::Deref { expr: Box::new(var("p")), span: sp() });
    let prog = vec![function(
        "main",
        Vec::new(),
        vec![let_stmt("x", lit(3)), let_stmt("p", r), ret(d)],
    )];
    let m = compile(&prog).unwrap();
    let ptr = TypeEnum::PointerType(Box::new(i32t()));
    assert_eq!(
        m.functions[0].entry,
        vec![
            IrInstr::Const(0, IrValue::ConstInt(32, 3)),
            IrInstr::Ref(1, IrValue::Register(0, i32t(), false)),
            IrInstr::Load(2, i32t(), IrValue::Register(1, ptr, false)),
            IrInstr::Ret(IrValue::Register(2, i32t(), false)),
        ]
    );
}

#[test]
fn statements_need_an_enclosing_function() {
    assert_eq!(
        compile(&vec![let_stmt("x", lit(1))]).unwrap_err(),
        LowerError::UnsupportedConstruct(Construct::StatementOutsideFunction)
    );
}

#[test]
fn control_flow_has_no_register_form() {
    let w = Statement::While(While {
        condition: var("c"),
        body: Box::new(Statement::Expression(lit(1))),
        span: sp(),
    });
    assert_eq!(
        compile(&vec![function("main", Vec::new(), vec![w])]).unwrap_err(),
        LowerError::UnsupportedConstruct(Construct::ControlFlowStatement)
    );
}

#[test]
fn unsupported_operator_is_refused() {
    let e = Expression::BinOp(BinOp {
        op: BinOpKind::Mul,
        lhs: Box::new(lit(2)),
        rhs: Box::new(lit(3)),
        span: sp(),
    });
    let mut c = Compiler::new();
    assert_eq!(
        c.compile_expr(&e, false).unwrap_err(),
        LowerError::UnsupportedConstruct(Construct::Operator(BinOpKind::Mul))
    );
}

#[test]
fn types_lower_to_their_ir_forms() {
    let c = Compiler::new();
    assert_eq!(c.lower_type(&ty(TypeKind::Bool)).unwrap().value, TypeEnum::IntType(8));
    assert_eq!(c.lower_type(&ty(TypeKind::Float)).unwrap().value, TypeEnum::FloatType);
    assert_eq!(
        c.lower_type(&ty(TypeKind::String(4))).unwrap().value,
        TypeEnum::ArrayType(Box::new(TypeEnum::IntType(8)), 4)
    );
    assert_eq!(
        c.lower_type(&ty(TypeKind::List(Box::new(ty(TypeKind::Int)), 3))).unwrap().value,
        TypeEnum::ArrayType(Box::new(i32t()), 3)
    );
    assert_eq!(
        c.lower_type(&ty(TypeKind::Unit)).unwrap_err(),
        LowerError::UnsupportedConstruct(Construct::UnitType)
    );
}

#[test]
fn struct_types_are_tagged_with_their_name() {
    let mut c = Compiler::new();
    c.compile_statement(&point_decl()).unwrap();
    let t = c
        .lower_type(&ty(TypeKind::Pointer(Box::new(ty(TypeKind::StructInstance("Point".to_string()))))))
        .unwrap();
    assert_eq!(t.tag, "Point");
    assert_eq!(t.value, TypeEnum::PointerType(Box::new(point_ty())));
}

#[test]
fn tagged_values() {
    let v: Tagged<i32> = Tagged::void(7);
    assert_eq!(v.tag, "");
    assert_eq!(v.value, 7);
    let t = 9u8.tag("S".to_string());
    assert_eq!(t.tag, "S");
    assert_eq!(t.value, 9);
}

#[test]
fn function_and_pointer_types() {
    let f = i32t().func(vec![TypeEnum::FloatType], false);
    assert_eq!(
        f,
        FunctionType { args: vec![TypeEnum::FloatType], ret: Box::new(i32t()), is_var_args: false }
    );
    assert_eq!(i32t().ptr(), TypeEnum::PointerType(Box::new(i32t())));
}

#[test]
fn external_keeps_its_span() {
    let e = External::new(Span::new(3, 9), Vec::new());
    assert_eq!(e.span(), Span::new(3, 9));
    assert!(e.signs.is_empty());
}
