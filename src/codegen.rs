//! Lowering of the typed tree into the register IR.
//!
//! The engine keeps a variable environment (scoped to one function), a
//! struct environment (name to layout and field names), the return types of
//! the functions seen so far, the basic block being filled and the next
//! register number. Each expression is lowered in one of two modes: value
//! mode, or address mode, where the caller wants a storable location (the
//! target of an assignment). The mode is a parameter of every recursive
//! call, never a flag on the engine.
//!
//! Every step is stated as a function on the engine's view (`CgState`); the
//! executable engine is proved to compute exactly that function.
use crate::ast::{
    Argument, Assign, BinOp, BinOpKind, Call, Constant, Deref, Expression, Function, FunctionSign,
    Reference, Statement, StructField, StructFieldAccess, StructFieldInstance, StructInstance, Type,
    TypeKind,
};
use crate::error::{Construct, LowerError, LowerErrorV};
use crate::ir::{
    copy_types, lemma_types_push, lemma_values_push, lemma_view_types, lemma_view_values, type_of, view_fn_type, lemma_type_view_kind,
    types_view, values_view, FunctionType, IrFunction, IrFunctionV, IrInstr, IrInstrV, IrModule,
    IrValue, ModuleV, TypeEnum, TypeV, ValueV, is_const, instrs_view,
};
use crate::sbc::{name_bytes, name_to_bytes};
use crate::tag::{Tag, Tagged};
use vstd::prelude::*;

verus! {

broadcast use vstd::std_specs::vec::group_vec_axioms;

/// A value with its tag, as the engine sees it.
pub type TaggedV = (Seq<char>, ValueV);

/// The view of the engine.
pub struct CgState {
    /// name, then tagged value; a later entry hides an earlier one
    pub env: Seq<(Seq<char>, TaggedV)>,
    /// name, layout, field names; a later entry hides an earlier one
    pub structs: Seq<(Seq<char>, TypeV, Seq<Seq<char>>)>,
    /// function name, then return type
    pub sigs: Seq<(Seq<char>, TypeV)>,
    /// the block being filled, inside a function
    pub block: Option<Seq<IrInstrV>>,
    pub next_reg: nat,
    pub module: ModuleV,
}

pub open spec fn lookup_var(env: Seq<(Seq<char>, TaggedV)>, name: Seq<char>) -> Option<TaggedV>
    decreases env.len(),
{
    if env.len() == 0 {
        None
    } else if env.last().0 == name {
        Some(env.last().1)
    } else {
        lookup_var(env.drop_last(), name)
    }
}

pub open spec fn lookup_struct(
    structs: Seq<(Seq<char>, TypeV, Seq<Seq<char>>)>,
    name: Seq<char>,
) -> Option<(TypeV, Seq<Seq<char>>)>
    decreases structs.len(),
{
    if structs.len() == 0 {
        None
    } else if structs.last().0 == name {
        Some((structs.last().1, structs.last().2))
    } else {
        lookup_struct(structs.drop_last(), name)
    }
}

pub open spec fn lookup_sig(sigs: Seq<(Seq<char>, TypeV)>, name: Seq<char>) -> Option<TypeV>
    decreases sigs.len(),
{
    if sigs.len() == 0 {
        None
    } else if sigs.last().0 == name {
        Some(sigs.last().1)
    } else {
        lookup_sig(sigs.drop_last(), name)
    }
}

/// The first position of `f` in `fields` at or after `k`.
pub open spec fn field_index(fields: Seq<Seq<char>>, f: Seq<char>, k: int) -> Option<nat>
    decreases fields.len() - k,
{
    if k < 0 || k >= fields.len() {
        None
    } else if fields[k] == f {
        Some(k as nat)
    } else {
        field_index(fields, f, k + 1)
    }
}

pub open spec fn unsupported(c: Construct) -> LowerErrorV {
    LowerErrorV::UnsupportedConstruct(c)
}

/// Whether an instruction that defines a register can be emitted now.
pub open spec fn can_emit(st: CgState) -> Result<(), LowerErrorV> {
    if st.block is None {
        Err(unsupported(Construct::StatementOutsideFunction))
    } else if st.next_reg >= usize::MAX {
        Err(unsupported(Construct::TooLarge))
    } else {
        Ok(())
    }
}

/// The state after appending `i` to the block.
pub open spec fn push_instr(st: CgState, i: IrInstrV) -> CgState {
    CgState { block: Some(st.block->Some_0.push(i)), ..st }
}

/// The state after appending `i`, which defines register `st.next_reg`.
pub open spec fn emit_def(st: CgState, i: IrInstrV) -> CgState {
    CgState { block: Some(st.block->Some_0.push(i)), next_reg: st.next_reg + 1, ..st }
}

pub open spec fn reg(st: CgState, t: TypeV, not_loadable: bool) -> ValueV {
    ValueV::Register(st.next_reg, t, not_loadable)
}

/// The IR type of a static type, tagged with the struct it names, if any.
pub open spec fn lower_type(
    structs: Seq<(Seq<char>, TypeV, Seq<Seq<char>>)>,
    t: &Type,
) -> Result<(Seq<char>, TypeV), LowerErrorV>
    decreases t,
{
    match &t.type_kind {
        TypeKind::Int => Ok((Seq::empty(), TypeV::Int(32))),
        TypeKind::Float => Ok((Seq::empty(), TypeV::Float)),
        TypeKind::Bool => Ok((Seq::empty(), TypeV::Int(8))),
        TypeKind::String(n) => Ok(
            (Seq::empty(), TypeV::Array(Box::new(TypeV::Int(8)), *n as nat)),
        ),
        TypeKind::List(e, n) => match lower_type(structs, e) {
            Ok((_, et)) => Ok((Seq::empty(), TypeV::Array(Box::new(et), *n as nat))),
            Err(x) => Err(x),
        },
        TypeKind::Pointer(e) => match lower_type(structs, e) {
            Ok((tag, et)) => Ok((tag, TypeV::Pointer(Box::new(et)))),
            Err(x) => Err(x),
        },
        TypeKind::Struct(fs) => match lower_field_types(structs, fs, fs.len() as int) {
            Ok(ts) => Ok((Seq::empty(), TypeV::Struct(ts))),
            Err(x) => Err(x),
        },
        TypeKind::StructInstance(name) => match lookup_struct(structs, name@) {
            Some((ty, _)) => Ok((name@, ty)),
            None => Err(LowerErrorV::UnresolvedStruct(name@)),
        },
        TypeKind::Unit => Err(unsupported(Construct::UnitType)),
        TypeKind::Char => Err(unsupported(Construct::CharType)),
        TypeKind::Tuple(_) => Err(unsupported(Construct::TupleType)),
        TypeKind::Function(_, _, _) => Err(unsupported(Construct::FunctionType)),
    }
}

/// The IR types of the first `n` fields of an anonymous struct type.
pub open spec fn lower_field_types(
    structs: Seq<(Seq<char>, TypeV, Seq<Seq<char>>)>,
    fs: &Vec<(String, Type)>,
    n: int,
) -> Result<Seq<TypeV>, LowerErrorV>
    decreases fs, n,
{
    if n <= 0 || n > fs.len() {
        Ok(Seq::empty())
    } else {
        match lower_field_types(structs, fs, n - 1) {
            Ok(ts) => match lower_type(structs, &fs[n - 1].1) {
                Ok((_, t)) => Ok(ts.push(t)),
                Err(x) => Err(x),
            },
            Err(x) => Err(x),
        }
    }
}

/// The tagged IR types of the first `n` arguments.
pub open spec fn lower_arg_types(
    structs: Seq<(Seq<char>, TypeV, Seq<Seq<char>>)>,
    args: &Vec<Argument>,
    n: int,
) -> Result<Seq<(Seq<char>, TypeV)>, LowerErrorV>
    decreases n,
{
    if n <= 0 || n > args.len() {
        Ok(Seq::empty())
    } else {
        match lower_arg_types(structs, args, n - 1) {
            Ok(ts) => match lower_type(structs, &args[n - 1].ty) {
                Ok(t) => Ok(ts.push(t)),
                Err(x) => Err(x),
            },
            Err(x) => Err(x),
        }
    }
}

/// The IR types of the first `n` fields of a struct declaration.
pub open spec fn lower_decl_types(
    structs: Seq<(Seq<char>, TypeV, Seq<Seq<char>>)>,
    fs: &Vec<StructField>,
    n: int,
) -> Result<Seq<TypeV>, LowerErrorV>
    decreases n,
{
    if n <= 0 || n > fs.len() {
        Ok(Seq::empty())
    } else {
        match lower_decl_types(structs, fs, n - 1) {
            Ok(ts) => match lower_type(structs, &fs[n - 1].ty) {
                Ok((_, t)) => Ok(ts.push(t)),
                Err(x) => Err(x),
            },
            Err(x) => Err(x),
        }
    }
}

/// The field names of a struct declaration.
pub open spec fn field_names(fs: &Vec<StructField>) -> Seq<Seq<char>> {
    fs@.map_values(|f: StructField| f.name@)
}

/// The global array that holds the bytes of a string literal.
pub open spec fn string_global(s: String) -> ValueV {
    ValueV::ConstArray(
        TypeV::Int(8),
        Seq::new(name_bytes(s).len(), |k: int| ValueV::ConstInt(8, name_bytes(s)[k] as i64)),
    )
}

/// Lowers the first `n` expressions of `v` in value mode, one after the other.
pub open spec fn lower_exprs(st: CgState, v: &Vec<Expression>, n: int) -> Result<
    (CgState, Seq<ValueV>),
    LowerErrorV,
>
    decreases v, n,
{
    if n <= 0 || n > v.len() {
        Ok((st, Seq::empty()))
    } else {
        match lower_exprs(st, v, n - 1) {
            Ok((st1, vs)) => match lower_expr(st1, &v[n - 1], false) {
                Ok((st2, (_, x))) => Ok((st2, vs.push(x))),
                Err(e) => Err(e),
            },
            Err(e) => Err(e),
        }
    }
}

/// Lowers the values of the first `n` fields of a struct instance, in order.
pub open spec fn lower_fields(st: CgState, v: &Vec<StructFieldInstance>, n: int) -> Result<
    (CgState, Seq<ValueV>),
    LowerErrorV,
>
    decreases v, n,
{
    if n <= 0 || n > v.len() {
        Ok((st, Seq::empty()))
    } else {
        match lower_fields(st, v, n - 1) {
            Ok((st1, vs)) => match lower_expr(st1, &v[n - 1].value, false) {
                Ok((st2, (_, x))) => Ok((st2, vs.push(x))),
                Err(e) => Err(e),
            },
            Err(e) => Err(e),
        }
    }
}

/// The struct type of the base of a field access: the base's own type, or
/// with `is_ptr` the type it points to.
pub open spec fn accessed_struct(base_ty: TypeV, is_ptr: bool) -> Result<Seq<TypeV>, LowerErrorV> {
    if is_ptr {
        match base_ty {
            TypeV::Pointer(inner) => match *inner {
                TypeV::Struct(fts) => Ok(fts),
                _ => Err(unsupported(Construct::NonStructOperand)),
            },
            _ => Err(unsupported(Construct::NonPointerOperand)),
        }
    } else {
        match base_ty {
            TypeV::Struct(fts) => Ok(fts),
            _ => Err(unsupported(Construct::NonStructOperand)),
        }
    }
}

/// Lowers an expression in address mode (`addr`) or value mode. The result
/// is the state after it and the tagged value it produced.
pub open spec fn lower_expr(st: CgState, e: &Expression, addr: bool) -> Result<
    (CgState, TaggedV),
    LowerErrorV,
>
    decreases e,
{
    match e {
        Expression::Constant(c) => match c {
            Constant::Int(v) => Ok((st, (Seq::empty(), ValueV::ConstInt(32, *v)))),
            Constant::Float(b) => Ok((st, (Seq::empty(), ValueV::ConstFloat(*b)))),
            Constant::Bool(b) => Ok(
                (st, (Seq::empty(), ValueV::ConstInt(8, if *b { 1 } else { 0 }))),
            ),
            Constant::StringLiteral(s) => Ok(
                (
                    CgState {
                        module: ModuleV {
                            globals: st.module.globals.push(string_global(*s)),
                            ..st.module
                        },
                        ..st
                    },
                    (
                        Seq::empty(),
                        ValueV::Global(
                            st.module.globals.len(),
                            TypeV::Pointer(Box::new(type_of(string_global(*s)))),
                        ),
                    ),
                ),
            ),
            Constant::List(v) => if v.len() == 0 {
                Err(LowerErrorV::EmptyAggregateLiteral)
            } else {
                match lower_exprs(st, v, v.len() as int) {
                    Ok((st1, vs)) => Ok(
                        (st1, (Seq::empty(), ValueV::ConstArray(type_of(vs[0]), vs))),
                    ),
                    Err(x) => Err(x),
                }
            },
            Constant::Ident(id) => match lookup_var(st.env, id.name@) {
                Some(tv) => Ok((st, tv)),
                None => Err(LowerErrorV::UnresolvedVariable(id.name@)),
            },
            Constant::Null => Err(unsupported(Construct::NullLiteral)),
        },
        Expression::Call(c) => match lower_exprs(st, &c.arguments, c.arguments.len() as int) {
            Ok((st1, vs)) => match can_emit(st1) {
                Ok(_) => match lookup_sig(st1.sigs, c.name@) {
                    Some(rt) => Ok(
                        (
                            emit_def(st1, IrInstrV::Call(st1.next_reg, c.name@, vs)),
                            (Seq::empty(), reg(st1, rt, false)),
                        ),
                    ),
                    None => Err(LowerErrorV::UnresolvedVariable(c.name@)),
                },
                Err(x) => Err(x),
            },
            Err(x) => Err(x),
        },
        Expression::Reference(r) => match lower_expr(st, &r.expr, addr) {
            Ok((st1, (tag, v))) => if addr {
                Ok((st1, (tag, v)))
            } else {
                match can_emit(st1) {
                    Ok(_) => Ok(
                        (
                            emit_def(st1, IrInstrV::Ref(st1.next_reg, v)),
                            (tag, reg(st1, TypeV::Pointer(Box::new(type_of(v))), false)),
                        ),
                    ),
                    Err(x) => Err(x),
                }
            },
            Err(x) => Err(x),
        },
        Expression::Deref(d) => match lower_expr(st, &d.expr, addr) {
            Ok((st1, (tag, v))) => if addr {
                Ok((st1, (tag, v)))
            } else {
                match type_of(v) {
                    TypeV::Pointer(elt) => match can_emit(st1) {
                        Ok(_) => Ok(
                            (
                                emit_def(st1, IrInstrV::Load(st1.next_reg, *elt, v)),
                                (tag, reg(st1, *elt, false)),
                            ),
                        ),
                        Err(x) => Err(x),
                    },
                    _ => Err(unsupported(Construct::NonPointerOperand)),
                }
            },
            Err(x) => Err(x),
        },
        Expression::BinOp(b) => match lower_expr(st, &b.lhs, false) {
            Ok((st1, (_, l))) => match lower_expr(st1, &b.rhs, false) {
                Ok((st2, (_, r))) => if b.op != BinOpKind::Add && b.op != BinOpKind::Sub {
                    Err(unsupported(Construct::Operator(b.op)))
                } else if !(type_of(l) is Int) || !(type_of(r) is Int) {
                    Err(unsupported(Construct::NonIntegerOperand))
                } else {
                    match can_emit(st2) {
                        Ok(_) => Ok(
                            (
                                emit_def(
                                    st2,
                                    if b.op == BinOpKind::Add {
                                        IrInstrV::IntAdd(st2.next_reg, l, r)
                                    } else {
                                        IrInstrV::IntSub(st2.next_reg, l, r)
                                    },
                                ),
                                (Seq::empty(), reg(st2, type_of(l), false)),
                            ),
                        ),
                        Err(x) => Err(x),
                    }
                },
                Err(x) => Err(x),
            },
            Err(x) => Err(x),
        },
        Expression::StructInstance(s) => match lower_fields(st, &s.fields, s.fields.len() as int) {
            Ok((st1, vs)) => match lookup_struct(st1.structs, s.name@) {
                Some((ty, _)) => match can_emit(st1) {
                    Ok(_) => Ok(
                        (
                            emit_def(
                                st1,
                                IrInstrV::Const(st1.next_reg, ValueV::ConstStruct(ty, vs)),
                            ),
                            (s.name@, reg(st1, ty, true)),
                        ),
                    ),
                    Err(x) => Err(x),
                },
                None => Err(LowerErrorV::UnresolvedStruct(s.name@)),
            },
            Err(x) => Err(x),
        },
        Expression::StructFieldAccess(s) => match lower_expr(st, &s.name, addr) {
            Ok((st1, (tag, base))) => match lookup_struct(st1.structs, tag) {
                Some((_, names)) => match field_index(names, s.field@, 0) {
                    Some(idx) => match accessed_struct(type_of(base), s.is_ptr) {
                        Ok(fts) => if idx < fts.len() {
                            match can_emit(st1) {
                                Ok(_) => Ok(
                                    (
                                        emit_def(
                                            st1,
                                            IrInstrV::FieldPtr(
                                                st1.next_reg,
                                                fts[idx as int],
                                                TypeV::Struct(fts),
                                                base,
                                                idx,
                                            ),
                                        ),
                                        (Seq::empty(), reg(st1, fts[idx as int], addr)),
                                    ),
                                ),
                                Err(x) => Err(x),
                            }
                        } else {
                            Err(LowerErrorV::UnresolvedField(tag, s.field@))
                        },
                        Err(x) => Err(x),
                    },
                    None => Err(LowerErrorV::UnresolvedField(tag, s.field@)),
                },
                None => Err(LowerErrorV::UnresolvedStruct(tag)),
            },
            Err(x) => Err(x),
        },
    }
}


/// The environment of a function body: each parameter bound to its argument
/// value, tagged as its type is.
pub open spec fn params_env(args: &Vec<Argument>, tys: Seq<(Seq<char>, TypeV)>) -> Seq<
    (Seq<char>, TaggedV),
> {
    Seq::new(
        tys.len(),
        |k: int| (args[k].name@, (tys[k].0, ValueV::Argument(k as nat, tys[k].1))),
    )
}

/// The function type of a signature, from its tagged parameter types.
pub open spec fn fn_type(tys: Seq<(Seq<char>, TypeV)>, ret: TypeV, is_var_args: bool) -> TypeV {
    TypeV::Function(tys.map_values(|p: (Seq<char>, TypeV)| p.1), Box::new(ret), is_var_args)
}

/// Declares the first `n` outside functions of an `extern` block.
pub open spec fn lower_signs(st: CgState, v: &Vec<FunctionSign>, n: int) -> Result<
    CgState,
    LowerErrorV,
>
    decreases n,
{
    if n <= 0 || n > v.len() {
        Ok(st)
    } else {
        match lower_signs(st, v, n - 1) {
            Ok(st1) => {
                let sign = &v[n - 1];
                match lower_arg_types(st1.structs, &sign.arguments, sign.arguments.len() as int) {
                    Ok(tys) => match lower_type(st1.structs, &sign.return_type) {
                        Ok((_, rt)) => Ok(
                            CgState {
                                sigs: st1.sigs.push((sign.name@, rt)),
                                module: ModuleV {
                                    externs: st1.module.externs.push(
                                        (sign.name@, fn_type(tys, rt, sign.is_var_args)),
                                    ),
                                    ..st1.module
                                },
                                ..st1
                            },
                        ),
                        Err(x) => Err(x),
                    },
                    Err(x) => Err(x),
                }
            },
            Err(x) => Err(x),
        }
    }
}

/// Lowers a function definition: its body goes into a fresh entry block
/// with the parameters as the whole environment and registers numbered from
/// zero; afterwards the enclosing environment, block and numbering are back.
pub open spec fn lower_function(st: CgState, f: &Function) -> Result<CgState, LowerErrorV>
    decreases f,
{
    match lower_arg_types(st.structs, &f.arguments, f.arguments.len() as int) {
        Ok(tys) => match lower_type(st.structs, &f.returntype) {
            Ok((_, rt)) => {
                let inner = CgState {
                    env: params_env(&f.arguments, tys),
                    sigs: st.sigs.push((f.name@, rt)),
                    block: Some(Seq::empty()),
                    next_reg: 0,
                    ..st
                };
                match lower_stmts(inner, &f.body, f.body.len() as int) {
                    Ok(done) => Ok(
                        CgState {
                            env: st.env,
                            block: st.block,
                            next_reg: st.next_reg,
                            module: ModuleV {
                                functions: done.module.functions.push(
                                    IrFunctionV {
                                        name: f.name@,
                                        ty: fn_type(tys, rt, f.is_var_args),
                                        entry: match done.block {
                                            Some(b) => b,
                                            None => Seq::empty(),
                                        },
                                    },
                                ),
                                ..done.module
                            },
                            ..done
                        },
                    ),
                    Err(x) => Err(x),
                }
            },
            Err(x) => Err(x),
        },
        Err(x) => Err(x),
    }
}

/// Lowers the first `n` statements of `v`, one after the other.
pub open spec fn lower_stmts(st: CgState, v: &Vec<Statement>, n: int) -> Result<
    CgState,
    LowerErrorV,
>
    decreases v, n,
{
    if n <= 0 || n > v.len() {
        Ok(st)
    } else {
        match lower_stmts(st, v, n - 1) {
            Ok(st1) => lower_stmt(st1, &v[n - 1]),
            Err(x) => Err(x),
        }
    }
}

/// Lowers one statement.
pub open spec fn lower_stmt(st: CgState, s: &Statement) -> Result<CgState, LowerErrorV>
    decreases s,
{
    match s {
        Statement::Function(f) => lower_function(st, f),
        Statement::Extern(ext) => lower_signs(st, &ext.signs, ext.signs.len() as int),
        Statement::Let(l) => match lower_expr(st, &l.value, false) {
            Ok((st1, (tag, v))) => if is_const(v) {
                match can_emit(st1) {
                    Ok(_) => {
                        let st2 = emit_def(st1, IrInstrV::Const(st1.next_reg, v));
                        Ok(
                            CgState {
                                env: st2.env.push(
                                    (l.name.name@, (l.name.name@, reg(st1, type_of(v), false))),
                                ),
                                ..st2
                            },
                        )
                    },
                    Err(x) => Err(x),
                }
            } else {
                Ok(CgState { env: st1.env.push((l.name.name@, (tag, v))), ..st1 })
            },
            Err(x) => Err(x),
        },
        Statement::Return(r) => match &r.expression {
            Some(e) => match lower_expr(st, e, false) {
                Ok((st1, (_, v))) => if st1.block is None {
                    Err(unsupported(Construct::StatementOutsideFunction))
                } else {
                    Ok(push_instr(st1, IrInstrV::Ret(v)))
                },
                Err(x) => Err(x),
            },
            None => Err(unsupported(Construct::BareReturn)),
        },
        Statement::Assign(a) => match lower_expr(st, &a.name, true) {
            Ok((st1, (_, t))) => if !(t is Register) {
                Err(LowerErrorV::NotAnAddress)
            } else {
                match lower_expr(st1, &a.value, false) {
                    Ok((st2, (_, v))) => if st2.block is None {
                        Err(unsupported(Construct::StatementOutsideFunction))
                    } else {
                        Ok(push_instr(st2, IrInstrV::Store(t, v)))
                    },
                    Err(x) => Err(x),
                }
            },
            Err(x) => Err(x),
        },
        Statement::Struct(decl) => match lower_decl_types(
            st.structs,
            &decl.fields,
            decl.fields.len() as int,
        ) {
            Ok(tys) => Ok(
                CgState {
                    structs: st.structs.push(
                        (decl.name@, TypeV::Struct(tys), field_names(&decl.fields)),
                    ),
                    ..st
                },
            ),
            Err(x) => Err(x),
        },
        Statement::Expression(e) => match lower_expr(st, e, false) {
            Ok((st1, _)) => Ok(st1),
            Err(x) => Err(x),
        },
        Statement::Block(_) | Statement::If(_) | Statement::IfElse(_) | Statement::While(_) => Err(
            unsupported(Construct::ControlFlowStatement),
        ),
    }
}

/// The state of a fresh engine.
pub open spec fn initial_state() -> CgState {
    CgState {
        env: Seq::empty(),
        structs: Seq::empty(),
        sigs: Seq::empty(),
        block: None,
        next_reg: 0,
        module: ModuleV { externs: Seq::empty(), functions: Seq::empty(), globals: Seq::empty() },
    }
}

/// The module that a whole unit lowers to.
pub open spec fn lower_program(stmts: &Vec<Statement>) -> Result<ModuleV, LowerErrorV> {
    match lower_stmts(initial_state(), stmts, stmts.len() as int) {
        Ok(st) => Ok(st.module),
        Err(x) => Err(x),
    }
}


/// A declared struct: its name, its layout and its field names in order.
#[derive(Debug)]
pub struct StructEntry {
    pub name: String,
    pub ty: TypeEnum,
    pub fields: Vec<String>,
}

/// The register lowering engine for one compilation unit.
#[derive(Debug)]
pub struct Compiler {
    pub env: Vec<(String, Tagged<IrValue>)>,
    pub struct_env: Vec<StructEntry>,
    pub sigs: Vec<(String, TypeEnum)>,
    pub current_basic_block: Option<Vec<IrInstr>>,
    pub next_reg: usize,
    pub module: IrModule,
}

pub open spec fn env_view(env: Seq<(String, Tagged<IrValue>)>) -> Seq<(Seq<char>, TaggedV)> {
    env.map_values(|p: (String, Tagged<IrValue>)| (p.0@, p.1@))
}

pub open spec fn structs_view(s: Seq<StructEntry>) -> Seq<(Seq<char>, TypeV, Seq<Seq<char>>)> {
    s.map_values(|e: StructEntry| (e.name@, e.ty@, e.fields@.map_values(|f: String| f@)))
}

pub open spec fn sigs_view(s: Seq<(String, TypeEnum)>) -> Seq<(Seq<char>, TypeV)> {
    s.map_values(|p: (String, TypeEnum)| (p.0@, p.1@))
}

pub open spec fn block_view(b: Option<Vec<IrInstr>>) -> Option<Seq<IrInstrV>> {
    match b {
        Some(v) => Some(instrs_view(&v)),
        None => None,
    }
}

impl View for Compiler {
    type V = CgState;

    open spec fn view(&self) -> CgState {
        CgState {
            env: env_view(self.env@),
            structs: structs_view(self.struct_env@),
            sigs: sigs_view(self.sigs@),
            block: block_view(self.current_basic_block),
            next_reg: self.next_reg as nat,
            module: self.module@,
        }
    }
}

fn err_of(x: &LowerError) -> (r: LowerError)
    ensures
        r@ == x@,
{
    match x {
        LowerError::UnresolvedStruct(s) => LowerError::UnresolvedStruct(s.clone()),
        LowerError::UnresolvedVariable(s) => LowerError::UnresolvedVariable(s.clone()),
        LowerError::UnresolvedField(s, f) => LowerError::UnresolvedField(s.clone(), f.clone()),
        LowerError::NotAnAddress => LowerError::NotAnAddress,
        LowerError::EmptyAggregateLiteral => LowerError::EmptyAggregateLiteral,
        LowerError::UnsupportedConstruct(c) => LowerError::UnsupportedConstruct(*c),
    }
}

impl Compiler {
    pub fn new() -> (r: Compiler)
        ensures
            r@ == initial_state(),
    {
        let r = Compiler {
            env: Vec::new(),
            struct_env: Vec::new(),
            sigs: Vec::new(),
            current_basic_block: None,
            next_reg: 0,
            module: IrModule { externs: Vec::new(), functions: Vec::new(), globals: Vec::new() },
        };
        proof {
            lemma_view_values(&r.module.globals, 0);
            assert(r@.env =~= initial_state().env);
            assert(r@.structs =~= initial_state().structs);
            assert(r@.sigs =~= initial_state().sigs);
            assert(r@.module.externs =~= initial_state().module.externs);
            assert(r@.module.functions =~= initial_state().module.functions);
            assert(r@.module.globals =~= initial_state().module.globals);
        }
        r
    }

    fn check_emit(&self) -> (r: Result<(), LowerError>)
        ensures
            match can_emit(self@) {
                Ok(_) => r is Ok,
                Err(x) => r matches Err(y) && y@ == x,
            },
    {
        if self.current_basic_block.is_none() {
            Err(LowerError::UnsupportedConstruct(Construct::StatementOutsideFunction))
        } else if self.next_reg == usize::MAX {
            Err(LowerError::UnsupportedConstruct(Construct::TooLarge))
        } else {
            Ok(())
        }
    }

    /// Appends `i` to the block.
    fn push_instr(&mut self, i: IrInstr)
        requires
            old(self)@.block is Some,
        ensures
            final(self)@ == push_instr(old(self)@, i@),
    {
        let mut b = self.current_basic_block.take().unwrap();
        let ghost before = b;
        b.push(i);
        assert(instrs_view(&b) =~= instrs_view(&before).push(i@));
        self.current_basic_block = Some(b);
    }

    /// Appends `i`, which defines the next register.
    fn emit_def(&mut self, i: IrInstr)
        requires
            can_emit(old(self)@) is Ok,
        ensures
            final(self)@ == emit_def(old(self)@, i@),
    {
        self.push_instr(i);
        self.next_reg = self.next_reg + 1;
    }

    /// The position of the entry that `name` resolves to in the variable
    /// environment.
    fn find_var(&self, name: &String) -> (r: Option<usize>)
        ensures
            match lookup_var(self@.env, name@) {
                Some(tv) => r matches Some(k) && k < self.env.len() && self.env@[k as int].1@ == tv,
                None => r is None,
            },
    {
        let ghost full = self@.env;
        let mut k: usize = self.env.len();
        assert(full.subrange(0, k as int) =~= full);
        while k > 0
            invariant
                k <= self.env.len(),
                full == env_view(self.env@),
                lookup_var(full, name@) == lookup_var(full.subrange(0, k as int), name@),
            decreases k,
        {
            let ghost part = full.subrange(0, k as int);
            if self.env[k - 1].0 == *name {
                return Some(k - 1);
            }
            assert(part.drop_last() =~= full.subrange(0, k - 1));
            k = k - 1;
        }
        None
    }

    /// The position of the entry that `name` resolves to in the struct
    /// environment.
    fn find_struct(&self, name: &String) -> (r: Option<usize>)
        ensures
            match lookup_struct(self@.structs, name@) {
                Some(p) => r matches Some(k) && k < self.struct_env.len() && (
                self@.structs[k as int].1,
                self@.structs[k as int].2,
            ) == p,
                None => r is None,
            },
    {
        let ghost full = self@.structs;
        let mut k: usize = self.struct_env.len();
        assert(full.subrange(0, k as int) =~= full);
        while k > 0
            invariant
                k <= self.struct_env.len(),
                full == structs_view(self.struct_env@),
                lookup_struct(full, name@) == lookup_struct(full.subrange(0, k as int), name@),
            decreases k,
        {
            let ghost part = full.subrange(0, k as int);
            if self.struct_env[k - 1].name == *name {
                return Some(k - 1);
            }
            assert(part.drop_last() =~= full.subrange(0, k - 1));
            k = k - 1;
        }
        None
    }

    /// The position of the entry that `name` resolves to among the known
    /// functions.
    fn find_sig(&self, name: &String) -> (r: Option<usize>)
        ensures
            match lookup_sig(self@.sigs, name@) {
                Some(t) => r matches Some(k) && k < self.sigs.len() && self.sigs@[k as int].1@ == t,
                None => r is None,
            },
    {
        let ghost full = self@.sigs;
        let mut k: usize = self.sigs.len();
        assert(full.subrange(0, k as int) =~= full);
        while k > 0
            invariant
                k <= self.sigs.len(),
                full == sigs_view(self.sigs@),
                lookup_sig(full, name@) == lookup_sig(full.subrange(0, k as int), name@),
            decreases k,
        {
            let ghost part = full.subrange(0, k as int);
            if self.sigs[k - 1].0 == *name {
                return Some(k - 1);
            }
            assert(part.drop_last() =~= full.subrange(0, k - 1));
            k = k - 1;
        }
        None
    }
}

/// The position of `f` among `fields`.
fn find_field(fields: &Vec<String>, f: &String) -> (r: Option<usize>)
    ensures
        match field_index(fields@.map_values(|s: String| s@), f@, 0) {
            Some(i) => r matches Some(k) && k == i && k < fields.len(),
            None => r is None,
        },
{
    let ghost names = fields@.map_values(|s: String| s@);
    let mut k: usize = 0;
    while k < fields.len()
        invariant
            k <= fields.len(),
            names == fields@.map_values(|s: String| s@),
            field_index(names, f@, 0) == field_index(names, f@, k as int),
        decreases fields.len() - k,
    {
        if fields[k] == *f {
            return Some(k);
        }
        k = k + 1;
    }
    None
}


proof fn lemma_field_types_err(
    structs: Seq<(Seq<char>, TypeV, Seq<Seq<char>>)>,
    fs: &Vec<(String, Type)>,
    k: int,
    m: int,
)
    requires
        0 <= k <= m <= fs.len(),
        lower_field_types(structs, fs, k) is Err,
    ensures
        lower_field_types(structs, fs, m) == lower_field_types(structs, fs, k),
    decreases m - k,
{
    if k < m {
        lemma_field_types_err(structs, fs, k, m - 1);
    }
}

proof fn lemma_arg_types_err(
    structs: Seq<(Seq<char>, TypeV, Seq<Seq<char>>)>,
    args: &Vec<Argument>,
    k: int,
    m: int,
)
    requires
        0 <= k <= m <= args.len(),
        lower_arg_types(structs, args, k) is Err,
    ensures
        lower_arg_types(structs, args, m) == lower_arg_types(structs, args, k),
    decreases m - k,
{
    if k < m {
        lemma_arg_types_err(structs, args, k, m - 1);
    }
}

proof fn lemma_decl_types_err(
    structs: Seq<(Seq<char>, TypeV, Seq<Seq<char>>)>,
    fs: &Vec<StructField>,
    k: int,
    m: int,
)
    requires
        0 <= k <= m <= fs.len(),
        lower_decl_types(structs, fs, k) is Err,
    ensures
        lower_decl_types(structs, fs, m) == lower_decl_types(structs, fs, k),
    decreases m - k,
{
    if k < m {
        lemma_decl_types_err(structs, fs, k, m - 1);
    }
}

impl Compiler {
    /// The IR type of a static type, tagged with the name of the struct it
    /// names (through pointers too).
    pub fn lower_type(&self, t: &Type) -> (r: Result<Tagged<TypeEnum>, LowerError>)
        ensures
            match lower_type(self@.structs, t) {
                Ok(tv) => r matches Ok(x) && x@ == tv,
                Err(e) => r matches Err(y) && y@ == e,
            },
        decreases t,
    {
        let r = match &t.type_kind {
            TypeKind::Int => Ok(Tagged::void(TypeEnum::IntType(32))),
            TypeKind::Float => Ok(Tagged::void(TypeEnum::FloatType)),
            TypeKind::Bool => Ok(Tagged::void(TypeEnum::IntType(8))),
            TypeKind::String(n) => {
                let len: usize = *n as usize;
                let byte = TypeEnum::IntType(8);
                assert(byte@ == TypeV::Int(8));
                Ok(Tagged::void(TypeEnum::ArrayType(Box::new(byte), len)))
            },
            TypeKind::List(e, n) => match self.lower_type(e) {
                Ok(x) => Ok(Tagged::void(TypeEnum::ArrayType(Box::new(x.value), *n))),
                Err(y) => Err(y),
            },
            TypeKind::Pointer(e) => match self.lower_type(e) {
                Ok(x) => Ok(Tagged { tag: x.tag, value: TypeEnum::PointerType(Box::new(x.value)) }),
                Err(y) => Err(y),
            },
            TypeKind::Struct(fs) => match self.lower_field_types(fs) {
                Ok(v) => Ok(Tagged::void(TypeEnum::StructType(v))),
                Err(y) => Err(y),
            },
            TypeKind::StructInstance(name) => match self.find_struct(name) {
                Some(k) => {
                    assert(self@.structs[k as int].1 == self.struct_env@[k as int].ty@);
                    Ok(self.struct_env[k].ty.copy().tag(name.clone()))
                },
                None => Err(LowerError::UnresolvedStruct(name.clone())),
            },
            TypeKind::Unit => Err(LowerError::UnsupportedConstruct(Construct::UnitType)),
            TypeKind::Char => Err(LowerError::UnsupportedConstruct(Construct::CharType)),
            TypeKind::Tuple(_) => Err(LowerError::UnsupportedConstruct(Construct::TupleType)),
            TypeKind::Function(_, _, _) => Err(
                LowerError::UnsupportedConstruct(Construct::FunctionType),
            ),
        };
        r
    }

    fn lower_field_types(&self, fs: &Vec<(String, Type)>) -> (r: Result<Vec<TypeEnum>, LowerError>)
        ensures
            match lower_field_types(self@.structs, fs, fs.len() as int) {
                Ok(ts) => r matches Ok(v) && types_view(&v) == ts,
                Err(e) => r matches Err(y) && y@ == e,
            },
        decreases fs,
    {
        let mut out: Vec<TypeEnum> = Vec::new();
        proof {
            lemma_view_types(&out, 0);
        }
        let mut k: usize = 0;
        while k < fs.len()
            invariant
                k <= fs.len(),
                lower_field_types(self@.structs, fs, k as int) matches Ok(ts) && types_view(&out)
                    == ts,
            decreases fs.len() - k,
        {
            match self.lower_type(&fs[k].1) {
                Ok(x) => {
                    let ghost before = out;
                    let ghost tv = x.value;
                    out.push(x.value);
                    proof {
                        lemma_types_push(&before, &out, &tv);
                    }
                },
                Err(y) => {
                    proof {
                        lemma_field_types_err(self@.structs, fs, k + 1, fs.len() as int);
                    }
                    return Err(y);
                },
            }
            k = k + 1;
        }
        Ok(out)
    }

    fn lower_arg_types(&self, args: &Vec<Argument>) -> (r: Result<Vec<Tagged<TypeEnum>>, LowerError>)
        ensures
            match lower_arg_types(self@.structs, args, args.len() as int) {
                Ok(ts) => r matches Ok(v) && v.len() == ts.len() && v.len() == args.len() && forall|j: int|
                    0 <= j < v.len() ==> #[trigger] v@[j]@ == ts[j],
                Err(e) => r matches Err(y) && y@ == e,
            },
    {
        let mut out: Vec<Tagged<TypeEnum>> = Vec::new();
        let mut k: usize = 0;
        while k < args.len()
            invariant
                k <= args.len(),
                lower_arg_types(self@.structs, args, k as int) matches Ok(ts) && out.len()
                    == ts.len() && out.len() == k && forall|j: int| 0 <= j < out.len() ==> #[trigger] out@[j]@ == ts[j],
            decreases args.len() - k,
        {
            match self.lower_type(&args[k].ty) {
                Ok(x) => {
                    out.push(x);
                },
                Err(y) => {
                    proof {
                        lemma_arg_types_err(self@.structs, args, k + 1, args.len() as int);
                    }
                    return Err(y);
                },
            }
            k = k + 1;
        }
        Ok(out)
    }

    fn lower_decl_types(&self, fs: &Vec<StructField>) -> (r: Result<Vec<TypeEnum>, LowerError>)
        ensures
            match lower_decl_types(self@.structs, fs, fs.len() as int) {
                Ok(ts) => r matches Ok(v) && types_view(&v) == ts,
                Err(e) => r matches Err(y) && y@ == e,
            },
    {
        let mut out: Vec<TypeEnum> = Vec::new();
        proof {
            lemma_view_types(&out, 0);
        }
        let mut k: usize = 0;
        while k < fs.len()
            invariant
                k <= fs.len(),
                lower_decl_types(self@.structs, fs, k as int) matches Ok(ts) && types_view(&out)
                    == ts,
            decreases fs.len() - k,
        {
            match self.lower_type(&fs[k].ty) {
                Ok(x) => {
                    let ghost before = out;
                    let ghost tv = x.value;
                    out.push(x.value);
                    proof {
                        lemma_types_push(&before, &out, &tv);
                    }
                },
                Err(y) => {
                    proof {
                        lemma_decl_types_err(self@.structs, fs, k + 1, fs.len() as int);
                    }
                    return Err(y);
                },
            }
            k = k + 1;
        }
        Ok(out)
    }
}


proof fn lemma_exprs_err(st: CgState, v: &Vec<Expression>, k: int, m: int)
    requires
        0 <= k <= m <= v.len(),
        lower_exprs(st, v, k) is Err,
    ensures
        lower_exprs(st, v, m) == lower_exprs(st, v, k),
    decreases m - k,
{
    if k < m {
        lemma_exprs_err(st, v, k, m - 1);
    }
}

proof fn lemma_fields_err(st: CgState, v: &Vec<StructFieldInstance>, k: int, m: int)
    requires
        0 <= k <= m <= v.len(),
        lower_fields(st, v, k) is Err,
    ensures
        lower_fields(st, v, m) == lower_fields(st, v, k),
    decreases m - k,
{
    if k < m {
        lemma_fields_err(st, v, k, m - 1);
    }
}

fn is_int_type(t: &TypeEnum) -> (r: bool)
    ensures
        r == (t@ is Int),
{
    match t {
        TypeEnum::IntType(_) => true,
        TypeEnum::FunctionType(f) => {
            assert(t@ == view_fn_type(f));
            false
        },
        _ => false,
    }
}

/// The byte constants of a string's global.
fn byte_values(bytes: &Vec<u8>) -> (r: Vec<IrValue>)
    ensures
        values_view(&r) == Seq::new(bytes@.len(), |k: int| ValueV::ConstInt(8, bytes@[k] as i64)),
{
    let mut r: Vec<IrValue> = Vec::new();
    proof {
        lemma_view_values(&r, 0);
    }
    let mut k: usize = 0;
    while k < bytes.len()
        invariant
            k <= bytes.len(),
            values_view(&r) == Seq::new(k as nat, |j: int| ValueV::ConstInt(8, bytes@[j] as i64)),
        decreases bytes.len() - k,
    {
        let x = IrValue::ConstInt(8, bytes[k] as i64);
        let ghost before = r;
        let ghost xv = x;
        r.push(x);
        proof {
            lemma_values_push(&before, &r, &xv);
            assert(values_view(&r) =~= Seq::new((k + 1) as nat, |j: int| ValueV::ConstInt(8, bytes@[j] as i64)));
        }
        k = k + 1;
    }
    r
}

impl Compiler {
    fn lower_exprs(&mut self, v: &Vec<Expression>) -> (r: Result<Vec<IrValue>, LowerError>)
        ensures
            match lower_exprs(old(self)@, v, v.len() as int) {
                Ok((st, vs)) => r matches Ok(x) && values_view(&x) == vs && final(self)@ == st,
                Err(e) => r matches Err(y) && y@ == e,
            },
        decreases v, 0int,
    {
        let ghost st0 = self@;
        let mut out: Vec<IrValue> = Vec::new();
        proof {
            lemma_view_values(&out, 0);
        }
        let mut k: usize = 0;
        while k < v.len()
            invariant
                k <= v.len(),
                st0 == old(self)@,
                lower_exprs(st0, v, k as int) == Ok::<(CgState, Seq<ValueV>), LowerErrorV>(
                    (self@, values_view(&out)),
                ),
            decreases v.len() - k,
        {
            match self.compile_expr(&v[k], false) {
                Ok(x) => {
                    let ghost before = out;
                    let ghost xv = x.value;
                    out.push(x.value);
                    proof {
                        lemma_values_push(&before, &out, &xv);
                    }
                },
                Err(y) => {
                    assert(lower_exprs(st0, v, k + 1) == Err::<(CgState, Seq<ValueV>), LowerErrorV>(y@));
                    proof {
                        lemma_exprs_err(st0, v, k + 1, v.len() as int);
                    }
                    return Err(y);
                },
            }
            k = k + 1;
        }
        Ok(out)
    }

    fn lower_fields(&mut self, v: &Vec<StructFieldInstance>) -> (r: Result<Vec<IrValue>, LowerError>)
        ensures
            match lower_fields(old(self)@, v, v.len() as int) {
                Ok((st, vs)) => r matches Ok(x) && values_view(&x) == vs && final(self)@ == st,
                Err(e) => r matches Err(y) && y@ == e,
            },
        decreases v, 0int,
    {
        let ghost st0 = self@;
        let mut out: Vec<IrValue> = Vec::new();
        proof {
            lemma_view_values(&out, 0);
        }
        let mut k: usize = 0;
        while k < v.len()
            invariant
                k <= v.len(),
                st0 == old(self)@,
                lower_fields(st0, v, k as int) == Ok::<(CgState, Seq<ValueV>), LowerErrorV>(
                    (self@, values_view(&out)),
                ),
            decreases v.len() - k,
        {
            match self.compile_expr(&v[k].value, false) {
                Ok(x) => {
                    let ghost before = out;
                    let ghost xv = x.value;
                    out.push(x.value);
                    proof {
                        lemma_values_push(&before, &out, &xv);
                    }
                },
                Err(y) => {
                    assert(lower_fields(st0, v, k + 1) == Err::<(CgState, Seq<ValueV>), LowerErrorV>(y@));
                    proof {
                        lemma_fields_err(st0, v, k + 1, v.len() as int);
                    }
                    return Err(y);
                },
            }
            k = k + 1;
        }
        Ok(out)
    }

    /// Lowers an expression in address mode (`addr`) or value mode.
    pub fn compile_expr(&mut self, e: &Expression, addr: bool) -> (r: Result<Tagged<IrValue>, LowerError>)
        ensures
            match lower_expr(old(self)@, e, addr) {
                Ok((st, tv)) => r matches Ok(x) && x@ == tv && final(self)@ == st,
                Err(x) => r matches Err(y) && y@ == x,
            },
        decreases e, 1int,
    {
        match e {
            Expression::Constant(c) => match c {
                Constant::Int(v) => Ok(Tagged::void(IrValue::ConstInt(32, *v))),
                Constant::Float(b) => Ok(Tagged::void(IrValue::ConstFloat(*b))),
                Constant::Bool(b) => Ok(Tagged::void(IrValue::ConstInt(8, if *b { 1 } else { 0 }))),
                Constant::StringLiteral(s) => Ok(self.compile_string(s)),
                Constant::List(v) => {
                    if v.len() == 0 {
                        return Err(LowerError::EmptyAggregateLiteral);
                    }
                    match self.lower_exprs(v) {
                        Ok(vals) => {
                            proof {
                                lemma_view_values(&vals, vals.len() as int);
                            }
                            let ty = vals[0].get_type();
                            Ok(Tagged::void(IrValue::ConstArray(ty, vals)))
                        },
                        Err(y) => Err(y),
                    }
                },
                Constant::Ident(id) => match self.find_var(&id.name) {
                    Some(k) => Ok(
                        Tagged { tag: self.env[k].1.tag.clone(), value: self.env[k].1.value.copy() },
                    ),
                    None => Err(LowerError::UnresolvedVariable(id.name.clone())),
                },
                Constant::Null => Err(LowerError::UnsupportedConstruct(Construct::NullLiteral)),
            },
            Expression::Call(c) => self.compile_call(c),
            Expression::Reference(r) => self.compile_reference(r, addr),
            Expression::Deref(d) => self.compile_deref(d, addr),
            Expression::BinOp(b) => self.compile_binop(b),
            Expression::StructInstance(s) => self.compile_struct_instance(s),
            Expression::StructFieldAccess(s) => self.compile_field_access(s, addr),
        }
    }

    fn compile_string(&mut self, s: &String) -> (r: Tagged<IrValue>)
        ensures
            lower_expr(old(self)@, &Expression::Constant(Constant::StringLiteral(*s)), false)
                == Ok::<(CgState, TaggedV), LowerErrorV>((final(self)@, r@)),
    {
        let bytes = name_to_bytes(s);
        let vals = byte_values(&bytes);
        let len = bytes.len();
        let byte = TypeEnum::IntType(8);
        assert(byte@ == TypeV::Int(8));
        let value = IrValue::ConstArray(byte, vals);
        assert(value@ =~= string_global(*s));
        let byte2 = TypeEnum::IntType(8);
        assert(byte2@ == TypeV::Int(8));
        let arr = TypeEnum::ArrayType(Box::new(byte2), len);
        assert(arr@ == type_of(string_global(*s)));
        let gty = TypeEnum::PointerType(Box::new(arr));
        let idx = self.module.globals.len();
        proof {
            lemma_view_values(&self.module.globals, self.module.globals.len() as int);
        }
        let ghost before = self.module.globals;
        let ghost vv = value;
        self.module.globals.push(value);
        proof {
            lemma_values_push(&before, &self.module.globals, &vv);
        }
        Tagged::void(IrValue::Global(idx, gty))
    }

    fn compile_call(&mut self, c: &Call) -> (r: Result<Tagged<IrValue>, LowerError>)
        ensures
            match lower_expr(old(self)@, &Expression::Call(*c), false) {
                Ok((st, tv)) => r matches Ok(x) && x@ == tv && final(self)@ == st,
                Err(x) => r matches Err(y) && y@ == x,
            },
        decreases c, 0int,
    {
        let vals = match self.lower_exprs(&c.arguments) {
            Ok(vals) => vals,
            Err(y) => {
                return Err(y);
            },
        };
        match self.check_emit() {
            Ok(()) => {},
            Err(y) => {
                return Err(y);
            },
        }
        match self.find_sig(&c.name) {
            Some(k) => {
                let rt = self.sigs[k].1.copy();
                let reg = self.next_reg;
                self.emit_def(IrInstr::Call(reg, c.name.clone(), vals));
                Ok(Tagged::void(IrValue::Register(reg, rt, false)))
            },
            None => Err(LowerError::UnresolvedVariable(c.name.clone())),
        }
    }

    fn compile_reference(&mut self, rf: &Reference, addr: bool) -> (r: Result<Tagged<IrValue>, LowerError>)
        ensures
            match lower_expr(old(self)@, &Expression::Reference(*rf), addr) {
                Ok((st, tv)) => r matches Ok(x) && x@ == tv && final(self)@ == st,
                Err(x) => r matches Err(y) && y@ == x,
            },
        decreases rf, 0int,
    {
        let x = match self.compile_expr(&rf.expr, addr) {
            Ok(x) => x,
            Err(y) => {
                return Err(y);
            },
        };
        if addr {
            return Ok(x);
        }
        match self.check_emit() {
            Ok(()) => {},
            Err(y) => {
                return Err(y);
            },
        }
        let Tagged { tag, value } = x;
        let ty = value.get_type();
        let pty = TypeEnum::PointerType(Box::new(ty));
        let reg = self.next_reg;
        self.emit_def(IrInstr::Ref(reg, value));
        Ok(Tagged { tag, value: IrValue::Register(reg, pty, false) })
    }

    fn compile_deref(&mut self, d: &Deref, addr: bool) -> (r: Result<Tagged<IrValue>, LowerError>)
        ensures
            match lower_expr(old(self)@, &Expression::Deref(*d), addr) {
                Ok((st, tv)) => r matches Ok(x) && x@ == tv && final(self)@ == st,
                Err(x) => r matches Err(y) && y@ == x,
            },
        decreases d, 0int,
    {
        let x = match self.compile_expr(&d.expr, addr) {
            Ok(x) => x,
            Err(y) => {
                return Err(y);
            },
        };
        if addr {
            return Ok(x);
        }
        let Tagged { tag, value } = x;
        let ty = value.get_type();
        match ty {
            TypeEnum::PointerType(elt) => {
                match self.check_emit() {
                    Ok(()) => {},
                    Err(y) => {
                        return Err(y);
                    },
                }
                let et = *elt;
                let et2 = et.copy();
                let reg = self.next_reg;
                self.emit_def(IrInstr::Load(reg, et, value));
                Ok(Tagged { tag, value: IrValue::Register(reg, et2, false) })
            },
            _ => {
                proof {
                    lemma_type_view_kind(&ty);
                }
                Err(LowerError::UnsupportedConstruct(Construct::NonPointerOperand))
            },
        }
    }

    fn compile_binop(&mut self, b: &BinOp) -> (r: Result<Tagged<IrValue>, LowerError>)
        ensures
            match lower_expr(old(self)@, &Expression::BinOp(*b), false) {
                Ok((st, tv)) => r matches Ok(x) && x@ == tv && final(self)@ == st,
                Err(x) => r matches Err(y) && y@ == x,
            },
        decreases b, 0int,
    {
        let l = match self.compile_expr(&b.lhs, false) {
            Ok(x) => x.value,
            Err(y) => {
                return Err(y);
            },
        };
        let r = match self.compile_expr(&b.rhs, false) {
            Ok(x) => x.value,
            Err(y) => {
                return Err(y);
            },
        };
        if b.op != BinOpKind::Add && b.op != BinOpKind::Sub {
            return Err(LowerError::UnsupportedConstruct(Construct::Operator(b.op)));
        }
        let lt = l.get_type();
        let rt = r.get_type();
        if !is_int_type(&lt) || !is_int_type(&rt) {
            return Err(LowerError::UnsupportedConstruct(Construct::NonIntegerOperand));
        }
        match self.check_emit() {
            Ok(()) => {},
            Err(y) => {
                return Err(y);
            },
        }
        let reg = self.next_reg;
        if b.op == BinOpKind::Add {
            self.emit_def(IrInstr::IntAdd(reg, l, r));
        } else {
            self.emit_def(IrInstr::IntSub(reg, l, r));
        }
        Ok(Tagged::void(IrValue::Register(reg, lt, false)))
    }

    fn compile_struct_instance(&mut self, s: &StructInstance) -> (r: Result<Tagged<IrValue>, LowerError>)
        ensures
            match lower_expr(old(self)@, &Expression::StructInstance(*s), false) {
                Ok((st, tv)) => r matches Ok(x) && x@ == tv && final(self)@ == st,
                Err(x) => r matches Err(y) && y@ == x,
            },
        decreases s, 0int,
    {
        let vals = match self.lower_fields(&s.fields) {
            Ok(vals) => vals,
            Err(y) => {
                return Err(y);
            },
        };
        match self.find_struct(&s.name) {
            Some(k) => {
                match self.check_emit() {
                    Ok(()) => {},
                    Err(y) => {
                        return Err(y);
                    },
                }
                assert(self@.structs[k as int].1 == self.struct_env@[k as int].ty@);
                let ty = self.struct_env[k].ty.copy();
                let ty2 = self.struct_env[k].ty.copy();
                let reg = self.next_reg;
                self.emit_def(IrInstr::Const(reg, IrValue::ConstStruct(ty, vals)));
                Ok(Tagged { tag: s.name.clone(), value: IrValue::Register(reg, ty2, true) })
            },
            None => Err(LowerError::UnresolvedStruct(s.name.clone())),
        }
    }

    fn compile_field_access(&mut self, s: &StructFieldAccess, addr: bool) -> (r: Result<Tagged<IrValue>, LowerError>)
        ensures
            match lower_expr(old(self)@, &Expression::StructFieldAccess(*s), addr) {
                Ok((st, tv)) => r matches Ok(x) && x@ == tv && final(self)@ == st,
                Err(x) => r matches Err(y) && y@ == x,
            },
        decreases s, 0int,
    {
        let x = match self.compile_expr(&s.name, addr) {
            Ok(x) => x,
            Err(y) => {
                return Err(y);
            },
        };
        let Tagged { tag, value: base } = x;
        let k = match self.find_struct(&tag) {
            Some(k) => k,
            None => {
                return Err(LowerError::UnresolvedStruct(tag));
            },
        };
        assert(self@.structs[k as int].2 == self.struct_env@[k as int].fields@.map_values(
            |f: String| f@,
        ));
        let idx = match find_field(&self.struct_env[k].fields, &s.field) {
            Some(i) => i,
            None => {
                return Err(LowerError::UnresolvedField(tag, s.field.clone()));
            },
        };
        let bty = base.get_type();
        let fts: &Vec<TypeEnum> = if s.is_ptr {
            match &bty {
                TypeEnum::PointerType(inner) => match &**inner {
                    TypeEnum::StructType(f) => {
                        assert(inner@ == TypeV::Struct(types_view(f)));
                        assert(bty@ == TypeV::Pointer(Box::new(inner@)));
                        f
                    },
                    _ => {
                        proof {
                            lemma_type_view_kind(&**inner);
                        }
                        return Err(LowerError::UnsupportedConstruct(Construct::NonStructOperand));
                    },
                },
                _ => {
                    proof {
                        lemma_type_view_kind(&bty);
                    }
                    return Err(LowerError::UnsupportedConstruct(Construct::NonPointerOperand));
                },
            }
        } else {
            match &bty {
                TypeEnum::StructType(f) => f,
                _ => {
                    proof {
                        lemma_type_view_kind(&bty);
                    }
                    return Err(LowerError::UnsupportedConstruct(Construct::NonStructOperand));
                },
            }
        };
        assert(accessed_struct(type_of(base@), s.is_ptr) == Ok::<Seq<TypeV>, LowerErrorV>(types_view(fts)));
        proof {
            lemma_view_types(fts, fts.len() as int);
        }
        if idx >= fts.len() {
            return Err(LowerError::UnresolvedField(tag, s.field.clone()));
        }
        match self.check_emit() {
            Ok(()) => {},
            Err(y) => {
                return Err(y);
            },
        }
        let field_ty = fts[idx].copy();
        let field_ty2 = fts[idx].copy();
        let sty = TypeEnum::StructType(copy_types(fts));
        let reg = self.next_reg;
        self.emit_def(IrInstr::FieldPtr(reg, field_ty, sty, base, idx));
        Ok(Tagged::void(IrValue::Register(reg, field_ty2, addr)))
    }

}


proof fn lemma_signs_err(st: CgState, v: &Vec<FunctionSign>, k: int, m: int)
    requires
        0 <= k <= m <= v.len(),
        lower_signs(st, v, k) is Err,
    ensures
        lower_signs(st, v, m) == lower_signs(st, v, k),
    decreases m - k,
{
    if k < m {
        lemma_signs_err(st, v, k, m - 1);
    }
}

proof fn lemma_stmts_err(st: CgState, v: &Vec<Statement>, k: int, m: int)
    requires
        0 <= k <= m <= v.len(),
        lower_stmts(st, v, k) is Err,
    ensures
        lower_stmts(st, v, m) == lower_stmts(st, v, k),
    decreases m - k,
{
    if k < m {
        lemma_stmts_err(st, v, k, m - 1);
    }
}

/// The function type of a signature whose parameter types are `tys`.
fn fn_type_of(tys: &Vec<Tagged<TypeEnum>>, ret: &TypeEnum, is_var_args: bool) -> (r: FunctionType)
    ensures
        r@ == fn_type(tys@.map_values(|t: Tagged<TypeEnum>| t@), ret@, is_var_args),
{
    let ghost tv = tys@.map_values(|t: Tagged<TypeEnum>| t@);
    let mut args: Vec<TypeEnum> = Vec::new();
    proof {
        lemma_view_types(&args, 0);
        assert(types_view(&args) =~= tv.subrange(0, 0).map_values(|p: (Seq<char>, TypeV)| p.1));
    }
    let mut k: usize = 0;
    while k < tys.len()
        invariant
            k <= tys.len(),
            tv == tys@.map_values(|t: Tagged<TypeEnum>| t@),
            types_view(&args) == tv.subrange(0, k as int).map_values(|p: (Seq<char>, TypeV)| p.1),
        decreases tys.len() - k,
    {
        let x = tys[k].value.copy();
        let ghost before = args;
        let ghost xv = x;
        args.push(x);
        proof {
            lemma_types_push(&before, &args, &xv);
            assert(types_view(&args) =~= tv.subrange(0, k + 1).map_values(|p: (Seq<char>, TypeV)| p.1));
        }
        k = k + 1;
    }
    assert(tv.subrange(0, tys.len() as int) =~= tv);
    let r = FunctionType { args, ret: Box::new(ret.copy()), is_var_args };
    assert(r@ == TypeV::Function(types_view(&r.args), Box::new(ret@), is_var_args));
    r
}

impl Compiler {
    fn lower_signs(&mut self, v: &Vec<FunctionSign>) -> (r: Result<(), LowerError>)
        ensures
            match lower_signs(old(self)@, v, v.len() as int) {
                Ok(st) => r is Ok && final(self)@ == st,
                Err(e) => r matches Err(y) && y@ == e,
            },
    {
        let ghost st0 = self@;
        let mut k: usize = 0;
        while k < v.len()
            invariant
                k <= v.len(),
                st0 == old(self)@,
                lower_signs(st0, v, k as int) == Ok::<CgState, LowerErrorV>(self@),
            decreases v.len() - k,
        {
            let sign = &v[k];
            let tys = match self.lower_arg_types(&sign.arguments) {
                Ok(t) => t,
                Err(y) => {
                    assert(lower_signs(st0, v, k + 1) == Err::<CgState, LowerErrorV>(y@));
                    proof {
                        lemma_signs_err(st0, v, k + 1, v.len() as int);
                    }
                    return Err(y);
                },
            };
            let rt = match self.lower_type(&sign.return_type) {
                Ok(t) => t,
                Err(y) => {
                    assert(lower_signs(st0, v, k + 1) == Err::<CgState, LowerErrorV>(y@));
                    proof {
                        lemma_signs_err(st0, v, k + 1, v.len() as int);
                    }
                    return Err(y);
                },
            };
            assert(tys@.map_values(|t: Tagged<TypeEnum>| t@) =~= lower_arg_types(
                self@.structs,
                &sign.arguments,
                sign.arguments.len() as int,
            )->Ok_0);
            let fty = fn_type_of(&tys, &rt.value, sign.is_var_args);
            let ghost pre = self@;
            self.sigs.push((sign.name.clone(), rt.value));
            self.module.externs.push((sign.name.clone(), fty));
            assert(self@.sigs =~= pre.sigs.push((sign.name@, rt.value@)));
            assert(self@.module.externs =~= pre.module.externs.push(
                (sign.name@, fty@),
            ));
            k = k + 1;
        }
        Ok(())
    }

    fn compile_stmts(&mut self, v: &Vec<Statement>) -> (r: Result<(), LowerError>)
        ensures
            match lower_stmts(old(self)@, v, v.len() as int) {
                Ok(st) => r is Ok && final(self)@ == st,
                Err(e) => r matches Err(y) && y@ == e,
            },
        decreases v,
    {
        let ghost st0 = self@;
        let mut k: usize = 0;
        while k < v.len()
            invariant
                k <= v.len(),
                st0 == old(self)@,
                lower_stmts(st0, v, k as int) == Ok::<CgState, LowerErrorV>(self@),
            decreases v.len() - k,
        {
            match self.compile_statement(&v[k]) {
                Ok(()) => {},
                Err(y) => {
                    assert(lower_stmts(st0, v, k + 1) == Err::<CgState, LowerErrorV>(y@));
                    proof {
                        lemma_stmts_err(st0, v, k + 1, v.len() as int);
                    }
                    return Err(y);
                },
            }
            k = k + 1;
        }
        Ok(())
    }

    /// Lowers a function definition into a function of the module.
    pub fn compile_function(&mut self, f: &Function) -> (r: Result<(), LowerError>)
        ensures
            match lower_function(old(self)@, f) {
                Ok(st) => r is Ok && final(self)@ == st,
                Err(e) => r matches Err(y) && y@ == e,
            },
        decreases f,
    {
        let tys = match self.lower_arg_types(&f.arguments) {
            Ok(t) => t,
            Err(y) => {
                return Err(y);
            },
        };
        let rt = match self.lower_type(&f.returntype) {
            Ok(t) => t,
            Err(y) => {
                return Err(y);
            },
        };
        let ghost tv = tys@.map_values(|t: Tagged<TypeEnum>| t@);
        assert(tv =~= lower_arg_types(self@.structs, &f.arguments, f.arguments.len() as int)->Ok_0);
        let fty = fn_type_of(&tys, &rt.value, f.is_var_args);
        let mut params: Vec<(String, Tagged<IrValue>)> = Vec::new();
        let mut k: usize = 0;
        while k < tys.len()
            invariant
                k <= tys.len(),
                tys.len() == f.arguments.len(),
                params.len() == k,
                tv == tys@.map_values(|t: Tagged<TypeEnum>| t@),
                env_view(params@) == params_env(&f.arguments, tv.subrange(0, k as int)),
            decreases tys.len() - k,
        {
            let p = (
                f.arguments[k].name.clone(),
                Tagged { tag: tys[k].tag.clone(), value: IrValue::Argument(k, tys[k].value.copy()) },
            );
            let ghost before = params@;
            params.push(p);
            assert(tv[k as int] == tys@[k as int]@);
            assert(env_view(params@)[k as int] == params_env(&f.arguments, tv.subrange(0, k + 1))[k as int]);
            assert forall|j: int| 0 <= j < k implies env_view(params@)[j] == params_env(
                &f.arguments,
                tv.subrange(0, k + 1),
            )[j] by {
                assert(params@[j] == before[j]);
                assert(env_view(before)[j] == params_env(&f.arguments, tv.subrange(0, k as int))[j]);
            }
            assert(env_view(params@) =~= params_env(&f.arguments, tv.subrange(0, k + 1)));
            k = k + 1;
        }
        assert(tv.subrange(0, tys.len() as int) =~= tv);
        let ghost st = self@;
        let mut env = params;
        std::mem::swap(&mut self.env, &mut env);
        self.sigs.push((f.name.clone(), rt.value));
        let fresh: Vec<IrInstr> = Vec::new();
        assert(instrs_view(&fresh) =~= Seq::<IrInstrV>::empty());
        let mut blk: Option<Vec<IrInstr>> = Some(fresh);
        std::mem::swap(&mut self.current_basic_block, &mut blk);
        let saved_reg = self.next_reg;
        self.next_reg = 0;
        assert(self@.sigs =~= st.sigs.push((f.name@, rt.value@)));
        assert(self@ == CgState {
            env: params_env(&f.arguments, tv),
            sigs: st.sigs.push((f.name@, rt.value@)),
            block: Some(Seq::empty()),
            next_reg: 0,
            ..st
        });
        match self.compile_stmts(&f.body) {
            Ok(()) => {},
            Err(y) => {
                return Err(y);
            },
        }
        let ghost done = self@;
        let entry = match self.current_basic_block.take() {
            Some(b) => b,
            None => Vec::new(),
        };
        assert(instrs_view(&entry) =~= match done.block {
            Some(b) => b,
            None => Seq::<IrInstrV>::empty(),
        });
        self.current_basic_block = blk;
        self.next_reg = saved_reg;
        self.env = env;
        let ghost mid = self@;
        self.module.functions.push(IrFunction { name: f.name.clone(), ty: fty, entry });
        assert(self@.module.functions =~= mid.module.functions.push(
            IrFunctionV { name: f.name@, ty: fty@, entry: instrs_view(&entry) },
        ));
        Ok(())
    }

    /// Lowers one statement.
    pub fn compile_statement(&mut self, stmt: &Statement) -> (r: Result<(), LowerError>)
        ensures
            match lower_stmt(old(self)@, stmt) {
                Ok(st) => r is Ok && final(self)@ == st,
                Err(e) => r matches Err(y) && y@ == e,
            },
        decreases stmt,
    {
        match stmt {
            Statement::Function(f) => self.compile_function(f),
            Statement::Extern(ext) => self.lower_signs(&ext.signs),
            Statement::Let(l) => {
                let x = match self.compile_expr(&l.value, false) {
                    Ok(x) => x,
                    Err(y) => {
                        return Err(y);
                    },
                };
                let Tagged { tag, value } = x;
                if value.is_const() {
                    match self.check_emit() {
                        Ok(()) => {},
                        Err(y) => {
                            return Err(y);
                        },
                    }
                    let reg = self.next_reg;
                    let ty = value.get_type();
                    self.emit_def(IrInstr::Const(reg, value));
                    let ghost pre = self@;
                    let slot = IrValue::Register(reg, ty, false).tag(l.name.name.clone());
                    self.env.push((l.name.name.clone(), slot));
                    assert(self@.env =~= pre.env.push((l.name.name@, (l.name.name@, ValueV::Register(reg as nat, ty@, false)))));
                } else {
                    let ghost pre = self@;
                    let ghost tv = (tag@, value@);
                    self.env.push((l.name.name.clone(), Tagged { tag, value }));
                    assert(self@.env =~= pre.env.push((l.name.name@, tv)));
                }
                Ok(())
            },
            Statement::Return(ret) => match &ret.expression {
                Some(e) => {
                    let x = match self.compile_expr(e, false) {
                        Ok(x) => x,
                        Err(y) => {
                            return Err(y);
                        },
                    };
                    if self.current_basic_block.is_none() {
                        return Err(LowerError::UnsupportedConstruct(Construct::StatementOutsideFunction));
                    }
                    self.push_instr(IrInstr::Ret(x.value));
                    Ok(())
                },
                None => Err(LowerError::UnsupportedConstruct(Construct::BareReturn)),
            },
            Statement::Assign(a) => {
                let t = match self.compile_expr(&a.name, true) {
                    Ok(x) => x.value,
                    Err(y) => {
                        return Err(y);
                    },
                };
                if !matches!(t, IrValue::Register(_, _, _)) {
                    return Err(LowerError::NotAnAddress);
                }
                let v = match self.compile_expr(&a.value, false) {
                    Ok(x) => x.value,
                    Err(y) => {
                        return Err(y);
                    },
                };
                if self.current_basic_block.is_none() {
                    return Err(LowerError::UnsupportedConstruct(Construct::StatementOutsideFunction));
                }
                self.push_instr(IrInstr::Store(t, v));
                Ok(())
            },
            Statement::Struct(decl) => {
                let tys = match self.lower_decl_types(&decl.fields) {
                    Ok(t) => t,
                    Err(y) => {
                        return Err(y);
                    },
                };
                let mut names: Vec<String> = Vec::new();
                let mut k: usize = 0;
                while k < decl.fields.len()
                    invariant
                        k <= decl.fields.len(),
                        names.len() == k,
                        forall|j: int| 0 <= j < k ==> #[trigger] names@[j]@ == decl.fields@[j].name@,
                    decreases decl.fields.len() - k,
                {
                    names.push(decl.fields[k].name.clone());
                    k = k + 1;
                }
                assert(names@.map_values(|f: String| f@) =~= field_names(&decl.fields));
                let ghost pre = self@;
                let entry = StructEntry { name: decl.name.clone(), ty: TypeEnum::StructType(tys), fields: names };
                assert(entry.ty@ == TypeV::Struct(types_view(&tys)));
                self.struct_env.push(entry);
                assert(self@.structs =~= pre.structs.push(
                    (decl.name@, TypeV::Struct(types_view(&tys)), field_names(&decl.fields)),
                ));
                Ok(())
            },
            Statement::Expression(e) => match self.compile_expr(e, false) {
                Ok(_) => Ok(()),
                Err(y) => Err(y),
            },
            Statement::Block(_) | Statement::If(_) | Statement::IfElse(_) | Statement::While(_) => Err(
                LowerError::UnsupportedConstruct(Construct::ControlFlowStatement),
            ),
        }
    }
}

/// Lowers a whole unit into a module. The first error aborts it: no partial
/// module is handed out.
pub fn compile(stmts: &Vec<Statement>) -> (r: Result<IrModule, LowerError>)
    ensures
        match lower_program(stmts) {
            Ok(m) => r matches Ok(x) && x@ == m,
            Err(e) => r matches Err(y) && y@ == e,
        },
{
    let mut c = Compiler::new();
    match c.compile_stmts(stmts) {
        Ok(()) => Ok(c.module),
        Err(y) => Err(y),
    }
}


/// An assignment whose target does not lower, in address mode, to a
/// register (a literal, a string, a parameter, a loaded value) fails with
/// `NotAnAddress`.
pub proof fn lemma_assign_needs_address(st: CgState, a: &Assign)
    requires
        lower_expr(st, &a.name, true) matches Ok((_, (_, t))) && !(t is Register),
    ensures
        lower_stmt(st, &Statement::Assign(*a)) == Err::<CgState, LowerErrorV>(
            LowerErrorV::NotAnAddress,
        ),
{
}

/// A name that no entry carries resolves to no struct.
pub proof fn lemma_lookup_undeclared(structs: Seq<(Seq<char>, TypeV, Seq<Seq<char>>)>, name: Seq<char>)
    requires
        forall|k: int| 0 <= k < structs.len() ==> (#[trigger] structs[k]).0 != name,
    ensures
        lookup_struct(structs, name) is None,
    decreases structs.len(),
{
    if structs.len() > 0 {
        let rest = structs.drop_last();
        assert forall|k: int| 0 <= k < rest.len() implies (#[trigger] rest[k]).0 != name by {
            assert(rest[k] == structs[k]);
        }
        lemma_lookup_undeclared(rest, name);
    }
}

/// A struct type whose name no declaration of the unit carries fails with
/// `UnresolvedStruct`.
pub proof fn lemma_undeclared_struct_type(
    structs: Seq<(Seq<char>, TypeV, Seq<Seq<char>>)>,
    t: &Type,
    name: &String,
)
    requires
        t.type_kind == TypeKind::StructInstance(*name),
        forall|k: int| 0 <= k < structs.len() ==> (#[trigger] structs[k]).0 != name@,
    ensures
        lower_type(structs, t) == Err::<(Seq<char>, TypeV), LowerErrorV>(
            LowerErrorV::UnresolvedStruct(name@),
        ),
{
    lemma_lookup_undeclared(structs, name@);
}

/// A struct instance whose name no declaration carries fails with
/// `UnresolvedStruct` once its field values have been lowered.
pub proof fn lemma_undeclared_struct_instance(st: CgState, s: &StructInstance, addr: bool)
    requires
        lower_fields(st, &s.fields, s.fields.len() as int) matches Ok((st1, _)) && forall|k: int|
            0 <= k < st1.structs.len() ==> (#[trigger] st1.structs[k]).0 != s.name@,
    ensures
        lower_expr(st, &Expression::StructInstance(*s), addr) == Err::<(CgState, TaggedV), LowerErrorV>(
            LowerErrorV::UnresolvedStruct(s.name@),
        ),
{
    let st1 = lower_fields(st, &s.fields, s.fields.len() as int)->Ok_0.0;
    lemma_lookup_undeclared(st1.structs, s.name@);
}

/// A field access whose base carries the name of no declared struct fails
/// with `UnresolvedStruct`.
pub proof fn lemma_undeclared_struct_access(st: CgState, s: &StructFieldAccess, addr: bool)
    requires
        lower_expr(st, &s.name, addr) matches Ok((st1, (tag, _))) && forall|k: int|
            0 <= k < st1.structs.len() ==> (#[trigger] st1.structs[k]).0 != tag,
    ensures
        lower_expr(st, &Expression::StructFieldAccess(*s), addr) == Err::<(CgState, TaggedV), LowerErrorV>(
            LowerErrorV::UnresolvedStruct(lower_expr(st, &s.name, addr)->Ok_0.1.0),
        ),
{
    let (st1, (tag, _)) = lower_expr(st, &s.name, addr)->Ok_0;
    lemma_lookup_undeclared(st1.structs, tag);
}

} // verus!
