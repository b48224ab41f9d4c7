//! The SSA-style IR that the register lowering engine builds: types,
//! values, instructions of a basic block, functions and the module.
//!
//! Every IR type has a mathematical view in which nested vectors are
//! sequences; the contracts of the engine are stated over those views.
use vstd::prelude::*;

verus! {

broadcast use vstd::std_specs::vec::group_vec_axioms;

/// An IR type.
#[derive(Debug, PartialEq)]
pub enum TypeEnum {
    /// an integer of the given width in bits
    IntType(u32),
    /// a 32-bit float
    FloatType,
    ArrayType(Box<TypeEnum>, usize),
    PointerType(Box<TypeEnum>),
    /// an aggregate with one entry per field
    StructType(Vec<TypeEnum>),
    FunctionType(FunctionType),
}

/// The type of a function: parameters, result, and a flag for a variadic tail.
#[derive(Debug, PartialEq)]
pub struct FunctionType {
    pub args: Vec<TypeEnum>,
    pub ret: Box<TypeEnum>,
    pub is_var_args: bool,
}

/// The view of a `TypeEnum`.
pub enum TypeV {
    Int(u32),
    Float,
    Array(Box<TypeV>, nat),
    Pointer(Box<TypeV>),
    Struct(Seq<TypeV>),
    Function(Seq<TypeV>, Box<TypeV>, bool),
}

pub open spec fn view_types(v: &Vec<TypeEnum>, n: int) -> Seq<TypeV>
    decreases v, n,
{
    if n <= 0 || n > v.len() {
        Seq::empty()
    } else {
        view_types(v, n - 1).push(view_type(&v[n - 1]))
    }
}

pub open spec fn view_fn_type(f: &FunctionType) -> TypeV
    decreases f,
{
    TypeV::Function(view_types(&f.args, f.args.len() as int), Box::new(view_type(&f.ret)), f.is_var_args)
}

pub open spec fn view_type(t: &TypeEnum) -> TypeV
    decreases t,
{
    match t {
        TypeEnum::IntType(b) => TypeV::Int(*b),
        TypeEnum::FloatType => TypeV::Float,
        TypeEnum::ArrayType(e, n) => TypeV::Array(Box::new(view_type(e)), *n as nat),
        TypeEnum::PointerType(e) => TypeV::Pointer(Box::new(view_type(e))),
        TypeEnum::StructType(fs) => TypeV::Struct(view_types(fs, fs.len() as int)),
        TypeEnum::FunctionType(f) => view_fn_type(f),
    }
}

impl View for TypeEnum {
    type V = TypeV;

    open spec fn view(&self) -> TypeV {
        view_type(self)
    }
}

impl View for FunctionType {
    type V = TypeV;

    open spec fn view(&self) -> TypeV {
        view_fn_type(self)
    }
}

pub proof fn lemma_view_types(v: &Vec<TypeEnum>, n: int)
    requires
        0 <= n <= v.len(),
    ensures
        view_types(v, n).len() == n,
        forall|k: int| 0 <= k < n ==> #[trigger] view_types(v, n)[k] == v[k]@,
    decreases n,
{
    if n > 0 {
        lemma_view_types(v, n - 1);
    }
}

/// The variant of a type's view is the variant of the type.
pub proof fn lemma_type_view_kind(t: &TypeEnum)
    ensures
        (t@ is Int) == (t is IntType),
        (t@ is Pointer) == (t is PointerType),
        (t@ is Struct) == (t is StructType),
        (t@ is Function) == (t is FunctionType),
{
    if let TypeEnum::FunctionType(f) = t {
        assert(t@ == view_fn_type(f));
    }
}

/// A value that an IR instruction reads.
#[derive(Debug, PartialEq)]
pub enum IrValue {
    /// an integer constant of the given width in bits
    ConstInt(u32, i64),
    /// a 32-bit float constant, from the bit pattern of a 64-bit float
    ConstFloat(u64),
    /// an array of the element type
    ConstArray(TypeEnum, Vec<IrValue>),
    /// an aggregate of the struct type
    ConstStruct(TypeEnum, Vec<IrValue>),
    /// a register: its number, its type, and whether reading it yields the
    /// location rather than a load from it
    Register(usize, TypeEnum, bool),
    /// the address of a module global: its index and its type
    Global(usize, TypeEnum),
    /// a parameter of the enclosing function: its position and type
    Argument(usize, TypeEnum),
}

/// The view of an `IrValue`.
pub enum ValueV {
    ConstInt(u32, i64),
    ConstFloat(u64),
    ConstArray(TypeV, Seq<ValueV>),
    ConstStruct(TypeV, Seq<ValueV>),
    Register(nat, TypeV, bool),
    Global(nat, TypeV),
    Argument(nat, TypeV),
}

pub open spec fn view_values(v: &Vec<IrValue>, n: int) -> Seq<ValueV>
    decreases v, n,
{
    if n <= 0 || n > v.len() {
        Seq::empty()
    } else {
        view_values(v, n - 1).push(view_value(&v[n - 1]))
    }
}

pub open spec fn view_value(x: &IrValue) -> ValueV
    decreases x,
{
    match x {
        IrValue::ConstInt(b, v) => ValueV::ConstInt(*b, *v),
        IrValue::ConstFloat(b) => ValueV::ConstFloat(*b),
        IrValue::ConstArray(t, vs) => ValueV::ConstArray(t@, view_values(vs, vs.len() as int)),
        IrValue::ConstStruct(t, vs) => ValueV::ConstStruct(t@, view_values(vs, vs.len() as int)),
        IrValue::Register(r, t, f) => ValueV::Register(*r as nat, t@, *f),
        IrValue::Global(g, t) => ValueV::Global(*g as nat, t@),
        IrValue::Argument(a, t) => ValueV::Argument(*a as nat, t@),
    }
}

impl View for IrValue {
    type V = ValueV;

    open spec fn view(&self) -> ValueV {
        view_value(self)
    }
}

pub proof fn lemma_view_values(v: &Vec<IrValue>, n: int)
    requires
        0 <= n <= v.len(),
    ensures
        view_values(v, n).len() == n,
        forall|k: int| 0 <= k < n ==> #[trigger] view_values(v, n)[k] == v[k]@,
    decreases n,
{
    if n > 0 {
        lemma_view_values(v, n - 1);
    }
}

/// The views of all values of `v`.
pub open spec fn values_view(v: &Vec<IrValue>) -> Seq<ValueV> {
    view_values(v, v.len() as int)
}

/// The views of all types of `v`.
pub open spec fn types_view(v: &Vec<TypeEnum>) -> Seq<TypeV> {
    view_types(v, v.len() as int)
}

pub proof fn lemma_values_push(before: &Vec<IrValue>, after: &Vec<IrValue>, x: &IrValue)
    requires
        after@ == before@.push(*x),
    ensures
        values_view(after) == values_view(before).push(x@),
{
    lemma_view_values(before, before.len() as int);
    lemma_view_values(after, after.len() as int);
    assert(values_view(after) =~= values_view(before).push(x@));
}

pub proof fn lemma_types_push(before: &Vec<TypeEnum>, after: &Vec<TypeEnum>, x: &TypeEnum)
    requires
        after@ == before@.push(*x),
    ensures
        types_view(after) == types_view(before).push(x@),
{
    lemma_view_types(before, before.len() as int);
    lemma_view_types(after, after.len() as int);
    assert(types_view(after) =~= types_view(before).push(x@));
}

/// The type of a value.
pub open spec fn type_of(v: ValueV) -> TypeV {
    match v {
        ValueV::ConstInt(b, _) => TypeV::Int(b),
        ValueV::ConstFloat(_) => TypeV::Float,
        ValueV::ConstArray(t, vs) => TypeV::Array(Box::new(t), vs.len()),
        ValueV::ConstStruct(t, _) => t,
        ValueV::Register(_, t, _) => t,
        ValueV::Global(_, t) => t,
        ValueV::Argument(_, t) => t,
    }
}

/// Holds of the values known when the module is built.
pub open spec fn is_const(v: ValueV) -> bool {
    match v {
        ValueV::ConstInt(_, _) | ValueV::ConstFloat(_) | ValueV::ConstArray(_, _)
        | ValueV::ConstStruct(_, _) => true,
        _ => false,
    }
}

pub(crate) fn copy_types(v: &Vec<TypeEnum>) -> (r: Vec<TypeEnum>)
    ensures
        types_view(&r) == types_view(v),
    decreases v,
{
    let mut r: Vec<TypeEnum> = Vec::new();
    proof {
        lemma_view_types(v, v.len() as int);
        lemma_view_types(&r, 0);
    }
    let mut k: usize = 0;
    while k < v.len()
        invariant
            k <= v.len(),
            types_view(v).len() == v.len(),
            forall|j: int| 0 <= j < v.len() ==> #[trigger] types_view(v)[j] == v[j]@,
            types_view(&r) == types_view(v).subrange(0, k as int),
        decreases v.len() - k,
    {
        let x = v[k].copy();
        let ghost before = r;
        r.push(x);
        proof {
            lemma_types_push(&before, &r, &x);
            assert(types_view(&r) =~= types_view(v).subrange(0, k + 1));
        }
        k = k + 1;
    }
    assert(types_view(v).subrange(0, v.len() as int) =~= types_view(v));
    r
}

impl FunctionType {
    pub fn copy(&self) -> (r: FunctionType)
        ensures
            r@ == self@,
        decreases self,
    {
        FunctionType { args: copy_types(&self.args), ret: Box::new(self.ret.copy()), is_var_args: self.is_var_args }
    }
}

impl TypeEnum {
    /// A type equal to this one.
    pub fn copy(&self) -> (r: TypeEnum)
        ensures
            r@ == self@,
        decreases self,
    {
        match self {
            TypeEnum::IntType(b) => TypeEnum::IntType(*b),
            TypeEnum::FloatType => TypeEnum::FloatType,
            TypeEnum::ArrayType(e, n) => TypeEnum::ArrayType(Box::new(e.copy()), *n),
            TypeEnum::PointerType(e) => TypeEnum::PointerType(Box::new(e.copy())),
            TypeEnum::StructType(fs) => TypeEnum::StructType(copy_types(fs)),
            TypeEnum::FunctionType(f) => TypeEnum::FunctionType(f.copy()),
        }
    }

    /// The type of a function that returns this type.
    pub fn func(&self, args: Vec<TypeEnum>, is_var_args: bool) -> (r: FunctionType)
        ensures
            r@ == TypeV::Function(types_view(&args), Box::new(self@), is_var_args),
    {
        FunctionType { args, ret: Box::new(self.copy()), is_var_args }
    }

    /// The type of a pointer to this type.
    pub fn ptr(&self) -> (r: TypeEnum)
        ensures
            r@ == TypeV::Pointer(Box::new(self@)),
    {
        TypeEnum::PointerType(Box::new(self.copy()))
    }
}

fn copy_values(v: &Vec<IrValue>) -> (r: Vec<IrValue>)
    ensures
        values_view(&r) == values_view(v),
    decreases v,
{
    let mut r: Vec<IrValue> = Vec::new();
    proof {
        lemma_view_values(v, v.len() as int);
        lemma_view_values(&r, 0);
    }
    let mut k: usize = 0;
    while k < v.len()
        invariant
            k <= v.len(),
            values_view(v).len() == v.len(),
            forall|j: int| 0 <= j < v.len() ==> #[trigger] values_view(v)[j] == v[j]@,
            values_view(&r) == values_view(v).subrange(0, k as int),
        decreases v.len() - k,
    {
        let x = v[k].copy();
        let ghost before = r;
        r.push(x);
        proof {
            lemma_values_push(&before, &r, &x);
            assert(values_view(&r) =~= values_view(v).subrange(0, k + 1));
        }
        k = k + 1;
    }
    assert(values_view(v).subrange(0, v.len() as int) =~= values_view(v));
    r
}

impl IrValue {
    /// A value equal to this one.
    pub fn copy(&self) -> (r: IrValue)
        ensures
            r@ == self@,
        decreases self,
    {
        match self {
            IrValue::ConstInt(b, v) => IrValue::ConstInt(*b, *v),
            IrValue::ConstFloat(b) => IrValue::ConstFloat(*b),
            IrValue::ConstArray(t, vs) => IrValue::ConstArray(t.copy(), copy_values(vs)),
            IrValue::ConstStruct(t, vs) => IrValue::ConstStruct(t.copy(), copy_values(vs)),
            IrValue::Register(r, t, f) => IrValue::Register(*r, t.copy(), *f),
            IrValue::Global(g, t) => IrValue::Global(*g, t.copy()),
            IrValue::Argument(a, t) => IrValue::Argument(*a, t.copy()),
        }
    }

    /// The type of this value.
    pub fn get_type(&self) -> (r: TypeEnum)
        ensures
            r@ == type_of(self@),
    {
        match self {
            IrValue::ConstInt(b, _) => TypeEnum::IntType(*b),
            IrValue::ConstFloat(_) => TypeEnum::FloatType,
            IrValue::ConstArray(t, vs) => {
                proof {
                    lemma_view_values(vs, vs.len() as int);
                }
                TypeEnum::ArrayType(Box::new(t.copy()), vs.len())
            },
            IrValue::ConstStruct(t, _) => t.copy(),
            IrValue::Register(_, t, _) => t.copy(),
            IrValue::Global(_, t) => t.copy(),
            IrValue::Argument(_, t) => t.copy(),
        }
    }

    pub fn is_const(&self) -> (r: bool)
        ensures
            r == is_const(self@),
    {
        match self {
            IrValue::ConstInt(_, _) | IrValue::ConstFloat(_) | IrValue::ConstArray(_, _)
            | IrValue::ConstStruct(_, _) => true,
            _ => false,
        }
    }
}


/// One instruction of a basic block. The first `usize` of an instruction
/// that defines a register is that register's number.
#[derive(Debug, PartialEq)]
pub enum IrInstr {
    /// a register that holds a constant, and can be stored to
    Const(usize, IrValue),
    Ret(IrValue),
    /// store the value (second) at the location (first)
    Store(IrValue, IrValue),
    Call(usize, String, Vec<IrValue>),
    /// the address of a value
    Ref(usize, IrValue),
    /// load a value of the type from the pointer
    Load(usize, TypeEnum, IrValue),
    IntAdd(usize, IrValue, IrValue),
    IntSub(usize, IrValue, IrValue),
    /// the address of field `index` of the aggregate behind the base: field
    /// type, aggregate type, base, index (the indices are `0` then `index`)
    FieldPtr(usize, TypeEnum, TypeEnum, IrValue, usize),
}

/// The view of an `IrInstr`.
pub enum IrInstrV {
    Const(nat, ValueV),
    Ret(ValueV),
    Store(ValueV, ValueV),
    Call(nat, Seq<char>, Seq<ValueV>),
    Ref(nat, ValueV),
    Load(nat, TypeV, ValueV),
    IntAdd(nat, ValueV, ValueV),
    IntSub(nat, ValueV, ValueV),
    FieldPtr(nat, TypeV, TypeV, ValueV, nat),
}

impl View for IrInstr {
    type V = IrInstrV;

    open spec fn view(&self) -> IrInstrV {
        match self {
            IrInstr::Const(d, v) => IrInstrV::Const(*d as nat, v@),
            IrInstr::Ret(v) => IrInstrV::Ret(v@),
            IrInstr::Store(a, v) => IrInstrV::Store(a@, v@),
            IrInstr::Call(d, n, args) => IrInstrV::Call(*d as nat, n@, values_view(args)),
            IrInstr::Ref(d, v) => IrInstrV::Ref(*d as nat, v@),
            IrInstr::Load(d, t, v) => IrInstrV::Load(*d as nat, t@, v@),
            IrInstr::IntAdd(d, l, r) => IrInstrV::IntAdd(*d as nat, l@, r@),
            IrInstr::IntSub(d, l, r) => IrInstrV::IntSub(*d as nat, l@, r@),
            IrInstr::FieldPtr(d, f, s, b, i) => IrInstrV::FieldPtr(*d as nat, f@, s@, b@, *i as nat),
        }
    }
}

/// A function with its one basic block.
#[derive(Debug, PartialEq)]
pub struct IrFunction {
    pub name: String,
    pub ty: FunctionType,
    pub entry: Vec<IrInstr>,
}

pub struct IrFunctionV {
    pub name: Seq<char>,
    pub ty: TypeV,
    pub entry: Seq<IrInstrV>,
}

pub open spec fn instrs_view(v: &Vec<IrInstr>) -> Seq<IrInstrV> {
    v@.map_values(|i: IrInstr| i@)
}

impl View for IrFunction {
    type V = IrFunctionV;

    open spec fn view(&self) -> IrFunctionV {
        IrFunctionV { name: self.name@, ty: self.ty@, entry: instrs_view(&self.entry) }
    }
}

/// What the register engine builds: declarations of outside functions,
/// functions with bodies, and globals.
#[derive(Debug, PartialEq)]
pub struct IrModule {
    pub externs: Vec<(String, FunctionType)>,
    pub functions: Vec<IrFunction>,
    pub globals: Vec<IrValue>,
}

pub struct ModuleV {
    pub externs: Seq<(Seq<char>, TypeV)>,
    pub functions: Seq<IrFunctionV>,
    pub globals: Seq<ValueV>,
}

impl View for IrModule {
    type V = ModuleV;

    open spec fn view(&self) -> ModuleV {
        ModuleV {
            externs: self.externs@.map_values(|p: (String, FunctionType)| (p.0@, p.1@)),
            functions: self.functions@.map_values(|f: IrFunction| f@),
            globals: values_view(&self.globals),
        }
    }
}

} // verus!
