use vstd::prelude::*;
use vstd::string::StrSliceExecFns;
use crate::function::{Function, FunctionArgument, FunctionArgumentModel, FunctionModel};
use crate::generic_path::{
    GenericParam, GenericParamModel, GenericParamType, GenericParamTypeModel, GenericParams,
};
use crate::item::{plain_item, AnnotationSet, AnnotationSetModel, Cfg, ItemKind, ItemModel};
use crate::model::{view_of, views};
use crate::opaque::OpaqueItem;
use crate::passes::rewrite_function;
use crate::path::Path;
use crate::reserved::text_is;
use crate::rewrite::PathOp;
use crate::syntax::{
    ArgumentSyntax, ArgumentsSyntax, Attributes, BareFnArgSyntax, ExprSyntax, FnArgSyntax,
    GenericParamSyntax, GenericsSyntax, PathSyntax, PatternSyntax, ReturnSyntax, SignatureSyntax,
    TypeSyntax,
};
use crate::ty::{
    args_model, fresh_path, types_model, ConstExpr, ConstExprModel, GenericArgument,
    GenericArgumentModel, GenericPath, GenericPathModel, IntKind, PrimitiveType, Type, TypeModel,
};

verus! {

/// The identifier `name` without the mark of a raw identifier.
pub open spec fn unraw(name: Seq<char>) -> Seq<char> {
    if name.len() >= 2 && name[0] == 'r' && name[1] == '#' {
        name.subrange(2, name.len() as int)
    } else {
        name
    }
}

/// The identifier `name` without the mark of a raw identifier.
pub fn unraw_name(name: &str) -> (res: String)
    ensures
        res@ == unraw(name@),
{
    let n = name.unicode_len();
    if n >= 2 && name.get_char(0) == 'r' && name.get_char(1) == '#' {
        name.substring_char(2, n).to_owned()
    } else {
        name.to_owned()
    }
}

/// The primitive type that the name `name` stands for, if it stands for one.
#[verifier::opaque]
pub open spec fn primitive_named(name: Seq<char>) -> Option<PrimitiveType> {
    if name == "c_void"@ {
        Some(PrimitiveType::Void)
    } else     if name == "bool"@ {
        Some(PrimitiveType::Bool)
    } else     if name == "char"@ {
        Some(PrimitiveType::Char32)
    } else     if name == "c_char"@ {
        Some(PrimitiveType::Char)
    } else     if name == "c_schar"@ {
        Some(PrimitiveType::SChar)
    } else     if name == "c_uchar"@ {
        Some(PrimitiveType::UChar)
    } else     if name == "f32"@ {
        Some(PrimitiveType::Float)
    } else     if name == "f64"@ {
        Some(PrimitiveType::Double)
    } else     if name == "c_float"@ {
        Some(PrimitiveType::Float)
    } else     if name == "c_double"@ {
        Some(PrimitiveType::Double)
    } else     if name == "VaList"@ {
        Some(PrimitiveType::VaList)
    } else     if name == "va_list"@ {
        Some(PrimitiveType::VaList)
    } else     if name == "ptrdiff_t"@ {
        Some(PrimitiveType::PtrDiffT)
    } else     if name == "c_short"@ {
        Some(PrimitiveType::Integer { zeroable: true, signed: true, kind: IntKind::Short })
    } else     if name == "c_ushort"@ {
        Some(PrimitiveType::Integer { zeroable: true, signed: false, kind: IntKind::Short })
    } else     if name == "c_int"@ {
        Some(PrimitiveType::Integer { zeroable: true, signed: true, kind: IntKind::Int })
    } else     if name == "c_uint"@ {
        Some(PrimitiveType::Integer { zeroable: true, signed: false, kind: IntKind::Int })
    } else     if name == "c_long"@ {
        Some(PrimitiveType::Integer { zeroable: true, signed: true, kind: IntKind::Long })
    } else     if name == "c_ulong"@ {
        Some(PrimitiveType::Integer { zeroable: true, signed: false, kind: IntKind::Long })
    } else     if name == "c_longlong"@ {
        Some(PrimitiveType::Integer { zeroable: true, signed: true, kind: IntKind::LongLong })
    } else     if name == "c_ulonglong"@ {
        Some(PrimitiveType::Integer { zeroable: true, signed: false, kind: IntKind::LongLong })
    } else     if name == "ssize_t"@ {
        Some(PrimitiveType::Integer { zeroable: true, signed: true, kind: IntKind::SizeT })
    } else     if name == "size_t"@ {
        Some(PrimitiveType::Integer { zeroable: true, signed: false, kind: IntKind::SizeT })
    } else     if name == "isize"@ {
        Some(PrimitiveType::Integer { zeroable: true, signed: true, kind: IntKind::Size })
    } else     if name == "usize"@ {
        Some(PrimitiveType::Integer { zeroable: true, signed: false, kind: IntKind::Size })
    } else     if name == "intptr_t"@ {
        Some(PrimitiveType::Integer { zeroable: true, signed: true, kind: IntKind::Size })
    } else     if name == "uintptr_t"@ {
        Some(PrimitiveType::Integer { zeroable: true, signed: false, kind: IntKind::Size })
    } else     if name == "i8"@ {
        Some(PrimitiveType::Integer { zeroable: true, signed: true, kind: IntKind::B8 })
    } else     if name == "u8"@ {
        Some(PrimitiveType::Integer { zeroable: true, signed: false, kind: IntKind::B8 })
    } else     if name == "i16"@ {
        Some(PrimitiveType::Integer { zeroable: true, signed: true, kind: IntKind::B16 })
    } else     if name == "u16"@ {
        Some(PrimitiveType::Integer { zeroable: true, signed: false, kind: IntKind::B16 })
    } else     if name == "i32"@ {
        Some(PrimitiveType::Integer { zeroable: true, signed: true, kind: IntKind::B32 })
    } else     if name == "u32"@ {
        Some(PrimitiveType::Integer { zeroable: true, signed: false, kind: IntKind::B32 })
    } else     if name == "i64"@ {
        Some(PrimitiveType::Integer { zeroable: true, signed: true, kind: IntKind::B64 })
    } else     if name == "u64"@ {
        Some(PrimitiveType::Integer { zeroable: true, signed: false, kind: IntKind::B64 })
    } else     if name == "int8_t"@ {
        Some(PrimitiveType::Integer { zeroable: true, signed: true, kind: IntKind::B8 })
    } else     if name == "uint8_t"@ {
        Some(PrimitiveType::Integer { zeroable: true, signed: false, kind: IntKind::B8 })
    } else     if name == "int16_t"@ {
        Some(PrimitiveType::Integer { zeroable: true, signed: true, kind: IntKind::B16 })
    } else     if name == "uint16_t"@ {
        Some(PrimitiveType::Integer { zeroable: true, signed: false, kind: IntKind::B16 })
    } else     if name == "int32_t"@ {
        Some(PrimitiveType::Integer { zeroable: true, signed: true, kind: IntKind::B32 })
    } else     if name == "uint32_t"@ {
        Some(PrimitiveType::Integer { zeroable: true, signed: false, kind: IntKind::B32 })
    } else     if name == "int64_t"@ {
        Some(PrimitiveType::Integer { zeroable: true, signed: true, kind: IntKind::B64 })
    } else     if name == "uint64_t"@ {
        Some(PrimitiveType::Integer { zeroable: true, signed: false, kind: IntKind::B64 })
    } else {
        None
    }
}

impl PrimitiveType {
    /// The primitive type that the name `name` stands for, if it stands for
    /// one.
    pub fn maybe(name: &str) -> (res: Option<PrimitiveType>)
        ensures
            res == primitive_named(name@),
    {
        reveal(primitive_named);
        if text_is(name, "c_void") {
            Some(PrimitiveType::Void)
        } else     if text_is(name, "bool") {
            Some(PrimitiveType::Bool)
        } else     if text_is(name, "char") {
            Some(PrimitiveType::Char32)
        } else     if text_is(name, "c_char") {
            Some(PrimitiveType::Char)
        } else     if text_is(name, "c_schar") {
            Some(PrimitiveType::SChar)
        } else     if text_is(name, "c_uchar") {
            Some(PrimitiveType::UChar)
        } else     if text_is(name, "f32") {
            Some(PrimitiveType::Float)
        } else     if text_is(name, "f64") {
            Some(PrimitiveType::Double)
        } else     if text_is(name, "c_float") {
            Some(PrimitiveType::Float)
        } else     if text_is(name, "c_double") {
            Some(PrimitiveType::Double)
        } else     if text_is(name, "VaList") {
            Some(PrimitiveType::VaList)
        } else     if text_is(name, "va_list") {
            Some(PrimitiveType::VaList)
        } else     if text_is(name, "ptrdiff_t") {
            Some(PrimitiveType::PtrDiffT)
        } else     if text_is(name, "c_short") {
            Some(PrimitiveType::Integer { zeroable: true, signed: true, kind: IntKind::Short })
        } else     if text_is(name, "c_ushort") {
            Some(PrimitiveType::Integer { zeroable: true, signed: false, kind: IntKind::Short })
        } else     if text_is(name, "c_int") {
            Some(PrimitiveType::Integer { zeroable: true, signed: true, kind: IntKind::Int })
        } else     if text_is(name, "c_uint") {
            Some(PrimitiveType::Integer { zeroable: true, signed: false, kind: IntKind::Int })
        } else     if text_is(name, "c_long") {
            Some(PrimitiveType::Integer { zeroable: true, signed: true, kind: IntKind::Long })
        } else     if text_is(name, "c_ulong") {
            Some(PrimitiveType::Integer { zeroable: true, signed: false, kind: IntKind::Long })
        } else     if text_is(name, "c_longlong") {
            Some(PrimitiveType::Integer { zeroable: true, signed: true, kind: IntKind::LongLong })
        } else     if text_is(name, "c_ulonglong") {
            Some(PrimitiveType::Integer { zeroable: true, signed: false, kind: IntKind::LongLong })
        } else     if text_is(name, "ssize_t") {
            Some(PrimitiveType::Integer { zeroable: true, signed: true, kind: IntKind::SizeT })
        } else     if text_is(name, "size_t") {
            Some(PrimitiveType::Integer { zeroable: true, signed: false, kind: IntKind::SizeT })
        } else     if text_is(name, "isize") {
            Some(PrimitiveType::Integer { zeroable: true, signed: true, kind: IntKind::Size })
        } else     if text_is(name, "usize") {
            Some(PrimitiveType::Integer { zeroable: true, signed: false, kind: IntKind::Size })
        } else     if text_is(name, "intptr_t") {
            Some(PrimitiveType::Integer { zeroable: true, signed: true, kind: IntKind::Size })
        } else     if text_is(name, "uintptr_t") {
            Some(PrimitiveType::Integer { zeroable: true, signed: false, kind: IntKind::Size })
        } else     if text_is(name, "i8") {
            Some(PrimitiveType::Integer { zeroable: true, signed: true, kind: IntKind::B8 })
        } else     if text_is(name, "u8") {
            Some(PrimitiveType::Integer { zeroable: true, signed: false, kind: IntKind::B8 })
        } else     if text_is(name, "i16") {
            Some(PrimitiveType::Integer { zeroable: true, signed: true, kind: IntKind::B16 })
        } else     if text_is(name, "u16") {
            Some(PrimitiveType::Integer { zeroable: true, signed: false, kind: IntKind::B16 })
        } else     if text_is(name, "i32") {
            Some(PrimitiveType::Integer { zeroable: true, signed: true, kind: IntKind::B32 })
        } else     if text_is(name, "u32") {
            Some(PrimitiveType::Integer { zeroable: true, signed: false, kind: IntKind::B32 })
        } else     if text_is(name, "i64") {
            Some(PrimitiveType::Integer { zeroable: true, signed: true, kind: IntKind::B64 })
        } else     if text_is(name, "u64") {
            Some(PrimitiveType::Integer { zeroable: true, signed: false, kind: IntKind::B64 })
        } else     if text_is(name, "int8_t") {
            Some(PrimitiveType::Integer { zeroable: true, signed: true, kind: IntKind::B8 })
        } else     if text_is(name, "uint8_t") {
            Some(PrimitiveType::Integer { zeroable: true, signed: false, kind: IntKind::B8 })
        } else     if text_is(name, "int16_t") {
            Some(PrimitiveType::Integer { zeroable: true, signed: true, kind: IntKind::B16 })
        } else     if text_is(name, "uint16_t") {
            Some(PrimitiveType::Integer { zeroable: true, signed: false, kind: IntKind::B16 })
        } else     if text_is(name, "int32_t") {
            Some(PrimitiveType::Integer { zeroable: true, signed: true, kind: IntKind::B32 })
        } else     if text_is(name, "uint32_t") {
            Some(PrimitiveType::Integer { zeroable: true, signed: false, kind: IntKind::B32 })
        } else     if text_is(name, "int64_t") {
            Some(PrimitiveType::Integer { zeroable: true, signed: true, kind: IntKind::B64 })
        } else     if text_is(name, "uint64_t") {
            Some(PrimitiveType::Integer { zeroable: true, signed: false, kind: IntKind::B64 })
        } else {
            None
        }
        }
}

/// The reason `reason` with what was written after it.
pub fn told(reason: &str, written: &str) -> (res: String)
    ensures
        res@ == reason@ + written@,
{
    let mut out = reason.to_owned();
    out.append(written);
    out
}

pub open spec fn void() -> TypeModel {
    TypeModel::Primitive(PrimitiveType::Void)
}

pub open spec fn or_void(t: Option<TypeModel>) -> TypeModel {
    match t {
        Some(x) => x,
        None => void(),
    }
}

/// The constant that the expression `e` stands for, or why it stands for
/// none.
pub open spec fn loaded_const(e: ExprSyntax) -> Result<ConstExprModel, Seq<char>>
    decreases e, 0nat,
{
    match e {
        ExprSyntax::Group(inner) => loaded_const(*inner),
        ExprSyntax::Literal(v) => Ok(ConstExprModel::Value(v@)),
        ExprSyntax::Path(p) => match loaded_path(p) {
            Ok(path) => Ok(ConstExprModel::Name(path.export_name)),
            Err(e) => Err(e),
        },
        ExprSyntax::Other(written) => Err("can't handle const expression "@ + written@),
    }
}

/// The path that `p` stands for, or why it stands for none: the last
/// segment of `p` with its arguments. Lifetimes and types without a size are
/// left out of the arguments.
pub open spec fn loaded_path(p: PathSyntax) -> Result<GenericPathModel, Seq<char>>
    decreases p, 0nat,
{
    let name = unraw(p.last.ident@);
    if name == "PhantomData"@ {
        Ok(fresh_path(name, Seq::empty()))
    } else {
        match p.last.arguments {
            ArgumentsSyntax::AngleBracketed(args) => match loaded_args(args@, 0, Seq::empty()) {
                Ok(generics) => Ok(fresh_path(name, generics)),
                Err(e) => Err(e),
            },
            ArgumentsSyntax::Parenthesized => Err("Path contains parentheses."@),
            ArgumentsSyntax::Plain => Ok(fresh_path(name, Seq::empty())),
        }
    }
}

/// The arguments that `args[from..]` stand for, after `acc`, or the first
/// reason why one of them stands for none.
pub open spec fn loaded_args(
    args: Seq<ArgumentSyntax>,
    from: int,
    acc: Seq<GenericArgumentModel>,
) -> Result<Seq<GenericArgumentModel>, Seq<char>>
    decreases args, args.len() - from,
{
    if from < 0 || from >= args.len() {
        Ok(acc)
    } else {
        match args[from] {
            ArgumentSyntax::Type(t) => match loaded_type(t) {
                Ok(Some(ty)) => loaded_args(
                    args,
                    from + 1,
                    acc.push(GenericArgumentModel::Type(ty)),
                ),
                Ok(None) => loaded_args(args, from + 1, acc),
                Err(e) => Err(e),
            },
            ArgumentSyntax::Lifetime => loaded_args(args, from + 1, acc),
            ArgumentSyntax::Const(x) => match loaded_const(x) {
                Ok(c) => loaded_args(args, from + 1, acc.push(GenericArgumentModel::Const(c))),
                Err(e) => Err(e),
            },
            ArgumentSyntax::Other(written) => Err("can't handle generic argument "@ + written@),
        }
    }
}

/// The type that `t` stands for, or that it stands for none because it has
/// no size, or why it cannot be expressed.
///
/// A reference is a pointer that is never null, a pointer one that may be.
/// A name of a primitive type stands for that type.
pub open spec fn loaded_type(t: TypeSyntax) -> Result<Option<TypeModel>, Seq<char>>
    decreases t, 0nat,
{
    match t {
        TypeSyntax::Reference { elem, mutable } => match loaded_type(*elem) {
            Ok(converted) => Ok(
                Some(
                    TypeModel::Ptr {
                        ty: Box::new(or_void(converted)),
                        is_const: !mutable,
                        is_nullable: false,
                        is_ref: false,
                    },
                ),
            ),
            Err(e) => Err(e),
        },
        TypeSyntax::Pointer { elem, mutable } => match loaded_type(*elem) {
            Ok(converted) => Ok(
                Some(
                    TypeModel::Ptr {
                        ty: Box::new(or_void(converted)),
                        is_const: !mutable,
                        is_nullable: true,
                        is_ref: false,
                    },
                ),
            ),
            Err(e) => Err(e),
        },
        TypeSyntax::Path(p) => match loaded_path(p) {
            Ok(path) => if path.path == "PhantomData"@ || path.path == "PhantomPinned"@ {
                Ok(None)
            } else {
                match primitive_named(path.path) {
                    Some(prim) => if path.generics.len() > 0 {
                        Err("Primitive has generics."@)
                    } else {
                        Ok(Some(TypeModel::Primitive(prim)))
                    },
                    None => Ok(Some(TypeModel::Path(path))),
                }
            },
            Err(e) => Err(e),
        },
        TypeSyntax::Array { elem, len } => match loaded_type(*elem) {
            Ok(Some(converted)) => match loaded_const(len) {
                Ok(len) => Ok(Some(TypeModel::Array(Box::new(converted), len))),
                Err(e) => Err(e),
            },
            Ok(None) => Err("Cannot have an array of zero sized types."@),
            Err(e) => Err(e),
        },
        TypeSyntax::BareFn { inputs, variadic, output } => match loaded_inputs(
            inputs@,
            0,
            Seq::empty(),
        ) {
            Ok(args) => match loaded_output(output) {
                Ok((ret, never_return)) => Ok(
                    Some(
                        TypeModel::FuncPtr {
                            ret: Box::new(ret),
                            args: if variadic {
                                args.push(TypeModel::Primitive(PrimitiveType::VaList))
                            } else {
                                args
                            },
                            is_nullable: false,
                            never_return,
                        },
                    ),
                ),
                Err(e) => Err(e),
            },
            Err(e) => Err(e),
        },
        TypeSyntax::Tuple(elems) => if elems@.len() == 0 {
            Ok(None)
        } else {
            Err("Tuples are not supported types."@)
        },
        TypeSyntax::Variadic => Ok(Some(TypeModel::Primitive(PrimitiveType::VaList))),
        TypeSyntax::Other(written) => Err("Unsupported type: "@ + written@),
    }
}

/// The types of the arguments `inputs[from..]` of a function pointer, after
/// `acc`, or the first reason why one of them cannot be expressed. Arguments
/// without a size are left out.
pub open spec fn loaded_inputs(inputs: Seq<BareFnArgSyntax>, from: int, acc: Seq<TypeModel>)
    -> Result<Seq<TypeModel>, Seq<char>>
    decreases inputs, inputs.len() - from,
{
    if from < 0 || from >= inputs.len() {
        Ok(acc)
    } else {
        match loaded_type(inputs[from].ty) {
            Ok(Some(ty)) => loaded_inputs(inputs, from + 1, acc.push(ty)),
            Ok(None) => loaded_inputs(inputs, from + 1, acc),
            Err(e) => Err(e),
        }
    }
}

/// The type that a function returns, and whether it never returns.
pub open spec fn loaded_output(o: ReturnSyntax) -> Result<(TypeModel, bool), Seq<char>>
    decreases o, 0nat,
{
    match o {
        ReturnSyntax::Default => Ok((void(), false)),
        ReturnSyntax::Never => Ok((void(), true)),
        ReturnSyntax::Type(t) => match loaded_type(*t) {
            Ok(converted) => Ok((or_void(converted), false)),
            Err(e) => Err(e),
        },
    }
}

pub open spec fn loaded<T: View>(r: Result<T, String>) -> Result<T::V, Seq<char>> {
    match r {
        Ok(x) => Ok(x@),
        Err(e) => Err(e@),
    }
}

pub open spec fn loaded_maybe<T: View>(r: Result<Option<T>, String>) -> Result<
    Option<T::V>,
    Seq<char>,
> {
    match r {
        Ok(x) => Ok(view_of(x)),
        Err(e) => Err(e@),
    }
}

fn load_const(e: &ExprSyntax) -> (res: Result<ConstExpr, String>)
    ensures
        loaded(res) == loaded_const(*e),
    decreases e, 0nat,
{
    match e {
        ExprSyntax::Group(inner) => load_const(inner),
        ExprSyntax::Literal(v) => Ok(ConstExpr::Value(v.clone())),
        ExprSyntax::Path(p) => match load_path(p) {
            Ok(path) => Ok(ConstExpr::Name(path.export_name.clone())),
            Err(e) => Err(e),
        },
        ExprSyntax::Other(written) => Err(told("can't handle const expression ", written.as_str())),
    }
}

fn load_path(p: &PathSyntax) -> (res: Result<GenericPath, String>)
    ensures
        loaded(res) == loaded_path(*p),
    decreases p, 0nat,
{
    let name = unraw_name(p.last.ident.as_str());
    let path = Path::new(name.as_str());
    if path.is_named("PhantomData") {
        let res = GenericPath::new(path, Vec::new());
        assert(res@.generics =~= Seq::empty());
        return Ok(res);
    }
    match &p.last.arguments {
        ArgumentsSyntax::AngleBracketed(args) => match load_args(args) {
            Ok(generics) => Ok(GenericPath::new(path, generics)),
            Err(e) => Err(e),
        },
        ArgumentsSyntax::Parenthesized => Err("Path contains parentheses.".to_owned()),
        ArgumentsSyntax::Plain => {
            let res = GenericPath::new(path, Vec::new());
            assert(res@.generics =~= Seq::empty());
            Ok(res)
        },
    }
}

pub open spec fn loaded_list(r: Result<Vec<GenericArgument>, String>) -> Result<
    Seq<GenericArgumentModel>,
    Seq<char>,
> {
    match r {
        Ok(v) => Ok(args_model(v@)),
        Err(e) => Err(e@),
    }
}

pub open spec fn loaded_types(r: Result<Vec<Type>, String>) -> Result<Seq<TypeModel>, Seq<char>> {
    match r {
        Ok(v) => Ok(types_model(v@)),
        Err(e) => Err(e@),
    }
}

fn load_args(args: &Vec<ArgumentSyntax>) -> (res: Result<Vec<GenericArgument>, String>)
    ensures
        loaded_list(res) == loaded_args(args@, 0, Seq::empty()),
    decreases args, 0nat,
{
    let mut out: Vec<GenericArgument> = Vec::new();
    let mut i: usize = 0;
    assert(args_model(out@) =~= Seq::empty());
    while i < args.len()
        invariant
            i <= args.len(),
            loaded_args(args@, 0, Seq::empty()) == loaded_args(args@, i as int, args_model(out@)),
        decreases args.len() - i,
    {
        let ghost before = args_model(out@);
        match &args[i] {
            ArgumentSyntax::Type(t) => match load_type(t) {
                Ok(Some(ty)) => {
                    out.push(GenericArgument::Type(ty));
                    assert(args_model(out@) =~= before.push(GenericArgumentModel::Type(ty@)));
                },
                Ok(None) => {},
                Err(e) => {
                    return Err(e);
                },
            },
            ArgumentSyntax::Lifetime => {},
            ArgumentSyntax::Const(x) => match load_const(x) {
                Ok(c) => {
                    out.push(GenericArgument::Const(c));
                    assert(args_model(out@) =~= before.push(GenericArgumentModel::Const(c@)));
                },
                Err(e) => {
                    return Err(e);
                },
            },
            ArgumentSyntax::Other(written) => {
                return Err(told("can't handle generic argument ", written.as_str()));
            },
        }
        i += 1;
    }
    Ok(out)
}

fn load_type(t: &TypeSyntax) -> (res: Result<Option<Type>, String>)
    ensures
        loaded_maybe(res) == loaded_type(*t),
    decreases t, 1nat,
{
    match t {
        TypeSyntax::Reference { elem, mutable } => load_indirect(t, elem, *mutable, false),
        TypeSyntax::Pointer { elem, mutable } => load_indirect(t, elem, *mutable, true),
        TypeSyntax::Path(p) => load_named(t, p),
        TypeSyntax::Array { elem, len } => load_array(t, elem, len),
        TypeSyntax::BareFn { inputs, variadic, output } => load_bare_fn(
            t,
            inputs,
            *variadic,
            output,
        ),
        TypeSyntax::Tuple(elems) => {
            if elems.len() == 0 {
                Ok(None)
            } else {
                Err("Tuples are not supported types.".to_owned())
            }
        },
        TypeSyntax::Variadic => Ok(Some(Type::Primitive(PrimitiveType::VaList))),
        TypeSyntax::Other(written) => Err(told("Unsupported type: ", written.as_str())),
    }
}

fn load_indirect(whole: &TypeSyntax, elem: &Box<TypeSyntax>, mutable: bool, nullable: bool) -> (res:
    Result<Option<Type>, String>)
    requires
        *whole == (if nullable {
            TypeSyntax::Pointer { elem: *elem, mutable }
        } else {
            TypeSyntax::Reference { elem: *elem, mutable }
        }),
    ensures
        loaded_maybe(res) == loaded_type(*whole),
    decreases whole, 0nat,
{
    assert(loaded_type(*whole) == match loaded_type(**elem) {
        Ok(converted) => Ok(
            Some(
                TypeModel::Ptr {
                    ty: Box::new(or_void(converted)),
                    is_const: !mutable,
                    is_nullable: nullable,
                    is_ref: false,
                },
            ),
        ),
        Err(e) => Err(e),
    });
    match load_type(elem) {
        Ok(converted) => {
            let ghost found = view_of(converted);
            let converted = match converted {
                Some(c) => c,
                None => Type::Primitive(PrimitiveType::Void),
            };
            assert(converted@ == or_void(found));
            let res = Type::Ptr {
                ty: Box::new(converted),
                is_const: !mutable,
                is_nullable: nullable,
                is_ref: false,
            };
            assert(res@ == TypeModel::Ptr {
                ty: Box::new(or_void(found)),
                is_const: !mutable,
                is_nullable: nullable,
                is_ref: false,
            });
            Ok(Some(res))
        },
        Err(e) => Err(e),
    }
}

fn load_named(whole: &TypeSyntax, p: &PathSyntax) -> (res: Result<Option<Type>, String>)
    requires
        *whole == TypeSyntax::Path(*p),
    ensures
        loaded_maybe(res) == loaded_type(*whole),
    decreases whole, 0nat,
{
    match load_path(p) {
        Ok(path) => {
            if path.path.is_named("PhantomData") || path.path.is_named("PhantomPinned") {
                return Ok(None);
            }
            match PrimitiveType::maybe(path.path.name()) {
                Some(prim) => {
                    if path.generics.len() > 0 {
                        Err("Primitive has generics.".to_owned())
                    } else {
                        Ok(Some(Type::Primitive(prim)))
                    }
                },
                None => Ok(Some(Type::Path(path))),
            }
        },
        Err(e) => Err(e),
    }
}

fn load_array(whole: &TypeSyntax, elem: &Box<TypeSyntax>, len: &ExprSyntax) -> (res: Result<
    Option<Type>,
    String,
>)
    requires
        *whole == (TypeSyntax::Array { elem: *elem, len: *len }),
    ensures
        loaded_maybe(res) == loaded_type(*whole),
    decreases whole, 0nat,
{
    match load_type(elem) {
        Ok(Some(converted)) => match load_const(len) {
            Ok(len) => Ok(Some(Type::Array(Box::new(converted), len))),
            Err(e) => Err(e),
        },
        Ok(None) => Err("Cannot have an array of zero sized types.".to_owned()),
        Err(e) => Err(e),
    }
}

fn load_bare_fn(
    whole: &TypeSyntax,
    inputs: &Vec<BareFnArgSyntax>,
    variadic: bool,
    output: &ReturnSyntax,
) -> (res: Result<Option<Type>, String>)
    requires
        *whole == (TypeSyntax::BareFn { inputs: *inputs, variadic, output: *output }),
    ensures
        loaded_maybe(res) == loaded_type(*whole),
    decreases whole, 0nat,
{
    match load_inputs(inputs) {
        Ok(args) => {
            let mut args = args;
            let ghost before = types_model(args@);
            if variadic {
                args.push(Type::Primitive(PrimitiveType::VaList));
                assert(types_model(args@) =~= before.push(
                    TypeModel::Primitive(PrimitiveType::VaList),
                ));
            }
            match load_output(output) {
                Ok((ret, never_return)) => Ok(
                    Some(Type::FuncPtr { ret: Box::new(ret), args, is_nullable: false, never_return }),
                ),
                Err(e) => Err(e),
            }
        },
        Err(e) => Err(e),
    }
}

fn load_inputs(inputs: &Vec<BareFnArgSyntax>) -> (res: Result<Vec<Type>, String>)
    ensures
        loaded_types(res) == loaded_inputs(inputs@, 0, Seq::empty()),
    decreases inputs, 0nat,
{
    let mut out: Vec<Type> = Vec::new();
    let mut i: usize = 0;
    assert(types_model(out@) =~= Seq::empty());
    while i < inputs.len()
        invariant
            i <= inputs.len(),
            loaded_inputs(inputs@, 0, Seq::empty()) == loaded_inputs(
                inputs@,
                i as int,
                types_model(out@),
            ),
        decreases inputs.len() - i,
    {
        let ghost before = types_model(out@);
        match load_type(&inputs[i].ty) {
            Ok(Some(ty)) => {
                out.push(ty);
                assert(types_model(out@) =~= before.push(ty@));
            },
            Ok(None) => {},
            Err(e) => {
                return Err(e);
            },
        }
        i += 1;
    }
    Ok(out)
}

pub open spec fn loaded_pair(r: Result<(Type, bool), String>) -> Result<(TypeModel, bool), Seq<char>> {
    match r {
        Ok((t, never)) => Ok((t@, never)),
        Err(e) => Err(e@),
    }
}

fn load_output(o: &ReturnSyntax) -> (res: Result<(Type, bool), String>)
    ensures
        loaded_pair(res) == loaded_output(*o),
    decreases o, 0nat,
{
    match o {
        ReturnSyntax::Default => Ok((Type::Primitive(PrimitiveType::Void), false)),
        ReturnSyntax::Never => Ok((Type::Primitive(PrimitiveType::Void), true)),
        ReturnSyntax::Type(t) => match load_type(t) {
            Ok(converted) => {
                let ghost found = view_of(converted);
                let converted = match converted {
                    Some(c) => c,
                    None => Type::Primitive(PrimitiveType::Void),
                };
                assert(converted@ == or_void(found));
                Ok((converted, false))
            },
            Err(e) => Err(e),
        },
    }
}

impl ConstExpr {
    /// The constant that the expression `expr` stands for.
    pub fn load(expr: &ExprSyntax) -> (res: Result<ConstExpr, String>)
        ensures
            loaded(res) == loaded_const(*expr),
    {
        load_const(expr)
    }
}

impl Type {
    /// The type that `ty` stands for, or nothing where it has no size.
    pub fn load(ty: &TypeSyntax) -> (res: Result<Option<Type>, String>)
        ensures
            loaded_maybe(res) == loaded_type(*ty),
    {
        load_type(ty)
    }

    /// The type that a function returns, and whether it never returns.
    pub fn load_from_output(output: &ReturnSyntax) -> (res: Result<(Type, bool), String>)
        ensures
            loaded_pair(res) == loaded_output(*output),
    {
        load_output(output)
    }
}

impl GenericPath {
    /// The path that `path` stands for: its last segment with its arguments.
    pub fn load(path: &PathSyntax) -> (res: Result<GenericPath, String>)
        ensures
            loaded(res) == loaded_path(*path),
    {
        load_path(path)
    }
}

/// The condition under which an item exists that is declared under the
/// condition `item` inside a module that exists under `module`.
pub open spec fn joined_cfg(module: Option<Seq<char>>, item: Option<Seq<char>>) -> Option<
    Seq<char>,
> {
    match (module, item) {
        (None, None) => None,
        (None, Some(b)) => Some(b),
        (Some(a), None) => Some(a),
        (Some(a), Some(b)) => Some("all("@ + a + ", "@ + b + ")"@),
    }
}

impl Cfg {
    /// The condition under which an item exists that is declared under the
    /// condition `b` inside a module that exists under `a`.
    pub fn append(a: Option<&Cfg>, b: Option<Cfg>) -> (res: Option<Cfg>)
        ensures
            view_of(res) == joined_cfg(view_of(a), view_of(b)),
    {
        match (a, b) {
            (None, None) => None,
            (None, Some(b)) => Some(b),
            (Some(a), None) => Some(a.clone()),
            (Some(a), Some(b)) => {
                let mut condition = "all(".to_owned();
                condition.append(a.condition.as_str());
                condition.append(", ");
                condition.append(b.condition.as_str());
                condition.append(")");
                Some(Cfg { condition })
            },
        }
    }
}

/// The default of a type parameter; `written` is the default as it was
/// written.
pub open spec fn loaded_default(default: Option<TypeSyntax>, written: Seq<char>) -> Result<
    Option<GenericArgumentModel>,
    Seq<char>,
> {
    match default {
        None => Ok(None),
        Some(t) => match loaded_type(t) {
            Ok(Some(ty)) => Ok(Some(GenericArgumentModel::Type(ty))),
            Ok(None) => Err("unsupported generic type default: "@ + written),
            Err(e) => Err(e),
        },
    }
}

/// The parameter that `param` stands for, or nothing where it is a
/// lifetime, or why it cannot be expressed.
pub open spec fn loaded_param(param: GenericParamSyntax) -> Result<
    Option<GenericParamModel>,
    Seq<char>,
> {
    match param {
        GenericParamSyntax::Type { ident, default, written } => match loaded_default(
            default,
            written@,
        ) {
            Ok(default) => Ok(
                Some(
                    GenericParamModel {
                        name: unraw(ident@),
                        ty: GenericParamTypeModel::Type,
                        default,
                    },
                ),
            ),
            Err(e) => Err(e),
        },
        GenericParamSyntax::Lifetime => Ok(None),
        GenericParamSyntax::Const { ident, ty, default, written } => match loaded_type(ty) {
            Ok(Some(ty)) => match default {
                None => Ok(
                    Some(
                        GenericParamModel {
                            name: unraw(ident@),
                            ty: GenericParamTypeModel::Const(ty),
                            default: None,
                        },
                    ),
                ),
                Some(x) => match loaded_const(x) {
                    Ok(c) => Ok(
                        Some(
                            GenericParamModel {
                                name: unraw(ident@),
                                ty: GenericParamTypeModel::Const(ty),
                                default: Some(GenericArgumentModel::Const(c)),
                            },
                        ),
                    ),
                    Err(e) => Err(e),
                },
            },
            // A type that evaporates, like a marker.
            Ok(None) => Err("unsupported const generic type: "@ + written@),
            Err(e) => Err(e),
        },
    }
}

/// The parameters that `params[from..]` stand for, after `acc`, or the
/// first reason why one of them cannot be expressed.
pub open spec fn loaded_params(
    params: Seq<GenericParamSyntax>,
    from: int,
    acc: Seq<GenericParamModel>,
) -> Result<Seq<GenericParamModel>, Seq<char>>
    decreases params.len() - from,
{
    if from < 0 || from >= params.len() {
        Ok(acc)
    } else {
        match loaded_param(params[from]) {
            Ok(Some(p)) => loaded_params(params, from + 1, acc.push(p)),
            Ok(None) => loaded_params(params, from + 1, acc),
            Err(e) => Err(e),
        }
    }
}

/// The type of the receiver of a method.
pub open spec fn self_type(reference: bool, mutable: bool) -> TypeModel {
    let self_ty = TypeModel::Path(fresh_path("Self"@, Seq::empty()));
    if !reference {
        self_ty
    } else {
        TypeModel::Ptr {
            ty: Box::new(self_ty),
            is_const: !mutable,
            is_nullable: false,
            is_ref: false,
        }
    }
}

/// The argument that `arg` stands for, or nothing where its type has no
/// size, or why it cannot be expressed.
pub open spec fn loaded_argument(arg: FnArgSyntax) -> Result<
    Option<FunctionArgumentModel>,
    Seq<char>,
> {
    match arg {
        FnArgSyntax::Typed { pat, ty } => match pat {
            PatternSyntax::Other(written) => Err(
                "Parameter has an unsupported argument name: "@ + written@,
            ),
            _ => match loaded_type(ty) {
                Ok(Some(ty)) => if ty is Array {
                    Err("Array as function arguments are not supported"@)
                } else {
                    Ok(
                        Some(
                            FunctionArgumentModel {
                                name: match pat {
                                    PatternSyntax::Ident(ident) => Some(unraw(ident@)),
                                    _ => None,
                                },
                                ty,
                                array_length: None,
                            },
                        ),
                    )
                },
                Ok(None) => Ok(None),
                Err(e) => Err(e),
            },
        },
        FnArgSyntax::Receiver { reference, mutable } => Ok(
            Some(
                FunctionArgumentModel {
                    name: Some("self"@),
                    ty: self_type(reference, mutable),
                    array_length: None,
                },
            ),
        ),
    }
}

/// The arguments that `inputs[from..]` stand for, after `acc`, or the first
/// reason why one of them cannot be expressed.
pub open spec fn loaded_arguments(
    inputs: Seq<FnArgSyntax>,
    from: int,
    acc: Seq<FunctionArgumentModel>,
) -> Result<Seq<FunctionArgumentModel>, Seq<char>>
    decreases inputs.len() - from,
{
    if from < 0 || from >= inputs.len() {
        Ok(acc)
    } else {
        match loaded_argument(inputs[from]) {
            Ok(Some(a)) => loaded_arguments(inputs, from + 1, acc.push(a)),
            Ok(None) => loaded_arguments(inputs, from + 1, acc),
            Err(e) => Err(e),
        }
    }
}

/// Whether one of `params[from..]` is a type or a constant.
pub open spec fn has_generic(params: Seq<GenericParamSyntax>, from: int) -> bool
    decreases params.len() - from,
{
    if from < 0 || from >= params.len() {
        false
    } else if !(params[from] is Lifetime) {
        true
    } else {
        has_generic(params, from + 1)
    }
}

pub open spec fn annotations_model(r: Result<AnnotationSet, String>) -> Result<
    AnnotationSetModel,
    Seq<char>,
> {
    loaded(r)
}

/// What is said of the item called `path` that cannot be expressed for the
/// reason `reason`: the name of the item, and then the reason.
pub open spec fn item_error(path: Seq<char>, reason: Seq<char>) -> Seq<char> {
    path + ": "@ + reason
}

/// The function that the signature `sig` stands for, or why it cannot be
/// expressed: the name of the function and the reason. Where the function is
/// a method of `self_type_path`, the placeholder `Self` is replaced by it.
pub open spec fn loaded_function(
    path: Seq<char>,
    self_type_path: Option<Seq<char>>,
    sig: SignatureSyntax,
    extern_decl: bool,
    attrs: Attributes,
    mod_cfg: Option<Seq<char>>,
) -> Result<FunctionModel, Seq<char>> {
    if has_generic(sig.generics.params@, 0) {
        Err(item_error(path, "Generic functions are not supported"@))
    } else {
        match loaded_arguments(sig.inputs@, 0, Seq::empty()) {
            Err(e) => Err(item_error(path, e)),
            Ok(args) => match loaded_output(sig.output) {
                Err(e) => Err(item_error(path, e)),
                Ok((ret, never_return)) => match annotations_model(attrs.annotations) {
                    Err(e) => Err(item_error(path, e)),
                    Ok(annotations) => {
                        let f = FunctionModel {
                            path,
                            self_type_path,
                            ret,
                            args,
                            extern_decl,
                            cfg: joined_cfg(mod_cfg, view_of(attrs.cfg)),
                            annotations,
                            documentation: attrs.documentation@,
                            never_return,
                        };
                        Ok(
                            match self_type_path {
                                Some(by) => rewrite_function(f, PathOp::ReplaceSelf(by)),
                                None => f,
                            },
                        )
                    },
                },
            },
        }
    }
}

/// The opaque item called `path` with the parameters `generics`, or why the
/// parameters cannot be expressed: the name of the item and the reason.
/// Annotations that could not be read count as none.
pub open spec fn loaded_opaque(
    path: Seq<char>,
    generics: GenericsSyntax,
    attrs: Attributes,
    mod_cfg: Option<Seq<char>>,
) -> Result<ItemModel, Seq<char>> {
    match loaded_params(generics.params@, 0, Seq::empty()) {
        Ok(params) => Ok(
            plain_item(
                ItemKind::OpaqueItem,
                path,
                params,
                Seq::empty(),
                joined_cfg(mod_cfg, view_of(attrs.cfg)),
                match attrs.annotations {
                    Ok(a) => a@,
                    Err(_) => AnnotationSetModel::empty(),
                },
                attrs.documentation@,
            ),
        ),
        Err(e) => Err(item_error(path, e)),
    }
}

/// What is said of the item called `path` that cannot be expressed for the
/// reason `reason`.
pub fn name_error(path: &Path, reason: &str) -> (res: String)
    ensures
        res@ == item_error(path@, reason@),
{
    let mut out = path.name().to_owned();
    out.append(": ");
    out.append(reason);
    out
}

/// The type of the receiver of a method.
pub fn gen_self_type(reference: bool, mutable: bool) -> (res: Type)
    ensures
        res@ == self_type(reference, mutable),
{
    let self_ty = Type::Path(GenericPath::self_path());
    assert(self_ty@ == TypeModel::Path(fresh_path("Self"@, Seq::empty())));
    if !reference {
        return self_ty;
    }
    let is_const = !mutable;
    Type::Ptr { ty: Box::new(self_ty), is_const, is_nullable: false, is_ref: false }
}

/// The argument that `arg` stands for, or nothing where its type has no size.
pub fn as_argument(arg: &FnArgSyntax) -> (res: Result<Option<FunctionArgument>, String>)
    ensures
        loaded_maybe(res) == loaded_argument(*arg),
{
    match arg {
        FnArgSyntax::Typed { pat, ty } => {
            let name = match pat {
                PatternSyntax::Wild => None,
                PatternSyntax::Ident(ident) => Some(unraw_name(ident.as_str())),
                PatternSyntax::Other(written) => {
                    return Err(
                        told("Parameter has an unsupported argument name: ", written.as_str()),
                    );
                },
            };
            let ty = match Type::load(ty) {
                Ok(Some(x)) => x,
                Ok(None) => {
                    return Ok(None);
                },
                Err(e) => {
                    return Err(e);
                },
            };
            if let Type::Array(..) = ty {
                return Err("Array as function arguments are not supported".to_owned());
            }
            Ok(Some(FunctionArgument { name, ty, array_length: None }))
        },
        FnArgSyntax::Receiver { reference, mutable } => Ok(
            Some(
                FunctionArgument {
                    name: Some("self".to_owned()),
                    ty: gen_self_type(*reference, *mutable),
                    array_length: None,
                },
            ),
        ),
    }
}

impl GenericParam {
    /// The parameter that `param` stands for, or nothing where it is a
    /// lifetime.
    pub fn load(param: &GenericParamSyntax) -> (res: Result<Option<GenericParam>, String>)
        ensures
            loaded_maybe(res) == loaded_param(*param),
    {
        match param {
            GenericParamSyntax::Type { ident, default, written } => {
                let default = match default {
                    None => None,
                    Some(t) => match Type::load(t) {
                        Ok(Some(ty)) => Some(GenericArgument::Type(ty)),
                        Ok(None) => {
                            return Err(
                                told("unsupported generic type default: ", written.as_str()),
                            );
                        },
                        Err(e) => {
                            return Err(e);
                        },
                    },
                };
                let name = unraw_name(ident.as_str());
                Ok(
                    Some(
                        GenericParam::new(Path::new(name.as_str()), GenericParamType::Type, default),
                    ),
                )
            },
            GenericParamSyntax::Lifetime => Ok(None),
            GenericParamSyntax::Const { ident, ty, default, written } => match Type::load(ty) {
                Ok(None) => {
                    // A type that evaporates, like a marker.
                    Err(told("unsupported const generic type: ", written.as_str()))
                },
                Ok(Some(ty)) => {
                    let default = match default {
                        None => None,
                        Some(x) => match ConstExpr::load(x) {
                            Ok(c) => Some(GenericArgument::Const(c)),
                            Err(e) => {
                                return Err(e);
                            },
                        },
                    };
                    let name = unraw_name(ident.as_str());
                    Ok(
                        Some(
                            GenericParam::new(
                                Path::new(name.as_str()),
                                GenericParamType::Const(ty),
                                default,
                            ),
                        ),
                    )
                },
                Err(e) => Err(e),
            },
        }
    }
}

impl GenericParams {
    /// The parameters that `generics` stand for. Lifetimes are left out.
    pub fn load(generics: &GenericsSyntax) -> (res: Result<GenericParams, String>)
        ensures
            loaded(res) == loaded_params(generics.params@, 0, Seq::empty()),
    {
        let mut params: Vec<GenericParam> = Vec::new();
        let mut i: usize = 0;
        assert(views(params@) =~= Seq::empty());
        while i < generics.params.len()
            invariant
                i <= generics.params.len(),
                loaded_params(generics.params@, 0, Seq::empty()) == loaded_params(
                    generics.params@,
                    i as int,
                    views(params@),
                ),
            decreases generics.params.len() - i,
        {
            let ghost before = views(params@);
            match GenericParam::load(&generics.params[i]) {
                Ok(Some(p)) => {
                    params.push(p);
                    assert(views(params@) =~= before.push(p@));
                },
                Ok(None) => {},
                Err(e) => {
                    return Err(e);
                },
            }
            i += 1;
        }
        Ok(GenericParams(params))
    }
}

fn is_generic_signature(params: &Vec<GenericParamSyntax>) -> (b: bool)
    ensures
        b == has_generic(params@, 0),
{
    let mut i: usize = 0;
    while i < params.len()
        invariant
            i <= params.len(),
            has_generic(params@, 0) == has_generic(params@, i as int),
        decreases params.len() - i,
    {
        match &params[i] {
            GenericParamSyntax::Lifetime => {},  // lifetimes are ok
            _ => {
                return true;
            },
        }
        i += 1;
    }
    false
}

fn load_arguments(inputs: &Vec<FnArgSyntax>) -> (res: Result<Vec<FunctionArgument>, String>)
    ensures
        match res {
            Ok(v) => loaded_arguments(inputs@, 0, Seq::empty()) == Ok::<
                Seq<FunctionArgumentModel>,
                Seq<char>,
            >(views(v@)),
            Err(e) => loaded_arguments(inputs@, 0, Seq::empty()) == Err::<
                Seq<FunctionArgumentModel>,
                Seq<char>,
            >(e@),
        },
{
    let mut out: Vec<FunctionArgument> = Vec::new();
    let mut i: usize = 0;
    assert(views(out@) =~= Seq::empty());
    while i < inputs.len()
        invariant
            i <= inputs.len(),
            loaded_arguments(inputs@, 0, Seq::empty()) == loaded_arguments(
                inputs@,
                i as int,
                views(out@),
            ),
        decreases inputs.len() - i,
    {
        let ghost before = views(out@);
        match as_argument(&inputs[i]) {
            Ok(Some(a)) => {
                out.push(a);
                assert(views(out@) =~= before.push(a@));
            },
            Ok(None) => {},
            Err(e) => {
                return Err(e);
            },
        }
        i += 1;
    }
    Ok(out)
}

impl Function {
    /// The function called `path` that the signature `sig` stands for.
    pub fn load(
        path: Path,
        self_type_path: Option<&Path>,
        sig: &SignatureSyntax,
        extern_decl: bool,
        attrs: Attributes,
        mod_cfg: Option<&Cfg>,
    ) -> (res: Result<Function, String>)
        ensures
            loaded(res) == loaded_function(
                path@,
                view_of(self_type_path),
                *sig,
                extern_decl,
                attrs,
                view_of(mod_cfg),
            ),
    {
        if is_generic_signature(&sig.generics.params) {
            return Err(name_error(&path, "Generic functions are not supported"));
        }
        let args = match load_arguments(&sig.inputs) {
            Ok(args) => args,
            Err(e) => {
                return Err(name_error(&path, e.as_str()));
            },
        };
        let (ret, never_return) = match Type::load_from_output(&sig.output) {
            Ok(pair) => pair,
            Err(e) => {
                return Err(name_error(&path, e.as_str()));
            },
        };
        let cfg = Cfg::append(mod_cfg, attrs.cfg);
        let annotations = match attrs.annotations {
            Ok(a) => a,
            Err(e) => {
                return Err(name_error(&path, e.as_str()));
            },
        };
        let mut function = Function {
            path,
            self_type_path: match self_type_path {
                Some(p) => Some(p.clone()),
                None => None,
            },
            ret,
            args,
            extern_decl,
            cfg,
            annotations,
            documentation: attrs.documentation,
            never_return,
        };
        if let Some(self_path) = self_type_path {
            function.replace_self_with(self_path);
        }
        Ok(function)
    }
}

impl OpaqueItem {
    /// The opaque item called `path` with the parameters `generics`.
    pub fn load(path: Path, generics: &GenericsSyntax, attrs: Attributes, mod_cfg: Option<&Cfg>)
        -> (res: Result<OpaqueItem, String>)
        ensures
            loaded(res) == loaded_opaque(path@, *generics, attrs, view_of(mod_cfg)),
    {
        let params = match GenericParams::load(generics) {
            Ok(p) => p,
            Err(e) => {
                return Err(name_error(&path, e.as_str()));
            },
        };
        let cfg = Cfg::append(mod_cfg, attrs.cfg);
        let annotations = match attrs.annotations {
            Ok(a) => a,
            Err(_) => AnnotationSet::new(),
        };
        Ok(OpaqueItem::new(path, params, cfg, annotations, attrs.documentation))
    }
}

} // verus!
