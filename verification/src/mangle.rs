use vstd::prelude::*;
use crate::config::MangleConfig;
use crate::path::Path;
use crate::ty::{
    args_model, types_model, ConstExpr, ConstExprModel, GenericArgument, GenericArgumentModel,
    IntKind, PrimitiveType, Type, TypeModel,
};

verus! {

/// `count` underscores, or nothing where underscores are left out.
pub open spec fn separator(count: nat, cfg: MangleConfig) -> Seq<char> {
    if cfg.remove_underscores {
        Seq::empty()
    } else {
        Seq::new(count, |i: int| '_')
    }
}

/// The name of a primitive type, as the source language writes it.
pub open spec fn primitive_name(p: PrimitiveType) -> Seq<char> {
    match p {
        PrimitiveType::Void => "c_void"@,
        PrimitiveType::Bool => "bool"@,
        PrimitiveType::Char => "c_char"@,
        PrimitiveType::SChar => "c_schar"@,
        PrimitiveType::UChar => "c_uchar"@,
        PrimitiveType::Char32 => "char"@,
        PrimitiveType::Float => "f32"@,
        PrimitiveType::Double => "f64"@,
        PrimitiveType::VaList => "va_list"@,
        PrimitiveType::PtrDiffT => "ptrdiff_t"@,
        PrimitiveType::Integer { signed, kind, .. } => match kind {
            IntKind::Short => if signed {
                "c_short"@
            } else {
                "c_ushort"@
            },
            IntKind::Int => if signed {
                "c_int"@
            } else {
                "c_uint"@
            },
            IntKind::Long => if signed {
                "c_long"@
            } else {
                "c_ulong"@
            },
            IntKind::LongLong => if signed {
                "c_longlong"@
            } else {
                "c_ulonglong"@
            },
            IntKind::SizeT => if signed {
                "ssize_t"@
            } else {
                "size_t"@
            },
            IntKind::Size => if signed {
                "isize"@
            } else {
                "usize"@
            },
            IntKind::B8 => if signed {
                "i8"@
            } else {
                "u8"@
            },
            IntKind::B16 => if signed {
                "i16"@
            } else {
                "u16"@
            },
            IntKind::B32 => if signed {
                "i32"@
            } else {
                "u32"@
            },
            IntKind::B64 => if signed {
                "i64"@
            } else {
                "u64"@
            },
        },
    }
}

pub open spec fn const_text(c: ConstExprModel) -> Seq<char> {
    match c {
        ConstExprModel::Name(n) => n,
        ConstExprModel::Value(v) => v,
    }
}

/// What closes a list of arguments: nothing where the list ends the whole
/// name, and `count` underscores otherwise.
pub open spec fn closing(count: nat, last: bool, cfg: MangleConfig) -> Seq<char> {
    if last {
        Seq::empty()
    } else {
        separator(count, cfg)
    }
}

/// The name of the instantiation of `name` with `generics`. `last` says that
/// the name ends with this instantiation.
///
/// The name is `name`, one underscore, the arguments with two underscores
/// between them, and three underscores unless the name ends here.
pub open spec fn mangled_name(
    name: Seq<char>,
    generics: Seq<GenericArgumentModel>,
    last: bool,
    cfg: MangleConfig,
) -> Seq<char>
    decreases generics, generics.len() + 1,
{
    if generics.len() == 0 {
        name
    } else {
        name + separator(1, cfg) + mangled_args(generics, 0, last, cfg) + closing(3, last, cfg)
    }
}

pub open spec fn mangled_args(
    generics: Seq<GenericArgumentModel>,
    from: int,
    last: bool,
    cfg: MangleConfig,
) -> Seq<char>
    decreases generics, generics.len() - from,
{
    if from < 0 || from >= generics.len() {
        Seq::empty()
    } else {
        (if from != 0 {
            separator(2, cfg)
        } else {
            Seq::empty()
        }) + mangled_arg(generics[from], last && from == generics.len() - 1, cfg) + mangled_args(
            generics,
            from + 1,
            last,
            cfg,
        )
    }
}

pub open spec fn mangled_arg(a: GenericArgumentModel, last: bool, cfg: MangleConfig) -> Seq<char>
    decreases a, 0nat,
{
    match a {
        GenericArgumentModel::Type(t) => mangled_type(t, last, cfg),
        GenericArgumentModel::Const(c) => const_text(c),
    }
}

/// The part of a name that stands for the type `t`.
///
/// A pointer is four underscores, or five where it is constant, before what
/// it points to. An array is its element, one underscore and its length. A
/// function pointer is six underscores, the return type, each argument after
/// seven underscores, and eight underscores unless the name ends here.
pub open spec fn mangled_type(t: TypeModel, last: bool, cfg: MangleConfig) -> Seq<char>
    decreases t, 0nat,
{
    match t {
        TypeModel::Path(p) => mangled_name(p.export_name, p.generics, last, cfg),
        TypeModel::Primitive(p) => primitive_name(p),
        TypeModel::Ptr { ty, is_const, .. } => separator(
            if is_const {
                5
            } else {
                4
            },
            cfg,
        ) + mangled_type(*ty, last, cfg),
        TypeModel::Array(ty, len) => mangled_type(*ty, false, cfg) + separator(1, cfg)
            + const_text(len),
        TypeModel::FuncPtr { ret, args, .. } => separator(6, cfg) + mangled_type(
            *ret,
            args.len() == 0,
            cfg,
        ) + mangled_fn_args(args, 0, last, cfg) + closing(8, last, cfg),
    }
}

pub open spec fn mangled_fn_args(args: Seq<TypeModel>, from: int, last: bool, cfg: MangleConfig)
    -> Seq<char>
    decreases args, args.len() - from,
{
    if from < 0 || from >= args.len() {
        Seq::empty()
    } else {
        separator(7, cfg) + mangled_type(args[from], last && from == args.len() - 1, cfg)
            + mangled_fn_args(args, from + 1, last, cfg)
    }
}

fn push_separator(out: &mut String, count: usize, cfg: &MangleConfig)
    ensures
        final(out)@ == old(out)@ + separator(count as nat, *cfg),
{
    if cfg.remove_underscores {
        assert(out@ + Seq::<char>::empty() =~= out@);
        return ;
    }
    let mut i: usize = 0;
    assert(out@ + Seq::new(0, |k: int| '_') =~= out@);
    while i < count
        invariant
            i <= count,
            out@ == old(out)@ + Seq::new(i as nat, |k: int| '_'),
        decreases count - i,
    {
        proof {
            reveal_strlit("_");
        }
        out.append("_");
        i += 1;
        assert(out@ =~= old(out)@ + Seq::new(i as nat, |k: int| '_'));
    }
}

fn push_closing(out: &mut String, count: usize, last: bool, cfg: &MangleConfig)
    ensures
        final(out)@ == old(out)@ + closing(count as nat, last, *cfg),
{
    if last {
        assert(out@ + Seq::<char>::empty() =~= out@);
    } else {
        push_separator(out, count, cfg);
    }
}

fn primitive_name_exec(p: &PrimitiveType) -> (s: &'static str)
    ensures
        s@ == primitive_name(*p),
{
    match p {
        PrimitiveType::Void => "c_void",
        PrimitiveType::Bool => "bool",
        PrimitiveType::Char => "c_char",
        PrimitiveType::SChar => "c_schar",
        PrimitiveType::UChar => "c_uchar",
        PrimitiveType::Char32 => "char",
        PrimitiveType::Float => "f32",
        PrimitiveType::Double => "f64",
        PrimitiveType::VaList => "va_list",
        PrimitiveType::PtrDiffT => "ptrdiff_t",
        PrimitiveType::Integer { signed, kind, .. } => match kind {
            IntKind::Short => if *signed {
                "c_short"
            } else {
                "c_ushort"
            },
            IntKind::Int => if *signed {
                "c_int"
            } else {
                "c_uint"
            },
            IntKind::Long => if *signed {
                "c_long"
            } else {
                "c_ulong"
            },
            IntKind::LongLong => if *signed {
                "c_longlong"
            } else {
                "c_ulonglong"
            },
            IntKind::SizeT => if *signed {
                "ssize_t"
            } else {
                "size_t"
            },
            IntKind::Size => if *signed {
                "isize"
            } else {
                "usize"
            },
            IntKind::B8 => if *signed {
                "i8"
            } else {
                "u8"
            },
            IntKind::B16 => if *signed {
                "i16"
            } else {
                "u16"
            },
            IntKind::B32 => if *signed {
                "i32"
            } else {
                "u32"
            },
            IntKind::B64 => if *signed {
                "i64"
            } else {
                "u64"
            },
        },
    }
}

fn const_text_exec(c: &ConstExpr) -> (s: &str)
    ensures
        s@ == const_text(c@),
{
    match c {
        ConstExpr::Name(n) => n.as_str(),
        ConstExpr::Value(v) => v.as_str(),
    }
}

fn push_name(
    out: &mut String,
    name: &str,
    generics: &Vec<GenericArgument>,
    last: bool,
    cfg: &MangleConfig,
)
    ensures
        final(out)@ == old(out)@ + mangled_name(name@, args_model(generics@), last, *cfg),
    decreases generics, 1nat,
{
    out.append(name);
    if generics.len() == 0 {
        return ;
    }
    push_separator(out, 1, cfg);
    let ghost all = args_model(generics@);
    let ghost start = out@;
    let mut i: usize = 0;
    assert(all.len() == generics.len());
    assert(start + mangled_args(all, 0, last, *cfg) =~= out@ + mangled_args(all, 0, last, *cfg));
    while i < generics.len()
        invariant
            i <= generics.len(),
            all == args_model(generics@),
            start + mangled_args(all, 0, last, *cfg) == out@ + mangled_args(
                all,
                i as int,
                last,
                *cfg,
            ),
        decreases generics.len() - i,
    {
        let ghost before = out@;
        if i != 0 {
            push_separator(out, 2, cfg);
        }
        let last_here = last && i == generics.len() - 1;
        match &generics[i] {
            GenericArgument::Type(t) => {
                push_type(out, t, last_here, cfg);
            },
            GenericArgument::Const(c) => {
                out.append(const_text_exec(c));
            },
        }
        assert(all[i as int] == generics[i as int]@);
        assert(mangled_args(all, i as int, last, *cfg) == (if i != 0 {
            separator(2, *cfg)
        } else {
            Seq::empty()
        }) + mangled_arg(all[i as int], last_here, *cfg) + mangled_args(all, i + 1, last, *cfg));
        assert(before + mangled_args(all, i as int, last, *cfg) =~= out@ + mangled_args(
            all,
            i + 1,
            last,
            *cfg,
        ));
        i += 1;
    }
    assert(out@ + mangled_args(all, i as int, last, *cfg) =~= out@);
    push_closing(out, 3, last, cfg);
    assert(out@ =~= old(out)@ + mangled_name(name@, all, last, *cfg));
}

fn push_type(out: &mut String, t: &Type, last: bool, cfg: &MangleConfig)
    ensures
        final(out)@ == old(out)@ + mangled_type(t@, last, *cfg),
    decreases t, 0nat,
{
    match t {
        Type::Path(p) => {
            assert(t@ == TypeModel::Path(p@));
            push_name(out, p.export_name.as_str(), &p.generics, last, cfg);
        },
        Type::Primitive(p) => {
            out.append(primitive_name_exec(p));
        },
        Type::Ptr { ty, is_const, .. } => {
            push_separator(
                out,
                if *is_const {
                    5
                } else {
                    4
                },
                cfg,
            );
            push_type(out, ty, last, cfg);
            assert(out@ =~= old(out)@ + mangled_type(t@, last, *cfg));
        },
        Type::Array(ty, len) => {
            push_type(out, ty, false, cfg);
            push_separator(out, 1, cfg);
            out.append(const_text_exec(len));
            assert(out@ =~= old(out)@ + mangled_type(t@, last, *cfg));
        },
        Type::FuncPtr { ret, args, .. } => {
            push_separator(out, 6, cfg);
            push_type(out, ret, args.len() == 0, cfg);
            assert(types_model(args@).len() == args.len());
            push_fn_args(out, args, last, cfg);
            push_closing(out, 8, last, cfg);
            assert(out@ =~= old(out)@ + mangled_type(t@, last, *cfg));
        },
    }
}

fn push_fn_args(out: &mut String, args: &Vec<Type>, last: bool, cfg: &MangleConfig)
    ensures
        final(out)@ == old(out)@ + mangled_fn_args(types_model(args@), 0, last, *cfg),
    decreases args, 1nat,
{
    let ghost all = types_model(args@);
    let ghost start = out@;
    assert(all.len() == args.len());
    let mut i: usize = 0;
    while i < args.len()
        invariant
            i <= args.len(),
            all == types_model(args@),
            start + mangled_fn_args(all, 0, last, *cfg) == out@ + mangled_fn_args(
                all,
                i as int,
                last,
                *cfg,
            ),
        decreases args.len() - i,
    {
        let ghost before = out@;
        let last_here = last && i == args.len() - 1;
        push_separator(out, 7, cfg);
        push_type(out, &args[i], last_here, cfg);
        assert(all[i as int] == args[i as int]@);
        assert(mangled_fn_args(all, i as int, last, *cfg) == separator(7, *cfg) + mangled_type(
            all[i as int],
            last_here,
            *cfg,
        ) + mangled_fn_args(all, i + 1, last, *cfg));
        assert(before + mangled_fn_args(all, i as int, last, *cfg) =~= out@ + mangled_fn_args(
            all,
            i + 1,
            last,
            *cfg,
        ));
        i += 1;
    }
    assert(out@ + mangled_fn_args(all, i as int, last, *cfg) =~= out@);
}

/// The name of the instantiation of `name` with `generic_values`.
pub fn mangle_name(name: &str, generic_values: &Vec<GenericArgument>, config: &MangleConfig)
    -> (res: String)
    ensures
        res@ == mangled_name(name@, args_model(generic_values@), true, *config),
{
    let mut out = String::new();
    push_name(&mut out, name, generic_values, true, config);
    assert(Seq::<char>::empty() + mangled_name(name@, args_model(generic_values@), true, *config)
        =~= mangled_name(name@, args_model(generic_values@), true, *config));
    out
}

/// The path of the instantiation of `path` with `generic_values`.
pub fn mangle_path(path: &Path, generic_values: &Vec<GenericArgument>, config: &MangleConfig)
    -> (res: Path)
    ensures
        res@ == mangled_name(path@, args_model(generic_values@), true, *config),
{
    let name = mangle_name(path.name(), generic_values, config);
    Path::new(name.as_str())
}

} // verus!
