use cbindgen::function::{Function, FunctionArgument};
use cbindgen::generic_path::{
    GenericArgument, GenericParam, GenericParamType, GenericParams, GenericPath,
};
use cbindgen::item::{AnnotationSet, Cfg, Documentation};
use cbindgen::load::{as_argument, gen_self_type, unraw_name};
use cbindgen::opaque::OpaqueItem;
use cbindgen::path::Path;
use cbindgen::syntax::{
    ArgumentSyntax, ArgumentsSyntax, Attributes, BareFnArgSyntax, ExprSyntax, FnArgSyntax,
    GenericParamSyntax, GenericsSyntax, PathSyntax, PatternSyntax, ReturnSyntax, SegmentSyntax,
    SignatureSyntax, TypeSyntax,
};
use cbindgen::ty::{ConstExpr, IntKind, PrimitiveType, Type};

fn segment(ident: &str, arguments: ArgumentsSyntax) -> SegmentSyntax {
    SegmentSyntax { ident: ident.to_string(), arguments }
}

fn plain(ident: &str) -> PathSyntax {
    PathSyntax { leading: vec![], last: segment(ident, ArgumentsSyntax::Plain) }
}

fn with_args(ident: &str, args: Vec<ArgumentSyntax>) -> PathSyntax {
    PathSyntax {
        leading: vec![segment("std", ArgumentsSyntax::Plain), segment("thing", ArgumentsSyntax::Plain)],
        last: segment(ident, ArgumentsSyntax::AngleBracketed(args)),
    }
}

fn ty(ident: &str) -> TypeSyntax {
    TypeSyntax::Path(plain(ident))
}

fn named(name: &str) -> Type {
    Type::Path(GenericPath::new(Path::new(name), vec![]))
}

fn integer(kind: IntKind, signed: bool) -> Type {
    Type::Primitive(PrimitiveType::Integer { zeroable: true, signed, kind })
}

fn attributes() -> Attributes {
    Attributes { cfg: None, annotations: Ok(AnnotationSet::new()), documentation: Documentation::none() }
}

#[test]
fn raw_identifiers_lose_their_mark() {
    assert_eq!(unraw_name("r#type"), "type");
    assert_eq!(unraw_name("type"), "type");
    assert_eq!(unraw_name("r#"), "");
    assert_eq!(unraw_name("r"), "r");
    assert_eq!(unraw_name(""), "");
    assert_eq!(unraw_name("rr#x"), "rr#x");
    assert_eq!(unraw_name("r#é"), "é");
}

#[test]
fn primitive_names() {
    assert_eq!(PrimitiveType::maybe("u8"), Some(PrimitiveType::Integer { zeroable: true, signed: false, kind: IntKind::B8 }));
    assert_eq!(PrimitiveType::maybe("isize"), Some(PrimitiveType::Integer { zeroable: true, signed: true, kind: IntKind::Size }));
    assert_eq!(PrimitiveType::maybe("c_void"), Some(PrimitiveType::Void));
    assert_eq!(PrimitiveType::maybe("char"), Some(PrimitiveType::Char32));
    assert_eq!(PrimitiveType::maybe("f64"), Some(PrimitiveType::Double));
    assert_eq!(PrimitiveType::maybe("Widget"), None);
    assert_eq!(PrimitiveType::maybe(""), None);
}

#[test]
fn paths_load_their_last_segment() {
    let loaded = GenericPath::load(&with_args(
        "r#Map",
        vec![
            ArgumentSyntax::Lifetime,
            ArgumentSyntax::Type(ty("u32")),
            ArgumentSyntax::Type(ty("PhantomData")),
            ArgumentSyntax::Const(ExprSyntax::Literal("16".to_string())),
            ArgumentSyntax::Type(TypeSyntax::Tuple(vec![])),
            ArgumentSyntax::Const(ExprSyntax::Group(Box::new(ExprSyntax::Path(plain("LEN"))))),
        ],
    ));
    assert_eq!(
        loaded,
        Ok(GenericPath::new(
            Path::new("Map"),
            vec![
                GenericArgument::Type(integer(IntKind::B32, false)),
                GenericArgument::Const(ConstExpr::Value("16".to_string())),
                GenericArgument::Const(ConstExpr::Name("LEN".to_string())),
            ],
        ))
    );
    assert_eq!(GenericPath::load(&plain("Widget")), Ok(GenericPath::new(Path::new("Widget"), vec![])));
    // A marker keeps no arguments, whatever is written.
    assert_eq!(
        GenericPath::load(&with_args("PhantomData", vec![ArgumentSyntax::Other("AssocType".to_string())])),
        Ok(GenericPath::new(Path::new("PhantomData"), vec![]))
    );
}

#[test]
fn paths_that_cannot_be_loaded() {
    let parenthesized = PathSyntax { leading: vec![], last: segment("Fn", ArgumentsSyntax::Parenthesized) };
    assert_eq!(GenericPath::load(&parenthesized), Err("Path contains parentheses.".to_string()));
    assert_eq!(
        GenericPath::load(&with_args("Iter", vec![ArgumentSyntax::Type(ty("u8")), ArgumentSyntax::Other("AssocType".to_string())])),
        Err("can't handle generic argument AssocType".to_string())
    );
    assert_eq!(
        GenericPath::load(&with_args("A", vec![ArgumentSyntax::Const(ExprSyntax::Other("Expr::Call".to_string()))])),
        Err("can't handle const expression Expr::Call".to_string())
    );
    assert_eq!(
        GenericPath::load(&with_args("A", vec![ArgumentSyntax::Type(TypeSyntax::Other("Type::Infer".to_string())), ArgumentSyntax::Other("AssocType".to_string())])),
        Err("Unsupported type: Type::Infer".to_string())
    );
    assert_eq!(
        ConstExpr::load(&ExprSyntax::Path(parenthesized)),
        Err("Path contains parentheses.".to_string())
    );
}

#[test]
fn types_load() {
    let reference = TypeSyntax::Reference { elem: Box::new(ty("Widget")), mutable: false };
    assert_eq!(
        Type::load(&reference),
        Ok(Some(Type::Ptr { ty: Box::new(named("Widget")), is_const: true, is_nullable: false, is_ref: false }))
    );
    let pointer = TypeSyntax::Pointer { elem: Box::new(TypeSyntax::Tuple(vec![])), mutable: true };
    assert_eq!(
        Type::load(&pointer),
        Ok(Some(Type::Ptr {
            ty: Box::new(Type::Primitive(PrimitiveType::Void)),
            is_const: false,
            is_nullable: true,
            is_ref: false
        }))
    );
    assert_eq!(Type::load(&ty("i64")), Ok(Some(integer(IntKind::B64, true))));
    assert_eq!(Type::load(&ty("PhantomData")), Ok(None));
    assert_eq!(Type::load(&ty("PhantomPinned")), Ok(None));
    assert_eq!(Type::load(&TypeSyntax::Tuple(vec![])), Ok(None));
    assert_eq!(Type::load(&TypeSyntax::Variadic), Ok(Some(Type::Primitive(PrimitiveType::VaList))));
    let array = TypeSyntax::Array { elem: Box::new(ty("u8")), len: ExprSyntax::Literal("4".to_string()) };
    assert_eq!(
        Type::load(&array),
        Ok(Some(Type::Array(Box::new(integer(IntKind::B8, false)), ConstExpr::Value("4".to_string()))))
    );
    let function = TypeSyntax::BareFn {
        inputs: vec![
            BareFnArgSyntax { name: Some("a".to_string()), ty: ty("u8") },
            BareFnArgSyntax { name: None, ty: ty("PhantomData") },
            BareFnArgSyntax { name: None, ty: ty("Widget") },
        ],
        variadic: true,
        output: ReturnSyntax::Never,
    };
    assert_eq!(
        Type::load(&function),
        Ok(Some(Type::FuncPtr {
            ret: Box::new(Type::Primitive(PrimitiveType::Void)),
            args: vec![integer(IntKind::B8, false), named("Widget"), Type::Primitive(PrimitiveType::VaList)],
            is_nullable: false,
            never_return: true,
        }))
    );
}

#[test]
fn types_that_cannot_be_loaded() {
    assert_eq!(Type::load(&TypeSyntax::Other("Type::Infer".to_string())), Err("Unsupported type: Type::Infer".to_string()));
    assert_eq!(
        Type::load(&TypeSyntax::Tuple(vec![ty("u8"), ty("u8")])),
        Err("Tuples are not supported types.".to_string())
    );
    assert_eq!(
        Type::load(&TypeSyntax::Path(with_args("u8", vec![ArgumentSyntax::Type(ty("u8"))]))),
        Err("Primitive has generics.".to_string())
    );
    assert_eq!(
        Type::load(&TypeSyntax::Array { elem: Box::new(ty("PhantomData")), len: ExprSyntax::Literal("4".to_string()) }),
        Err("Cannot have an array of zero sized types.".to_string())
    );
    assert_eq!(
        Type::load(&TypeSyntax::Array { elem: Box::new(ty("u8")), len: ExprSyntax::Other("Expr::Call".to_string()) }),
        Err("can't handle const expression Expr::Call".to_string())
    );
    assert_eq!(
        Type::load(&TypeSyntax::Reference { elem: Box::new(TypeSyntax::Other("Type::Infer".to_string())), mutable: true }),
        Err("Unsupported type: Type::Infer".to_string())
    );
    let function = TypeSyntax::BareFn {
        inputs: vec![BareFnArgSyntax { name: None, ty: TypeSyntax::Tuple(vec![ty("u8")]) }],
        variadic: false,
        output: ReturnSyntax::Type(Box::new(TypeSyntax::Other("Type::Infer".to_string()))),
    };
    assert_eq!(Type::load(&function), Err("Tuples are not supported types.".to_string()));
}

#[test]
fn outputs_load() {
    let void = Type::Primitive(PrimitiveType::Void);
    assert_eq!(Type::load_from_output(&ReturnSyntax::Default), Ok((void.clone(), false)));
    assert_eq!(Type::load_from_output(&ReturnSyntax::Never), Ok((void.clone(), true)));
    assert_eq!(
        Type::load_from_output(&ReturnSyntax::Type(Box::new(TypeSyntax::Tuple(vec![])))),
        Ok((void, false))
    );
    assert_eq!(
        Type::load_from_output(&ReturnSyntax::Type(Box::new(ty("bool")))),
        Ok((Type::Primitive(PrimitiveType::Bool), false))
    );
    assert_eq!(
        Type::load_from_output(&ReturnSyntax::Type(Box::new(TypeSyntax::Other("Type::Infer".to_string())))),
        Err("Unsupported type: Type::Infer".to_string())
    );
}

#[test]
fn generic_parameters_load() {
    let t = GenericParamSyntax::Type { ident: "r#T".to_string(), default: None, written: "None".to_string() };
    assert_eq!(GenericParam::load(&t), Ok(Some(GenericParam::new_type_param("T"))));
    let defaulted = GenericParamSyntax::Type { ident: "U".to_string(), default: Some(ty("u8")), written: "Some(..)".to_string() };
    assert_eq!(
        GenericParam::load(&defaulted),
        Ok(Some(GenericParam::new(
            Path::new("U"),
            GenericParamType::Type,
            Some(GenericArgument::Type(integer(IntKind::B8, false)))
        )))
    );
    assert_eq!(GenericParam::load(&GenericParamSyntax::Lifetime), Ok(None));
    let n = GenericParamSyntax::Const {
        ident: "N".to_string(),
        ty: ty("usize"),
        default: Some(ExprSyntax::Literal("8".to_string())),
        written: "usize".to_string(),
    };
    let loaded = GenericParam::load(&n).unwrap().unwrap();
    assert_eq!(loaded.name(), &Path::new("N"));
    assert_eq!(loaded.ty(), &GenericParamType::Const(integer(IntKind::Size, false)));
    assert_eq!(loaded.default(), Some(&GenericArgument::Const(ConstExpr::Value("8".to_string()))));
    let plain_const = GenericParamSyntax::Const { ident: "N".to_string(), ty: ty("usize"), default: None, written: "u8".to_string() };
    assert_eq!(GenericParam::load(&plain_const).unwrap().unwrap().default(), None);
}

#[test]
fn generic_parameters_that_cannot_be_loaded() {
    let marker_default = GenericParamSyntax::Type { ident: "T".to_string(), default: Some(ty("PhantomData")), written: "Some(PhantomData)".to_string() };
    assert_eq!(GenericParam::load(&marker_default), Err("unsupported generic type default: Some(PhantomData)".to_string()));
    let bad_default = GenericParamSyntax::Type { ident: "T".to_string(), default: Some(TypeSyntax::Other("Type::Infer".to_string())), written: "Some(..)".to_string() };
    assert_eq!(GenericParam::load(&bad_default), Err("Unsupported type: Type::Infer".to_string()));
    let marker_const = GenericParamSyntax::Const { ident: "N".to_string(), ty: ty("PhantomData"), default: None, written: "PhantomData".to_string() };
    assert_eq!(GenericParam::load(&marker_const), Err("unsupported const generic type: PhantomData".to_string()));
    let bad_const = GenericParamSyntax::Const { ident: "N".to_string(), ty: TypeSyntax::Other("Type::Infer".to_string()), default: Some(ExprSyntax::Other("Expr::Call".to_string())), written: "u8".to_string() };
    assert_eq!(GenericParam::load(&bad_const), Err("Unsupported type: Type::Infer".to_string()));
    let bad_value = GenericParamSyntax::Const { ident: "N".to_string(), ty: ty("u8"), default: Some(ExprSyntax::Other("Expr::Call".to_string())), written: "u8".to_string() };
    assert_eq!(GenericParam::load(&bad_value), Err("can't handle const expression Expr::Call".to_string()));
    let generics = GenericsSyntax {
        params: vec![
            GenericParamSyntax::Lifetime,
            GenericParamSyntax::Type { ident: "T".to_string(), default: None, written: "None".to_string() },
            bad_value,
            marker_const,
        ],
    };
    assert_eq!(GenericParams::load(&generics), Err("can't handle const expression Expr::Call".to_string()));
    let fine = GenericsSyntax {
        params: vec![
            GenericParamSyntax::Lifetime,
            GenericParamSyntax::Type { ident: "T".to_string(), default: None, written: "None".to_string() },
            GenericParamSyntax::Lifetime,
            GenericParamSyntax::Type { ident: "U".to_string(), default: None, written: "None".to_string() },
        ],
    };
    assert_eq!(
        GenericParams::load(&fine),
        Ok(GenericParams(vec![GenericParam::new_type_param("T"), GenericParam::new_type_param("U")]))
    );
}

#[test]
fn arguments_load() {
    let typed = |pat, ty| FnArgSyntax::Typed { pat, ty };
    assert_eq!(
        as_argument(&typed(PatternSyntax::Ident("r#in".to_string()), ty("u8"))),
        Ok(Some(FunctionArgument { name: Some("in".to_string()), ty: integer(IntKind::B8, false), array_length: None }))
    );
    assert_eq!(
        as_argument(&typed(PatternSyntax::Wild, ty("Widget"))),
        Ok(Some(FunctionArgument { name: None, ty: named("Widget"), array_length: None }))
    );
    assert_eq!(as_argument(&typed(PatternSyntax::Ident("m".to_string()), ty("PhantomData"))), Ok(None));
    assert_eq!(
        as_argument(&typed(PatternSyntax::Other("Pat::Tuple".to_string()), TypeSyntax::Other("Type::Infer".to_string()))),
        Err("Parameter has an unsupported argument name: Pat::Tuple".to_string())
    );
    assert_eq!(
        as_argument(&typed(PatternSyntax::Wild, TypeSyntax::Other("Type::Infer".to_string()))),
        Err("Unsupported type: Type::Infer".to_string())
    );
    let array = TypeSyntax::Array { elem: Box::new(ty("u8")), len: ExprSyntax::Literal("4".to_string()) };
    assert_eq!(
        as_argument(&typed(PatternSyntax::Wild, array)),
        Err("Array as function arguments are not supported".to_string())
    );
    let me = named("Self");
    assert_eq!(gen_self_type(false, false), me.clone());
    assert_eq!(gen_self_type(false, true), me.clone());
    assert_eq!(
        gen_self_type(true, false),
        Type::Ptr { ty: Box::new(me.clone()), is_const: true, is_nullable: false, is_ref: false }
    );
    assert_eq!(
        as_argument(&FnArgSyntax::Receiver { reference: true, mutable: true }),
        Ok(Some(FunctionArgument {
            name: Some("self".to_string()),
            ty: Type::Ptr { ty: Box::new(me), is_const: false, is_nullable: false, is_ref: false },
            array_length: None
        }))
    );
}

fn signature(generics: Vec<GenericParamSyntax>, inputs: Vec<FnArgSyntax>, output: ReturnSyntax) -> SignatureSyntax {
    SignatureSyntax { generics: GenericsSyntax { params: generics }, inputs, output }
}

#[test]
fn methods_load_with_their_type_in_place_of_self() {
    let sig = signature(
        vec![GenericParamSyntax::Lifetime],
        vec![
            FnArgSyntax::Receiver { reference: true, mutable: false },
            FnArgSyntax::Typed { pat: PatternSyntax::Ident("marker".to_string()), ty: ty("PhantomData") },
            FnArgSyntax::Typed {
                pat: PatternSyntax::Ident("other".to_string()),
                ty: TypeSyntax::Path(with_args("Option", vec![ArgumentSyntax::Type(ty("Self"))])),
            },
        ],
        ReturnSyntax::Type(Box::new(ty("Self"))),
    );
    let mut annotations = AnnotationSet::new();
    annotations.entries.push(("must-use".to_string(), "true".to_string()));
    let attrs = Attributes {
        cfg: Some(Cfg { condition: "unix".to_string() }),
        annotations: Ok(annotations.clone()),
        documentation: Documentation { doc_comment: vec!["Doc.".to_string()] },
    };
    let owner = Path::new("Widget");
    let module = Cfg { condition: "feature = \"x\"".to_string() };
    let f = Function::load(Path::new("widget_merge"), Some(&owner), &sig, true, attrs, Some(&module)).unwrap();
    assert_eq!(f.path, Path::new("widget_merge"));
    assert_eq!(f.self_type_path, Some(Path::new("Widget")));
    assert_eq!(f.ret, named("Widget"));
    assert_eq!(f.args.len(), 2);
    assert_eq!(f.args[0].name, Some("self".to_string()));
    assert_eq!(
        f.args[0].ty,
        Type::Ptr { ty: Box::new(named("Widget")), is_const: true, is_nullable: false, is_ref: false }
    );
    // The arguments of a path are left to whoever loads the path.
    assert_eq!(
        f.args[1].ty,
        Type::Path(GenericPath::new(Path::new("Option"), vec![GenericArgument::Type(named("Self"))]))
    );
    assert!(f.extern_decl);
    assert!(!f.never_return);
    assert_eq!(f.cfg, Some(Cfg { condition: "all(feature = \"x\", unix)".to_string() }));
    assert_eq!(f.annotations, annotations);
    assert_eq!(f.documentation.doc_comment, vec!["Doc.".to_string()]);
}

#[test]
fn functions_that_cannot_be_loaded() {
    let load = |sig: &SignatureSyntax, attrs: Attributes| Function::load(Path::new("f"), None, sig, false, attrs, None);
    let generic = signature(
        vec![GenericParamSyntax::Lifetime, GenericParamSyntax::Type { ident: "T".to_string(), default: None, written: "None".to_string() }],
        vec![FnArgSyntax::Typed { pat: PatternSyntax::Other("Pat::Tuple".to_string()), ty: TypeSyntax::Other("Type::Infer".to_string()) }],
        ReturnSyntax::Default,
    );
    assert_eq!(load(&generic, attributes()), Err("f: Generic functions are not supported".to_string()));
    let const_generic = signature(
        vec![GenericParamSyntax::Const { ident: "N".to_string(), ty: ty("u8"), default: None, written: "u8".to_string() }],
        vec![],
        ReturnSyntax::Default,
    );
    assert_eq!(load(&const_generic, attributes()), Err("f: Generic functions are not supported".to_string()));
    let bad_pattern = signature(
        vec![],
        vec![
            FnArgSyntax::Typed { pat: PatternSyntax::Wild, ty: ty("u8") },
            FnArgSyntax::Typed { pat: PatternSyntax::Other("Pat::Tuple".to_string()), ty: ty("u8") },
        ],
        ReturnSyntax::Type(Box::new(TypeSyntax::Other("Type::Infer".to_string()))),
    );
    assert_eq!(load(&bad_pattern, attributes()), Err("f: Parameter has an unsupported argument name: Pat::Tuple".to_string()));
    let bad_output = signature(vec![], vec![], ReturnSyntax::Type(Box::new(TypeSyntax::Other("Type::Infer".to_string()))));
    let bad_attrs = || Attributes {
        cfg: None,
        annotations: Err("bad annotation".to_string()),
        documentation: Documentation::none(),
    };
    assert_eq!(load(&bad_output, bad_attrs()), Err("f: Unsupported type: Type::Infer".to_string()));
    let fine = signature(vec![], vec![], ReturnSyntax::Never);
    assert_eq!(load(&fine, bad_attrs()), Err("f: bad annotation".to_string()));
    // A signature with lifetimes only is no generic function, and the error
    // names the function it is about.
    let lifetimes = signature(vec![GenericParamSyntax::Lifetime], vec![], ReturnSyntax::Default);
    assert!(load(&lifetimes, attributes()).is_ok());
    assert_eq!(
        Function::load(Path::new("widget_new"), None, &generic, false, attributes(), None),
        Err("widget_new: Generic functions are not supported".to_string())
    );
    let f = load(&fine, attributes()).unwrap();
    assert!(f.never_return);
    assert_eq!(f.ret, Type::Primitive(PrimitiveType::Void));
    assert_eq!(f.cfg, None);
    assert_eq!(f.self_type_path, None);
}

#[test]
fn opaque_items_load() {
    let generics = GenericsSyntax {
        params: vec![GenericParamSyntax::Lifetime, GenericParamSyntax::Type { ident: "T".to_string(), default: None, written: "None".to_string() }],
    };
    let bad_attrs = Attributes {
        cfg: Some(Cfg { condition: "unix".to_string() }),
        annotations: Err("bad annotation".to_string()),
        documentation: Documentation::none(),
    };
    let o = OpaqueItem::load(Path::new("Handle"), &generics, bad_attrs, None).unwrap();
    assert_eq!(o.path, Path::new("Handle"));
    assert_eq!(o.export_name, "Handle");
    assert_eq!(o.generic_params, GenericParams(vec![GenericParam::new_type_param("T")]));
    assert_eq!(o.cfg, Some(Cfg { condition: "unix".to_string() }));
    assert!(o.annotations.is_empty());
    let bad = GenericsSyntax {
        params: vec![GenericParamSyntax::Type { ident: "T".to_string(), default: Some(ty("PhantomData")), written: "Some(PhantomData)".to_string() }],
    };
    assert_eq!(
        OpaqueItem::load(Path::new("Handle"), &bad, attributes(), None),
        Err("Handle: unsupported generic type default: Some(PhantomData)".to_string())
    );
    let module = Cfg { condition: "windows".to_string() };
    assert_eq!(Cfg::append(Some(&module), None), Some(Cfg { condition: "windows".to_string() }));
    assert_eq!(Cfg::append(None, None), None);
}
