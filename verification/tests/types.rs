use cbindgen::config::{
    Config, ConstantConfig, ExportConfig, FunctionConfig, Language, MangleConfig, RenameRule,
    SortKey, Style,
};
use cbindgen::declarationtyperesolver::DeclarationTypeResolver;
use cbindgen::dependencies::Dependencies;
use cbindgen::erase::KnownErasedTypes;
use cbindgen::function::{Function, FunctionArgument};
use cbindgen::generic_path::{
    GenericArgument, GenericParam, GenericParamType, GenericParams, GenericPath,
    MaybeDefaultGenericAguments,
};
use cbindgen::item::{split_note, AnnotationSet, ArrayNote, Cfg, Documentation, Field, ItemContainer, ItemKind};
use cbindgen::text::{split_at_semicolons, trim};
use cbindgen::item_map::ItemMap;
use cbindgen::library::Library;
use cbindgen::mangle::{mangle_name, mangle_path};
use cbindgen::monomorph::Monomorphs;
use cbindgen::opaque::OpaqueItem;
use cbindgen::path::Path;
use cbindgen::reserved::{escape, is_reserved_word};
use cbindgen::sorting::{name_le_exec, sort_by_name};
use cbindgen::ty::{ConstExpr, DeclarationType, IntKind, PrimitiveType, Type};
use cbindgen::warning::Warning;

fn config(language: Language) -> Config {
    Config {
        language,
        style: Style::Both,
        sort_by: SortKey::Unsorted,
        function: FunctionConfig { sort_by: None, rename_args: RenameRule::Keep },
        constant: ConstantConfig { sort_by: None },
        export: ExportConfig {
            roots: vec![],
            exclude: vec![],
            rename: vec![],
            prefix: None,
            renaming_overrides_prefixing: false,
            item_types: vec![],
            mangle: MangleConfig { remove_underscores: false },
        },
    }
}

fn integer(kind: IntKind, signed: bool) -> Type {
    Type::Primitive(PrimitiveType::Integer { zeroable: true, signed, kind })
}

fn named(name: &str) -> Type {
    Type::Path(GenericPath::new(Path::new(name), vec![]))
}

fn applied(name: &str, args: Vec<Type>) -> Type {
    Type::Path(GenericPath::new(
        Path::new(name),
        args.into_iter().map(GenericArgument::Type).collect(),
    ))
}

fn pointer(to: Type, is_const: bool, is_nullable: bool) -> Type {
    Type::Ptr { ty: Box::new(to), is_const, is_nullable, is_ref: false }
}

fn params(names: &[&str]) -> GenericParams {
    GenericParams(names.iter().map(|n| GenericParam::new_type_param(n)).collect())
}

fn item(kind: ItemKind, name: &str, generics: &[&str], fields: Vec<Field>) -> ItemContainer {
    ItemContainer::new(
        kind,
        Path::new(name),
        params(generics),
        fields,
        None,
        AnnotationSet::new(),
        Documentation::none(),
    )
}

fn field(name: &str, ty: Type) -> Field {
    Field { name: name.to_string(), ty }
}

fn map(items: Vec<ItemContainer>) -> ItemMap {
    let mut out = ItemMap::new();
    for item in items {
        assert!(out.try_insert(item));
    }
    out
}

fn library(config: Config, structs: Vec<ItemContainer>, opaque: Vec<ItemContainer>, typedefs: Vec<ItemContainer>) -> Library {
    Library::new(
        config,
        ItemMap::new(),
        ItemMap::new(),
        ItemMap::new(),
        map(structs),
        ItemMap::new(),
        map(opaque),
        map(typedefs),
        vec![],
        vec![],
        String::new(),
    )
}

fn wrappers() -> Vec<ItemContainer> {
    vec![
        item(ItemKind::OpaqueItem, "Option", &["T"], vec![]),
        item(ItemKind::OpaqueItem, "NonNull", &["T"], vec![]),
        item(ItemKind::OpaqueItem, "NonZero", &["T"], vec![]),
    ]
}

#[test]
fn path_replaces_only_the_self_placeholder() {
    let mut p = Path::new("Self");
    assert!(p.replace_self_with(&Path::new("Widget")));
    assert_eq!(p.name(), "Widget");
    let mut q = Path::new("Other");
    assert!(!q.replace_self_with(&Path::new("Widget")));
    assert_eq!(q.name(), "Other");
    assert!(q.equals(&Path::new("Other")));
    assert!(!q.equals(&Path::new("other")));
}

#[test]
fn generic_path_accessors() {
    let mut path = GenericPath::new(Path::new("Foo"), vec![GenericArgument::Type(named("T"))]);
    assert_eq!(path.name(), "Foo");
    assert_eq!(path.export_name(), "Foo");
    assert_eq!(path.path(), &Path::new("Foo"));
    assert_eq!(path.generics().len(), 1);
    assert!(!path.is_single_identifier());
    assert_eq!(path.ctype(), None);
    path.generics_mut()[0] = GenericArgument::Type(named("U"));
    assert_eq!(path.generics(), &[GenericArgument::Type(named("U"))][..]);
    assert_eq!(path.name(), "Foo");
    assert!(GenericPath::new(Path::new("Foo"), vec![]).is_single_identifier());
    let selfish = GenericPath::self_path();
    assert_eq!(selfish.name(), "Self");
    assert!(selfish.is_single_identifier());
    let mut replaced = GenericPath::self_path();
    replaced.replace_self_with(&Path::new("Widget"));
    assert_eq!(replaced.name(), "Widget");
    assert_eq!(replaced.export_name(), "Widget");
}

#[test]
fn binder_pairs_parameters_with_arguments_and_defaults() {
    let defaulted = GenericParam::new(
        Path::new("U"),
        GenericParamType::Type,
        Some(GenericArgument::Type(integer(IntKind::B8, false))),
    );
    let generics = GenericParams(vec![GenericParam::new_type_param("T"), defaulted]);
    let args = vec![GenericArgument::Type(integer(IntKind::B32, true))];
    assert!(generics.accepts(&args));
    let bound = generics.call("Foo", &args);
    assert_eq!(bound.len(), 2);
    assert_eq!(bound[0].0, &Path::new("T"));
    assert_eq!(bound[0].1, &GenericArgument::Type(integer(IntKind::B32, true)));
    assert_eq!(bound[1].0, &Path::new("U"));
    assert_eq!(bound[1].1, &GenericArgument::Type(integer(IntKind::B8, false)));
}

#[test]
fn binder_rejects_too_many_or_too_few_arguments() {
    let generics = params(&["T", "U"]);
    let one = vec![GenericArgument::Type(named("A"))];
    let three = vec![
        GenericArgument::Type(named("A")),
        GenericArgument::Type(named("B")),
        GenericArgument::Type(named("C")),
    ];
    assert!(!generics.accepts(&one));
    assert!(!generics.accepts(&three));
    assert!(!generics.accepts(&[]));
    assert!(params(&[]).accepts(&[]));
}

#[test]
fn missing_arguments_default_to_the_parameters_themselves() {
    let generics = params(&["T", "U"]);
    let none: Vec<GenericArgument> = vec![];
    let args = MaybeDefaultGenericAguments::new(&generics, &none);
    assert_eq!(
        args.as_slice(),
        &[GenericArgument::Type(named("T")), GenericArgument::Type(named("U"))]
    );
    assert!(generics.accepts(args.as_slice()));
    let given = vec![GenericArgument::Type(named("A"))];
    let kept = MaybeDefaultGenericAguments::new(&generics, &given);
    assert_eq!(kept.as_slice(), &given[..]);
    let empty = MaybeDefaultGenericAguments::new(&params(&[]), &none);
    assert!(empty.as_slice().is_empty());
}

#[test]
fn specialize_substitutes_bound_parameters() {
    let t = Path::new("T");
    let n = Path::new("N");
    let i32_arg = GenericArgument::Type(integer(IntKind::B32, true));
    let four = GenericArgument::Const(ConstExpr::Value("4".to_string()));
    let mappings = [(&t, &i32_arg), (&n, &four)];
    let ty = Type::Array(
        Box::new(pointer(applied("Vec", vec![named("T"), named("N")]), true, false)),
        ConstExpr::Name("N".to_string()),
    );
    let expected = Type::Array(
        Box::new(pointer(
            Type::Path(GenericPath::new(
                Path::new("Vec"),
                vec![i32_arg.clone(), four.clone()],
            )),
            true,
            false,
        )),
        ConstExpr::Value("4".to_string()),
    );
    assert_eq!(ty.specialize(&mappings), expected);
    // A bare name bound to a constant is no type: as a type it stays.
    assert_eq!(named("N").specialize(&mappings), named("N"));
    // As an argument it becomes the constant.
    assert_eq!(GenericArgument::Type(named("N")).specialize(&mappings), four);
    assert_eq!(GenericArgument::Type(named("T")).specialize(&mappings), i32_arg);
    assert_eq!(four.specialize(&mappings), four);
    // A name bound to a bare path stands for that name as a constant.
    let m = GenericArgument::Type(named("M"));
    let renamed = [(&n, &m)];
    assert_eq!(
        ConstExpr::Name("N".to_string()).specialize(&renamed),
        ConstExpr::Name("M".to_string())
    );
    assert_eq!(
        ConstExpr::Name("K".to_string()).specialize(&renamed),
        ConstExpr::Name("K".to_string())
    );
}

#[test]
fn nullable_and_zeroable_forms() {
    let p = pointer(named("A"), true, false);
    assert_eq!(p.make_nullable(), Some(pointer(named("A"), true, true)));
    assert_eq!(pointer(named("A"), true, true).make_nullable(), None);
    assert_eq!(named("A").make_nullable(), None);
    let f = Type::FuncPtr { ret: Box::new(named("A")), args: vec![], is_nullable: false, never_return: false };
    assert_eq!(
        f.make_nullable(),
        Some(Type::FuncPtr { ret: Box::new(named("A")), args: vec![], is_nullable: true, never_return: false })
    );
    let nonzero = Type::Primitive(PrimitiveType::Integer { zeroable: false, signed: false, kind: IntKind::B16 });
    assert_eq!(nonzero.make_zeroable(true), Some(integer(IntKind::B16, false)));
    assert_eq!(nonzero.make_zeroable(false), None);
    assert_eq!(integer(IntKind::B16, false).make_zeroable(false), Some(nonzero));
    assert_eq!(named("A").make_zeroable(true), None);
    assert_eq!(pointer(pointer(named("Root"), false, false), true, true).get_root_path(), Some(Path::new("Root")));
    assert_eq!(integer(IntKind::B8, true).get_root_path(), None);
}

#[test]
fn wrapper_rules() {
    let cfg = config(Language::C);
    let opaque = |name: &str| {
        OpaqueItem::new(Path::new(name), params(&["T"]), None, AnnotationSet::new(), Documentation::none())
    };
    let arg = |t: Type| vec![GenericArgument::Type(t)];
    let raw = pointer(integer(IntKind::B8, false), false, false);
    assert_eq!(
        opaque("Option").try_erase_type(&arg(raw.clone()), &cfg),
        Some(pointer(integer(IntKind::B8, false), false, true))
    );
    let nonzero = Type::Primitive(PrimitiveType::Integer { zeroable: false, signed: true, kind: IntKind::B64 });
    assert_eq!(
        opaque("Option").try_erase_type(&arg(nonzero.clone()), &cfg),
        Some(integer(IntKind::B64, true))
    );
    assert_eq!(opaque("Option").try_erase_type(&arg(integer(IntKind::B64, true)), &cfg), None);
    assert_eq!(opaque("Option").try_erase_type(&arg(named("S")), &cfg), None);
    assert_eq!(
        opaque("NonNull").try_erase_type(&arg(named("S")), &cfg),
        Some(pointer(named("S"), false, false))
    );
    assert_eq!(opaque("NonZero").try_erase_type(&arg(integer(IntKind::B64, true)), &cfg), Some(nonzero));
    assert_eq!(opaque("NonZero").try_erase_type(&arg(named("S")), &cfg), None);
    assert_eq!(opaque("Box").try_erase_type(&arg(named("S")), &cfg), None);
    assert_eq!(opaque("Option").try_erase_type(&[], &cfg), None);
    assert_eq!(
        opaque("NonNull").try_erase_type(&[GenericArgument::Const(ConstExpr::Value("1".to_string()))], &cfg),
        None
    );
}

#[test]
fn second_query_comes_from_the_cache() {
    let lib = library(config(Language::C), vec![], wrappers(), vec![]);
    let mut erased = KnownErasedTypes::default();
    assert!(!erased.is_erased(&Path::new("Plain")));
    assert_eq!(erased.erase_types(&lib, &named("Plain"), &[]), None);
    assert!(erased.is_erased(&Path::new("Plain")));
    let target = applied("NonNull", vec![named("Plain")]);
    let first = erased.erase_types(&lib, &target, &[]);
    assert_eq!(first, Some(pointer(named("Plain"), false, false)));
    assert_eq!(erased.lookup(&target), Some(first.clone()));
    // A library without the wrappers would give nothing; the answer is
    // still the remembered one.
    let bare = library(config(Language::C), vec![], vec![], vec![]);
    assert_eq!(erased.erase_types(&bare, &target, &[]), first);
    let mut fresh = KnownErasedTypes::default();
    assert_eq!(fresh.erase_types(&bare, &target, &[]), None);
}

#[test]
fn erasure_applies_bindings_and_keys_the_cache_on_the_written_type() {
    let lib = library(config(Language::C), vec![], wrappers(), vec![]);
    let mut erased = KnownErasedTypes::default();
    let t = Path::new("T");
    let u8_arg = GenericArgument::Type(integer(IntKind::B8, false));
    let mappings = [(&t, &u8_arg)];
    // A bare parameter is replaced, never erased.
    assert_eq!(erased.erase_types(&lib, &named("T"), &mappings), Some(integer(IntKind::B8, false)));
    assert_eq!(erased.lookup(&named("T")), Some(None));
    // Substitution alone is an outcome.
    assert_eq!(
        erased.erase_types(&lib, &applied("Foo", vec![named("T")]), &mappings),
        Some(applied("Foo", vec![integer(IntKind::B8, false)]))
    );
    // The record stands under the type as it was written.
    assert!(erased.lookup(&applied("Foo", vec![named("T")])).is_some());
    assert!(erased.lookup(&applied("Foo", vec![integer(IntKind::B8, false)])).is_none());
    assert_eq!(
        erased.erase_types(&lib, &applied("Option", vec![applied("NonNull", vec![named("T")])]), &mappings),
        Some(pointer(integer(IntKind::B8, false), false, true))
    );
}

#[test]
fn alias_that_names_itself_stops_at_the_depth_bound() {
    let mut looped = item(ItemKind::Typedef, "Loop", &[], vec![field("", named("Loop"))]);
    looped.annotations.transparent_typedef = true;
    let mut grow = item(
        ItemKind::Struct,
        "Grow",
        &["T"],
        vec![field("only", applied("Grow", vec![pointer(named("T"), false, true)]))],
    );
    grow.annotations.transparent_typedef = true;
    grow.is_transparent = true;
    let lib = library(config(Language::C), vec![grow], wrappers(), vec![looped]);
    let mut erased = KnownErasedTypes::with_depth(3);
    assert_eq!(erased.erase_types(&lib, &named("Loop"), &[]), Some(named("Loop")));
    let mut erased = KnownErasedTypes::with_depth(2);
    let result = erased.erase_types(&lib, &applied("Grow", vec![integer(IntKind::B8, false)]), &[]);
    assert!(result.is_some());
    assert!(erased.was_cut());
    let mut none = KnownErasedTypes::with_depth(0);
    assert_eq!(none.erase_types(&lib, &named("Loop"), &[]), None);
    assert!(none.was_cut());
    let mut plain = KnownErasedTypes::with_depth(1);
    assert_eq!(
        plain.erase_types(&lib, &applied("NonNull", vec![integer(IntKind::B8, false)]), &[]),
        Some(pointer(integer(IntKind::B8, false), false, false))
    );
    assert!(!plain.was_cut());
}

#[test]
fn typedef_alias_is_erased_only_when_annotated() {
    let plain = item(ItemKind::Typedef, "Plain", &[], vec![field("", integer(IntKind::B8, false))]);
    let mut marked = item(ItemKind::Typedef, "Marked", &[], vec![field("", named("Plain"))]);
    marked.annotations.transparent_typedef = true;
    let mut unshaped = item(ItemKind::Struct, "Unshaped", &[], vec![field("x", integer(IntKind::B8, false))]);
    unshaped.annotations.transparent_typedef = true;
    let lib = library(config(Language::C), vec![unshaped], wrappers(), vec![plain, marked]);
    let mut erased = KnownErasedTypes::default();
    assert_eq!(erased.erase_types(&lib, &named("Plain"), &[]), None);
    assert_eq!(erased.erase_types(&lib, &named("Marked"), &[]), Some(named("Plain")));
    assert_eq!(erased.erase_types(&lib, &named("Unshaped"), &[]), None);
    let f = Type::FuncPtr {
        ret: Box::new(named("Plain")),
        args: vec![named("Marked"), named("Plain")],
        is_nullable: false,
        never_return: false,
    };
    assert_eq!(
        erased.erase_types(&lib, &f, &[]),
        Some(Type::FuncPtr {
            ret: Box::new(named("Plain")),
            args: vec![named("Plain"), named("Plain")],
            is_nullable: false,
            never_return: false,
        })
    );
    let arr = Type::Array(Box::new(named("Marked")), ConstExpr::Value("2".to_string()));
    assert_eq!(
        erased.erase_types(&lib, &arr, &[]),
        Some(Type::Array(Box::new(named("Plain")), ConstExpr::Value("2".to_string())))
    );
}

#[test]
fn mangled_names() {
    let cfg = MangleConfig { remove_underscores: false };
    let none: Vec<GenericArgument> = vec![];
    assert_eq!(mangle_name("Foo", &none, &cfg), "Foo");
    let i32_arg = GenericArgument::Type(integer(IntKind::B32, true));
    assert_eq!(mangle_name("Foo", &vec![i32_arg.clone()], &cfg), "Foo_i32");
    let two = vec![i32_arg.clone(), GenericArgument::Type(named("Bar"))];
    assert_eq!(mangle_name("Foo", &two, &cfg), "Foo_i32__Bar");
    let nested = vec![GenericArgument::Type(applied("Bar", vec![named("T")])), GenericArgument::Type(named("E"))];
    assert_eq!(mangle_name("Foo", &nested, &cfg), "Foo_Bar_T_____E");
    let last_nested = vec![GenericArgument::Type(applied("Bar", vec![named("T")]))];
    assert_eq!(mangle_name("Foo", &last_nested, &cfg), "Foo_Bar_T");
    let ptrs = vec![
        GenericArgument::Type(pointer(named("T"), true, true)),
        GenericArgument::Type(pointer(named("T"), false, true)),
    ];
    assert_eq!(mangle_name("Foo", &ptrs, &cfg), "Foo______T______T");
    let consts = vec![
        GenericArgument::Const(ConstExpr::Value("40".to_string())),
        GenericArgument::Const(ConstExpr::Name("N".to_string())),
    ];
    assert_eq!(mangle_name("Foo", &consts, &cfg), "Foo_40__N");
    let f = Type::FuncPtr {
        ret: Box::new(integer(IntKind::B8, false)),
        args: vec![named("A"), named("B")],
        is_nullable: false,
        never_return: false,
    };
    assert_eq!(
        mangle_name("Foo", &vec![GenericArgument::Type(f.clone())], &cfg),
        "Foo_______u8_______A_______B"
    );
    assert_eq!(
        mangle_name("Foo", &vec![GenericArgument::Type(f), i32_arg.clone()], &cfg),
        "Foo_______u8_______A_______B__________i32"
    );
    let arr = Type::Array(Box::new(named("A")), ConstExpr::Value("3".to_string()));
    assert_eq!(mangle_name("Foo", &vec![GenericArgument::Type(arr)], &cfg), "Foo_A_3");
    let dense = MangleConfig { remove_underscores: true };
    assert_eq!(mangle_name("Foo", &two, &dense), "Fooi32Bar");
    assert_eq!(mangle_path(&Path::new("Pair"), &vec![i32_arg], &cfg), Path::new("Pair_i32"));
    let float = GenericArgument::Type(Type::Primitive(PrimitiveType::Float));
    assert_eq!(mangle_name("V", &vec![float], &cfg), "V_f32");
}

#[test]
fn instantiation_is_registered_once() {
    let pair = item(ItemKind::Struct, "Pair", &["T"], vec![field("a", named("T")), field("b", pointer(applied("Pair", vec![named("T")]), false, true))]);
    let lib = library(config(Language::C), vec![pair.clone()], wrappers(), vec![]);
    let mut out = Monomorphs::default();
    let args = vec![GenericArgument::Type(integer(IntKind::B32, true))];
    pair.instantiate_monomorph(&args, &lib, &mut out);
    assert_eq!(out.len(), 1);
    let key = GenericPath::new(Path::new("Pair"), args.clone());
    assert!(out.contains(&key));
    assert_eq!(out.mangle_path(&key), Some(&Path::new("Pair_i32")));
    pair.instantiate_monomorph(&args, &lib, &mut out);
    applied("Pair", vec![integer(IntKind::B32, true)]).add_monomorphs(&lib, &mut out);
    assert_eq!(out.len(), 1);
    let copies = out.of_kind(ItemKind::Struct);
    assert_eq!(copies.len(), 1);
    assert_eq!(copies[0].path, Path::new("Pair_i32"));
    assert_eq!(copies[0].export_name, "Pair_i32");
    assert!(copies[0].generic_params.is_empty());
    assert_eq!(copies[0].fields[0].ty, integer(IntKind::B32, true));
    assert!(out.of_kind(ItemKind::Union).is_empty());
    let mut a = applied("Pair", vec![integer(IntKind::B32, true)]);
    let mut b = pointer(applied("Pair", vec![integer(IntKind::B32, true)]), true, false);
    let mut c = applied("Pair", vec![integer(IntKind::B8, true)]);
    a.mangle_paths(&out);
    b.mangle_paths(&out);
    c.mangle_paths(&out);
    assert_eq!(a, named("Pair_i32"));
    assert_eq!(b, pointer(named("Pair_i32"), true, false));
    assert_eq!(c, applied("Pair", vec![integer(IntKind::B8, true)]));
}

#[test]
fn instantiation_follows_nested_uses_up_to_the_depth_bound() {
    let outer = item(ItemKind::Struct, "Outer", &["T"], vec![field("i", applied("Inner", vec![named("T")]))]);
    let inner = item(ItemKind::Struct, "Inner", &["T"], vec![field("x", named("T"))]);
    let plain = item(ItemKind::Struct, "Plain", &[], vec![]);
    let lib = library(config(Language::C), vec![outer, inner, plain.clone()], wrappers(), vec![]);
    let use_site = applied("Outer", vec![integer(IntKind::B8, false)]);
    let mut out = Monomorphs::default();
    use_site.add_monomorphs(&lib, &mut out);
    assert_eq!(out.len(), 2);
    let order: Vec<String> = out.of_kind(ItemKind::Struct).iter().map(|x| x.path.name().to_string()).collect();
    assert_eq!(order, vec!["Inner_u8".to_string(), "Outer_u8".to_string()]);
    let mut shallow = Monomorphs::with_depth(1);
    use_site.add_monomorphs(&lib, &mut shallow);
    assert_eq!(shallow.len(), 1);
    let mut none = Monomorphs::with_depth(0);
    use_site.add_monomorphs(&lib, &mut none);
    assert_eq!(none.len(), 0);
    assert!(!out.was_cut());
    assert!(shallow.was_cut());
    assert!(none.was_cut());
    // A use of an item without parameters, or with arguments that do not
    // fit, is refused; a name of no item asks for nothing.
    let mut out = Monomorphs::default();
    applied("Plain", vec![named("A")]).add_monomorphs(&lib, &mut out);
    applied("Inner", vec![named("A"), named("B")]).add_monomorphs(&lib, &mut out);
    applied("Missing", vec![named("A")]).add_monomorphs(&lib, &mut out);
    assert_eq!(out.len(), 0);
    assert_eq!(out.refused(), &vec![Path::new("Plain"), Path::new("Inner")]);
    assert!(!out.was_cut());
}

#[test]
fn first_registration_decides_the_declaration() {
    let mut resolver = DeclarationTypeResolver::new();
    resolver.add_enum(&Path::new("A"));
    resolver.add_struct(&Path::new("A"));
    resolver.add_union(&Path::new("B"));
    resolver.add_typedef(&Path::new("C"));
    resolver.add_struct(&Path::new("C"));
    assert_eq!(resolver.type_for(&Path::new("A")), Some(DeclarationType::Enum));
    assert_eq!(resolver.type_for(&Path::new("B")), Some(DeclarationType::Union));
    assert_eq!(resolver.type_for(&Path::new("C")), Some(DeclarationType::Typedef));
    assert_eq!(resolver.type_for(&Path::new("D")), None);
    let mut ty = pointer(applied("A", vec![named("B")]), false, false);
    ty.resolve_declaration_types(&resolver);
    match ty {
        Type::Ptr { ty, .. } => match *ty {
            Type::Path(p) => {
                assert_eq!(p.ctype, Some(DeclarationType::Enum));
                // The arguments are left to whoever instantiates the path.
                assert_eq!(p.generics, vec![GenericArgument::Type(named("B"))]);
            }
            _ => panic!("a path"),
        },
        _ => panic!("a pointer"),
    }
}

#[test]
fn item_map_admits_one_item_per_name_unless_conditional() {
    let mut items = ItemMap::new();
    assert!(items.try_insert(item(ItemKind::Struct, "A", &[], vec![])));
    assert!(!items.try_insert(item(ItemKind::Struct, "A", &[], vec![])));
    let conditional = |name: &str, cond: &str| {
        let mut x = item(ItemKind::Struct, name, &[], vec![]);
        x.cfg = Some(Cfg { condition: cond.to_string() });
        x
    };
    assert!(!items.try_insert(conditional("A", "unix")));
    assert!(items.try_insert(conditional("B", "unix")));
    assert!(items.try_insert(conditional("B", "windows")));
    assert!(!items.try_insert(item(ItemKind::Struct, "B", &[], vec![])));
    assert_eq!(items.len(), 3);
    assert_eq!(items.get_items(&Path::new("B")).unwrap().len(), 2);
    assert_eq!(items.get_items(&Path::new("A")).unwrap().len(), 1);
    assert!(items.get_items(&Path::new("C")).is_none());
    assert_eq!(items.to_vec().len(), 3);
}

#[test]
fn names_resolve_by_category_priority_and_export_toggles() {
    let mut cfg = config(Language::C);
    let same = |kind| item(kind, "X", &[], vec![]);
    let make = |cfg: Config| {
        Library::new(
            cfg,
            ItemMap::new(),
            ItemMap::new(),
            map(vec![same(ItemKind::Enum)]),
            map(vec![same(ItemKind::Struct)]),
            map(vec![same(ItemKind::Union)]),
            map(vec![same(ItemKind::OpaqueItem)]),
            map(vec![same(ItemKind::Typedef)]),
            vec![],
            vec![],
            String::new(),
        )
    };
    let lib = make(cfg.clone());
    assert_eq!(lib.get_items(&Path::new("X")).unwrap()[0].kind, ItemKind::Enum);
    assert_eq!(lib.first_item(&Path::new("X")).unwrap().kind, ItemKind::Enum);
    assert!(lib.get_items(&Path::new("Y")).is_none());
    assert_eq!(lib.get_config(), &cfg);
    cfg.export.item_types = vec![cbindgen::config::ItemType::Unions, cbindgen::config::ItemType::Typedefs];
    let lib = make(cfg.clone());
    assert_eq!(lib.get_items(&Path::new("X")).unwrap()[0].kind, ItemKind::Union);
    cfg.export.item_types = vec![cbindgen::config::ItemType::Functions];
    let lib = make(cfg);
    assert!(lib.get_items(&Path::new("X")).is_none());
}

#[test]
fn export_names() {
    let mut cfg = config(Language::C);
    cfg.export.rename = vec![
        ("A".to_string(), "B".to_string()),
        ("A".to_string(), "C".to_string()),
    ];
    let mut name = "A".to_string();
    cfg.export.rename(&mut name);
    assert_eq!(name, "B");
    cfg.export.prefix = Some("p_".to_string());
    let mut name = "A".to_string();
    cfg.export.rename(&mut name);
    assert_eq!(name, "p_B");
    let mut name = "Z".to_string();
    cfg.export.rename(&mut name);
    assert_eq!(name, "p_Z");
    cfg.export.renaming_overrides_prefixing = true;
    let mut name = "A".to_string();
    cfg.export.rename(&mut name);
    assert_eq!(name, "B");
    let mut name = "Z".to_string();
    cfg.export.rename(&mut name);
    assert_eq!(name, "p_Z");
    assert_eq!(cfg.export.renamed("A"), Some("B".to_string()));
    assert_eq!(cfg.export.renamed("Z"), None);
    cfg.export.exclude = vec!["Gone".to_string()];
    assert!(cfg.export.is_excluded("Gone"));
    assert!(!cfg.export.is_excluded("gone"));
    assert!(Style::Both.generate_tag());
    assert!(Style::Tag.generate_tag());
    assert!(!Style::Type.generate_tag());
    assert_eq!(RenameRule::Prefix("a_".to_string()).apply("x"), "a_x");
    assert_eq!(RenameRule::Suffix("_z".to_string()).apply("x"), "x_z");
    assert_eq!(RenameRule::Keep.apply("x"), "x");
    assert!(RenameRule::Keep.not_keep().is_none());
    assert!(RenameRule::Suffix("s".to_string()).not_keep().is_some());
}

#[test]
fn types_are_renamed_but_parameters_are_kept() {
    let mut cfg = config(Language::C);
    cfg.export.prefix = Some("p_".to_string());
    let generics = params(&["T"]);
    let mut ty = Type::Array(
        Box::new(applied("Foo", vec![named("T"), named("Bar")])),
        ConstExpr::Name("LEN".to_string()),
    );
    ty.rename_for_config(&cfg, &generics);
    match ty {
        Type::Array(inner, len) => {
            assert_eq!(len, ConstExpr::Name("p_LEN".to_string()));
            match *inner {
                Type::Path(p) => {
                    assert_eq!(p.export_name, "p_Foo");
                    assert_eq!(p.path, Path::new("Foo"));
                    match &p.generics[0] {
                        GenericArgument::Type(Type::Path(t)) => assert_eq!(t.export_name, "T"),
                        _ => panic!("a path"),
                    }
                    match &p.generics[1] {
                        GenericArgument::Type(Type::Path(t)) => assert_eq!(t.export_name, "p_Bar"),
                        _ => panic!("a path"),
                    }
                }
                _ => panic!("a path"),
            }
        }
        _ => panic!("an array"),
    }
    let mut value = GenericArgument::Const(ConstExpr::Value("3".to_string()));
    value.rename_for_config(&cfg, &generics);
    assert_eq!(value, GenericArgument::Const(ConstExpr::Value("3".to_string())));
    let mut path = GenericPath::new(Path::new("T"), vec![]);
    path.rename_for_config(&cfg, &generics);
    assert_eq!(path.export_name(), "T");
    path.rename_for_config(&cfg, &params(&[]));
    assert_eq!(path.export_name(), "p_T");
    let mut opaque = OpaqueItem::new(Path::new("H"), params(&[]), None, AnnotationSet::new(), Documentation::none());
    opaque.rename_for_config(&cfg);
    assert_eq!(opaque.export_name(), "p_H");
    assert_eq!(opaque.path(), &Path::new("H"));
}

fn function(name: &str, owner: Option<&str>, args: Vec<(Option<&str>, Type)>) -> Function {
    Function {
        path: Path::new(name),
        self_type_path: owner.map(Path::new),
        ret: Type::Primitive(PrimitiveType::Void),
        args: args
            .into_iter()
            .map(|(n, ty)| FunctionArgument { name: n.map(|s| s.to_string()), ty, array_length: None })
            .collect(),
        extern_decl: false,
        cfg: None,
        annotations: AnnotationSet::new(),
        documentation: Documentation::none(),
        never_return: false,
    }
}

#[test]
fn function_arguments_are_renamed_escaped_and_noted_as_arrays() {
    let mut cfg = config(Language::C);
    cfg.function.rename_args = RenameRule::Prefix("a_".to_string());
    let ptr = || pointer(integer(IntKind::B8, false), false, true);
    let mut f = function(
        "f",
        None,
        vec![(Some("data"), ptr()), (Some("len"), integer(IntKind::Size, false)), (None, ptr()), (Some("other"), ptr())],
    );
    f.args[1].array_length = Some("7".to_string());
    f.annotations.ptrs_as_arrays = Some(vec![
        ArrayNote { parts: vec!["a_data".to_string(), "4".to_string()] },
        ArrayNote { parts: vec!["broken".to_string()] },
        ArrayNote { parts: vec!["a_len".to_string(), "9".to_string()] },
        ArrayNote { parts: vec!["a_data".to_string(), "8".to_string()] },
        ArrayNote { parts: vec![] },
    ]);
    let warnings = f.rename_for_config(&cfg);
    assert_eq!(
        warnings,
        vec![
            Warning::MalformedArrayNote { parts: vec!["broken".to_string()] },
            Warning::MalformedArrayNote { parts: vec![] },
        ]
    );
    assert_eq!(f.args[0].name, Some("a_data".to_string()));
    assert_eq!(f.args[0].array_length, Some("8".to_string()));
    assert_eq!(f.args[1].name, Some("a_len".to_string()));
    assert_eq!(f.args[1].array_length, None);
    assert_eq!(f.args[2].name, None);
    assert_eq!(f.args[2].array_length, None);
    assert_eq!(f.args[3].array_length, None);

    // The rule annotated on the function wins; reserved words are escaped.
    let cfg = config(Language::C);
    let mut g = function("g", None, vec![(Some("class"), named("S")), (Some("x"), named("S"))]);
    g.args[1].array_length = Some("2".to_string());
    assert!(g.rename_for_config(&cfg).is_empty());
    assert_eq!(g.args[0].name, Some("class_".to_string()));
    assert_eq!(g.args[1].array_length, Some("2".to_string()));
    let mut h = function("h", None, vec![(Some("x"), named("S"))]);
    h.annotations.rename_all = Some(RenameRule::Suffix("_arg".to_string()));
    h.rename_for_config(&cfg);
    assert_eq!(h.args[0].name, Some("x_arg".to_string()));
}

#[test]
fn reserved_words_are_escaped() {
    assert!(is_reserved_word("extern"));
    assert!(is_reserved_word("while"));
    assert!(is_reserved_word("alignas"));
    assert!(!is_reserved_word("While"));
    assert!(!is_reserved_word("whilst"));
    let mut a = "typename".to_string();
    escape(&mut a);
    assert_eq!(a, "typename_");
    let mut b = "value".to_string();
    escape(&mut b);
    assert_eq!(b, "value");
}

#[test]
fn swift_names() {
    let c = config(Language::C);
    let f = function("Widget_new", Some("Widget"), vec![(Some("a"), named("S")), (Some("b"), named("S"))]);
    assert_eq!(f.swift_name(&c), Some("Widget.new(a:b:)".to_string()));
    let g = function("make", Some("Widget"), vec![]);
    assert_eq!(g.swift_name(&c), Some("make".to_string()));
    let h = function("__free", None, vec![(Some("p"), named("S"))]);
    assert_eq!(h.swift_name(&c), Some("free(p:)".to_string()));
    let unnamed = function("f", None, vec![(Some("p"), named("S")), (None, named("S"))]);
    assert_eq!(unnamed.swift_name(&c), None);
    assert_eq!(f.swift_name(&config(Language::Cython)), None);
    let repeated = function("AbAb__go", Some("Ab"), vec![]);
    assert_eq!(repeated.swift_name(&c), Some("Ab.go()".to_string()));
    assert_eq!(f.path(), &Path::new("Widget_new"));
}

#[test]
fn template_heads() {
    let cxx = config(Language::Cxx);
    let c = config(Language::C);
    let generics = GenericParams(vec![
        GenericParam::new_type_param("T"),
        GenericParam::new(
            Path::new("U"),
            GenericParamType::Type,
            Some(GenericArgument::Type(integer(IntKind::B8, false))),
        ),
        GenericParam::new(Path::new("N"), GenericParamType::Const(integer(IntKind::Size, false)), None),
        GenericParam::new(
            Path::new("M"),
            GenericParamType::Const(integer(IntKind::Size, false)),
            Some(GenericArgument::Const(ConstExpr::Value("3".to_string()))),
        ),
    ]);
    let rendered = vec![
        String::new(),
        "uint8_t".to_string(),
        "uintptr_t N".to_string(),
        "uintptr_t M".to_string(),
    ];
    assert_eq!(
        generics.write_internal(&cxx, &rendered, false),
        "template<typename T, typename U = uint8_t, uintptr_t N, uintptr_t M = 3>\n"
    );
    assert_eq!(
        generics.write_with_default(&cxx, &rendered),
        "template<typename T = void, typename U = uint8_t, uintptr_t N = 0, uintptr_t M = 3>\n"
    );
    assert_eq!(generics.write_with_default(&c, &rendered), "");
    assert_eq!(params(&[]).write_with_default(&cxx, &vec![]), "");
    assert_eq!(params(&["T"]).write_internal(&cxx, &vec![], false), "template<typename T>\n");
}

#[test]
fn names_are_ordered_by_bytes_and_sorting_is_stable() {
    assert!(name_le_exec("a", "b"));
    assert!(!name_le_exec("b", "a"));
    assert!(name_le_exec("a", "a"));
    assert!(name_le_exec("", "a"));
    assert!(name_le_exec("a", "ab"));
    assert!(!name_le_exec("ab", "a"));
    assert!(name_le_exec("Z", "a"));
    assert!(name_le_exec("z", "é"));
    let tagged = |name: &str, tag: &str| {
        let mut x = item(ItemKind::Struct, name, &[], vec![]);
        x.export_name = tag.to_string();
        x
    };
    let sorted = sort_by_name(vec![tagged("b", "1"), tagged("a", "2"), tagged("b", "3"), tagged("a", "4"), tagged("c", "5")]);
    let order: Vec<&str> = sorted.iter().map(|x| x.export_name.as_str()).collect();
    assert_eq!(order, vec!["2", "4", "1", "3", "5"]);
    let empty: Vec<ItemContainer> = sort_by_name(vec![]);
    assert!(empty.is_empty());
}

#[test]
fn opaque_item_accessors() {
    let mut annotations = AnnotationSet::new();
    annotations.transparent_typedef = true;
    let o = OpaqueItem::new(
        Path::new("Handle"),
        params(&["T"]),
        Some(Cfg { condition: "unix".to_string() }),
        annotations.clone(),
        Documentation { doc_comment: vec!["A handle.".to_string()] },
    );
    assert_eq!(o.name(), "Handle");
    assert_eq!(o.export_name(), "Handle");
    assert_eq!(o.cfg(), Some(&Cfg { condition: "unix".to_string() }));
    assert_eq!(o.annotations(), &annotations);
    assert_eq!(o.documentation().doc_comment, vec!["A handle.".to_string()]);
    assert_eq!(o.generic_params().unwrap().len(), 1);
    assert!(o.is_generic());
    let c = o.container();
    assert_eq!(c.kind, ItemKind::OpaqueItem);
    assert_eq!(c.path(), &Path::new("Handle"));
    assert_eq!(c.name(), "Handle");
    assert_eq!(c.export_name(), "Handle");
    assert!(c.is_generic());
    assert!(c.fields.is_empty());
    let mut resolver = DeclarationTypeResolver::new();
    o.collect_declaration_types(&mut resolver);
    assert_eq!(resolver.type_for(&Path::new("Handle")), Some(DeclarationType::Struct));
    assert!(!annotations.is_empty());
    assert!(AnnotationSet::new().is_empty());
}

#[test]
fn opaque_item_is_instantiated_as_an_opaque_item() {
    let mut o = OpaqueItem::new(Path::new("Handle"), params(&["T"]), None, AnnotationSet::new(), Documentation::none());
    o.annotations_mut().transparent_typedef = true;
    assert!(o.annotations().transparent_typedef);
    let lib = library(config(Language::C), vec![], vec![o.container()], vec![]);
    let mut out = Monomorphs::default();
    let args = vec![GenericArgument::Type(integer(IntKind::B16, false))];
    o.instantiate_monomorph(&args, &lib, &mut out);
    o.instantiate_monomorph(&args, &lib, &mut out);
    let copies = out.of_kind(ItemKind::OpaqueItem);
    assert_eq!(copies.len(), 1);
    assert_eq!(copies[0].path, Path::new("Handle_u16"));
    assert!(copies[0].generic_params.is_empty());
    assert!(copies[0].annotations.transparent_typedef);
    assert!(o.generic_params().unwrap().accepts(&args));
}

#[test]
fn filling_the_cache_leaves_the_items_alone() {
    let s = item(
        ItemKind::Struct,
        "S",
        &[],
        vec![field("p", applied("NonNull", vec![integer(IntKind::B8, false)]))],
    );
    let g = item(ItemKind::Struct, "G", &["T"], vec![field("p", applied("NonNull", vec![named("T")]))]);
    let lib = library(config(Language::C), vec![], wrappers(), vec![]);
    let items = map(vec![s.clone(), g.clone()]);
    let mut erased = KnownErasedTypes::default();
    lib.erase_item_types(&mut erased, &items);
    assert_eq!(items.to_vec(), vec![s.clone(), g.clone()]);
    assert!(erased.lookup(&applied("NonNull", vec![integer(IntKind::B8, false)])).is_some());
    // An item that is still generic is not asked about.
    assert!(erased.lookup(&applied("NonNull", vec![named("T")])).is_none());
    let after = lib.erase_item_types_inplace(&mut erased, items);
    let after = after.to_vec();
    assert_eq!(after[0].fields[0].ty, pointer(integer(IntKind::B8, false), false, false));
    assert_eq!(after[1], g);
}

#[test]
fn array_notes_are_split_at_semicolons_and_trimmed() {
    assert_eq!(split_note("[ptr; 10]").parts, vec!["ptr".to_string(), "10".to_string()]);
    assert_eq!(split_note("[ a ;b ; c\t]").parts, vec!["a".to_string(), "b".to_string(), "c".to_string()]);
    assert_eq!(split_note("[alone]").parts, vec!["alone".to_string()]);
    assert_eq!(split_note("[]").parts, vec![String::new()]);
    assert_eq!(split_note("[;]").parts, vec![String::new(), String::new()]);
    assert_eq!(split_note("(x;\u{00A0}y\u{3000})").parts, vec!["x".to_string(), "y".to_string()]);
    assert_eq!(split_at_semicolons("a;;b;"), vec!["a".to_string(), String::new(), "b".to_string(), String::new()]);
    assert_eq!(split_at_semicolons(""), vec![String::new()]);
    assert_eq!(trim("  x y \n"), "x y");
    assert_eq!(trim(" \t "), "");
    assert_eq!(trim(""), "");
    assert_eq!(trim("é"), "é");
}

#[test]
fn dependencies_stop_at_the_depth_bound_and_say_so() {
    let outer = item(ItemKind::Struct, "Outer", &[], vec![field("i", named("Inner"))]);
    let inner = item(ItemKind::Struct, "Inner", &[], vec![field("x", integer(IntKind::B8, false))]);
    let lib = library(config(Language::C), vec![outer, inner], vec![], vec![]);
    let mut deep = Dependencies::new();
    named("Outer").add_dependencies(&lib, &mut deep);
    assert!(!deep.was_cut());
    assert!(deep.seen(&Path::new("Inner")));
    let order: Vec<String> = deep.into_order().iter().map(|x| x.path.name().to_string()).collect();
    assert_eq!(order, vec!["Inner".to_string(), "Outer".to_string()]);
    let mut flat = Dependencies::with_depth(0);
    named("Outer").add_dependencies(&lib, &mut flat);
    assert!(flat.was_cut());
    assert!(!flat.seen(&Path::new("Inner")));
    let order: Vec<String> = flat.into_order().iter().map(|x| x.path.name().to_string()).collect();
    assert_eq!(order, vec!["Outer".to_string()]);
}

#[test]
fn well_formed_libraries_hold_each_kind_in_its_category() {
    let s = item(ItemKind::Struct, "S", &[], vec![field("x", integer(IntKind::B8, false))]);
    let o = item(ItemKind::OpaqueItem, "O", &["T"], vec![]);
    assert!(library(config(Language::C), vec![s.clone()], vec![o.clone()], vec![]).is_well_formed());
    // A struct among the opaque items.
    assert!(!library(config(Language::C), vec![], vec![s.clone()], vec![]).is_well_formed());
    // An opaque item that holds a field.
    let mut filled = o.clone();
    filled.fields.push(field("x", integer(IntKind::B8, false)));
    assert!(!library(config(Language::C), vec![s.clone()], vec![filled], vec![]).is_well_formed());
    // An enum holds fields only where it has a tag.
    let with_enum = |e: ItemContainer| {
        Library::new(
            config(Language::C),
            ItemMap::new(),
            ItemMap::new(),
            map(vec![e]),
            ItemMap::new(),
            ItemMap::new(),
            ItemMap::new(),
            ItemMap::new(),
            vec![],
            vec![],
            String::new(),
        )
    };
    let mut e = item(ItemKind::Enum, "E", &[], vec![field("v", integer(IntKind::B8, false))]);
    assert!(!with_enum(e.clone()).is_well_formed());
    e.tag = Some("E_Tag".to_string());
    assert!(with_enum(e).is_well_formed());
    assert!(with_enum(item(ItemKind::Enum, "E", &[], vec![])).is_well_formed());
}
