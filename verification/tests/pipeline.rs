use cbindgen::bindings::{Bindings, Error};
use cbindgen::config::{
    Config, ConstantConfig, ExportConfig, FunctionConfig, ItemType, Language, MangleConfig,
    RenameRule, SortKey, Style,
};
use cbindgen::function::{Function, FunctionArgument};
use cbindgen::generic_path::{GenericArgument, GenericParam, GenericParams, GenericPath};
use cbindgen::item::{AnnotationSet, Documentation, Field, ItemContainer, ItemKind};
use cbindgen::item_map::ItemMap;
use cbindgen::library::Library;
use cbindgen::opaque::OpaqueItem;
use cbindgen::path::Path;
use cbindgen::ty::{DeclarationType, IntKind, PrimitiveType, Type};
use cbindgen::warning::{Stage, Warning};

fn config(language: Language) -> Config {
    Config {
        language,
        style: Style::Both,
        sort_by: SortKey::Unsorted,
        function: FunctionConfig { sort_by: None, rename_args: RenameRule::Keep },
        constant: ConstantConfig { sort_by: None },
        export: ExportConfig {
            roots: vec![],
            exclude: vec![],
            rename: vec![],
            prefix: None,
            renaming_overrides_prefixing: false,
            item_types: vec![],
            mangle: MangleConfig { remove_underscores: false },
        },
    }
}

fn integer(kind: IntKind, signed: bool) -> Type {
    Type::Primitive(PrimitiveType::Integer { zeroable: true, signed, kind })
}

fn named(name: &str) -> Type {
    Type::Path(GenericPath::new(Path::new(name), vec![]))
}

fn applied(name: &str, args: Vec<Type>) -> Type {
    Type::Path(GenericPath::new(
        Path::new(name),
        args.into_iter().map(GenericArgument::Type).collect(),
    ))
}

fn pointer(to: Type) -> Type {
    Type::Ptr { ty: Box::new(to), is_const: false, is_nullable: true, is_ref: false }
}

fn field(name: &str, ty: Type) -> Field {
    Field { name: name.to_string(), ty }
}

fn params(names: &[&str]) -> GenericParams {
    GenericParams(names.iter().map(|n| GenericParam::new_type_param(n)).collect())
}

fn item(kind: ItemKind, name: &str, generics: &[&str], fields: Vec<Field>) -> ItemContainer {
    ItemContainer::new(
        kind,
        Path::new(name),
        params(generics),
        fields,
        None,
        AnnotationSet::new(),
        Documentation::none(),
    )
}

fn wrapper(name: &str) -> ItemContainer {
    OpaqueItem::new(
        Path::new(name),
        params(&["T"]),
        None,
        AnnotationSet::new(),
        Documentation::none(),
    )
    .container()
}

fn function(name: &str, ret: Type, args: Vec<(&str, Type)>) -> Function {
    Function {
        path: Path::new(name),
        self_type_path: None,
        ret,
        args: args
            .into_iter()
            .map(|(n, ty)| FunctionArgument { name: Some(n.to_string()), ty, array_length: None })
            .collect(),
        extern_decl: false,
        cfg: None,
        annotations: AnnotationSet::new(),
        documentation: Documentation::none(),
        never_return: false,
    }
}

fn map(items: Vec<ItemContainer>) -> ItemMap {
    let mut out = ItemMap::new();
    for item in items {
        assert!(out.try_insert(item));
    }
    out
}

struct Parts {
    config: Config,
    constants: Vec<ItemContainer>,
    globals: Vec<ItemContainer>,
    enums: Vec<ItemContainer>,
    structs: Vec<ItemContainer>,
    unions: Vec<ItemContainer>,
    opaque_items: Vec<ItemContainer>,
    typedefs: Vec<ItemContainer>,
    functions: Vec<Function>,
}

fn parts(language: Language) -> Parts {
    Parts {
        config: config(language),
        constants: vec![],
        globals: vec![],
        enums: vec![],
        structs: vec![],
        unions: vec![],
        opaque_items: vec![wrapper("Option"), wrapper("NonNull"), wrapper("NonZero")],
        typedefs: vec![],
        functions: vec![],
    }
}

fn library(p: Parts) -> Library {
    Library::new(
        p.config,
        map(p.constants),
        map(p.globals),
        map(p.enums),
        map(p.structs),
        map(p.unions),
        map(p.opaque_items),
        map(p.typedefs),
        p.functions,
        vec!["src/lib.rs".to_string()],
        "1.2.3".to_string(),
    )
}

fn generate(p: Parts) -> Bindings {
    library(p).generate().expect("a library always generates")
}

fn names(items: &[ItemContainer]) -> Vec<String> {
    items.iter().map(|x| x.path.name().to_string()).collect()
}

fn find<'a>(items: &'a [ItemContainer], name: &str) -> &'a ItemContainer {
    items.iter().find(|x| x.path.name() == name).expect("the item is emitted")
}

#[test]
fn struct_with_optional_non_null_field_erases_to_nullable_pointer() {
    let mut p = parts(Language::C);
    p.structs.push(item(
        ItemKind::Struct,
        "S",
        &[],
        vec![field("x", applied("Option", vec![applied("NonNull", vec![integer(IntKind::B32, false)])]))],
    ));
    p.functions.push(function("root", Type::Primitive(PrimitiveType::Void), vec![("s", named("S"))]));
    let bindings = generate(p);
    assert_eq!(names(&bindings.items), vec!["S".to_string()]);
    let s = find(&bindings.items, "S");
    assert_eq!(
        s.fields[0].ty,
        Type::Ptr {
            ty: Box::new(integer(IntKind::B32, false)),
            is_const: false,
            is_nullable: true,
            is_ref: false,
        }
    );
    // Nothing was instantiated: the struct map holds the one struct.
    assert_eq!(names(&bindings.struct_map.items), vec!["S".to_string()]);
}

#[test]
fn generic_pair_used_twice_gives_two_concrete_structs() {
    let mut p = parts(Language::C);
    p.structs.push(item(
        ItemKind::Struct,
        "Pair",
        &["T"],
        vec![field("a", named("T")), field("b", named("T"))],
    ));
    p.functions.push(function(
        "root",
        Type::Primitive(PrimitiveType::Void),
        vec![
            ("x", applied("Pair", vec![integer(IntKind::B32, true)])),
            ("y", applied("Pair", vec![integer(IntKind::B8, false)])),
            ("z", pointer(applied("Pair", vec![integer(IntKind::B32, true)]))),
        ],
    ));
    let bindings = generate(p);
    assert_eq!(names(&bindings.items), vec!["Pair_i32".to_string(), "Pair_u8".to_string()]);
    assert_eq!(
        names(&bindings.struct_map.items),
        vec!["Pair_i32".to_string(), "Pair_u8".to_string()]
    );
    let first = find(&bindings.items, "Pair_i32");
    assert!(first.generic_params.0.is_empty());
    assert_eq!(first.fields[0].ty, integer(IntKind::B32, true));
    assert_eq!(first.fields[1].ty, integer(IntKind::B32, true));
    let second = find(&bindings.items, "Pair_u8");
    assert_eq!(second.fields[0].ty, integer(IntKind::B8, false));
    // Both references to the same instantiation name the same concrete item.
    let f = &bindings.functions[0];
    let resolved = |name: &str| {
        let mut path = GenericPath::new(Path::new(name), vec![]);
        path.ctype = Some(DeclarationType::Struct);
        Type::Path(path)
    };
    assert_eq!(f.args[0].ty, resolved("Pair_i32"));
    assert_eq!(f.args[1].ty, resolved("Pair_u8"));
    assert_eq!(
        f.args[2].ty,
        Type::Ptr {
            ty: Box::new(resolved("Pair_i32")),
            is_const: false,
            is_nullable: true,
            is_ref: false
        }
    );
}

#[test]
fn generic_items_are_kept_where_the_language_has_generics() {
    let mut p = parts(Language::Cxx);
    p.structs.push(item(ItemKind::Struct, "Pair", &["T"], vec![field("a", named("T"))]));
    p.functions.push(function(
        "root",
        Type::Primitive(PrimitiveType::Void),
        vec![("x", applied("Pair", vec![integer(IntKind::B32, true)]))],
    ));
    let bindings = generate(p);
    assert_eq!(names(&bindings.items), vec!["Pair".to_string()]);
    assert_eq!(bindings.functions[0].args[0].ty, applied("Pair", vec![integer(IntKind::B32, true)]));
}

#[test]
fn annotated_alias_leaves_annotated_target_alone_and_warns() {
    let mut p = parts(Language::C);
    let mut distance = item(ItemKind::Struct, "Distance", &[], vec![field("m", integer(IntKind::B64, false))]);
    distance.annotations.entries.push(("derive-eq".to_string(), "true".to_string()));
    let before = distance.annotations.clone();
    let mut meters = item(ItemKind::Typedef, "Meters", &[], vec![field("", named("Distance"))]);
    meters.annotations.entries.push(("derive-lt".to_string(), "true".to_string()));
    p.structs.push(distance);
    p.typedefs.push(meters);
    p.functions.push(function("root", named("Meters"), vec![]));
    let bindings = generate(p);
    let target = find(&bindings.items, "Distance");
    assert_eq!(target.annotations, before);
    assert_eq!(
        bindings.warnings,
        vec![Warning::AnnotationConflict { target: Path::new("Distance") }]
    );
    // The alias has handed its annotations over.
    assert!(find(&bindings.items, "Meters").annotations.is_empty());
}

#[test]
fn annotated_alias_hands_annotations_to_bare_target() {
    let mut p = parts(Language::C);
    p.structs.push(item(ItemKind::Struct, "Distance", &[], vec![field("m", integer(IntKind::B64, false))]));
    let mut meters = item(ItemKind::Typedef, "Meters", &[], vec![field("", named("Distance"))]);
    meters.annotations.entries.push(("derive-lt".to_string(), "true".to_string()));
    let handed = meters.annotations.clone();
    p.typedefs.push(meters);
    let mut lib = library(p);
    let warnings = lib.transfer_annotations();
    assert!(warnings.is_empty());
    let found = lib.get_items(&Path::new("Distance")).unwrap();
    assert_eq!(found[0].annotations, handed);
    let alias = lib.get_items(&Path::new("Meters")).unwrap();
    assert!(alias[0].annotations.is_empty());
}

#[test]
fn second_annotated_alias_of_one_target_is_passed_over() {
    let mut p = parts(Language::C);
    p.structs.push(item(ItemKind::Struct, "Distance", &[], vec![field("m", integer(IntKind::B64, false))]));
    let mut meters = item(ItemKind::Typedef, "Meters", &[], vec![field("", named("Distance"))]);
    meters.annotations.transparent_typedef = true;
    let mut feet = item(ItemKind::Typedef, "Feet", &[], vec![field("", pointer(named("Distance")))]);
    feet.annotations.entries.push(("a".to_string(), "b".to_string()));
    let kept = feet.annotations.clone();
    p.typedefs.push(meters);
    p.typedefs.push(feet);
    let mut lib = library(p);
    let warnings = lib.transfer_annotations();
    assert_eq!(
        warnings,
        vec![Warning::DuplicateAnnotatedAlias {
            target: Path::new("Distance"),
            alias: Path::new("Feet")
        }]
    );
    assert_eq!(lib.get_items(&Path::new("Feet")).unwrap()[0].annotations, kept);
    assert!(lib.get_items(&Path::new("Distance")).unwrap()[0].annotations.transparent_typedef);
}

#[test]
fn unreachable_item_is_not_emitted() {
    let mut p = parts(Language::C);
    p.structs.push(item(ItemKind::Struct, "Used", &[], vec![field("x", integer(IntKind::B8, false))]));
    p.structs.push(item(ItemKind::Struct, "Unused", &[], vec![field("x", integer(IntKind::B8, false))]));
    p.functions.push(function("root", named("Used"), vec![]));
    let bindings = generate(p);
    assert_eq!(names(&bindings.items), vec!["Used".to_string()]);
}

#[test]
fn named_root_is_emitted_with_what_it_depends_on() {
    let mut p = parts(Language::C);
    p.structs.push(item(ItemKind::Struct, "Inner", &[], vec![field("x", integer(IntKind::B8, false))]));
    p.structs.push(item(ItemKind::Struct, "Outer", &[], vec![field("i", named("Inner"))]));
    p.config.export.roots.push("Outer".to_string());
    let bindings = generate(p);
    assert_eq!(names(&bindings.items), vec!["Inner".to_string(), "Outer".to_string()]);
}

#[test]
fn embedded_item_comes_before_the_item_that_embeds_it() {
    let mut p = parts(Language::C);
    p.structs.push(item(ItemKind::Struct, "A", &[], vec![field("b", named("B")), field("c", named("C"))]));
    p.structs.push(item(ItemKind::Struct, "B", &[], vec![field("c", named("C"))]));
    p.structs.push(item(ItemKind::Struct, "C", &[], vec![field("x", integer(IntKind::B8, false))]));
    p.functions.push(function("root", named("A"), vec![]));
    let bindings = generate(p);
    assert_eq!(names(&bindings.items), vec!["C".to_string(), "B".to_string(), "A".to_string()]);
}

#[test]
fn pointer_cycle_is_emitted_once_each() {
    let mut p = parts(Language::C);
    p.structs.push(item(ItemKind::Struct, "A", &[], vec![field("b", pointer(named("B")))]));
    p.structs.push(item(ItemKind::Struct, "B", &[], vec![field("a", pointer(named("A")))]));
    p.functions.push(function("root", named("A"), vec![]));
    let bindings = generate(p);
    assert_eq!(names(&bindings.items), vec!["B".to_string(), "A".to_string()]);
}

#[test]
fn excluded_item_is_not_emitted_even_when_reachable() {
    let mut p = parts(Language::C);
    p.structs.push(item(ItemKind::Struct, "Inner", &[], vec![field("x", integer(IntKind::B8, false))]));
    p.structs.push(item(ItemKind::Struct, "Outer", &[], vec![field("i", named("Inner"))]));
    p.functions.push(function("root", named("Outer"), vec![]));
    p.functions.push(function("hidden", named("Outer"), vec![]));
    p.config.export.exclude = vec!["Inner".to_string(), "hidden".to_string()];
    p.config.export.roots.push("Inner".to_string());
    let bindings = generate(p);
    assert_eq!(names(&bindings.items), vec!["Outer".to_string()]);
    assert_eq!(bindings.functions.len(), 1);
    assert_eq!(bindings.functions[0].path, Path::new("root"));
}

#[test]
fn struct_decides_declaration_over_opaque_item_of_same_name() {
    let mut p = parts(Language::C);
    p.structs.push(item(ItemKind::Struct, "Handle", &[], vec![field("x", integer(IntKind::B8, false))]));
    p.enums.push(item(ItemKind::Enum, "Mode", &[], vec![]));
    p.opaque_items.push(item(ItemKind::OpaqueItem, "Handle", &[], vec![]));
    p.opaque_items.push(item(ItemKind::OpaqueItem, "Mode", &[], vec![]));
    p.opaque_items.push(item(ItemKind::OpaqueItem, "Hidden", &[], vec![]));
    p.functions.push(function(
        "root",
        pointer(named("Handle")),
        vec![("m", named("Mode")), ("h", pointer(named("Hidden"))), ("u", named("Unknown"))],
    ));
    let bindings = generate(p);
    let ctype = |ty: &Type| match ty {
        Type::Path(p) => p.ctype,
        Type::Ptr { ty, .. } => match ty.as_ref() {
            Type::Path(p) => p.ctype,
            _ => panic!("a pointer to a path"),
        },
        _ => panic!("a path"),
    };
    let f = &bindings.functions[0];
    assert_eq!(ctype(&f.ret), Some(DeclarationType::Struct));
    assert_eq!(ctype(&f.args[0].ty), Some(DeclarationType::Enum));
    assert_eq!(ctype(&f.args[1].ty), Some(DeclarationType::Struct));
    assert_eq!(ctype(&f.args[2].ty), None);
}

#[test]
fn declarations_are_resolved_only_for_c_with_tags() {
    let mut p = parts(Language::C);
    p.config.style = Style::Type;
    p.structs.push(item(ItemKind::Struct, "S", &[], vec![field("x", integer(IntKind::B8, false))]));
    p.functions.push(function("root", named("S"), vec![]));
    let bindings = generate(p);
    assert_eq!(bindings.functions[0].ret, named("S"));

    let mut p = parts(Language::Cython);
    p.structs.push(item(ItemKind::Struct, "S", &[], vec![field("x", integer(IntKind::B8, false))]));
    p.functions.push(function("root", named("S"), vec![]));
    let bindings = generate(p);
    assert_eq!(bindings.functions[0].ret, named("S"));
}

#[test]
fn functions_are_sorted_by_name_when_asked() {
    let mut p = parts(Language::C);
    p.config.function.sort_by = Some(SortKey::Name);
    let void = || Type::Primitive(PrimitiveType::Void);
    p.functions.push(function("zeta", void(), vec![]));
    p.functions.push(function("alpha", void(), vec![]));
    p.functions.push(function("Beta", void(), vec![]));
    p.functions.push(function("alpha2", void(), vec![]));
    let bindings = generate(p);
    let order: Vec<&str> = bindings.functions.iter().map(|f| f.path.name()).collect();
    assert_eq!(order, vec!["Beta", "alpha", "alpha2", "zeta"]);
}

#[test]
fn layers_put_plain_enums_and_opaque_items_first() {
    let mut p = parts(Language::C);
    p.structs.push(item(
        ItemKind::Struct,
        "S",
        &[],
        vec![
            field("o", pointer(named("Zed"))),
            field("e", named("Mode")),
            field("p", pointer(named("Abc"))),
            field("f", named("Flag")),
        ],
    ));
    p.enums.push(item(ItemKind::Enum, "Mode", &[], vec![]));
    p.enums.push(item(ItemKind::Enum, "Flag", &[], vec![]));
    p.opaque_items.push(item(ItemKind::OpaqueItem, "Zed", &[], vec![]));
    p.opaque_items.push(item(ItemKind::OpaqueItem, "Abc", &[], vec![]));
    p.functions.push(function("root", named("S"), vec![]));
    let bindings = generate(p);
    assert_eq!(
        names(&bindings.items),
        vec!["Flag".to_string(), "Mode".to_string(), "Abc".to_string(), "Zed".to_string(), "S".to_string()]
    );
}

#[test]
fn export_toggles_gate_constants_globals_and_functions() {
    let mut p = parts(Language::C);
    p.config.export.item_types = vec![ItemType::Structs, ItemType::Constants];
    p.config.constant.sort_by = Some(SortKey::Name);
    p.constants.push(item(ItemKind::Constant, "B", &[], vec![field("", integer(IntKind::B8, false))]));
    p.constants.push(item(ItemKind::Constant, "A", &[], vec![field("", integer(IntKind::B8, false))]));
    p.globals.push(item(ItemKind::Static, "G", &[], vec![field("", integer(IntKind::B8, false))]));
    p.functions.push(function("root", Type::Primitive(PrimitiveType::Void), vec![]));
    let bindings = generate(p);
    assert_eq!(names(&bindings.constants), vec!["A".to_string(), "B".to_string()]);
    assert!(bindings.globals.is_empty());
    assert!(bindings.functions.is_empty());
    assert_eq!(bindings.package_version, "1.2.3");
    assert_eq!(bindings.source_files, vec!["src/lib.rs".to_string()]);
}

#[test]
fn items_and_types_are_renamed_for_export() {
    let mut p = parts(Language::C);
    p.config.export.prefix = Some("my_".to_string());
    p.config.export.rename = vec![("Inner".to_string(), "Core".to_string())];
    p.structs.push(item(ItemKind::Struct, "Inner", &[], vec![field("x", integer(IntKind::B8, false))]));
    p.structs.push(item(ItemKind::Struct, "Outer", &[], vec![field("i", named("Inner"))]));
    p.functions.push(function("root", named("Outer"), vec![]));
    let bindings = generate(p);
    let inner = find(&bindings.items, "Inner");
    assert_eq!(inner.export_name, "my_Core");
    let outer = find(&bindings.items, "Outer");
    assert_eq!(outer.export_name, "my_Outer");
    match &outer.fields[0].ty {
        Type::Path(p) => {
            assert_eq!(p.export_name, "my_Core");
            assert_eq!(p.path, Path::new("Inner"));
        }
        _ => panic!("a path"),
    }
}

#[test]
fn transparent_alias_struct_is_erased_in_signatures() {
    let mut p = parts(Language::C);
    let mut alias = item(ItemKind::Struct, "Wrapper", &["T"], vec![field("only", named("T"))]);
    alias.is_transparent = true;
    alias.annotations.transparent_typedef = true;
    p.structs.push(alias);
    let mut handle = item(
        ItemKind::Struct,
        "Handle",
        &[],
        vec![field("only", applied("NonNull", vec![integer(IntKind::B32, false)]))],
    );
    handle.is_transparent = true;
    handle.annotations.transparent_typedef = true;
    p.structs.push(handle);
    p.functions.push(function(
        "root",
        applied("Wrapper", vec![applied("Wrapper", vec![integer(IntKind::B16, true)])]),
        vec![
            ("h", named("Handle")),
            ("o", applied("Option", vec![named("Handle")])),
            ("n", applied("Option", vec![applied("NonZero", vec![integer(IntKind::B8, false)])])),
        ],
    ));
    let bindings = generate(p);
    let f = &bindings.functions[0];
    assert_eq!(f.ret, integer(IntKind::B16, true));
    let ptr = |nullable| Type::Ptr {
        ty: Box::new(integer(IntKind::B32, false)),
        is_const: false,
        is_nullable: nullable,
        is_ref: false,
    };
    assert_eq!(f.args[0].ty, ptr(false));
    assert_eq!(f.args[1].ty, ptr(true));
    assert_eq!(f.args[2].ty, integer(IntKind::B8, false));
    assert!(bindings.items.is_empty());
}

#[test]
fn generic_struct_used_only_by_a_global_and_a_constant_is_instantiated() {
    let mut p = parts(Language::C);
    p.structs.push(item(ItemKind::Struct, "G", &["T"], vec![field("x", named("T"))]));
    p.globals.push(item(
        ItemKind::Static,
        "COUNTER",
        &[],
        vec![field("", applied("G", vec![integer(IntKind::B32, true)]))],
    ));
    p.constants.push(item(
        ItemKind::Constant,
        "LIMIT",
        &[],
        vec![field("", pointer(applied("G", vec![integer(IntKind::B8, false)])))],
    ));
    let bindings = generate(p);
    assert_eq!(names(&bindings.items), vec!["G_i32".to_string(), "G_u8".to_string()]);
    assert_eq!(names(&bindings.struct_map.items), vec!["G_i32".to_string(), "G_u8".to_string()]);
    let resolved = |name: &str| {
        let mut path = GenericPath::new(Path::new(name), vec![]);
        path.ctype = Some(DeclarationType::Struct);
        Type::Path(path)
    };
    assert_eq!(bindings.globals[0].fields[0].ty, resolved("G_i32"));
    // Constants are mangled; their declaration category is not resolved.
    assert_eq!(bindings.constants[0].fields[0].ty, pointer(named("G_u8")));
}

#[test]
fn use_that_cannot_be_instantiated_is_left_and_warned_of() {
    let mut p = parts(Language::C);
    p.structs.push(item(ItemKind::Struct, "Plain", &[], vec![field("x", integer(IntKind::B8, false))]));
    p.structs.push(item(ItemKind::Struct, "One", &["T"], vec![field("x", named("T"))]));
    p.functions.push(function(
        "root",
        applied("Plain", vec![integer(IntKind::B8, false)]),
        vec![("a", applied("One", vec![integer(IntKind::B8, false), integer(IntKind::B8, true)]))],
    ));
    let bindings = generate(p);
    assert_eq!(
        bindings.warnings,
        vec![
            Warning::CannotInstantiate { item: Path::new("Plain") },
            Warning::CannotInstantiate { item: Path::new("One") },
        ]
    );
    // The uses stay as they were written.
    match &bindings.functions[0].ret {
        Type::Path(p) => assert_eq!(p.generics.len(), 1),
        _ => panic!("a path"),
    }
    assert_eq!(names(&bindings.items), vec!["Plain".to_string()]);
}

#[test]
fn erasure_that_reaches_its_bound_is_warned_of() {
    let mut p = parts(Language::C);
    let mut looped = item(ItemKind::Typedef, "Loop", &[], vec![field("", named("Loop"))]);
    looped.annotations.transparent_typedef = true;
    p.typedefs.push(looped);
    p.functions.push(function("root", named("Loop"), vec![]));
    let bindings = generate(p);
    assert!(bindings.warnings.contains(&Warning::DepthReached { stage: Stage::Erasure }));
    assert!(!bindings.warnings.contains(&Warning::DepthReached { stage: Stage::Instantiation }));
    assert!(!bindings.warnings.contains(&Warning::DepthReached { stage: Stage::Dependencies }));
}

#[test]
fn instantiation_that_reaches_its_bound_is_warned_of() {
    let mut p = parts(Language::C);
    p.structs.push(item(
        ItemKind::Struct,
        "Grow",
        &["T"],
        vec![field("next", pointer(applied("Grow", vec![pointer(named("T"))])))],
    ));
    p.functions.push(function("root", applied("Grow", vec![integer(IntKind::B8, false)]), vec![]));
    let bindings = generate(p);
    assert_eq!(bindings.warnings, vec![Warning::DepthReached { stage: Stage::Instantiation }]);
}

#[test]
fn library_with_an_item_in_the_wrong_category_is_refused() {
    let mut p = parts(Language::C);
    p.structs.push(item(ItemKind::Union, "U", &[], vec![field("x", integer(IntKind::B8, false))]));
    assert_eq!(
        library(p).generate().err(),
        Some(Error::Unsupported("an item stands in a category of another kind".to_string()))
    );
    let mut p = parts(Language::C);
    p.opaque_items.push(item(ItemKind::OpaqueItem, "O", &[], vec![field("x", integer(IntKind::B8, false))]));
    assert!(library(p).generate().is_err());
    assert!(library(parts(Language::C)).generate().is_ok());
}
