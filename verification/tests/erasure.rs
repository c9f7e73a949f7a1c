use cbindgen::config::{
    Config, ConstantConfig, ExportConfig, FunctionConfig, Language, MangleConfig, RenameRule,
    SortKey, Style,
};
use cbindgen::erase::KnownErasedTypes;
use cbindgen::generic_path::{GenericArgument, GenericParam, GenericParams, GenericPath};
use cbindgen::item::{AnnotationSet, Documentation};
use cbindgen::item_map::ItemMap;
use cbindgen::library::Library;
use cbindgen::opaque::OpaqueItem;
use cbindgen::path::Path;
use cbindgen::ty::{IntKind, PrimitiveType, Type};

fn config() -> Config {
    Config {
        language: Language::C,
        style: Style::Both,
        sort_by: SortKey::Unsorted,
        function: FunctionConfig { sort_by: None, rename_args: RenameRule::Keep },
        constant: ConstantConfig { sort_by: None },
        export: ExportConfig {
            roots: vec![],
            exclude: vec![],
            rename: vec![],
            prefix: None,
            renaming_overrides_prefixing: false,
            item_types: vec![],
            mangle: MangleConfig { remove_underscores: false },
        },
    }
}

fn wrapper(name: &str) -> OpaqueItem {
    OpaqueItem::new(
        Path::new(name),
        GenericParams(vec![GenericParam::new_type_param("T")]),
        None,
        AnnotationSet::new(),
        Documentation::none(),
    )
}

fn u32_type() -> Type {
    Type::Primitive(PrimitiveType::Integer { zeroable: true, signed: false, kind: IntKind::B32 })
}

fn applied(name: &str, arg: Type) -> Type {
    Type::Path(GenericPath::new(Path::new(name), vec![GenericArgument::Type(arg)]))
}

fn library_with_wrappers() -> Library {
    let mut opaque_items = ItemMap::new();
    assert!(opaque_items.try_insert(wrapper("Option").container()));
    assert!(opaque_items.try_insert(wrapper("NonNull").container()));
    assert!(opaque_items.try_insert(wrapper("NonZero").container()));
    Library::new(
        config(),
        ItemMap::new(),
        ItemMap::new(),
        ItemMap::new(),
        ItemMap::new(),
        ItemMap::new(),
        opaque_items,
        ItemMap::new(),
        vec![],
        vec![],
        String::new(),
    )
}

#[test]
fn optional_non_null_erases_to_nullable_pointer() {
    let lib = library_with_wrappers();
    let mut erased = KnownErasedTypes::default();
    let target = applied("Option", applied("NonNull", u32_type()));
    let result = erased.erase_types(&lib, &target, &[]);
    assert_eq!(
        result,
        Some(Type::Ptr {
            ty: Box::new(u32_type()),
            is_const: false,
            is_nullable: true,
            is_ref: false,
        })
    );
}

#[test]
fn erased_type_is_left_alone() {
    let lib = library_with_wrappers();
    let mut erased = KnownErasedTypes::default();
    let mut target = applied("Option", applied("NonNull", u32_type()));
    erased.erase_types_inplace(&lib, &mut target, &[]);
    let once = target.clone();
    erased.erase_types_inplace(&lib, &mut target, &[]);
    assert_eq!(target, once);
}
