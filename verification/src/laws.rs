use vstd::prelude::*;
use crate::erase::{
    cached, erase_args, erase_fully, erase_further, erase_query, erase_step, erase_types,
    ErasureCache,
};
use crate::declarationtyperesolver::{
    declaration_of, declared_as, lemma_declared_stays, register, Declarations,
};
use crate::instantiate::{
    add_type, add_types, instantiate_all, instantiate_one, instantiates, instantiation,
};
use crate::item::{ItemKind, ItemModel};
use crate::library::{add_functions, add_items, collect_declarations, LibraryModel};
use crate::config::MangleConfig;
use crate::instantiate::{add_function, add_item};
use crate::passes::rewrite_function;
use crate::library::rewrite_functions;
use crate::reach::lemma_found_is_held;
use crate::mangle::mangled_name;
use crate::monomorph::{replacement, MonomorphsModel};
use crate::passes::collect_declaration;
use crate::rewrite::{rewrite_path, PathOp};
use crate::ty::{
    fresh_path, Bindings, DeclarationType, GenericArgumentModel, GenericPathModel, TypeModel,
};

verus! {

/// Whether `new` records of every type that `old` records something the
/// same as `old` does.
pub open spec fn keeps_answers(old: ErasureCache, new: ErasureCache) -> bool {
    forall|k: TypeModel| (#[trigger] cached(old, k)) is Some ==> cached(new, k) == cached(old, k)
}

/// A query that is asked a second time is answered from the cache: once a
/// type was asked about, the cache holds a record of it; asking again with
/// the same bindings gives the same answer, whatever the depth, and leaves
/// the cache as it is.
pub proof fn law_second_query_is_answered_from_cache(
    cache: ErasureCache,
    lib: LibraryModel,
    target: TypeModel,
    m: Bindings,
    depth: nat,
    later_depth: nat,
)
    ensures
        ({
            let first = erase_query(cache, lib, target, m, depth);
            let second = erase_query(first.0, lib, target, m, later_depth);
            &&& cached(first.0, target) is Some
            &&& second.1 == first.1
            &&& second.0 == first.0
        }),
{
    if cached(cache, target) is None {
        let inner = erase_fully(cache, lib, target, m, depth);
        let after = inner.0.record(target, inner.1);
        assert(after.records.drop_last() =~= inner.0.records);
    }
}

/// A query changes no answer that the cache held before it.
pub proof fn lemma_query_keeps_answers(
    cache: ErasureCache,
    lib: LibraryModel,
    target: TypeModel,
    m: Bindings,
    depth: nat,
)
    ensures
        keeps_answers(cache, erase_query(cache, lib, target, m, depth).0),
    decreases depth, target, 3nat,
{
    if cached(cache, target) is None {
        lemma_fully_keeps_answers(cache, lib, target, m, depth);
        let inner = erase_fully(cache, lib, target, m, depth);
        let after = inner.0.record(target, inner.1);
        assert(after.records.drop_last() =~= inner.0.records);
        assert forall|k: TypeModel| (#[trigger] cached(cache, k)) is Some implies cached(after, k)
            == cached(cache, k) by {
            assert(k != target);
            assert(cached(inner.0, k) == cached(cache, k));
        }
    }
}

proof fn lemma_fully_keeps_answers(
    cache: ErasureCache,
    lib: LibraryModel,
    target: TypeModel,
    m: Bindings,
    depth: nat,
)
    ensures
        keeps_answers(cache, erase_fully(cache, lib, target, m, depth).0),
    decreases depth, target, 2nat,
{
    lemma_step_keeps_answers(cache, lib, target, m, depth);
    let first = erase_step(cache, lib, target, m, depth);
    match first.1 {
        None => {},
        Some(t) => {
            if depth > 0 {
                lemma_further_keeps_answers(first.0, lib, t, m, (depth - 1) as nat);
            }
        },
    }
}

proof fn lemma_further_keeps_answers(
    cache: ErasureCache,
    lib: LibraryModel,
    t: TypeModel,
    m: Bindings,
    depth: nat,
)
    ensures
        keeps_answers(cache, erase_further(cache, lib, t, m, depth).0),
    decreases depth, t, 1nat,
{
    lemma_step_keeps_answers(cache, lib, t, m, depth);
    let next = erase_step(cache, lib, t, m, depth);
    match next.1 {
        None => {},
        Some(t2) => {
            if depth > 0 {
                lemma_further_keeps_answers(next.0, lib, t2, m, (depth - 1) as nat);
            }
        },
    }
}

proof fn lemma_step_keeps_answers(
    cache: ErasureCache,
    lib: LibraryModel,
    ty: TypeModel,
    m: Bindings,
    depth: nat,
)
    ensures
        keeps_answers(cache, erase_step(cache, lib, ty, m, depth).0),
    decreases depth, ty, 0nat,
{
    match ty {
        TypeModel::Primitive(_) => {},
        TypeModel::Ptr { ty: inner, .. } => {
            lemma_query_keeps_answers(cache, lib, *inner, m, depth);
        },
        TypeModel::Array(inner, _) => {
            lemma_query_keeps_answers(cache, lib, *inner, m, depth);
        },
        TypeModel::FuncPtr { ret, args, .. } => {
            lemma_query_keeps_answers(cache, lib, *ret, m, depth);
            let c1 = erase_query(cache, lib, *ret, m, depth).0;
            lemma_types_keep_answers(c1, lib, args, m, depth, 0);
        },
        TypeModel::Path(p) => {
            if p.generics.len() == 0 && crate::ty::first_binding(m, p.path, 0) is Some {
            } else {
                lemma_args_keep_answers(cache, lib, p.generics, m, depth, 0);
                let r = erase_args(cache, lib, p.generics, m, depth, 0);
                match lib.first_item(p.path) {
                    None => {},
                    Some(item) => {
                        if item.kind != crate::item::ItemKind::OpaqueItem {
                            match crate::erase::alias_target(item) {
                                Some(aliased) => {
                                    if depth > 0 && crate::generic_path::can_bind(
                                        item.generic_params,
                                        r.1,
                                    ) {
                                        lemma_query_keeps_answers(
                                            r.0,
                                            lib,
                                            aliased,
                                            crate::generic_path::bind(item.generic_params, r.1),
                                            (depth - 1) as nat,
                                        );
                                    }
                                },
                                None => {},
                            }
                        }
                    },
                }
            }
        },
    }
}

proof fn lemma_args_keep_answers(
    cache: ErasureCache,
    lib: LibraryModel,
    args: Seq<GenericArgumentModel>,
    m: Bindings,
    depth: nat,
    from: int,
)
    ensures
        keeps_answers(cache, erase_args(cache, lib, args, m, depth, from).0),
    decreases depth, args, args.len() - from,
{
    if 0 <= from < args.len() {
        let c1 = match args[from] {
            GenericArgumentModel::Const(_) => cache,
            GenericArgumentModel::Type(t) => match crate::erase::bound_constant(t, m) {
                Some(_) => cache,
                None => {
                    lemma_query_keeps_answers(cache, lib, t, m, depth);
                    erase_query(cache, lib, t, m, depth).0
                },
            },
        };
        lemma_args_keep_answers(c1, lib, args, m, depth, from + 1);
    }
}

proof fn lemma_types_keep_answers(
    cache: ErasureCache,
    lib: LibraryModel,
    types: Seq<TypeModel>,
    m: Bindings,
    depth: nat,
    from: int,
)
    ensures
        keeps_answers(cache, erase_types(cache, lib, types, m, depth, from).0),
    decreases depth, types, types.len() - from,
{
    if 0 <= from < types.len() {
        lemma_query_keeps_answers(cache, lib, types[from], m, depth);
        let c1 = erase_query(cache, lib, types[from], m, depth).0;
        lemma_types_keep_answers(c1, lib, types, m, depth, from + 1);
    }
}

/// Once a type was asked about, asking again gives the same answer however
/// many other queries were made in between: a cache that keeps the answers
/// of the cache after the first query answers as the first query did, and
/// is left as it is.
pub proof fn law_later_query_gives_the_same_answer(
    cache: ErasureCache,
    lib: LibraryModel,
    target: TypeModel,
    m: Bindings,
    depth: nat,
    later: ErasureCache,
    later_depth: nat,
)
    requires
        keeps_answers(erase_query(cache, lib, target, m, depth).0, later),
    ensures
        erase_query(later, lib, target, m, later_depth) == (
            later,
            erase_query(cache, lib, target, m, depth).1,
        ),
{
    law_second_query_is_answered_from_cache(cache, lib, target, m, depth, later_depth);
    let first = erase_query(cache, lib, target, m, depth);
    assert(cached(first.0, target) is Some);
    assert(cached(later, target) == cached(first.0, target));
}

/// Whether `new` holds for every path that `old` holds a name for the same
/// name as `old` does.
pub open spec fn keeps_names(old: MonomorphsModel, new: MonomorphsModel) -> bool {
    forall|key: GenericPathModel| (#[trigger] old.mangle_path(key)) is Some ==> new.mangle_path(key)
        == old.mangle_path(key)
}

/// A name registered at the end is found for its path where the path had no
/// name before, and changes the name of no other path.
pub proof fn lemma_register_adds(
    r: Seq<(GenericPathModel, Seq<char>)>,
    key: GenericPathModel,
    name: Seq<char>,
    other: GenericPathModel,
    from: int,
)
    requires
        0 <= from <= r.len(),
    ensures
        replacement(r.push((key, name)), other, from) == (match replacement(r, other, from) {
            Some(found) => Some(found),
            None => if other == key {
                Some(name)
            } else {
                None
            },
        }),
    decreases r.len() - from,
{
    let after = r.push((key, name));
    if from < r.len() {
        assert(after[from] == r[from]);
        if r[from].0 != other {
            lemma_register_adds(r, key, name, other, from + 1);
        }
    } else {
        assert(after[from] == (key, name));
        assert(replacement(after, other, from + 1) is None);
    }
}

proof fn lemma_register_keeps_names(mono: MonomorphsModel, key: GenericPathModel, name: Seq<char>)
    ensures
        keeps_names(mono, mono.register(key, name)),
        !mono.contains(key) ==> mono.register(key, name).mangle_path(key) == Some(name),
{
    assert forall|other: GenericPathModel| (#[trigger] mono.mangle_path(other)) is Some implies mono.register(
        key,
        name,
    ).mangle_path(other) == mono.mangle_path(other) by {
        lemma_register_adds(mono.replacements, key, name, other, 0);
    }
    lemma_register_adds(mono.replacements, key, name, key, 0);
}

/// What a type asks for changes the name of no path that had a name before.
pub proof fn lemma_add_type_keeps_names(
    lib: LibraryModel,
    t: TypeModel,
    mono: MonomorphsModel,
    depth: nat,
)
    ensures
        keeps_names(mono, add_type(lib, t, mono, depth)),
    decreases depth, 1nat, t, 0nat,
{
    match t {
        TypeModel::Ptr { ty, .. } => lemma_add_type_keeps_names(lib, *ty, mono, depth),
        TypeModel::Path(p) => {
            if p.generics.len() == 0 || mono.contains(p) {
            } else {
                match lib.get_items(p.path) {
                    Some(items) => lemma_instantiate_all_keeps_names(
                        lib,
                        items,
                        0,
                        p.generics,
                        mono,
                        depth,
                    ),
                    None => {},
                }
            }
        },
        TypeModel::Primitive(_) => {},
        TypeModel::Array(ty, _) => lemma_add_type_keeps_names(lib, *ty, mono, depth),
        TypeModel::FuncPtr { ret, args, .. } => {
            lemma_add_type_keeps_names(lib, *ret, mono, depth);
            lemma_add_types_keeps_names(lib, args, 0, add_type(lib, *ret, mono, depth), depth);
        },
    }
}

/// What a list of types asks for changes the name of no path that had a
/// name before.
pub proof fn lemma_add_types_keeps_names(
    lib: LibraryModel,
    types: Seq<TypeModel>,
    from: int,
    mono: MonomorphsModel,
    depth: nat,
)
    ensures
        keeps_names(mono, add_types(lib, types, from, mono, depth)),
    decreases depth, 1nat, types, types.len() - from,
{
    if 0 <= from < types.len() {
        lemma_add_type_keeps_names(lib, types[from], mono, depth);
        lemma_add_types_keeps_names(
            lib,
            types,
            from + 1,
            add_type(lib, types[from], mono, depth),
            depth,
        );
    }
}

proof fn lemma_instantiate_all_keeps_names(
    lib: LibraryModel,
    items: Seq<ItemModel>,
    from: int,
    args: Seq<GenericArgumentModel>,
    mono: MonomorphsModel,
    depth: nat,
)
    ensures
        keeps_names(mono, instantiate_all(lib, items, from, args, mono, depth)),
    decreases depth, 0nat, items, items.len() - from,
{
    if 0 <= from < items.len() {
        lemma_instantiate_one_keeps_names(lib, items[from], args, mono, depth);
        lemma_instantiate_all_keeps_names(
            lib,
            items,
            from + 1,
            args,
            instantiate_one(lib, items[from], args, mono, depth),
            depth,
        );
    }
}

/// An instantiation changes the name of no path that had a name before.
pub proof fn lemma_instantiate_one_keeps_names(
    lib: LibraryModel,
    item: ItemModel,
    args: Seq<GenericArgumentModel>,
    mono: MonomorphsModel,
    depth: nat,
)
    ensures
        keeps_names(mono, instantiate_one(lib, item, args, mono, depth)),
    decreases depth, 0nat, item, 0nat,
{
    if instantiates(item, args, mono, depth) {
        let copy = instantiation(item, args, lib.config.export.mangle);
        let key = fresh_path(item.path, args);
        let registered = mono.register(key, copy.path);
        lemma_register_keeps_names(mono, key, copy.path);
        lemma_add_types_keeps_names(lib, copy.types(), 0, registered, (depth - 1) as nat);
    }
}

/// An instantiation is registered once, under one name.
///
/// After the first request for the instantiation of `item` with `args`, the
/// registry holds the mangled name for that path. A request made again, from
/// wherever and at whatever depth, adds nothing: the registry stays as it
/// is, so the concrete item is emitted once. And every reference to the
/// path, once mangled, is a reference to that name.
pub proof fn law_instantiation_is_registered_once(
    lib: LibraryModel,
    item: ItemModel,
    args: Seq<GenericArgumentModel>,
    mono: MonomorphsModel,
    depth: nat,
    later_depth: nat,
)
    requires
        instantiates(item, args, mono, depth),
    ensures
        ({
            let after = instantiate_one(lib, item, args, mono, depth);
            let key = fresh_path(item.path, args);
            let name = mangled_name(item.path, args, true, lib.config.export.mangle);
            &&& after.mangle_path(key) == Some(name)
            &&& instantiate_one(lib, item, args, after, later_depth) == after
            &&& args.len() > 0 ==> rewrite_path(key, PathOp::Mangle(after)) == fresh_path(
                name,
                Seq::empty(),
            )
        }),
{
    let copy = instantiation(item, args, lib.config.export.mangle);
    let key = fresh_path(item.path, args);
    let registered = mono.register(key, copy.path);
    lemma_register_keeps_names(mono, key, copy.path);
    lemma_add_types_keeps_names(lib, copy.types(), 0, registered, (depth - 1) as nat);
    let grown = add_types(lib, copy.types(), 0, registered, (depth - 1) as nat);
    assert(registered.mangle_path(key) is Some);
    assert(grown.mangle_path(key) == registered.mangle_path(key));
}

/// A name that the registry holds for a path stays the name of that path,
/// whatever else a type asks for afterwards; so two references to one path
/// are mangled to one name.
pub proof fn law_references_resolve_alike(
    lib: LibraryModel,
    t: TypeModel,
    mono: MonomorphsModel,
    depth: nat,
    key: GenericPathModel,
)
    requires
        mono.contains(key),
    ensures
        rewrite_path(key, PathOp::Mangle(add_type(lib, t, mono, depth))) == rewrite_path(
            key,
            PathOp::Mangle(mono),
        ),
{
    lemma_add_type_keeps_names(lib, t, mono, depth);
    assert(mono.mangle_path(key) is Some);
}

/// Registering further items changes the category of no name that was
/// registered before.
pub proof fn lemma_collect_keeps_declared(
    d: Declarations,
    items: Seq<ItemModel>,
    from: int,
    name: Seq<char>,
)
    requires
        0 <= from,
        declared_as(d, name, 0) is Some,
    ensures
        declared_as(collect_declarations(d, items, from), name, 0) == declared_as(d, name, 0),
    decreases items.len() - from,
{
    if from < items.len() {
        let next = collect_declaration(d, items[from]);
        match declaration_of(items[from]) {
            Some(kind) => {
                lemma_declared_stays(d, items[from].path, kind, name, 0);
            },
            None => {},
        }
        lemma_collect_keeps_declared(next, items, from + 1, name);
    }
}

/// A name registered into registrations that do not hold it yet is found
/// under the category it was registered as.
pub proof fn lemma_register_declares(
    d: Declarations,
    name: Seq<char>,
    kind: DeclarationType,
    from: int,
)
    requires
        0 <= from <= d.len(),
        declared_as(d, name, from) is None,
    ensures
        declared_as(d.push((name, kind)), name, from) == Some(kind),
    decreases d.len() - from,
{
    let after = d.push((name, kind));
    if from < d.len() {
        assert(after[from] == d[from]);
        lemma_register_declares(d, name, kind, from + 1);
    } else {
        assert(after[from] == (name, kind));
    }
}

/// Whether every registration of `d` is one as a struct.
pub open spec fn only_structs(d: Declarations) -> bool {
    forall|i: int| 0 <= i < d.len() ==> (#[trigger] d[i]).1 == DeclarationType::Struct
}

proof fn lemma_only_structs_declared(d: Declarations, name: Seq<char>, from: int)
    requires
        only_structs(d),
        0 <= from,
        declared_as(d, name, from) is Some,
    ensures
        declared_as(d, name, from) == Some(DeclarationType::Struct),
    decreases d.len() - from,
{
    if from < d.len() && d[from].0 != name {
        lemma_only_structs_declared(d, name, from + 1);
    }
}

/// Whether the items `items` are all of the kind `kind`.
pub open spec fn all_of_kind(items: Seq<ItemModel>, kind: ItemKind) -> bool {
    forall|i: int| 0 <= i < items.len() ==> (#[trigger] items[i]).kind == kind
}

proof fn lemma_structs_are_declared_structs(
    d: Declarations,
    items: Seq<ItemModel>,
    from: int,
    i: int,
)
    requires
        only_structs(d),
        all_of_kind(items, ItemKind::Struct),
        0 <= from <= items.len(),
        0 <= i < items.len(),
        i < from ==> declared_as(d, items[i].path, 0) == Some(DeclarationType::Struct),
    ensures
        declared_as(collect_declarations(d, items, from), items[i].path, 0) == Some(
            DeclarationType::Struct,
        ),
        only_structs(collect_declarations(d, items, from)),
    decreases items.len() - from,
{
    if from < items.len() {
        let x = items[from];
        assert(x.kind == ItemKind::Struct);
        let next = register(d, x.path, DeclarationType::Struct);
        assert(collect_declaration(d, x) == next);
        assert(only_structs(next));
        if i < from {
            lemma_declared_stays(d, x.path, DeclarationType::Struct, items[i].path, 0);
        } else if i == from {
            if declared_as(d, x.path, 0) is Some {
                lemma_only_structs_declared(d, x.path, 0);
            } else {
                lemma_register_declares(d, x.path, DeclarationType::Struct, 0);
            }
        }
        lemma_structs_are_declared_structs(next, items, from + 1, i);
    }
}

/// A struct is referred to as a struct, whatever else has its name: the
/// structs are registered first and the opaque items last, and the first
/// registration of a name decides.
pub proof fn law_struct_is_declared_as_struct(lib: LibraryModel, i: int)
    requires
        lib.well_formed(),
        0 <= i < lib.structs.len(),
    ensures
        declared_as(lib.declarations(), lib.structs[i].path, 0) == Some(DeclarationType::Struct),
{
    let name = lib.structs[i].path;
    let d0 = Seq::<(Seq<char>, DeclarationType)>::empty();
    assert(all_of_kind(lib.structs, ItemKind::Struct)) by {
        assert forall|k: int| 0 <= k < lib.structs.len() implies (#[trigger] lib.structs[k]).kind
            == ItemKind::Struct by {
            assert(crate::shape::fits(lib.structs[k], ItemKind::Struct));
        }
    }
    lemma_structs_are_declared_structs(d0, lib.structs, 0, i);
    let d1 = collect_declarations(d0, lib.structs, 0);
    lemma_collect_keeps_declared(d1, lib.enums, 0, name);
    let d2 = collect_declarations(d1, lib.enums, 0);
    lemma_collect_keeps_declared(d2, lib.unions, 0, name);
    let d3 = collect_declarations(d2, lib.unions, 0);
    lemma_collect_keeps_declared(d3, lib.typedefs, 0, name);
    let d4 = collect_declarations(d3, lib.typedefs, 0);
    lemma_collect_keeps_declared(d4, lib.opaque_items, 0, name);
}

/// The registrations of the structs, enums, unions and typedefs of `lib`:
/// those of the items that have a layout.
pub open spec fn layout_declarations(lib: LibraryModel) -> Declarations {
    let d1 = collect_declarations(Seq::empty(), lib.structs, 0);
    let d2 = collect_declarations(d1, lib.enums, 0);
    let d3 = collect_declarations(d2, lib.unions, 0);
    collect_declarations(d3, lib.typedefs, 0)
}

/// An opaque item never decides how a name is referred to that an item with
/// a layout has: the category of such a name is the one that the items with
/// a layout give it.
pub proof fn law_opaque_item_never_overrides(lib: LibraryModel, name: Seq<char>)
    requires
        declared_as(layout_declarations(lib), name, 0) is Some,
    ensures
        declared_as(lib.declarations(), name, 0) == declared_as(layout_declarations(lib), name, 0),
{
    lemma_collect_keeps_declared(layout_declarations(lib), lib.opaque_items, 0, name);
}

/// Whether the name that `mono` holds for `p`, if it holds one, is the
/// mangled name of `p`.
pub open spec fn named_right(mono: MonomorphsModel, p: GenericPathModel, cfg: MangleConfig) -> bool {
    mono.mangle_path(p) is Some ==> mono.mangle_path(p) == Some(
        mangled_name(p.path, p.generics, true, cfg),
    )
}

proof fn lemma_add_type_names_right(
    lib: LibraryModel,
    t: TypeModel,
    mono: MonomorphsModel,
    depth: nat,
    p: GenericPathModel,
)
    requires
        named_right(mono, p, lib.config.export.mangle),
    ensures
        named_right(add_type(lib, t, mono, depth), p, lib.config.export.mangle),
    decreases depth, 1nat, t, 0nat,
{
    match t {
        TypeModel::Ptr { ty, .. } => lemma_add_type_names_right(lib, *ty, mono, depth, p),
        TypeModel::Path(q) => {
            if q.generics.len() == 0 || mono.contains(q) {
            } else {
                match lib.get_items(q.path) {
                    Some(items) => lemma_instantiate_all_names_right(
                        lib,
                        items,
                        0,
                        q.generics,
                        mono,
                        depth,
                        p,
                    ),
                    None => {},
                }
            }
        },
        TypeModel::Primitive(_) => {},
        TypeModel::Array(ty, _) => lemma_add_type_names_right(lib, *ty, mono, depth, p),
        TypeModel::FuncPtr { ret, args, .. } => {
            lemma_add_type_names_right(lib, *ret, mono, depth, p);
            lemma_add_types_names_right(lib, args, 0, add_type(lib, *ret, mono, depth), depth, p);
        },
    }
}

proof fn lemma_add_types_names_right(
    lib: LibraryModel,
    types: Seq<TypeModel>,
    from: int,
    mono: MonomorphsModel,
    depth: nat,
    p: GenericPathModel,
)
    requires
        named_right(mono, p, lib.config.export.mangle),
    ensures
        named_right(add_types(lib, types, from, mono, depth), p, lib.config.export.mangle),
    decreases depth, 1nat, types, types.len() - from,
{
    if 0 <= from < types.len() {
        lemma_add_type_names_right(lib, types[from], mono, depth, p);
        lemma_add_types_names_right(
            lib,
            types,
            from + 1,
            add_type(lib, types[from], mono, depth),
            depth,
            p,
        );
    }
}

proof fn lemma_instantiate_all_names_right(
    lib: LibraryModel,
    items: Seq<ItemModel>,
    from: int,
    args: Seq<GenericArgumentModel>,
    mono: MonomorphsModel,
    depth: nat,
    p: GenericPathModel,
)
    requires
        named_right(mono, p, lib.config.export.mangle),
    ensures
        named_right(
            instantiate_all(lib, items, from, args, mono, depth),
            p,
            lib.config.export.mangle,
        ),
    decreases depth, 0nat, items, items.len() - from,
{
    if 0 <= from < items.len() {
        lemma_instantiate_one_names_right(lib, items[from], args, mono, depth, p);
        lemma_instantiate_all_names_right(
            lib,
            items,
            from + 1,
            args,
            instantiate_one(lib, items[from], args, mono, depth),
            depth,
            p,
        );
    }
}

proof fn lemma_instantiate_one_names_right(
    lib: LibraryModel,
    item: ItemModel,
    args: Seq<GenericArgumentModel>,
    mono: MonomorphsModel,
    depth: nat,
    p: GenericPathModel,
)
    requires
        named_right(mono, p, lib.config.export.mangle),
    ensures
        named_right(instantiate_one(lib, item, args, mono, depth), p, lib.config.export.mangle),
    decreases depth, 0nat, item, 0nat,
{
    if instantiates(item, args, mono, depth) {
        let copy = instantiation(item, args, lib.config.export.mangle);
        let key = fresh_path(item.path, args);
        let registered = mono.register(key, copy.path);
        lemma_register_adds(mono.replacements, key, copy.path, p, 0);
        assert(named_right(registered, p, lib.config.export.mangle));
        lemma_add_types_names_right(lib, copy.types(), 0, registered, (depth - 1) as nat, p);
    }
}

proof fn lemma_instantiate_all_registers(
    lib: LibraryModel,
    items: Seq<ItemModel>,
    from: int,
    args: Seq<GenericArgumentModel>,
    mono: MonomorphsModel,
    depth: nat,
    p: GenericPathModel,
)
    requires
        0 <= from,
        mono.contains(p),
    ensures
        instantiate_all(lib, items, from, args, mono, depth).contains(p),
    decreases items.len() - from,
{
    if from < items.len() {
        lemma_instantiate_one_keeps_names(lib, items[from], args, mono, depth);
        let next = instantiate_one(lib, items[from], args, mono, depth);
        assert(mono.mangle_path(p) is Some);
        lemma_instantiate_all_registers(lib, items, from + 1, args, next, depth, p);
    }
}

/// Whether the library can instantiate the path `p`: `p` is written with
/// arguments and as it is first written, the first item of its name is
/// generic and takes the arguments, and the bound `depth` leaves room.
pub open spec fn can_instantiate(lib: LibraryModel, p: GenericPathModel, depth: nat) -> bool {
    &&& p.generics.len() > 0
    &&& p == fresh_path(p.path, p.generics)
    &&& depth > 0
    &&& lib.first_item(p.path) matches Some(item) && item.is_generic()
        && crate::generic_path::can_bind(item.generic_params, p.generics)
}

/// A use of a path that the library can instantiate leaves the path
/// registered.
pub proof fn lemma_use_is_registered(
    lib: LibraryModel,
    p: GenericPathModel,
    mono: MonomorphsModel,
    depth: nat,
)
    requires
        can_instantiate(lib, p, depth),
    ensures
        add_type(lib, TypeModel::Path(p), mono, depth).contains(p),
{
    if !mono.contains(p) {
        let items = lib.get_items(p.path)->0;
        lemma_found_is_held(lib, p.path, 0);
        assert(items[0].path == p.path);
        assert(instantiates(items[0], p.generics, mono, depth));
        law_instantiation_is_registered_once(lib, items[0], p.generics, mono, depth, depth);
        let first = instantiate_one(lib, items[0], p.generics, mono, depth);
        assert(first.contains(p));
        lemma_instantiate_all_registers(lib, items, 1, p.generics, first, depth, p);
        assert(items.len() > 0);
        assert(instantiate_all(lib, items, 0, p.generics, mono, depth) == instantiate_all(
            lib,
            items,
            1,
            p.generics,
            first,
            depth,
        ));
        assert(add_type(lib, TypeModel::Path(p), mono, depth) == instantiate_all(
            lib,
            items,
            0,
            p.generics,
            mono,
            depth,
        ));
    }
}

proof fn lemma_add_types_registers(
    lib: LibraryModel,
    types: Seq<TypeModel>,
    from: int,
    mono: MonomorphsModel,
    depth: nat,
    p: GenericPathModel,
    a: int,
)
    requires
        0 <= from <= types.len(),
        can_instantiate(lib, p, depth),
        mono.contains(p) || (from <= a < types.len() && types[a] == TypeModel::Path(p)),
    ensures
        add_types(lib, types, from, mono, depth).contains(p),
    decreases types.len() - from,
{
    if from < types.len() {
        let next = add_type(lib, types[from], mono, depth);
        if mono.contains(p) {
            lemma_add_type_keeps_names(lib, types[from], mono, depth);
            assert(mono.mangle_path(p) is Some);
        } else if a == from {
            lemma_use_is_registered(lib, p, mono, depth);
        }
        lemma_add_types_registers(lib, types, from + 1, next, depth, p, a);
    }
}

proof fn lemma_add_items_keeps_registered(
    lib: LibraryModel,
    items: Seq<ItemModel>,
    from: int,
    mono: MonomorphsModel,
    depth: nat,
    p: GenericPathModel,
)
    requires
        0 <= from,
        named_right(mono, p, lib.config.export.mangle),
    ensures
        named_right(add_items(lib, items, from, mono, depth), p, lib.config.export.mangle),
        mono.contains(p) ==> add_items(lib, items, from, mono, depth).contains(p),
    decreases items.len() - from,
{
    if from < items.len() {
        let next = add_item(lib, items[from], mono, depth);
        if !items[from].is_generic() {
            lemma_add_types_names_right(lib, items[from].types(), 0, mono, depth, p);
            lemma_add_types_keeps_names(lib, items[from].types(), 0, mono, depth);
        }
        if mono.contains(p) {
            assert(mono.mangle_path(p) is Some);
        }
        lemma_add_items_keeps_registered(lib, items, from + 1, next, depth, p);
    }
}

proof fn lemma_add_functions_registers(
    lib: LibraryModel,
    from: int,
    mono: MonomorphsModel,
    depth: nat,
    p: GenericPathModel,
    k: int,
    a: int,
)
    requires
        0 <= from <= lib.functions.len(),
        can_instantiate(lib, p, depth),
        named_right(mono, p, lib.config.export.mangle),
        mono.contains(p) || (from <= k < lib.functions.len() && 0 <= a
            < lib.functions[k].args.len() && lib.functions[k].args[a].ty == TypeModel::Path(p)),
    ensures
        add_functions(lib, lib.functions, from, mono, depth).mangle_path(p) == Some(
            mangled_name(p.path, p.generics, true, lib.config.export.mangle),
        ),
    decreases lib.functions.len() - from,
{
    if from < lib.functions.len() {
        let f = lib.functions[from];
        let m1 = add_type(lib, f.ret, mono, depth);
        lemma_add_type_names_right(lib, f.ret, mono, depth, p);
        lemma_add_type_keeps_names(lib, f.ret, mono, depth);
        if mono.contains(p) {
            assert(mono.mangle_path(p) is Some);
        }
        lemma_add_types_names_right(lib, f.arg_types(), 0, m1, depth, p);
        let next = add_function(lib, f, mono, depth);
        if m1.contains(p) {
            lemma_add_types_registers(lib, f.arg_types(), 0, m1, depth, p, 0);
        } else if k == from {
            assert(f.arg_types()[a] == TypeModel::Path(p));
            lemma_add_types_registers(lib, f.arg_types(), 0, m1, depth, p, a);
        }
        lemma_add_functions_registers(lib, from + 1, next, depth, p, k, a);
    }
}

proof fn lemma_insert_copies_keeps_functions(
    lib: LibraryModel,
    cache: ErasureCache,
    mono: MonomorphsModel,
    depth: nat,
)
    ensures
        lib.insert_monomorphs(cache, mono, depth).1.functions == lib.functions,
{
    let r1 = lib.insert_copies(cache, mono.of_kind(ItemKind::Struct), 0, ItemKind::Struct, depth);
    crate::library::lemma_insert_copies_keeps_rest(lib, cache, mono.of_kind(ItemKind::Struct), 0, ItemKind::Struct, depth);
    let r2 = r1.1.insert_copies(r1.0, mono.of_kind(ItemKind::Union), 0, ItemKind::Union, depth);
    crate::library::lemma_insert_copies_keeps_rest(r1.1, r1.0, mono.of_kind(ItemKind::Union), 0, ItemKind::Union, depth);
    let r3 = r2.1.insert_copies(r2.0, mono.of_kind(ItemKind::OpaqueItem), 0, ItemKind::OpaqueItem, depth);
    crate::library::lemma_insert_copies_keeps_rest(r2.1, r2.0, mono.of_kind(ItemKind::OpaqueItem), 0, ItemKind::OpaqueItem, depth);
    let r4 = r3.1.insert_copies(r3.0, mono.of_kind(ItemKind::Typedef), 0, ItemKind::Typedef, depth);
    crate::library::lemma_insert_copies_keeps_rest(r3.1, r3.0, mono.of_kind(ItemKind::Typedef), 0, ItemKind::Typedef, depth);
    crate::library::lemma_insert_copies_keeps_rest(r4.1, r4.0, mono.of_kind(ItemKind::Enum), 0, ItemKind::Enum, depth);
}

/// Every use of one instantiation names the one concrete item: where an
/// argument of a function is a path that the library can instantiate, the
/// argument is, after instantiation, the mangled name of that path without
/// arguments. Two uses of the same path are so left as the same type.
pub proof fn law_use_sites_name_the_concrete_item(
    lib: LibraryModel,
    cache: ErasureCache,
    erase_depth: nat,
    depth: nat,
    p: GenericPathModel,
    k: int,
    a: int,
)
    requires
        can_instantiate(lib, p, depth),
        0 <= k < lib.functions.len(),
        0 <= a < lib.functions[k].args.len(),
        lib.functions[k].args[a].ty == TypeModel::Path(p),
    ensures
        ({
            let after = lib.instantiate_monomorphs(cache, erase_depth, depth).1;
            &&& after.functions.len() == lib.functions.len()
            &&& after.functions[k].args.len() == lib.functions[k].args.len()
            &&& after.functions[k].args[a].ty == TypeModel::Path(
                fresh_path(
                    mangled_name(p.path, p.generics, true, lib.config.export.mangle),
                    Seq::empty(),
                ),
            )
        }),
{
    let cfg = lib.config.export.mangle;
    let m0 = MonomorphsModel::empty();
    assert(!m0.contains(p));
    lemma_add_items_keeps_registered(lib, lib.structs, 0, m0, depth, p);
    let m1 = add_items(lib, lib.structs, 0, m0, depth);
    lemma_add_items_keeps_registered(lib, lib.unions, 0, m1, depth, p);
    let m2 = add_items(lib, lib.unions, 0, m1, depth);
    lemma_add_items_keeps_registered(lib, lib.enums, 0, m2, depth, p);
    let m3 = add_items(lib, lib.enums, 0, m2, depth);
    lemma_add_items_keeps_registered(lib, lib.typedefs, 0, m3, depth, p);
    let m4 = add_items(lib, lib.typedefs, 0, m3, depth);
    lemma_add_items_keeps_registered(lib, lib.globals, 0, m4, depth, p);
    let m5 = add_items(lib, lib.globals, 0, m4, depth);
    lemma_add_items_keeps_registered(lib, lib.constants, 0, m5, depth, p);
    let m6 = add_items(lib, lib.constants, 0, m5, depth);
    lemma_add_functions_registers(lib, 0, m6, depth, p, k, a);
    let mono = lib.monomorphs(depth);
    assert(mono.mangle_path(p) == Some(mangled_name(p.path, p.generics, true, cfg)));
    lemma_insert_copies_keeps_functions(lib, cache, mono, erase_depth);
    let after = lib.instantiate_monomorphs(cache, erase_depth, depth).1;
    let op = PathOp::Mangle(mono);
    assert(after.functions == rewrite_functions(lib.functions, op));
    assert(after.functions[k] == rewrite_function(lib.functions[k], op));
    let f = lib.functions[k];
    assert(f.arg_types()[a] == TypeModel::Path(p));
    assert(crate::rewrite::rewrite_types(f.arg_types(), op)[a] == crate::rewrite::rewrite_type(
        TypeModel::Path(p),
        op,
    ));
}

} // verus!
