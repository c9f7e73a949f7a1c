use vstd::prelude::*;
use crate::dependencies::{
    composite, layered, opaque, plain_enum, visit_args, visit_function, visit_item, visit_items,
    visit_type, visit_types, DependenciesModel,
};
use crate::function::FunctionModel;
use crate::generic_path::{declares, GenericParamModel};
use crate::item::{ItemContainer, ItemModel};
use crate::item_map::{items_named, named};
use crate::erase::ErasureCache;
use crate::item::ItemKind;
use crate::library::{
    item_allowed, lemma_insert_copies_keeps_rest, rename_items, rewrite_items,
    visit_functions, visit_roots, LibraryModel, Transfers,
};
use crate::monomorph::MonomorphsModel;
use crate::rewrite::PathOp;
use crate::warning::WarningModel;
use crate::model::contains_text;
use crate::sorting::{slot, sorted_by_name};
use crate::ty::{GenericArgumentModel, TypeModel};

verus! {

/// Whether the type `t` is written with the name `name`.
pub open spec fn mentions(t: TypeModel, name: Seq<char>) -> bool
    decreases t, 0nat,
{
    match t {
        TypeModel::Ptr { ty, .. } => mentions(*ty, name),
        TypeModel::Path(p) => p.path == name || args_mention(p.generics, name, 0),
        TypeModel::Primitive(_) => false,
        TypeModel::Array(ty, _) => mentions(*ty, name),
        TypeModel::FuncPtr { ret, args, .. } => mentions(*ret, name) || types_mention(
            args,
            name,
            0,
        ),
    }
}

/// Whether one of the arguments `args[from..]` is written with `name`.
pub open spec fn args_mention(args: Seq<GenericArgumentModel>, name: Seq<char>, from: int) -> bool
    decreases args, args.len() - from,
{
    if from < 0 || from >= args.len() {
        false
    } else {
        (match args[from] {
            GenericArgumentModel::Type(t) => mentions(t, name),
            GenericArgumentModel::Const(_) => false,
        }) || args_mention(args, name, from + 1)
    }
}

/// Whether one of the types `types[from..]` is written with `name`.
pub open spec fn types_mention(types: Seq<TypeModel>, name: Seq<char>, from: int) -> bool
    decreases types, types.len() - from,
{
    if from < 0 || from >= types.len() {
        false
    } else {
        mentions(types[from], name) || types_mention(types, name, from + 1)
    }
}

/// Whether the type of a field of `item` is written with `name`.
pub open spec fn item_mentions(item: ItemModel, name: Seq<char>) -> bool {
    types_mention(item.types(), name, 0)
}

/// Whether the signature of `f` is written with `name`.
pub open spec fn function_mentions(f: FunctionModel, name: Seq<char>) -> bool {
    mentions(f.ret, name) || types_mention(f.arg_types(), name, 0)
}

/// Whether `name` is a root of `lib`: a function, a global or a constant is
/// written with it, or the configuration names it as an item to emit.
pub open spec fn is_root(lib: LibraryModel, name: Seq<char>) -> bool {
    ||| exists|i: int|
        0 <= i < lib.functions.len() && function_mentions(#[trigger] lib.functions[i], name)
    ||| exists|i: int| 0 <= i < lib.globals.len() && item_mentions(#[trigger] lib.globals[i], name)
    ||| exists|i: int|
        0 <= i < lib.constants.len() && item_mentions(#[trigger] lib.constants[i], name)
    ||| contains_text(lib.config.export.roots, name)
}

/// Whether an item that the name `a` refers to is written with the name `b`.
pub open spec fn refers(lib: LibraryModel, a: Seq<char>, b: Seq<char>) -> bool {
    match lib.get_items(a) {
        Some(items) => exists|i: int|
            0 <= i < items.len() && item_mentions(#[trigger] items[i], b),
        None => false,
    }
}

/// Whether `name` is reached from a root of `lib` in at most `steps` steps,
/// a step leading from a name to a name that one of its items is written
/// with.
pub open spec fn reaches(lib: LibraryModel, name: Seq<char>, steps: nat) -> bool
    decreases steps,
{
    if steps == 0 {
        is_root(lib, name)
    } else {
        reaches(lib, name, (steps - 1) as nat) || exists|via: Seq<char>|
            reaches(lib, via, (steps - 1) as nat) && #[trigger] refers(lib, via, name)
    }
}

/// Whether `name` is reached from a root of `lib`.
pub open spec fn reachable(lib: LibraryModel, name: Seq<char>) -> bool {
    exists|steps: nat| reaches(lib, name, steps)
}

/// Whether `x` is an item of one of the categories that names refer to:
/// enums, structs, unions, opaque items, typedefs.
pub open spec fn holds(lib: LibraryModel, x: ItemModel) -> bool {
    ||| lib.enums.contains(x)
    ||| lib.structs.contains(x)
    ||| lib.unions.contains(x)
    ||| lib.opaque_items.contains(x)
    ||| lib.typedefs.contains(x)
}

/// Whether every item in the order of `deps` is an item of `lib` whose name
/// is reached from a root.
pub open spec fn grounded(lib: LibraryModel, deps: DependenciesModel) -> bool {
    forall|j: int|
        0 <= j < deps.order.len() ==> holds(lib, #[trigger] deps.order[j]) && reachable(
            lib,
            deps.order[j].path,
        )
}

/// What is kept by a filter was there before and passes the test.
pub proof fn lemma_filter_subset<T>(s: Seq<T>, pred: spec_fn(T) -> bool, i: int)
    requires
        0 <= i < s.filter(pred).len(),
    ensures
        s.contains(s.filter(pred)[i]),
        pred(s.filter(pred)[i]),
    decreases s.len(),
{
    reveal(Seq::filter);
    if s.len() > 0 {
        let rest = s.drop_last().filter(pred);
        if i < rest.len() {
            lemma_filter_subset(s.drop_last(), pred, i);
            let x = rest[i];
            let k = choose|k: int| 0 <= k < s.drop_last().len() && s.drop_last()[k] == x;
            assert(s[k] == x);
        } else {
            assert(s[s.len() - 1] == s.last());
        }
    }
}

/// The items that a name refers to are items of the library, and are called
/// by that name.
pub proof fn lemma_found_is_held(lib: LibraryModel, name: Seq<char>, i: int)
    requires
        lib.get_items(name) is Some,
        0 <= i < lib.get_items(name)->0.len(),
    ensures
        holds(lib, lib.get_items(name)->0[i]),
        lib.get_items(name)->0[i].path == name,
{
    let items = lib.get_items(name)->0;
    if items == items_named(lib.enums, name) && items.len() > 0 {
        lemma_filter_subset(lib.enums, named(name), i);
    } else if items == items_named(lib.structs, name) && items.len() > 0 {
        lemma_filter_subset(lib.structs, named(name), i);
    } else if items == items_named(lib.unions, name) && items.len() > 0 {
        lemma_filter_subset(lib.unions, named(name), i);
    } else if items == items_named(lib.opaque_items, name) && items.len() > 0 {
        lemma_filter_subset(lib.opaque_items, named(name), i);
    } else {
        lemma_filter_subset(lib.typedefs, named(name), i);
    }
}

/// A name that an item of a reachable name is written with is reachable.
pub proof fn lemma_reachable_step(lib: LibraryModel, a: Seq<char>, b: Seq<char>)
    requires
        reachable(lib, a),
        refers(lib, a, b),
    ensures
        reachable(lib, b),
{
    let steps = choose|steps: nat| reaches(lib, a, steps);
    assert(reaches(lib, b, steps + 1));
}

proof fn lemma_visit_type_grounded(
    lib: LibraryModel,
    t: TypeModel,
    params: Seq<GenericParamModel>,
    deps: DependenciesModel,
    depth: nat,
)
    requires
        grounded(lib, deps),
        forall|name: Seq<char>| mentions(t, name) ==> reachable(lib, name),
    ensures
        grounded(lib, visit_type(lib, t, params, deps, depth)),
    decreases depth, 1nat, t, 0nat,
{
    match t {
        TypeModel::Ptr { ty, .. } => {
            lemma_visit_type_grounded(lib, *ty, params, deps, depth);
        },
        TypeModel::Path(p) => {
            assert(mentions(t, p.path));
            lemma_visit_args_grounded(lib, p.generics, 0, params, deps, depth);
            let d1 = visit_args(lib, p.generics, 0, params, deps, depth);
            if !declares(params, p.path) {
                match lib.get_items(p.path) {
                    Some(items) => {
                        if !d1.seen(p.path) {
                            assert forall|i: int, name: Seq<char>|
                                0 <= i < items.len() && item_mentions(
                                    #[trigger] items[i],
                                    name,
                                ) implies #[trigger] reachable(lib, name) by {
                                assert(refers(lib, p.path, name));
                                lemma_reachable_step(lib, p.path, name);
                            }
                            let visited = if depth == 0 {
                                d1.mark(p.path).stopped()
                            } else {
                                lemma_visit_items_grounded(
                                    lib,
                                    items,
                                    0,
                                    d1.mark(p.path),
                                    (depth - 1) as nat,
                                );
                                visit_items(lib, items, 0, d1.mark(p.path), (depth - 1) as nat)
                            };
                            lemma_append_grounded(lib, visited, p.path);
                        }
                    },
                    None => {},
                }
            }
        },
        TypeModel::Primitive(_) => {},
        TypeModel::Array(ty, _) => {
            lemma_visit_type_grounded(lib, *ty, params, deps, depth);
        },
        TypeModel::FuncPtr { ret, args, .. } => {
            lemma_visit_type_grounded(lib, *ret, params, deps, depth);
            lemma_visit_types_grounded(
                lib,
                args,
                0,
                params,
                visit_type(lib, *ret, params, deps, depth),
                depth,
            );
        },
    }
}

/// Adding the items of a reachable name keeps the order grounded.
proof fn lemma_append_grounded(lib: LibraryModel, deps: DependenciesModel, name: Seq<char>)
    requires
        grounded(lib, deps),
        reachable(lib, name),
        lib.get_items(name) is Some,
    ensures
        grounded(lib, deps.append(lib.get_items(name)->0)),
{
    let items = lib.get_items(name)->0;
    let after = deps.append(items);
    assert forall|j: int| 0 <= j < after.order.len() implies holds(lib, #[trigger] after.order[j])
        && reachable(lib, after.order[j].path) by {
        if j < deps.order.len() {
            assert(after.order[j] == deps.order[j]);
        } else {
            assert(after.order[j] == items[j - deps.order.len()]);
            lemma_found_is_held(lib, name, j - deps.order.len());
        }
    }
}

proof fn lemma_visit_args_grounded(
    lib: LibraryModel,
    args: Seq<GenericArgumentModel>,
    from: int,
    params: Seq<GenericParamModel>,
    deps: DependenciesModel,
    depth: nat,
)
    requires
        grounded(lib, deps),
        0 <= from,
        forall|name: Seq<char>| args_mention(args, name, from) ==> reachable(lib, name),
    ensures
        grounded(lib, visit_args(lib, args, from, params, deps, depth)),
    decreases depth, 1nat, args, args.len() - from,
{
    if from < args.len() {
        let next = match args[from] {
            GenericArgumentModel::Type(t) => {
                lemma_visit_type_grounded(lib, t, params, deps, depth);
                visit_type(lib, t, params, deps, depth)
            },
            GenericArgumentModel::Const(_) => deps,
        };
        lemma_visit_args_grounded(lib, args, from + 1, params, next, depth);
    }
}

proof fn lemma_visit_types_grounded(
    lib: LibraryModel,
    types: Seq<TypeModel>,
    from: int,
    params: Seq<GenericParamModel>,
    deps: DependenciesModel,
    depth: nat,
)
    requires
        grounded(lib, deps),
        0 <= from,
        forall|name: Seq<char>| types_mention(types, name, from) ==> reachable(lib, name),
    ensures
        grounded(lib, visit_types(lib, types, from, params, deps, depth)),
    decreases depth, 1nat, types, types.len() - from,
{
    if from < types.len() {
        lemma_visit_type_grounded(lib, types[from], params, deps, depth);
        lemma_visit_types_grounded(
            lib,
            types,
            from + 1,
            params,
            visit_type(lib, types[from], params, deps, depth),
            depth,
        );
    }
}

proof fn lemma_visit_items_grounded(
    lib: LibraryModel,
    items: Seq<ItemModel>,
    from: int,
    deps: DependenciesModel,
    depth: nat,
)
    requires
        grounded(lib, deps),
        0 <= from,
        forall|i: int, name: Seq<char>|
            0 <= i < items.len() && item_mentions(#[trigger] items[i], name) ==> #[trigger] reachable(
                lib,
                name,
            ),
    ensures
        grounded(lib, visit_items(lib, items, from, deps, depth)),
    decreases depth, 2nat, items, items.len() - from,
{
    if from < items.len() {
        lemma_visit_item_grounded(lib, items[from], deps, depth);
        lemma_visit_items_grounded(
            lib,
            items,
            from + 1,
            visit_item(lib, items[from], deps, depth),
            depth,
        );
    }
}

proof fn lemma_visit_item_grounded(
    lib: LibraryModel,
    item: ItemModel,
    deps: DependenciesModel,
    depth: nat,
)
    requires
        grounded(lib, deps),
        forall|name: Seq<char>| item_mentions(item, name) ==> reachable(lib, name),
    ensures
        grounded(lib, visit_item(lib, item, deps, depth)),
    decreases depth, 2nat, item, 0nat,
{
    lemma_visit_types_grounded(lib, item.types(), 0, item.generic_params, deps, depth);
}

/// A root is reachable.
pub proof fn lemma_root_is_reachable(lib: LibraryModel, name: Seq<char>)
    requires
        is_root(lib, name),
    ensures
        reachable(lib, name),
{
    assert(reaches(lib, name, 0));
}

proof fn lemma_visit_functions_grounded(
    lib: LibraryModel,
    from: int,
    deps: DependenciesModel,
    depth: nat,
)
    requires
        grounded(lib, deps),
        0 <= from,
    ensures
        grounded(lib, visit_functions(lib, lib.functions, from, deps, depth)),
    decreases lib.functions.len() - from,
{
    if from < lib.functions.len() {
        let f = lib.functions[from];
        assert forall|name: Seq<char>| function_mentions(f, name) implies reachable(lib, name) by {
            lemma_root_is_reachable(lib, name);
        }
        lemma_visit_type_grounded(lib, f.ret, Seq::empty(), deps, depth);
        lemma_visit_types_grounded(
            lib,
            f.arg_types(),
            0,
            Seq::empty(),
            visit_type(lib, f.ret, Seq::empty(), deps, depth),
            depth,
        );
        lemma_visit_functions_grounded(lib, from + 1, visit_function(lib, f, deps, depth), depth);
    }
}

proof fn lemma_visit_roots_grounded(
    lib: LibraryModel,
    from: int,
    deps: DependenciesModel,
    depth: nat,
)
    requires
        grounded(lib, deps),
        0 <= from,
    ensures
        grounded(lib, visit_roots(lib, lib.config.export.roots, from, deps, depth)),
    decreases lib.config.export.roots.len() - from,
{
    let names = lib.config.export.roots;
    if from < names.len() {
        let name = names[from];
        assert(contains_text(names, name));
        lemma_root_is_reachable(lib, name);
        let next = match lib.get_items(name) {
            Some(items) => if deps.seen(name) {
                deps
            } else {
                assert forall|i: int, other: Seq<char>|
                    0 <= i < items.len() && item_mentions(
                        #[trigger] items[i],
                        other,
                    ) implies #[trigger] reachable(lib, other) by {
                    assert(refers(lib, name, other));
                    lemma_reachable_step(lib, name, other);
                }
                lemma_visit_items_grounded(lib, items, 0, deps.mark(name), depth);
                lemma_append_grounded(lib, visit_items(lib, items, 0, deps.mark(name), depth), name);
                visit_items(lib, items, 0, deps.mark(name), depth).append(items)
            },
            None => deps,
        };
        lemma_visit_roots_grounded(lib, from + 1, next, depth);
    }
}

/// Every item that the library asks to be emitted is an item of the library
/// whose name is reached from a root.
pub proof fn lemma_dependencies_grounded(lib: LibraryModel, depth: nat)
    ensures
        grounded(lib, lib.dependencies(depth)),
{
    let d0 = DependenciesModel::empty();
    lemma_visit_functions_grounded(lib, 0, d0, depth);
    let d1 = visit_functions(lib, lib.functions, 0, d0, depth);
    assert forall|i: int, name: Seq<char>|
        0 <= i < lib.globals.len() && item_mentions(
            #[trigger] lib.globals[i],
            name,
        ) implies #[trigger] reachable(lib, name) by {
        lemma_root_is_reachable(lib, name);
    }
    lemma_visit_items_grounded(lib, lib.globals, 0, d1, depth);
    let d2 = visit_items(lib, lib.globals, 0, d1, depth);
    assert forall|i: int, name: Seq<char>|
        0 <= i < lib.constants.len() && item_mentions(
            #[trigger] lib.constants[i],
            name,
        ) implies #[trigger] reachable(lib, name) by {
        lemma_root_is_reachable(lib, name);
    }
    lemma_visit_items_grounded(lib, lib.constants, 0, d2, depth);
    let d3 = visit_items(lib, lib.constants, 0, d2, depth);
    lemma_visit_roots_grounded(lib, 0, d3, depth);
}

/// Every element of a sequence ordered by name is an element of the
/// sequence as it was.
pub proof fn lemma_sorted_subset(s: Seq<ItemModel>, i: int)
    requires
        0 <= i < sorted_by_name::<ItemContainer>(s).len(),
    ensures
        s.contains(sorted_by_name::<ItemContainer>(s)[i]),
    decreases s.len(),
{
    if s.len() > 0 {
        let rest = sorted_by_name::<ItemContainer>(s.drop_first());
        let at = slot::<ItemContainer>(s[0], rest, 0);
        lemma_slot_in_range(s[0], rest, 0);
        let out = rest.insert(at, s[0]);
        if i == at {
            assert(out[i] == s[0]);
        } else {
            let k = if i < at {
                i
            } else {
                i - 1
            };
            assert(out[i] == rest[k]);
            lemma_sorted_subset(s.drop_first(), k);
            let x = rest[k];
            let j = choose|j: int| 0 <= j < s.drop_first().len() && s.drop_first()[j] == x;
            assert(s[j + 1] == x);
        }
    }
}

/// The place where an element is put is a place of the sequence or its end.
pub proof fn lemma_slot_in_range(x: ItemModel, s: Seq<ItemModel>, from: int)
    requires
        0 <= from <= s.len(),
    ensures
        from <= slot::<ItemContainer>(x, s, from) <= s.len(),
    decreases s.len() - from,
{
    if from < s.len() && !crate::sorting::name_le(x.path, s[from].path) {
        lemma_slot_in_range(x, s, from + 1);
    }
}

/// Every item of the order of emission is an item of the order it was made
/// from.
pub proof fn lemma_layered_subset(order: Seq<ItemModel>, i: int)
    requires
        0 <= i < layered(order).len(),
    ensures
        order.contains(layered(order)[i]),
{
    let a = sorted_by_name::<ItemContainer>(order.filter(plain_enum()));
    let b = sorted_by_name::<ItemContainer>(order.filter(opaque()));
    let c = order.filter(composite());
    let x = layered(order)[i];
    if i < a.len() {
        lemma_sorted_subset(order.filter(plain_enum()), i);
        let k = choose|k: int|
            0 <= k < order.filter(plain_enum()).len() && order.filter(plain_enum())[k] == x;
        lemma_filter_subset(order, plain_enum(), k);
    } else if i < a.len() + b.len() {
        lemma_sorted_subset(order.filter(opaque()), i - a.len());
        let k = choose|k: int|
            0 <= k < order.filter(opaque()).len() && order.filter(opaque())[k] == x;
        lemma_filter_subset(order, opaque(), k);
    } else {
        lemma_filter_subset(order, composite(), i - a.len() - b.len());
    }
}

/// Nothing is emitted that nothing asks for: every item that is handed to
/// the writer is reached from a function, a global, a constant or an item
/// that the configuration names, by way of the types that items are written
/// with. `lib` is the library as it stands when the items are chosen.
pub proof fn law_emitted_items_are_reachable(
    lib: LibraryModel,
    warnings: Seq<crate::warning::WarningModel>,
    i: int,
)
    requires
        0 <= i < lib.assemble(warnings).items.len(),
    ensures
        reachable(lib, lib.assemble(warnings).items[i].path),
        holds(lib, lib.assemble(warnings).items[i]),
{
    let order = lib.dependencies(crate::dependencies::DEFAULT_DEPENDENCY_DEPTH as nat).order;
    lemma_dependencies_grounded(lib, crate::dependencies::DEFAULT_DEPENDENCY_DEPTH as nat);
    lemma_layered_subset(order, i);
    let x = layered(order)[i];
    let k = choose|k: int| 0 <= k < order.len() && order[k] == x;
    assert(holds(lib, order[k]));
}

/// Whether none of the items `items` is called by one of the names
/// `exclude`.
pub open spec fn none_excluded(items: Seq<ItemModel>, exclude: Seq<Seq<char>>) -> bool {
    forall|i: int| 0 <= i < items.len() ==> !contains_text(exclude, (#[trigger] items[i]).path)
}

/// Whether no item that a name of `lib` can refer to is called by one of
/// the names `exclude`.
pub open spec fn clean(lib: LibraryModel, exclude: Seq<Seq<char>>) -> bool {
    &&& none_excluded(lib.enums, exclude)
    &&& none_excluded(lib.structs, exclude)
    &&& none_excluded(lib.unions, exclude)
    &&& none_excluded(lib.opaque_items, exclude)
    &&& none_excluded(lib.typedefs, exclude)
}

proof fn lemma_allowed_items_are_not_excluded(items: Seq<ItemModel>, exclude: Seq<Seq<char>>)
    ensures
        none_excluded(items.filter(item_allowed(exclude)), exclude),
{
    let kept = items.filter(item_allowed(exclude));
    assert forall|i: int| 0 <= i < kept.len() implies !contains_text(
        exclude,
        (#[trigger] kept[i]).path,
    ) by {
        lemma_filter_subset(items, item_allowed(exclude), i);
    }
}

proof fn lemma_give_all_keeps_config(
    lib: LibraryModel,
    transfers: Transfers,
    from: int,
    warnings: Seq<WarningModel>,
)
    requires
        0 <= from,
    ensures
        lib.give_all(transfers, from, warnings).0.config == lib.config,
    decreases transfers.len() - from,
{
    if from < transfers.len() {
        let next = lib.give(transfers[from].0, transfers[from].1, warnings);
        lemma_give_all_keeps_config(next.0, transfers, from + 1, next.1);
    }
}

proof fn lemma_insert_monomorphs_keeps_config(
    lib: LibraryModel,
    cache: ErasureCache,
    mono: MonomorphsModel,
    depth: nat,
)
    ensures
        lib.insert_monomorphs(cache, mono, depth).1.config == lib.config,
{
    let r1 = lib.insert_copies(cache, mono.of_kind(ItemKind::Struct), 0, ItemKind::Struct, depth);
    lemma_insert_copies_keeps_rest(
        lib,
        cache,
        mono.of_kind(ItemKind::Struct),
        0,
        ItemKind::Struct,
        depth,
    );
    let r2 = r1.1.insert_copies(r1.0, mono.of_kind(ItemKind::Union), 0, ItemKind::Union, depth);
    lemma_insert_copies_keeps_rest(
        r1.1,
        r1.0,
        mono.of_kind(ItemKind::Union),
        0,
        ItemKind::Union,
        depth,
    );
    let r3 = r2.1.insert_copies(
        r2.0,
        mono.of_kind(ItemKind::OpaqueItem),
        0,
        ItemKind::OpaqueItem,
        depth,
    );
    lemma_insert_copies_keeps_rest(
        r2.1,
        r2.0,
        mono.of_kind(ItemKind::OpaqueItem),
        0,
        ItemKind::OpaqueItem,
        depth,
    );
    let r4 = r3.1.insert_copies(
        r3.0,
        mono.of_kind(ItemKind::Typedef),
        0,
        ItemKind::Typedef,
        depth,
    );
    lemma_insert_copies_keeps_rest(
        r3.1,
        r3.0,
        mono.of_kind(ItemKind::Typedef),
        0,
        ItemKind::Typedef,
        depth,
    );
    lemma_insert_copies_keeps_rest(
        r4.1,
        r4.0,
        mono.of_kind(ItemKind::Enum),
        0,
        ItemKind::Enum,
        depth,
    );
}

/// The library that is prepared for choosing the items to emit has the
/// configuration it had before, and holds no item called by a name to leave
/// out.
pub proof fn lemma_prepared_is_clean(lib: LibraryModel)
    ensures
        lib.prepare().0.config == lib.config,
        clean(lib.prepare().0, lib.config.export.exclude),
{
    let exclude = lib.config.export.exclude;
    let erased = lib.erase_types(
        ErasureCache::empty(),
        crate::erase::DEFAULT_ERASURE_DEPTH as nat,
    );
    assert(erased.1.config == lib.config);
    let taken = crate::library::collect_transfers(
        erased.1.typedefs,
        0,
        Seq::empty(),
        Seq::empty(),
        Seq::empty(),
    );
    lemma_give_all_keeps_config(
        LibraryModel { typedefs: taken.0, ..erased.1 },
        taken.1,
        0,
        taken.2,
    );
    let transferred = erased.1.transfer_annotations();
    assert(transferred.0.config == lib.config);
    let sorted = transferred.0.sort_functions();
    assert(sorted.config == lib.config);
    let concrete = if sorted.config.language != crate::config::Language::Cxx {
        let mono = sorted.monomorphs(crate::monomorph::DEFAULT_MONOMORPH_DEPTH as nat);
        lemma_insert_monomorphs_keeps_config(
            sorted,
            erased.0,
            mono,
            crate::erase::DEFAULT_ERASURE_DEPTH as nat,
        );
        sorted.instantiate_monomorphs(
            erased.0,
            crate::erase::DEFAULT_ERASURE_DEPTH as nat,
            crate::monomorph::DEFAULT_MONOMORPH_DEPTH as nat,
        ).1
    } else {
        sorted
    };
    assert(concrete.config == lib.config);
    let allowed = concrete.remove_excluded();
    lemma_allowed_items_are_not_excluded(concrete.enums, exclude);
    lemma_allowed_items_are_not_excluded(concrete.structs, exclude);
    lemma_allowed_items_are_not_excluded(concrete.unions, exclude);
    lemma_allowed_items_are_not_excluded(concrete.opaque_items, exclude);
    lemma_allowed_items_are_not_excluded(concrete.typedefs, exclude);
    assert(clean(allowed, exclude));
    let resolved = if allowed.config.language == crate::config::Language::C {
        allowed.resolve_declaration_types()
    } else {
        allowed
    };
    assert(resolved.config == lib.config);
    assert(clean(resolved, exclude)) by {
        if allowed.config.language == crate::config::Language::C
            && allowed.config.style.spec_generate_tag() {
            let op = PathOp::Resolve(allowed.declarations());
            lemma_rewrite_keeps_clean(allowed.enums, op, exclude);
            lemma_rewrite_keeps_clean(allowed.structs, op, exclude);
            lemma_rewrite_keeps_clean(allowed.unions, op, exclude);
            lemma_rewrite_keeps_clean(allowed.typedefs, op, exclude);
        }
    }
    let renamed = resolved.rename_items();
    lemma_rename_keeps_clean(resolved.enums, resolved.config, exclude);
    lemma_rename_keeps_clean(resolved.structs, resolved.config, exclude);
    lemma_rename_keeps_clean(resolved.unions, resolved.config, exclude);
    lemma_rename_keeps_clean(resolved.opaque_items, resolved.config, exclude);
    lemma_rename_keeps_clean(resolved.typedefs, resolved.config, exclude);
    assert(renamed == lib.prepare().0);
}

proof fn lemma_rewrite_keeps_clean(items: Seq<ItemModel>, op: PathOp, exclude: Seq<Seq<char>>)
    requires
        none_excluded(items, exclude),
    ensures
        none_excluded(rewrite_items(items, op), exclude),
{
    let after = rewrite_items(items, op);
    assert forall|i: int| 0 <= i < after.len() implies !contains_text(
        exclude,
        (#[trigger] after[i]).path,
    ) by {
        assert(after[i].path == items[i].path);
    }
}

proof fn lemma_rename_keeps_clean(
    items: Seq<ItemModel>,
    cfg: crate::config::ConfigModel,
    exclude: Seq<Seq<char>>,
)
    requires
        none_excluded(items, exclude),
    ensures
        none_excluded(rename_items(items, cfg), exclude),
{
    let after = rename_items(items, cfg);
    assert forall|i: int| 0 <= i < after.len() implies !contains_text(
        exclude,
        (#[trigger] after[i]).path,
    ) by {
        assert(after[i].path == items[i].path);
    }
}

/// An item that is called by a name to leave out is never emitted, whether
/// or not something that is emitted refers to it.
pub proof fn law_excluded_items_are_not_emitted(lib: LibraryModel, i: int)
    requires
        0 <= i < lib.generate().items.len(),
    ensures
        !lib.config.export.excludes(lib.generate().items[i].path),
{
    let prepared = lib.prepare();
    lemma_prepared_is_clean(lib);
    law_emitted_items_are_reachable(prepared.0, prepared.1, i);
    let x = lib.generate().items[i];
    let exclude = lib.config.export.exclude;
    assert(holds(prepared.0, x));
    if prepared.0.enums.contains(x) {
        let k = choose|k: int| 0 <= k < prepared.0.enums.len() && prepared.0.enums[k] == x;
        assert(!contains_text(exclude, prepared.0.enums[k].path));
    } else if prepared.0.structs.contains(x) {
        let k = choose|k: int| 0 <= k < prepared.0.structs.len() && prepared.0.structs[k] == x;
        assert(!contains_text(exclude, prepared.0.structs[k].path));
    } else if prepared.0.unions.contains(x) {
        let k = choose|k: int| 0 <= k < prepared.0.unions.len() && prepared.0.unions[k] == x;
        assert(!contains_text(exclude, prepared.0.unions[k].path));
    } else if prepared.0.opaque_items.contains(x) {
        let k = choose|k: int|
            0 <= k < prepared.0.opaque_items.len() && prepared.0.opaque_items[k] == x;
        assert(!contains_text(exclude, prepared.0.opaque_items[k].path));
    } else {
        let k = choose|k: int| 0 <= k < prepared.0.typedefs.len() && prepared.0.typedefs[k] == x;
        assert(!contains_text(exclude, prepared.0.typedefs[k].path));
    }
}

/// Nothing is emitted that nothing asks for: every item that is handed to
/// the writer for `lib` is reached, in the library as it is prepared, from a
/// function, a global, a constant or an item that the configuration names.
pub proof fn law_generated_items_are_reachable(lib: LibraryModel, i: int)
    requires
        0 <= i < lib.generate().items.len(),
    ensures
        reachable(lib.prepare().0, lib.generate().items[i].path),
{
    let prepared = lib.prepare();
    law_emitted_items_are_reachable(prepared.0, prepared.1, i);
}

} // verus!
