use vstd::prelude::*;
use crate::dependencies::{
    composite, layered, opaque, plain_enum, visit_args, visit_function, visit_item, visit_items,
    visit_type, visit_types, DependenciesModel, DEFAULT_DEPENDENCY_DEPTH,
};
use crate::item::ItemContainer;
use crate::reach::{holds, lemma_dependencies_grounded, lemma_filter_subset, lemma_slot_in_range};
use crate::sorting::{slot, sorted_by_name};
use crate::warning::WarningModel;
use crate::generic_path::{declares, GenericParamModel};
use crate::item::ItemModel;
use crate::library::{visit_functions, visit_roots, LibraryModel};
use crate::reach::{args_mention, item_mentions, mentions, refers, types_mention};
use crate::ty::{GenericArgumentModel, TypeModel};

verus! {

/// Whether the type `t` holds an item called `name` in place: `t` is that
/// name, or an array of what holds it. What is behind a pointer is not held
/// in place.
pub open spec fn embeds(t: TypeModel, name: Seq<char>) -> bool
    decreases t,
{
    match t {
        TypeModel::Path(p) => p.path == name,
        TypeModel::Array(ty, _) => embeds(*ty, name),
        _ => false,
    }
}

/// Whether a field of `item` holds an item called `name` in place. The
/// parameters of `item` are names of no item.
pub open spec fn item_embeds(item: ItemModel, name: Seq<char>) -> bool {
    !declares(item.generic_params, name) && exists|i: int|
        0 <= i < item.fields.len() && embeds((#[trigger] item.fields[i]).ty, name)
}

/// Whether `x` stands in `order` at a place before `j`.
pub open spec fn placed_before(order: Seq<ItemModel>, x: ItemModel, j: int) -> bool {
    exists|i: int| 0 <= i < j && i < order.len() && (#[trigger] order[i]) == x
}

/// Whether every item that the name `b` refers to stands in `order` at a
/// place before `j`.
pub open spec fn all_before(lib: LibraryModel, order: Seq<ItemModel>, b: Seq<char>, j: int) -> bool {
    match lib.get_items(b) {
        Some(items) => forall|k: int|
            0 <= k < items.len() ==> placed_before(order, #[trigger] items[k], j),
        None => true,
    }
}

/// Whether every item of `order` comes after the items that it holds in
/// place.
pub open spec fn settled(lib: LibraryModel, order: Seq<ItemModel>) -> bool {
    forall|j: int, b: Seq<char>|
        0 <= j < order.len() && #[trigger] item_embeds(order[j], b) ==> all_before(
            lib,
            order,
            b,
            j,
        )
}

/// Whether `rank` gives every name a number below `depth` that is above the
/// numbers of the names that its items are written with. There is such a
/// ranking where no item refers to itself by way of other items, and where
/// no chain of references is longer than `depth`.
pub open spec fn ranked(lib: LibraryModel, rank: spec_fn(Seq<char>) -> nat, depth: nat) -> bool {
    &&& forall|a: Seq<char>, b: Seq<char>| #[trigger] refers(lib, a, b) ==> rank(b) < rank(a)
    &&& forall|a: Seq<char>| #[trigger] rank(a) < depth
}

/// Whether `new` continues `old`: it has the order of `old` at its start,
/// and has taken up every name that `old` has.
pub open spec fn continues(old: DependenciesModel, new: DependenciesModel) -> bool {
    &&& old.order.len() <= new.order.len()
    &&& forall|i: int| 0 <= i < old.order.len() ==> (#[trigger] new.order[i]) == old.order[i]
    &&& forall|n: Seq<char>| #[trigger] old.seen(n) ==> new.seen(n)
}

/// Whether the names that `new` has taken up beyond those of `old` all rank
/// below `bound`.
pub open spec fn took_low(
    rank: spec_fn(Seq<char>) -> nat,
    old: DependenciesModel,
    new: DependenciesModel,
    bound: nat,
) -> bool {
    forall|n: Seq<char>| #[trigger] new.seen(n) ==> old.seen(n) || rank(n) < bound
}

/// Whether the order of `deps` is settled, and holds the items of every name
/// that was taken up and ranks below `bound`. The names that rank higher
/// may be names whose items are being visited.
pub open spec fn sound(
    lib: LibraryModel,
    rank: spec_fn(Seq<char>) -> nat,
    deps: DependenciesModel,
    bound: nat,
) -> bool {
    &&& settled(lib, deps.order)
    &&& forall|n: Seq<char>|
        #[trigger] deps.seen(n) && rank(n) < bound ==> all_before(
            lib,
            deps.order,
            n,
            deps.order.len() as int,
        )
}

proof fn lemma_continues_twice(a: DependenciesModel, b: DependenciesModel, c: DependenciesModel)
    requires
        continues(a, b),
        continues(b, c),
    ensures
        continues(a, c),
{
    assert forall|i: int| 0 <= i < a.order.len() implies (#[trigger] c.order[i]) == a.order[i] by {
        assert(b.order[i] == a.order[i]);
    }
}

proof fn lemma_took_low_twice(
    rank: spec_fn(Seq<char>) -> nat,
    a: DependenciesModel,
    b: DependenciesModel,
    c: DependenciesModel,
    bound: nat,
)
    requires
        took_low(rank, a, b, bound),
        took_low(rank, b, c, bound),
    ensures
        took_low(rank, a, c, bound),
{
    assert forall|n: Seq<char>| #[trigger] c.seen(n) implies a.seen(n) || rank(n) < bound by {
        if !(rank(n) < bound) {
            assert(b.seen(n));
        }
    }
}

proof fn lemma_all_before_stays(
    lib: LibraryModel,
    old: Seq<ItemModel>,
    new: Seq<ItemModel>,
    b: Seq<char>,
    j: int,
    later: int,
)
    requires
        old.len() <= new.len(),
        forall|i: int| 0 <= i < old.len() ==> (#[trigger] new[i]) == old[i],
        all_before(lib, old, b, j),
        j <= later,
    ensures
        all_before(lib, new, b, later),
{
    match lib.get_items(b) {
        Some(items) => {
            assert forall|k: int| 0 <= k < items.len() implies placed_before(
                new,
                #[trigger] items[k],
                later,
            ) by {
                assert(placed_before(old, items[k], j));
                let i = choose|i: int| 0 <= i < j && i < old.len() && (#[trigger] old[i]) == items[k];
                assert(new[i] == items[k]);
            }
        },
        None => {},
    }
}

/// A type that holds a name in place is written with that name.
pub proof fn lemma_embeds_mentions(t: TypeModel, name: Seq<char>)
    requires
        embeds(t, name),
    ensures
        mentions(t, name),
    decreases t,
{
    match t {
        TypeModel::Array(ty, _) => lemma_embeds_mentions(*ty, name),
        _ => {},
    }
}

proof fn lemma_types_mention_member(types: Seq<TypeModel>, name: Seq<char>, from: int, k: int)
    requires
        0 <= from <= k < types.len(),
        mentions(types[k], name),
    ensures
        types_mention(types, name, from),
    decreases k - from,
{
    if from < k {
        lemma_types_mention_member(types, name, from + 1, k);
    }
}

/// An item that holds a name in place is written with that name.
pub proof fn lemma_item_embeds_mentions(item: ItemModel, name: Seq<char>)
    requires
        item_embeds(item, name),
    ensures
        item_mentions(item, name),
{
    let i = choose|i: int|
        0 <= i < item.fields.len() && embeds((#[trigger] item.fields[i]).ty, name);
    lemma_embeds_mentions(item.fields[i].ty, name);
    assert(item.types()[i] == item.fields[i].ty);
    lemma_types_mention_member(item.types(), name, 0, i);
}

/// Whether `new` is what a visit may make of `old` under `bound`: it is
/// sound, continues `old`, and has taken up only names that rank below
/// `bound`.
pub open spec fn advance(
    lib: LibraryModel,
    rank: spec_fn(Seq<char>) -> nat,
    old: DependenciesModel,
    new: DependenciesModel,
    bound: nat,
) -> bool {
    &&& sound(lib, rank, new, bound)
    &&& continues(old, new)
    &&& took_low(rank, old, new, bound)
}

proof fn lemma_advance_twice(
    lib: LibraryModel,
    rank: spec_fn(Seq<char>) -> nat,
    a: DependenciesModel,
    b: DependenciesModel,
    c: DependenciesModel,
    bound: nat,
)
    requires
        advance(lib, rank, a, b, bound),
        advance(lib, rank, b, c, bound),
    ensures
        advance(lib, rank, a, c, bound),
{
    lemma_continues_twice(a, b, c);
    lemma_took_low_twice(rank, a, b, c, bound);
}

proof fn lemma_mark_seen(deps: DependenciesModel, c: Seq<char>, n: Seq<char>)
    ensures
        deps.mark(c).seen(n) == (deps.seen(n) || n == c),
{
    let after = deps.mark(c);
    if deps.seen(n) {
        let i = choose|i: int| 0 <= i < deps.items.len() && deps.items[i] == n;
        assert(after.items[i] == n);
    }
    if n == c {
        assert(after.items[deps.items.len() as int] == n);
    }
    if after.seen(n) {
        let i = choose|i: int| 0 <= i < after.items.len() && after.items[i] == n;
        if i < deps.items.len() {
            assert(deps.items[i] == n);
        }
    }
}

proof fn lemma_enter(
    lib: LibraryModel,
    rank: spec_fn(Seq<char>) -> nat,
    depth: nat,
    c: Seq<char>,
    deps: DependenciesModel,
    fuel: nat,
    bound: nat,
)
    requires
        ranked(lib, rank, depth),
        sound(lib, rank, deps, bound),
        rank(c) < bound,
        !deps.seen(c),
        lib.get_items(c) is Some,
        fuel >= rank(c),
    ensures
        advance(
            lib,
            rank,
            deps,
            visit_items(lib, lib.get_items(c)->0, 0, deps.mark(c), fuel).append(
                lib.get_items(c)->0,
            ),
            bound,
        ),
        visit_items(lib, lib.get_items(c)->0, 0, deps.mark(c), fuel).append(
            lib.get_items(c)->0,
        ).seen(c),
    decreases fuel, 3nat, lib.get_items(c)->0, 0nat,
{
    let items = lib.get_items(c)->0;
    let inner = rank(c);
    let d2 = deps.mark(c);
    assert forall|n: Seq<char>| d2.seen(n) == (deps.seen(n) || n == c) by {
        lemma_mark_seen(deps, c, n);
    }
    assert(sound(lib, rank, d2, inner));
    assert forall|i: int, n: Seq<char>|
        0 <= i < items.len() && item_mentions(#[trigger] items[i], n) implies #[trigger] rank(n)
        < inner by {
        assert(refers(lib, c, n));
    }
    lemma_visit_items_settled(lib, rank, depth, items, 0, d2, fuel, inner);
    let d3 = visit_items(lib, items, 0, d2, fuel);
    let d4 = d3.append(items);
    let len3 = d3.order.len() as int;
    assert(d4.order.len() == len3 + items.len());
    assert forall|i: int| 0 <= i < len3 implies (#[trigger] d4.order[i]) == d3.order[i] by {}
    assert forall|k: int| 0 <= k < items.len() implies (#[trigger] d4.order[len3 + k])
        == items[k] by {}
    // What the items of `c` hold in place stands in the order already.
    assert forall|k: int, b: Seq<char>|
        0 <= k < items.len() && item_embeds(#[trigger] items[k], b) implies #[trigger] all_before(
            lib,
            d3.order,
            b,
            len3,
        ) by {
        if lib.get_items(b) is Some {
            lemma_item_embeds_mentions(items[k], b);
            assert(refers(lib, c, b));
            assert(d3.seen(b));
        }
    }
    assert(settled(lib, d4.order)) by {
        assert forall|j: int, b: Seq<char>|
            0 <= j < d4.order.len() && #[trigger] item_embeds(d4.order[j], b) implies all_before(
                lib,
                d4.order,
                b,
                j,
            ) by {
            if j < len3 {
                assert(d4.order[j] == d3.order[j]);
                assert(all_before(lib, d3.order, b, j));
                lemma_all_before_stays(lib, d3.order, d4.order, b, j, j);
            } else {
                assert(d4.order[len3 + (j - len3)] == items[j - len3]);
                assert(all_before(lib, d3.order, b, len3));
                lemma_all_before_stays(lib, d3.order, d4.order, b, len3, j);
            }
        }
    }
    assert forall|n: Seq<char>| #[trigger] d4.seen(n) && rank(n) < bound implies all_before(
        lib,
        d4.order,
        n,
        d4.order.len() as int,
    ) by {
        assert(d3.seen(n));
        if n == c {
            assert forall|k: int| 0 <= k < items.len() implies placed_before(
                d4.order,
                #[trigger] items[k],
                d4.order.len() as int,
            ) by {
                assert(d4.order[len3 + k] == items[k]);
            }
        } else if rank(n) < inner {
            assert(all_before(lib, d3.order, n, len3));
            lemma_all_before_stays(lib, d3.order, d4.order, n, len3, d4.order.len() as int);
        } else {
            assert(d2.seen(n));
            assert(deps.seen(n));
            assert(all_before(lib, deps.order, n, deps.order.len() as int));
            assert forall|i: int| 0 <= i < deps.order.len() implies (#[trigger] d4.order[i])
                == deps.order[i] by {
                assert(d3.order[i] == d2.order[i]);
                assert(d4.order[i] == d3.order[i]);
            }
            lemma_all_before_stays(
                lib,
                deps.order,
                d4.order,
                n,
                deps.order.len() as int,
                d4.order.len() as int,
            );
        }
    }
    assert(continues(deps, d4)) by {
        assert forall|i: int| 0 <= i < deps.order.len() implies (#[trigger] d4.order[i])
            == deps.order[i] by {
            assert(d3.order[i] == d2.order[i]);
            assert(d4.order[i] == d3.order[i]);
        }
        assert forall|n: Seq<char>| #[trigger] deps.seen(n) implies d4.seen(n) by {
            assert(d2.seen(n));
            assert(d3.seen(n));
        }
    }
    assert(took_low(rank, deps, d4, bound)) by {
        assert forall|n: Seq<char>| #[trigger] d4.seen(n) implies deps.seen(n) || rank(n)
            < bound by {
            assert(d3.seen(n));
            assert(d2.seen(n) || rank(n) < inner);
        }
    }
    assert(d2.seen(c));
    assert(d3.seen(c));
}

proof fn lemma_visit_type_settled(
    lib: LibraryModel,
    rank: spec_fn(Seq<char>) -> nat,
    depth: nat,
    t: TypeModel,
    params: Seq<GenericParamModel>,
    deps: DependenciesModel,
    fuel: nat,
    bound: nat,
)
    requires
        ranked(lib, rank, depth),
        sound(lib, rank, deps, bound),
        fuel >= bound,
        forall|n: Seq<char>| mentions(t, n) ==> rank(n) < bound,
    ensures
        advance(lib, rank, deps, visit_type(lib, t, params, deps, fuel), bound),
        forall|b: Seq<char>|
            embeds(t, b) && !declares(params, b) && lib.get_items(b) is Some ==> visit_type(
                lib,
                t,
                params,
                deps,
                fuel,
            ).seen(b),
    decreases fuel, 1nat, t, 0nat,
{
    match t {
        TypeModel::Ptr { ty, .. } => {
            assert forall|n: Seq<char>| mentions(*ty, n) implies rank(n) < bound by {
                assert(mentions(t, n));
            }
            lemma_visit_type_settled(lib, rank, depth, *ty, params, deps, fuel, bound);
        },
        TypeModel::Path(p) => {
            let c = p.path;
            assert(mentions(t, c));
            assert forall|n: Seq<char>| args_mention(p.generics, n, 0) implies rank(n)
                < bound by {
                assert(mentions(t, n));
            }
            lemma_visit_args_settled(lib, rank, depth, p.generics, 0, params, deps, fuel, bound);
            let d1 = visit_args(lib, p.generics, 0, params, deps, fuel);
            if !declares(params, c) {
                match lib.get_items(c) {
                    Some(items) => {
                        if !d1.seen(c) {
                            assert(fuel > 0);
                            lemma_enter(lib, rank, depth, c, d1, (fuel - 1) as nat, bound);
                            let d4 = visit_items(
                                lib,
                                items,
                                0,
                                d1.mark(c),
                                (fuel - 1) as nat,
                            ).append(items);
                            lemma_advance_twice(lib, rank, deps, d1, d4, bound);
                        }
                    },
                    None => {},
                }
            }
        },
        TypeModel::Primitive(_) => {},
        TypeModel::Array(ty, _) => {
            assert forall|n: Seq<char>| mentions(*ty, n) implies rank(n) < bound by {
                assert(mentions(t, n));
            }
            lemma_visit_type_settled(lib, rank, depth, *ty, params, deps, fuel, bound);
        },
        TypeModel::FuncPtr { ret, args, .. } => {
            assert forall|n: Seq<char>| mentions(*ret, n) implies rank(n) < bound by {
                assert(mentions(t, n));
            }
            assert forall|n: Seq<char>| types_mention(args, n, 0) implies rank(n) < bound by {
                assert(mentions(t, n));
            }
            lemma_visit_type_settled(lib, rank, depth, *ret, params, deps, fuel, bound);
            let d1 = visit_type(lib, *ret, params, deps, fuel);
            lemma_visit_types_settled(lib, rank, depth, args, 0, params, d1, fuel, bound);
            lemma_advance_twice(
                lib,
                rank,
                deps,
                d1,
                visit_types(lib, args, 0, params, d1, fuel),
                bound,
            );
        },
    }
}

proof fn lemma_visit_args_settled(
    lib: LibraryModel,
    rank: spec_fn(Seq<char>) -> nat,
    depth: nat,
    args: Seq<GenericArgumentModel>,
    from: int,
    params: Seq<GenericParamModel>,
    deps: DependenciesModel,
    fuel: nat,
    bound: nat,
)
    requires
        ranked(lib, rank, depth),
        sound(lib, rank, deps, bound),
        fuel >= bound,
        0 <= from,
        forall|n: Seq<char>| args_mention(args, n, from) ==> rank(n) < bound,
    ensures
        advance(lib, rank, deps, visit_args(lib, args, from, params, deps, fuel), bound),
    decreases fuel, 1nat, args, args.len() - from,
{
    if from < args.len() {
        let rest = from + 1;
        assert forall|n: Seq<char>| args_mention(args, n, rest) implies rank(n) < bound by {
            assert(args_mention(args, n, from));
        }
        let next = match args[from] {
            GenericArgumentModel::Type(t) => {
                assert forall|n: Seq<char>| mentions(t, n) implies rank(n) < bound by {
                    assert(args_mention(args, n, from));
                }
                lemma_visit_type_settled(lib, rank, depth, t, params, deps, fuel, bound);
                visit_type(lib, t, params, deps, fuel)
            },
            GenericArgumentModel::Const(_) => deps,
        };
        lemma_visit_args_settled(lib, rank, depth, args, from + 1, params, next, fuel, bound);
        lemma_advance_twice(
            lib,
            rank,
            deps,
            next,
            visit_args(lib, args, from + 1, params, next, fuel),
            bound,
        );
    }
}

proof fn lemma_visit_types_settled(
    lib: LibraryModel,
    rank: spec_fn(Seq<char>) -> nat,
    depth: nat,
    types: Seq<TypeModel>,
    from: int,
    params: Seq<GenericParamModel>,
    deps: DependenciesModel,
    fuel: nat,
    bound: nat,
)
    requires
        ranked(lib, rank, depth),
        sound(lib, rank, deps, bound),
        fuel >= bound,
        0 <= from,
        forall|n: Seq<char>| types_mention(types, n, from) ==> rank(n) < bound,
    ensures
        advance(lib, rank, deps, visit_types(lib, types, from, params, deps, fuel), bound),
        forall|k: int, b: Seq<char>|
            from <= k < types.len() && embeds(#[trigger] types[k], b) && !declares(params, b)
                && #[trigger] lib.get_items(b) is Some ==> visit_types(
                lib,
                types,
                from,
                params,
                deps,
                fuel,
            ).seen(b),
    decreases fuel, 1nat, types, types.len() - from,
{
    if from < types.len() {
        let rest = from + 1;
        assert forall|n: Seq<char>| types_mention(types, n, rest) implies rank(n) < bound by {
            assert(types_mention(types, n, from));
        }
        assert forall|n: Seq<char>| mentions(types[from], n) implies rank(n) < bound by {
            assert(types_mention(types, n, from));
        }
        lemma_visit_type_settled(lib, rank, depth, types[from], params, deps, fuel, bound);
        let next = visit_type(lib, types[from], params, deps, fuel);
        lemma_visit_types_settled(lib, rank, depth, types, from + 1, params, next, fuel, bound);
        let last = visit_types(lib, types, from + 1, params, next, fuel);
        lemma_advance_twice(lib, rank, deps, next, last, bound);
        assert forall|k: int, b: Seq<char>|
            from <= k < types.len() && embeds(#[trigger] types[k], b) && !declares(params, b)
                && #[trigger] lib.get_items(b) is Some implies last.seen(b) by {
            if k == from {
                assert(next.seen(b));
            }
        }
    }
}

proof fn lemma_visit_items_settled(
    lib: LibraryModel,
    rank: spec_fn(Seq<char>) -> nat,
    depth: nat,
    items: Seq<ItemModel>,
    from: int,
    deps: DependenciesModel,
    fuel: nat,
    bound: nat,
)
    requires
        ranked(lib, rank, depth),
        sound(lib, rank, deps, bound),
        fuel >= bound,
        0 <= from,
        forall|i: int, n: Seq<char>|
            0 <= i < items.len() && item_mentions(#[trigger] items[i], n) ==> #[trigger] rank(n)
                < bound,
    ensures
        advance(lib, rank, deps, visit_items(lib, items, from, deps, fuel), bound),
        forall|i: int, b: Seq<char>|
            from <= i < items.len() && item_embeds(#[trigger] items[i], b)
                && #[trigger] lib.get_items(b) is Some ==> visit_items(
                lib,
                items,
                from,
                deps,
                fuel,
            ).seen(b),
    decreases fuel, 2nat, items, items.len() - from,
{
    if from < items.len() {
        assert forall|n: Seq<char>| item_mentions(items[from], n) implies rank(n) < bound by {}
        lemma_visit_item_settled(lib, rank, depth, items[from], deps, fuel, bound);
        let next = visit_item(lib, items[from], deps, fuel);
        lemma_visit_items_settled(lib, rank, depth, items, from + 1, next, fuel, bound);
        let last = visit_items(lib, items, from + 1, next, fuel);
        lemma_advance_twice(lib, rank, deps, next, last, bound);
        assert forall|i: int, b: Seq<char>|
            from <= i < items.len() && item_embeds(#[trigger] items[i], b)
                && #[trigger] lib.get_items(b) is Some implies last.seen(b) by {
            if i == from {
                assert(next.seen(b));
            }
        }
    }
}

proof fn lemma_visit_item_settled(
    lib: LibraryModel,
    rank: spec_fn(Seq<char>) -> nat,
    depth: nat,
    item: ItemModel,
    deps: DependenciesModel,
    fuel: nat,
    bound: nat,
)
    requires
        ranked(lib, rank, depth),
        sound(lib, rank, deps, bound),
        fuel >= bound,
        forall|n: Seq<char>| item_mentions(item, n) ==> rank(n) < bound,
    ensures
        advance(lib, rank, deps, visit_item(lib, item, deps, fuel), bound),
        forall|b: Seq<char>|
            item_embeds(item, b) && #[trigger] lib.get_items(b) is Some ==> visit_item(
                lib,
                item,
                deps,
                fuel,
            ).seen(b),
    decreases fuel, 2nat, item, 0nat,
{
    assert forall|n: Seq<char>| types_mention(item.types(), n, 0) implies rank(n) < bound by {
        assert(item_mentions(item, n));
    }
    lemma_visit_types_settled(
        lib,
        rank,
        depth,
        item.types(),
        0,
        item.generic_params,
        deps,
        fuel,
        bound,
    );
    let after = visit_item(lib, item, deps, fuel);
    assert forall|b: Seq<char>|
        item_embeds(item, b) && #[trigger] lib.get_items(b) is Some implies after.seen(b) by {
        let i = choose|i: int|
            0 <= i < item.fields.len() && embeds((#[trigger] item.fields[i]).ty, b);
        assert(item.types()[i] == item.fields[i].ty);
        assert(embeds(item.types()[i], b));
    }
}

proof fn lemma_visit_functions_settled(
    lib: LibraryModel,
    rank: spec_fn(Seq<char>) -> nat,
    depth: nat,
    from: int,
    deps: DependenciesModel,
)
    requires
        ranked(lib, rank, depth),
        sound(lib, rank, deps, depth),
        0 <= from,
    ensures
        sound(lib, rank, visit_functions(lib, lib.functions, from, deps, depth), depth),
    decreases lib.functions.len() - from,
{
    if from < lib.functions.len() {
        let f = lib.functions[from];
        lemma_visit_type_settled(lib, rank, depth, f.ret, Seq::empty(), deps, depth, depth);
        let d1 = visit_type(lib, f.ret, Seq::empty(), deps, depth);
        lemma_visit_types_settled(
            lib,
            rank,
            depth,
            f.arg_types(),
            0,
            Seq::empty(),
            d1,
            depth,
            depth,
        );
        lemma_visit_functions_settled(
            lib,
            rank,
            depth,
            from + 1,
            visit_function(lib, f, deps, depth),
        );
    }
}

proof fn lemma_visit_roots_settled(
    lib: LibraryModel,
    rank: spec_fn(Seq<char>) -> nat,
    depth: nat,
    from: int,
    deps: DependenciesModel,
)
    requires
        ranked(lib, rank, depth),
        sound(lib, rank, deps, depth),
        0 <= from,
    ensures
        sound(lib, rank, visit_roots(lib, lib.config.export.roots, from, deps, depth), depth),
    decreases lib.config.export.roots.len() - from,
{
    let names = lib.config.export.roots;
    if from < names.len() {
        let name = names[from];
        let next = match lib.get_items(name) {
            Some(items) => if deps.seen(name) {
                deps
            } else {
                lemma_enter(lib, rank, depth, name, deps, depth, depth);
                visit_items(lib, items, 0, deps.mark(name), depth).append(items)
            },
            None => deps,
        };
        lemma_visit_roots_settled(lib, rank, depth, from + 1, next);
    }
}

/// In the order in which the items that the library asks for are found,
/// every item comes after the items that it holds in place.
pub proof fn lemma_dependencies_settled(
    lib: LibraryModel,
    rank: spec_fn(Seq<char>) -> nat,
    depth: nat,
)
    requires
        ranked(lib, rank, depth),
    ensures
        settled(lib, lib.dependencies(depth).order),
{
    let d0 = DependenciesModel::empty();
    assert(sound(lib, rank, d0, depth)) by {
        assert forall|n: Seq<char>| !(#[trigger] d0.seen(n)) by {}
    }
    lemma_visit_functions_settled(lib, rank, depth, 0, d0);
    let d1 = visit_functions(lib, lib.functions, 0, d0, depth);
    lemma_visit_items_settled(lib, rank, depth, lib.globals, 0, d1, depth, depth);
    let d2 = visit_items(lib, lib.globals, 0, d1, depth);
    lemma_visit_items_settled(lib, rank, depth, lib.constants, 0, d2, depth, depth);
    let d3 = visit_items(lib, lib.constants, 0, d2, depth);
    lemma_visit_roots_settled(lib, rank, depth, 0, d3);
}

/// What passes the test stands in what the filter keeps.
pub proof fn lemma_filter_keeps<T>(s: Seq<T>, pred: spec_fn(T) -> bool, i: int)
    requires
        0 <= i < s.len(),
        pred(s[i]),
    ensures
        s.filter(pred).contains(s[i]),
    decreases s.len(),
{
    reveal(Seq::filter);
    let rest = s.drop_last().filter(pred);
    if i == s.len() - 1 {
        assert(s.last() == s[i]);
        assert(s.filter(pred) == rest.push(s.last()));
        assert(s.filter(pred)[rest.len() as int] == s[i]);
    } else {
        assert(s.drop_last()[i] == s[i]);
        lemma_filter_keeps(s.drop_last(), pred, i);
        let k = choose|k: int| 0 <= k < rest.len() && rest[k] == s[i];
        assert(s.filter(pred)[k] == s[i]);
    }
}

/// The place that an element kept by a filter had before: what the filter
/// keeps of the elements before that place are the elements kept before it.
pub proof fn lemma_filter_place<T>(s: Seq<T>, pred: spec_fn(T) -> bool, j: int) -> (m: int)
    requires
        0 <= j < s.filter(pred).len(),
    ensures
        0 <= m < s.len(),
        s[m] == s.filter(pred)[j],
        s.take(m).filter(pred) == s.filter(pred).take(j),
    decreases s.len(),
{
    reveal(Seq::filter);
    let rest = s.drop_last();
    let kept = rest.filter(pred);
    if pred(s.last()) && j == kept.len() {
        let m = s.len() - 1;
        assert(s.take(m) =~= rest);
        assert(s.filter(pred).take(j) =~= kept);
        m
    } else {
        let m = lemma_filter_place(rest, pred, j);
        assert(s.take(m) =~= rest.take(m));
        assert(s.filter(pred).take(j) =~= kept.take(j));
        m
    }
}

/// Every element of a sequence stands in the sequence ordered by name.
pub proof fn lemma_sorted_keeps(s: Seq<ItemModel>, x: ItemModel)
    requires
        s.contains(x),
    ensures
        sorted_by_name::<ItemContainer>(s).contains(x),
    decreases s.len(),
{
    let rest = sorted_by_name::<ItemContainer>(s.drop_first());
    let at = slot::<ItemContainer>(s[0], rest, 0);
    lemma_slot_in_range(s[0], rest, 0);
    let out = rest.insert(at, s[0]);
    if x == s[0] {
        assert(out[at] == x);
    } else {
        let i = choose|i: int| 0 <= i < s.len() && s[i] == x;
        assert(s.drop_first()[i - 1] == x);
        lemma_sorted_keeps(s.drop_first(), x);
        let k = choose|k: int| 0 <= k < rest.len() && rest[k] == x;
        if k < at {
            assert(out[k] == x);
        } else {
            assert(out[k + 1] == x);
        }
    }
}

/// Whether the items of `lib` that the order of emission puts first hold
/// nothing: an enum without a tag has no variant that holds a value, and an
/// opaque item has no field.
pub open spec fn tidy(lib: LibraryModel) -> bool {
    forall|x: ItemModel|
        #[trigger] holds(lib, x) && (plain_enum()(x) || opaque()(x)) ==> x.fields.len() == 0
}

/// Putting an order in layers keeps every item after the items that it
/// holds in place.
pub proof fn lemma_layers_stay_settled(lib: LibraryModel, order: Seq<ItemModel>)
    requires
        settled(lib, order),
        tidy(lib),
        forall|j: int| 0 <= j < order.len() ==> holds(lib, #[trigger] order[j]),
    ensures
        settled(lib, layered(order)),
{
    let first = sorted_by_name::<ItemContainer>(order.filter(plain_enum()));
    let second = sorted_by_name::<ItemContainer>(order.filter(opaque()));
    let third = order.filter(composite());
    let all = layered(order);
    assert(all == first + second + third);
    assert forall|j: int, b: Seq<char>|
        0 <= j < all.len() && #[trigger] item_embeds(all[j], b) implies all_before(
            lib,
            all,
            b,
            j,
        ) by {
        let x = all[j];
        crate::reach::lemma_layered_subset(order, j);
        let at = choose|at: int| 0 <= at < order.len() && order[at] == x;
        assert(holds(lib, order[at]));
        let i0 = choose|i: int| 0 <= i < x.fields.len() && embeds((#[trigger] x.fields[i]).ty, b);
        assert(x.fields.len() > 0);
        if j < first.len() {
            assert(x == first[j]);
            crate::reach::lemma_sorted_subset(order.filter(plain_enum()), j);
            let k = choose|k: int|
                0 <= k < order.filter(plain_enum()).len() && order.filter(plain_enum())[k] == x;
            lemma_filter_subset(order, plain_enum(), k);
            assert(plain_enum()(x));
        } else if j < first.len() + second.len() {
            assert(x == second[j - first.len()]);
            crate::reach::lemma_sorted_subset(order.filter(opaque()), j - first.len());
            let k = choose|k: int|
                0 <= k < order.filter(opaque()).len() && order.filter(opaque())[k] == x;
            lemma_filter_subset(order, opaque(), k);
            assert(opaque()(x));
        } else {
            let inner = j - first.len() - second.len();
            assert(x == third[inner]);
            let m = lemma_filter_place(order, composite(), inner);
            assert(order[m] == x);
            assert(all_before(lib, order, b, m));
            match lib.get_items(b) {
                Some(found) => {
                    assert forall|k: int| 0 <= k < found.len() implies placed_before(
                        all,
                        #[trigger] found[k],
                        j,
                    ) by {
                        let y = found[k];
                        assert(placed_before(order, y, m));
                        let i = choose|i: int|
                            0 <= i < m && i < order.len() && (#[trigger] order[i]) == y;
                        if plain_enum()(y) {
                            lemma_filter_keeps(order, plain_enum(), i);
                            lemma_sorted_keeps(order.filter(plain_enum()), y);
                            let e = choose|e: int| 0 <= e < first.len() && first[e] == y;
                            assert(all[e] == y);
                        } else if opaque()(y) {
                            lemma_filter_keeps(order, opaque(), i);
                            lemma_sorted_keeps(order.filter(opaque()), y);
                            let e = choose|e: int| 0 <= e < second.len() && second[e] == y;
                            assert(all[first.len() + e] == y);
                        } else {
                            assert(composite()(y));
                            let before = order.take(m);
                            assert(before[i] == y);
                            lemma_filter_keeps(before, composite(), i);
                            assert(before.filter(composite()) == third.take(inner));
                            let e = choose|e: int|
                                0 <= e < third.take(inner).len() && third.take(inner)[e] == y;
                            assert(third[e] == y);
                            assert(all[first.len() + second.len() + e] == y);
                        }
                    }
                },
                None => {},
            }
        }
    }
}

/// What an item holds in place comes before it: where an item that is
/// handed to the writer has a field that holds an item in place, not behind
/// a pointer, every item of that name stands before it in the order of
/// emission.
///
/// This holds of a well-formed library in which the names can be ranked, so
/// that no item refers to itself by way of other items and no chain of
/// references is longer than the visit follows. `lib` is the library as it
/// stands when the items are chosen.
pub proof fn law_held_items_come_first(
    lib: LibraryModel,
    rank: spec_fn(Seq<char>) -> nat,
    warnings: Seq<WarningModel>,
    j: int,
    b: Seq<char>,
    k: int,
)
    requires
        ranked(lib, rank, DEFAULT_DEPENDENCY_DEPTH as nat),
        lib.well_formed(),
        0 <= j < lib.assemble(warnings).items.len(),
        item_embeds(lib.assemble(warnings).items[j], b),
        lib.get_items(b) is Some,
        0 <= k < lib.get_items(b)->0.len(),
    ensures
        placed_before(lib.assemble(warnings).items, lib.get_items(b)->0[k], j),
{
    let depth = DEFAULT_DEPENDENCY_DEPTH as nat;
    let order = lib.dependencies(depth).order;
    assert(tidy(lib)) by {
        assert forall|x: ItemModel|
            #[trigger] holds(lib, x) && (plain_enum()(x) || opaque()(x)) implies x.fields.len()
            == 0 by {
            crate::shape::lemma_held_fits(lib, x);
        }
    }
    lemma_dependencies_settled(lib, rank, depth);
    lemma_dependencies_grounded(lib, depth);
    lemma_layers_stay_settled(lib, order);
    let all = layered(order);
    assert(all_before(lib, all, b, j));
}

/// What an item holds in place comes before it in what is handed to the
/// writer for `lib`, where `lib` is well formed and the library as it is
/// prepared can be ranked.
pub proof fn law_generated_items_follow_what_they_hold(
    lib: LibraryModel,
    rank: spec_fn(Seq<char>) -> nat,
    j: int,
    b: Seq<char>,
    k: int,
)
    requires
        ranked(lib.prepare().0, rank, DEFAULT_DEPENDENCY_DEPTH as nat),
        lib.well_formed(),
        0 <= j < lib.generate().items.len(),
        item_embeds(lib.generate().items[j], b),
        lib.prepare().0.get_items(b) is Some,
        0 <= k < lib.prepare().0.get_items(b)->0.len(),
    ensures
        placed_before(lib.generate().items, lib.prepare().0.get_items(b)->0[k], j),
{
    let prepared = lib.prepare();
    crate::shape::law_prepare_keeps_well_formed(lib);
    law_held_items_come_first(prepared.0, rank, prepared.1, j, b, k);
}

} // verus!
