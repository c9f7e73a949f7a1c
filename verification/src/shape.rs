use vstd::prelude::*;
use crate::erase::ErasureCache;
use crate::instantiate::{
    add_function, add_item, add_type, add_types, instantiate_all, instantiate_one, instantiates,
    instantiation,
};
use crate::item::{AnnotationSetModel, ItemKind, ItemModel};
use crate::item_map::ItemMap;
use crate::library::{
    add_functions, add_items, collect_transfers, concrete, erase_items, give_annotations,
    inserted, item_allowed, rename_items, rewrite_items, Library, LibraryModel, Transfers,
};
use crate::monomorph::{of_kind, MonomorphsModel};
use crate::passes::{erase_item, rename_item, rewrite_item};
use crate::reach::{holds, lemma_filter_subset, lemma_found_is_held};
use crate::ty::{GenericArgumentModel, TypeModel};
use crate::warning::WarningModel;

verus! {

/// Whether the item `x` can stand in the category of the kind `kind`: it is
/// of that kind, and it holds nothing where it is an opaque item or an enum
/// without a tag.
pub open spec fn fits(x: ItemModel, kind: ItemKind) -> bool {
    &&& x.kind == kind
    &&& (kind == ItemKind::OpaqueItem || (kind == ItemKind::Enum && x.tag is None))
        ==> x.fields.len() == 0
}

/// Whether every item of `items` can stand in the category of the kind
/// `kind`.
pub open spec fn all_fit(items: Seq<ItemModel>, kind: ItemKind) -> bool {
    forall|i: int| 0 <= i < items.len() ==> fits(#[trigger] items[i], kind)
}

/// Whether both items are of one kind, with or without a tag alike, and
/// have as many fields.
pub open spec fn same_shape(a: ItemModel, b: ItemModel) -> bool {
    a.kind == b.kind && (a.tag is None) == (b.tag is None) && a.fields.len() == b.fields.len()
}

impl LibraryModel {
    /// Whether every category holds items of its own kind, and the opaque
    /// items and the enums without a tag hold nothing.
    pub open spec fn well_formed(self) -> bool {
        &&& all_fit(self.constants, ItemKind::Constant)
        &&& all_fit(self.globals, ItemKind::Static)
        &&& all_fit(self.enums, ItemKind::Enum)
        &&& all_fit(self.structs, ItemKind::Struct)
        &&& all_fit(self.unions, ItemKind::Union)
        &&& all_fit(self.opaque_items, ItemKind::OpaqueItem)
        &&& all_fit(self.typedefs, ItemKind::Typedef)
    }
}

fn items_fit(items: &ItemMap, kind: ItemKind) -> (b: bool)
    ensures
        b == all_fit(items@, kind),
{
    let mut i: usize = 0;
    while i < items.items.len()
        invariant
            i <= items.items.len(),
            forall|j: int| 0 <= j < i ==> fits(#[trigger] items@[j], kind),
        decreases items.items.len() - i,
    {
        let x = &items.items[i];
        assert(x@ == items@[i as int]);
        let empty = match kind {
            ItemKind::OpaqueItem => x.fields.len() == 0,
            ItemKind::Enum => x.tag.is_some() || x.fields.len() == 0,
            _ => true,
        };
        if x.kind != kind || !empty {
            assert(!fits(items@[i as int], kind));
            return false;
        }
        i += 1;
    }
    true
}

impl Library {
    /// Whether every category holds items of its own kind, and the opaque
    /// items and the enums without a tag hold nothing.
    pub fn is_well_formed(&self) -> (b: bool)
        ensures
            b == self@.well_formed(),
    {
        items_fit(self.constants(), ItemKind::Constant) && items_fit(
            self.globals(),
            ItemKind::Static,
        ) && items_fit(self.enums(), ItemKind::Enum) && items_fit(self.structs(), ItemKind::Struct)
            && items_fit(self.unions(), ItemKind::Union) && items_fit(
            self.opaque_items(),
            ItemKind::OpaqueItem,
        ) && items_fit(self.typedefs(), ItemKind::Typedef)
    }
}

/// Items of the same shape, place by place, fit the same category.
pub proof fn lemma_shape_fits(old: Seq<ItemModel>, new: Seq<ItemModel>, kind: ItemKind)
    requires
        all_fit(old, kind),
        new.len() == old.len(),
        forall|i: int| 0 <= i < old.len() ==> same_shape(#[trigger] new[i], old[i]),
    ensures
        all_fit(new, kind),
{
    assert forall|i: int| 0 <= i < new.len() implies fits(#[trigger] new[i], kind) by {
        assert(fits(old[i], kind));
    }
}

/// What a filter keeps of items that fit a category fits it.
pub proof fn lemma_filter_fits(items: Seq<ItemModel>, pred: spec_fn(ItemModel) -> bool, kind:
    ItemKind)
    requires
        all_fit(items, kind),
    ensures
        all_fit(items.filter(pred), kind),
{
    let kept = items.filter(pred);
    assert forall|i: int| 0 <= i < kept.len() implies fits(#[trigger] kept[i], kind) by {
        lemma_filter_subset(items, pred, i);
        let k = choose|k: int| 0 <= k < items.len() && items[k] == kept[i];
        assert(fits(items[k], kind));
    }
}

proof fn lemma_rewrite_fits(items: Seq<ItemModel>, op: crate::rewrite::PathOp, kind: ItemKind)
    requires
        all_fit(items, kind),
    ensures
        all_fit(rewrite_items(items, op), kind),
{
    let new = rewrite_items(items, op);
    assert forall|i: int| 0 <= i < items.len() implies same_shape(#[trigger] new[i], items[i]) by {
        assert(new[i] == rewrite_item(items[i], op));
    }
    lemma_shape_fits(items, new, kind);
}

proof fn lemma_rename_fits(items: Seq<ItemModel>, cfg: crate::config::ConfigModel, kind: ItemKind)
    requires
        all_fit(items, kind),
    ensures
        all_fit(rename_items(items, cfg), kind),
{
    let new = rename_items(items, cfg);
    assert forall|i: int| 0 <= i < items.len() implies same_shape(#[trigger] new[i], items[i]) by {
        assert(new[i] == rename_item(items[i], cfg.export));
    }
    lemma_shape_fits(items, new, kind);
}

proof fn lemma_erase_items_fit(
    cache: ErasureCache,
    lib: LibraryModel,
    items: Seq<ItemModel>,
    from: int,
    depth: nat,
    kind: ItemKind,
)
    requires
        0 <= from <= items.len(),
        all_fit(items, kind),
    ensures
        all_fit(erase_items(cache, lib, items, from, depth).1, kind),
    decreases items.len() - from,
{
    if from < items.len() {
        let first = if items[from].is_generic() {
            (cache, items[from])
        } else {
            erase_item(cache, lib, items[from], Seq::empty(), depth)
        };
        assert(same_shape(first.1, items[from]));
        assert(fits(items[from], kind));
        lemma_erase_items_fit(first.0, lib, items, from + 1, depth, kind);
        let rest = erase_items(first.0, lib, items, from + 1, depth).1;
        let all = seq![first.1] + rest;
        assert forall|i: int| 0 <= i < all.len() implies fits(#[trigger] all[i], kind) by {
            if i > 0 {
                assert(all[i] == rest[i - 1]);
            }
        }
    }
}

proof fn lemma_collect_transfers_fit(
    typedefs: Seq<ItemModel>,
    from: int,
    out: Seq<ItemModel>,
    acc: Transfers,
    warnings: Seq<WarningModel>,
    kind: ItemKind,
)
    requires
        0 <= from,
        all_fit(typedefs, kind),
        all_fit(out, kind),
    ensures
        all_fit(collect_transfers(typedefs, from, out, acc, warnings).0, kind),
    decreases typedefs.len() - from,
{
    if from < typedefs.len() {
        let t = typedefs[from];
        assert(fits(t, kind));
        let stripped = ItemModel { annotations: AnnotationSetModel::empty(), ..t };
        match crate::library::transfer_target(t) {
            None => lemma_collect_transfers_fit(typedefs, from + 1, out.push(t), acc, warnings, kind),
            Some(target) => if crate::library::has_transfer(acc, target, 0) {
                lemma_collect_transfers_fit(
                    typedefs,
                    from + 1,
                    out.push(t),
                    acc,
                    warnings.push(
                        WarningModel::DuplicateAnnotatedAlias { target, alias: t.path },
                    ),
                    kind,
                );
            } else {
                assert(fits(stripped, kind));
                lemma_collect_transfers_fit(
                    typedefs,
                    from + 1,
                    out.push(stripped),
                    acc.push((target, t.annotations)),
                    warnings,
                    kind,
                );
            },
        }
    }
}

proof fn lemma_give_annotations_fit(
    items: Seq<ItemModel>,
    from: int,
    target: Seq<char>,
    ann: AnnotationSetModel,
    out: Seq<ItemModel>,
    given: bool,
    warnings: Seq<WarningModel>,
    kind: ItemKind,
)
    requires
        0 <= from,
        all_fit(items, kind),
        all_fit(out, kind),
    ensures
        all_fit(give_annotations(items, from, target, ann, out, given, warnings).0, kind),
    decreases items.len() - from,
{
    if from < items.len() {
        let x = items[from];
        assert(fits(x, kind));
        if x.path != target {
            lemma_give_annotations_fit(
                items,
                from + 1,
                target,
                ann,
                out.push(x),
                given,
                warnings,
                kind,
            );
        } else if x.annotations.is_empty() {
            let changed = ItemModel { annotations: ann, ..x };
            assert(fits(changed, kind));
            lemma_give_annotations_fit(
                items,
                from + 1,
                target,
                ann,
                out.push(changed),
                true,
                warnings,
                kind,
            );
        } else {
            lemma_give_annotations_fit(
                items,
                from + 1,
                target,
                ann,
                out.push(x),
                given,
                warnings.push(WarningModel::AnnotationConflict { target }),
                kind,
            );
        }
    }
}

proof fn lemma_give_keeps_well_formed(
    lib: LibraryModel,
    target: Seq<char>,
    ann: AnnotationSetModel,
    warnings: Seq<WarningModel>,
)
    requires
        lib.well_formed(),
    ensures
        lib.give(target, ann, warnings).0.well_formed(),
{
    let none = Seq::<ItemModel>::empty();
    let r1 = give_annotations(lib.enums, 0, target, ann, none, false, warnings);
    lemma_give_annotations_fit(lib.enums, 0, target, ann, none, false, warnings, ItemKind::Enum);
    let r2 = give_annotations(lib.structs, 0, target, ann, none, false, r1.2);
    lemma_give_annotations_fit(lib.structs, 0, target, ann, none, false, r1.2, ItemKind::Struct);
    let r3 = give_annotations(lib.unions, 0, target, ann, none, false, r2.2);
    lemma_give_annotations_fit(lib.unions, 0, target, ann, none, false, r2.2, ItemKind::Union);
    let r4 = give_annotations(lib.opaque_items, 0, target, ann, none, false, r3.2);
    lemma_give_annotations_fit(
        lib.opaque_items,
        0,
        target,
        ann,
        none,
        false,
        r3.2,
        ItemKind::OpaqueItem,
    );
    lemma_give_annotations_fit(
        lib.typedefs,
        0,
        target,
        ann,
        none,
        false,
        r4.2,
        ItemKind::Typedef,
    );
}

proof fn lemma_give_all_keeps_well_formed(
    lib: LibraryModel,
    transfers: Transfers,
    from: int,
    warnings: Seq<WarningModel>,
)
    requires
        0 <= from,
        lib.well_formed(),
    ensures
        lib.give_all(transfers, from, warnings).0.well_formed(),
    decreases transfers.len() - from,
{
    if from < transfers.len() {
        lemma_give_keeps_well_formed(lib, transfers[from].0, transfers[from].1, warnings);
        let next = lib.give(transfers[from].0, transfers[from].1, warnings);
        lemma_give_all_keeps_well_formed(next.0, transfers, from + 1, next.1);
    }
}

/// Whether every concrete item of `mono` holds nothing where it is an
/// opaque item or an enum without a tag.
pub open spec fn copies_fit(mono: MonomorphsModel) -> bool {
    forall|i: int| 0 <= i < mono.items.len() ==> fits(#[trigger] mono.items[i], mono.items[i].kind)
}

proof fn lemma_add_type_fits(lib: LibraryModel, t: TypeModel, mono: MonomorphsModel, depth: nat)
    requires
        lib.well_formed(),
        copies_fit(mono),
    ensures
        copies_fit(add_type(lib, t, mono, depth)),
    decreases depth, 1nat, t, 0nat,
{
    match t {
        TypeModel::Ptr { ty, .. } => lemma_add_type_fits(lib, *ty, mono, depth),
        TypeModel::Path(p) => {
            if p.generics.len() == 0 || mono.contains(p) {
            } else {
                match lib.get_items(p.path) {
                    Some(items) => {
                        assert forall|i: int| 0 <= i < items.len() implies fits(
                            #[trigger] items[i],
                            items[i].kind,
                        ) by {
                            lemma_found_is_held(lib, p.path, i);
                            lemma_held_fits(lib, items[i]);
                        }
                        lemma_instantiate_all_fits(lib, items, 0, p.generics, mono, depth);
                    },
                    None => {},
                }
            }
        },
        TypeModel::Primitive(_) => {},
        TypeModel::Array(ty, _) => lemma_add_type_fits(lib, *ty, mono, depth),
        TypeModel::FuncPtr { ret, args, .. } => {
            lemma_add_type_fits(lib, *ret, mono, depth);
            lemma_add_types_fits(lib, args, 0, add_type(lib, *ret, mono, depth), depth);
        },
    }
}

/// An item that a name of a well-formed library refers to holds nothing
/// where it is an opaque item or an enum without a tag.
pub proof fn lemma_held_fits(lib: LibraryModel, x: ItemModel)
    requires
        lib.well_formed(),
        holds(lib, x),
    ensures
        fits(x, x.kind),
{
    if lib.enums.contains(x) {
        let k = choose|k: int| 0 <= k < lib.enums.len() && lib.enums[k] == x;
        assert(fits(lib.enums[k], ItemKind::Enum));
    } else if lib.structs.contains(x) {
        let k = choose|k: int| 0 <= k < lib.structs.len() && lib.structs[k] == x;
        assert(fits(lib.structs[k], ItemKind::Struct));
    } else if lib.unions.contains(x) {
        let k = choose|k: int| 0 <= k < lib.unions.len() && lib.unions[k] == x;
        assert(fits(lib.unions[k], ItemKind::Union));
    } else if lib.opaque_items.contains(x) {
        let k = choose|k: int| 0 <= k < lib.opaque_items.len() && lib.opaque_items[k] == x;
        assert(fits(lib.opaque_items[k], ItemKind::OpaqueItem));
    } else {
        let k = choose|k: int| 0 <= k < lib.typedefs.len() && lib.typedefs[k] == x;
        assert(fits(lib.typedefs[k], ItemKind::Typedef));
    }
}

proof fn lemma_add_types_fits(
    lib: LibraryModel,
    types: Seq<TypeModel>,
    from: int,
    mono: MonomorphsModel,
    depth: nat,
)
    requires
        lib.well_formed(),
        copies_fit(mono),
    ensures
        copies_fit(add_types(lib, types, from, mono, depth)),
    decreases depth, 1nat, types, types.len() - from,
{
    if 0 <= from < types.len() {
        lemma_add_type_fits(lib, types[from], mono, depth);
        lemma_add_types_fits(lib, types, from + 1, add_type(lib, types[from], mono, depth), depth);
    }
}

proof fn lemma_instantiate_all_fits(
    lib: LibraryModel,
    items: Seq<ItemModel>,
    from: int,
    args: Seq<GenericArgumentModel>,
    mono: MonomorphsModel,
    depth: nat,
)
    requires
        lib.well_formed(),
        copies_fit(mono),
        forall|i: int| 0 <= i < items.len() ==> fits(#[trigger] items[i], items[i].kind),
    ensures
        copies_fit(instantiate_all(lib, items, from, args, mono, depth)),
    decreases depth, 0nat, items, items.len() - from,
{
    if 0 <= from < items.len() {
        lemma_instantiate_one_fits(lib, items[from], args, mono, depth);
        lemma_instantiate_all_fits(
            lib,
            items,
            from + 1,
            args,
            instantiate_one(lib, items[from], args, mono, depth),
            depth,
        );
    }
}

proof fn lemma_instantiate_one_fits(
    lib: LibraryModel,
    item: ItemModel,
    args: Seq<GenericArgumentModel>,
    mono: MonomorphsModel,
    depth: nat,
)
    requires
        lib.well_formed(),
        copies_fit(mono),
        fits(item, item.kind),
    ensures
        copies_fit(instantiate_one(lib, item, args, mono, depth)),
    decreases depth, 0nat, item, 0nat,
{
    if instantiates(item, args, mono, depth) {
        let copy = instantiation(item, args, lib.config.export.mangle);
        assert(same_shape(copy, item));
        let registered = mono.register(crate::ty::fresh_path(item.path, args), copy.path);
        lemma_add_types_fits(lib, copy.types(), 0, registered, (depth - 1) as nat);
        let grown = add_types(lib, copy.types(), 0, registered, (depth - 1) as nat);
        let last = grown.with_item(copy);
        assert forall|i: int| 0 <= i < last.items.len() implies fits(
            #[trigger] last.items[i],
            last.items[i].kind,
        ) by {
            if i < grown.items.len() {
                assert(last.items[i] == grown.items[i]);
            }
        }
    }
}

proof fn lemma_add_items_fits(
    lib: LibraryModel,
    items: Seq<ItemModel>,
    from: int,
    mono: MonomorphsModel,
    depth: nat,
)
    requires
        lib.well_formed(),
        copies_fit(mono),
    ensures
        copies_fit(add_items(lib, items, from, mono, depth)),
    decreases items.len() - from,
{
    if 0 <= from < items.len() {
        if !items[from].is_generic() {
            lemma_add_types_fits(lib, items[from].types(), 0, mono, depth);
        }
        lemma_add_items_fits(lib, items, from + 1, add_item(lib, items[from], mono, depth), depth);
    }
}

proof fn lemma_add_functions_fits(
    lib: LibraryModel,
    from: int,
    mono: MonomorphsModel,
    depth: nat,
)
    requires
        lib.well_formed(),
        copies_fit(mono),
    ensures
        copies_fit(add_functions(lib, lib.functions, from, mono, depth)),
    decreases lib.functions.len() - from,
{
    if 0 <= from < lib.functions.len() {
        let f = lib.functions[from];
        lemma_add_type_fits(lib, f.ret, mono, depth);
        lemma_add_types_fits(lib, f.arg_types(), 0, add_type(lib, f.ret, mono, depth), depth);
        lemma_add_functions_fits(lib, from + 1, add_function(lib, f, mono, depth), depth);
    }
}

proof fn lemma_monomorphs_fit(lib: LibraryModel, depth: nat)
    requires
        lib.well_formed(),
    ensures
        copies_fit(lib.monomorphs(depth)),
{
    let m0 = MonomorphsModel::empty();
    lemma_add_items_fits(lib, lib.structs, 0, m0, depth);
    let m1 = add_items(lib, lib.structs, 0, m0, depth);
    lemma_add_items_fits(lib, lib.unions, 0, m1, depth);
    let m2 = add_items(lib, lib.unions, 0, m1, depth);
    lemma_add_items_fits(lib, lib.enums, 0, m2, depth);
    let m3 = add_items(lib, lib.enums, 0, m2, depth);
    lemma_add_items_fits(lib, lib.typedefs, 0, m3, depth);
    let m4 = add_items(lib, lib.typedefs, 0, m3, depth);
    lemma_add_items_fits(lib, lib.globals, 0, m4, depth);
    let m5 = add_items(lib, lib.globals, 0, m4, depth);
    lemma_add_items_fits(lib, lib.constants, 0, m5, depth);
    let m6 = add_items(lib, lib.constants, 0, m5, depth);
    lemma_add_functions_fits(lib, 0, m6, depth);
}

proof fn lemma_insert_copies_keeps_well_formed(
    lib: LibraryModel,
    cache: ErasureCache,
    copies: Seq<ItemModel>,
    from: int,
    kind: ItemKind,
    depth: nat,
)
    requires
        0 <= from,
        lib.well_formed(),
        all_fit(copies, kind),
    ensures
        lib.insert_copies(cache, copies, from, kind, depth).1.well_formed(),
    decreases copies.len() - from,
{
    if from < copies.len() {
        let erased = erase_item(cache, lib, copies[from], Seq::empty(), depth);
        assert(fits(copies[from], kind));
        assert(same_shape(erased.1, copies[from]));
        let grown = inserted(lib.category(kind), erased.1);
        assert(all_fit(lib.category(kind), kind));
        assert(all_fit(grown, kind)) by {
            assert forall|i: int| 0 <= i < grown.len() implies fits(#[trigger] grown[i], kind) by {
                if i < lib.category(kind).len() {
                    assert(grown[i] == lib.category(kind)[i]);
                }
            }
        }
        lemma_insert_copies_keeps_well_formed(
            lib.with_category(kind, grown),
            erased.0,
            copies,
            from + 1,
            kind,
            depth,
        );
    }
}

proof fn lemma_copies_of_kind_fit(mono: MonomorphsModel, kind: ItemKind)
    requires
        copies_fit(mono),
    ensures
        all_fit(mono.of_kind(kind), kind),
{
    let kept = mono.of_kind(kind);
    assert forall|i: int| 0 <= i < kept.len() implies fits(#[trigger] kept[i], kind) by {
        lemma_filter_subset(mono.items, of_kind(kind), i);
        let k = choose|k: int| 0 <= k < mono.items.len() && mono.items[k] == kept[i];
        assert(fits(mono.items[k], mono.items[k].kind));
    }
}

proof fn lemma_instantiate_keeps_well_formed(
    lib: LibraryModel,
    cache: ErasureCache,
    erase_depth: nat,
    depth: nat,
)
    requires
        lib.well_formed(),
    ensures
        lib.instantiate_monomorphs(cache, erase_depth, depth).1.well_formed(),
{
    let mono = lib.monomorphs(depth);
    lemma_monomorphs_fit(lib, depth);
    lemma_copies_of_kind_fit(mono, ItemKind::Struct);
    lemma_copies_of_kind_fit(mono, ItemKind::Union);
    lemma_copies_of_kind_fit(mono, ItemKind::OpaqueItem);
    lemma_copies_of_kind_fit(mono, ItemKind::Typedef);
    lemma_copies_of_kind_fit(mono, ItemKind::Enum);
    let r1 = lib.insert_copies(cache, mono.of_kind(ItemKind::Struct), 0, ItemKind::Struct, erase_depth);
    lemma_insert_copies_keeps_well_formed(lib, cache, mono.of_kind(ItemKind::Struct), 0, ItemKind::Struct, erase_depth);
    let r2 = r1.1.insert_copies(r1.0, mono.of_kind(ItemKind::Union), 0, ItemKind::Union, erase_depth);
    lemma_insert_copies_keeps_well_formed(r1.1, r1.0, mono.of_kind(ItemKind::Union), 0, ItemKind::Union, erase_depth);
    let r3 = r2.1.insert_copies(r2.0, mono.of_kind(ItemKind::OpaqueItem), 0, ItemKind::OpaqueItem, erase_depth);
    lemma_insert_copies_keeps_well_formed(r2.1, r2.0, mono.of_kind(ItemKind::OpaqueItem), 0, ItemKind::OpaqueItem, erase_depth);
    let r4 = r3.1.insert_copies(r3.0, mono.of_kind(ItemKind::Typedef), 0, ItemKind::Typedef, erase_depth);
    lemma_insert_copies_keeps_well_formed(r3.1, r3.0, mono.of_kind(ItemKind::Typedef), 0, ItemKind::Typedef, erase_depth);
    let r5 = r4.1.insert_copies(r4.0, mono.of_kind(ItemKind::Enum), 0, ItemKind::Enum, erase_depth);
    lemma_insert_copies_keeps_well_formed(r4.1, r4.0, mono.of_kind(ItemKind::Enum), 0, ItemKind::Enum, erase_depth);
    let full = r5.1;
    assert(full == lib.insert_monomorphs(cache, mono, erase_depth).1);
    lemma_filter_fits(full.opaque_items, concrete(), ItemKind::OpaqueItem);
    lemma_filter_fits(full.structs, concrete(), ItemKind::Struct);
    lemma_filter_fits(full.unions, concrete(), ItemKind::Union);
    lemma_filter_fits(full.enums, concrete(), ItemKind::Enum);
    lemma_filter_fits(full.typedefs, concrete(), ItemKind::Typedef);
    let kept = full.remove_generic();
    let op = crate::rewrite::PathOp::Mangle(mono);
    lemma_rewrite_fits(kept.unions, op, ItemKind::Union);
    lemma_rewrite_fits(kept.structs, op, ItemKind::Struct);
    lemma_rewrite_fits(kept.enums, op, ItemKind::Enum);
    lemma_rewrite_fits(kept.typedefs, op, ItemKind::Typedef);
    lemma_rewrite_fits(kept.globals, op, ItemKind::Static);
    lemma_rewrite_fits(kept.constants, op, ItemKind::Constant);
}

proof fn lemma_erase_keeps_well_formed(lib: LibraryModel, cache: ErasureCache, depth: nat)
    requires
        lib.well_formed(),
    ensures
        lib.erase_types(cache, depth).1.well_formed(),
{
    let c0 = lib.populate(cache, depth);
    let none = Seq::<ItemModel>::empty();
    let r1 = erase_items(c0, LibraryModel { constants: none, ..lib }, lib.constants, 0, depth);
    lemma_erase_items_fit(c0, LibraryModel { constants: none, ..lib }, lib.constants, 0, depth, ItemKind::Constant);
    let l1 = LibraryModel { constants: r1.1, ..lib };
    let r2 = erase_items(r1.0, LibraryModel { globals: none, ..l1 }, l1.globals, 0, depth);
    lemma_erase_items_fit(r1.0, LibraryModel { globals: none, ..l1 }, l1.globals, 0, depth, ItemKind::Static);
    let l2 = LibraryModel { globals: r2.1, ..l1 };
    let r3 = erase_items(r2.0, LibraryModel { enums: none, ..l2 }, l2.enums, 0, depth);
    lemma_erase_items_fit(r2.0, LibraryModel { enums: none, ..l2 }, l2.enums, 0, depth, ItemKind::Enum);
    let l3 = LibraryModel { enums: r3.1, ..l2 };
    let r4 = erase_items(r3.0, LibraryModel { structs: none, ..l3 }, l3.structs, 0, depth);
    lemma_erase_items_fit(r3.0, LibraryModel { structs: none, ..l3 }, l3.structs, 0, depth, ItemKind::Struct);
    let l4 = LibraryModel { structs: r4.1, ..l3 };
    let r5 = erase_items(r4.0, LibraryModel { unions: none, ..l4 }, l4.unions, 0, depth);
    lemma_erase_items_fit(r4.0, LibraryModel { unions: none, ..l4 }, l4.unions, 0, depth, ItemKind::Union);
    let l5 = LibraryModel { unions: r5.1, ..l4 };
    let r6 = erase_items(r5.0, LibraryModel { opaque_items: none, ..l5 }, l5.opaque_items, 0, depth);
    lemma_erase_items_fit(r5.0, LibraryModel { opaque_items: none, ..l5 }, l5.opaque_items, 0, depth, ItemKind::OpaqueItem);
    let l6 = LibraryModel { opaque_items: r6.1, ..l5 };
    lemma_erase_items_fit(r6.0, LibraryModel { typedefs: none, ..l6 }, l6.typedefs, 0, depth, ItemKind::Typedef);
}

/// The stages keep a library well formed: where every category of a
/// library holds items of its own kind, and its opaque items and enums
/// without a tag hold nothing, the same holds of the library as it is
/// prepared for choosing the items to emit.
pub proof fn law_prepare_keeps_well_formed(lib: LibraryModel)
    requires
        lib.well_formed(),
    ensures
        lib.prepare().0.well_formed(),
{
    let erased = lib.erase_types(
        ErasureCache::empty(),
        crate::erase::DEFAULT_ERASURE_DEPTH as nat,
    );
    lemma_erase_keeps_well_formed(
        lib,
        ErasureCache::empty(),
        crate::erase::DEFAULT_ERASURE_DEPTH as nat,
    );
    let taken = collect_transfers(
        erased.1.typedefs,
        0,
        Seq::empty(),
        Seq::empty(),
        Seq::empty(),
    );
    lemma_collect_transfers_fit(
        erased.1.typedefs,
        0,
        Seq::empty(),
        Seq::empty(),
        Seq::empty(),
        ItemKind::Typedef,
    );
    lemma_give_all_keeps_well_formed(
        LibraryModel { typedefs: taken.0, ..erased.1 },
        taken.1,
        0,
        taken.2,
    );
    let transferred = erased.1.transfer_annotations();
    let sorted = transferred.0.sort_functions();
    assert(sorted.well_formed());
    let concrete = if sorted.config.language != crate::config::Language::Cxx {
        lemma_instantiate_keeps_well_formed(
            sorted,
            erased.0,
            crate::erase::DEFAULT_ERASURE_DEPTH as nat,
            crate::monomorph::DEFAULT_MONOMORPH_DEPTH as nat,
        );
        sorted.instantiate_monomorphs(
            erased.0,
            crate::erase::DEFAULT_ERASURE_DEPTH as nat,
            crate::monomorph::DEFAULT_MONOMORPH_DEPTH as nat,
        ).1
    } else {
        sorted
    };
    assert(concrete.well_formed());
    let exclude = concrete.config.export.exclude;
    lemma_filter_fits(concrete.enums, item_allowed(exclude), ItemKind::Enum);
    lemma_filter_fits(concrete.structs, item_allowed(exclude), ItemKind::Struct);
    lemma_filter_fits(concrete.unions, item_allowed(exclude), ItemKind::Union);
    lemma_filter_fits(concrete.opaque_items, item_allowed(exclude), ItemKind::OpaqueItem);
    lemma_filter_fits(concrete.typedefs, item_allowed(exclude), ItemKind::Typedef);
    lemma_filter_fits(concrete.globals, item_allowed(exclude), ItemKind::Static);
    lemma_filter_fits(concrete.constants, item_allowed(exclude), ItemKind::Constant);
    let allowed = concrete.remove_excluded();
    assert(allowed.well_formed());
    let resolved = if allowed.config.language == crate::config::Language::C {
        if allowed.config.style.spec_generate_tag() {
            let op = crate::rewrite::PathOp::Resolve(allowed.declarations());
            lemma_rewrite_fits(allowed.enums, op, ItemKind::Enum);
            lemma_rewrite_fits(allowed.structs, op, ItemKind::Struct);
            lemma_rewrite_fits(allowed.unions, op, ItemKind::Union);
            lemma_rewrite_fits(allowed.typedefs, op, ItemKind::Typedef);
            lemma_rewrite_fits(allowed.globals, op, ItemKind::Static);
        }
        allowed.resolve_declaration_types()
    } else {
        allowed
    };
    assert(resolved.well_formed());
    lemma_rename_fits(resolved.globals, resolved.config, ItemKind::Static);
    lemma_rename_fits(resolved.constants, resolved.config, ItemKind::Constant);
    lemma_rename_fits(resolved.structs, resolved.config, ItemKind::Struct);
    lemma_rename_fits(resolved.unions, resolved.config, ItemKind::Union);
    lemma_rename_fits(resolved.enums, resolved.config, ItemKind::Enum);
    lemma_rename_fits(resolved.opaque_items, resolved.config, ItemKind::OpaqueItem);
    lemma_rename_fits(resolved.typedefs, resolved.config, ItemKind::Typedef);
}

} // verus!
