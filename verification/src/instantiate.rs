use vstd::prelude::*;
use crate::config::MangleConfig;
use crate::function::Function;
use crate::generic_path::{bind, can_bind, GenericParams};
use crate::item::{Field, FieldModel, ItemContainer, ItemModel};
use crate::library::{Library, LibraryModel};
use crate::mangle::{mangle_path, mangled_name};
use crate::model::views;
use crate::monomorph::{Monomorphs, MonomorphsModel};
use crate::path::Path;
use crate::ty::{
    args_model, bindings_model, clone_arg_list, fresh_path, lemma_types_model_is_views,
    specialize_type, types_model, Bindings, GenericArgument, GenericArgumentModel, GenericPath,
    Type, TypeModel,
};

verus! {

/// The fields `fields` with their types specialized by `m`.
pub open spec fn specialized_fields(fields: Seq<FieldModel>, m: Bindings) -> Seq<FieldModel> {
    Seq::new(
        fields.len(),
        |i: int| FieldModel { name: fields[i].name, ty: specialize_type(fields[i].ty, m) },
    )
}

/// The concrete copy of the generic item `item` for the arguments `args`:
/// it is called by the mangled name, has no parameters left, and has `args`
/// in place of the parameters in the types of its fields.
pub open spec fn instantiation(
    item: ItemModel,
    args: Seq<GenericArgumentModel>,
    cfg: MangleConfig,
) -> ItemModel {
    ItemModel {
        path: mangled_name(item.path, args, true, cfg),
        export_name: mangled_name(item.path, args, true, cfg),
        generic_params: Seq::empty(),
        fields: specialized_fields(item.fields, bind(item.generic_params, args)),
        ..item
    }
}

/// The registry after every instantiation that the type `t` asks for is
/// registered, and every instantiation that those ask for in turn, as deep
/// as `depth` allows.
///
/// A path with arguments asks for the instantiation of each item it names,
/// unless the registry holds that path already.
pub open spec fn add_type(lib: LibraryModel, t: TypeModel, mono: MonomorphsModel, depth: nat)
    -> MonomorphsModel
    decreases depth, 1nat, t, 0nat,
{
    match t {
        TypeModel::Ptr { ty, .. } => add_type(lib, *ty, mono, depth),
        TypeModel::Path(p) => if p.generics.len() == 0 || mono.contains(p) {
            mono
        } else {
            match lib.get_items(p.path) {
                Some(items) => instantiate_all(lib, items, 0, p.generics, mono, depth),
                None => mono,
            }
        },
        TypeModel::Primitive(_) => mono,
        TypeModel::Array(ty, _) => add_type(lib, *ty, mono, depth),
        TypeModel::FuncPtr { ret, args, .. } => add_types(
            lib,
            args,
            0,
            add_type(lib, *ret, mono, depth),
            depth,
        ),
    }
}

/// The registry after what the types `types[from..]` ask for is registered,
/// one type after the other.
pub open spec fn add_types(
    lib: LibraryModel,
    types: Seq<TypeModel>,
    from: int,
    mono: MonomorphsModel,
    depth: nat,
) -> MonomorphsModel
    decreases depth, 1nat, types, types.len() - from,
{
    if from < 0 || from >= types.len() {
        mono
    } else {
        add_types(lib, types, from + 1, add_type(lib, types[from], mono, depth), depth)
    }
}

/// The registry after each of `items[from..]` is instantiated with `args`.
pub open spec fn instantiate_all(
    lib: LibraryModel,
    items: Seq<ItemModel>,
    from: int,
    args: Seq<GenericArgumentModel>,
    mono: MonomorphsModel,
    depth: nat,
) -> MonomorphsModel
    decreases depth, 0nat, items, items.len() - from,
{
    if from < 0 || from >= items.len() {
        mono
    } else {
        instantiate_all(
            lib,
            items,
            from + 1,
            args,
            instantiate_one(lib, items[from], args, mono, depth),
            depth,
        )
    }
}

/// Whether the instantiation of `item` with `args` is to be registered in
/// `mono`: the item is generic, the arguments can be bound to its
/// parameters, the instantiation is not registered yet, and `depth` is not
/// used up.
pub open spec fn instantiates(
    item: ItemModel,
    args: Seq<GenericArgumentModel>,
    mono: MonomorphsModel,
    depth: nat,
) -> bool {
    &&& depth > 0
    &&& item.is_generic()
    &&& can_bind(item.generic_params, args)
    &&& !mono.contains(fresh_path(item.path, args))
}

/// The registry after `item` is instantiated with `args`: the name of the
/// concrete copy is registered, then what the copy asks for in turn, and
/// then the copy itself is added.
///
/// Nothing changes where the instantiation is registered already. A use of
/// an item without parameters, or with arguments that cannot be bound, is
/// recorded as refused. An instantiation beyond the bound is left out, and
/// that is recorded.
pub open spec fn instantiate_one(
    lib: LibraryModel,
    item: ItemModel,
    args: Seq<GenericArgumentModel>,
    mono: MonomorphsModel,
    depth: nat,
) -> MonomorphsModel
    decreases depth, 0nat, item, 0nat,
{
    if instantiates(item, args, mono, depth) {
        let copy = instantiation(item, args, lib.config.export.mangle);
        add_types(
            lib,
            copy.types(),
            0,
            mono.register(fresh_path(item.path, args), copy.path),
            (depth - 1) as nat,
        ).with_item(copy)
    } else if mono.contains(fresh_path(item.path, args)) {
        mono
    } else if !item.is_generic() || !can_bind(item.generic_params, args) {
        mono.refuse(item.path)
    } else {
        mono.stopped()
    }
}

/// The registry after what the item `item` asks for is registered. An item
/// that is still generic asks for nothing.
pub open spec fn add_item(lib: LibraryModel, item: ItemModel, mono: MonomorphsModel, depth: nat)
    -> MonomorphsModel {
    if item.is_generic() {
        mono
    } else {
        add_types(lib, item.types(), 0, mono, depth)
    }
}

fn add_type_exec(lib: &Library, t: &Type, out: &mut Monomorphs, depth: usize)
    ensures
        final(out)@ == add_type(lib@, t@, old(out)@, depth as nat),
        final(out).depth_limit() == old(out).depth_limit(),
    decreases depth, 1nat, t, 0nat,
{
    match t {
        Type::Ptr { ty, .. } => add_type_exec(lib, ty, out, depth),
        Type::Path(p) => {
            assert(t@ == TypeModel::Path(p@) && p@.generics.len() == p.generics.len());
            if p.generics.len() == 0 || out.contains(p) {
                return ;
            }
            if let Some(items) = lib.get_items(&p.path) {
                instantiate_all_exec(lib, &items, &p.generics, out, depth);
            }
        },
        Type::Primitive(_) => {},
        Type::Array(ty, _) => add_type_exec(lib, ty, out, depth),
        Type::FuncPtr { ret, args, .. } => {
            add_type_exec(lib, ret, out, depth);
            add_types_exec(lib, args, out, depth);
        },
    }
}

fn add_types_exec(lib: &Library, types: &Vec<Type>, out: &mut Monomorphs, depth: usize)
    ensures
        final(out)@ == add_types(lib@, types_model(types@), 0, old(out)@, depth as nat),
        final(out).depth_limit() == old(out).depth_limit(),
    decreases depth, 1nat, types, 0nat,
{
    let ghost all = types_model(types@);
    let mut i: usize = 0;
    while i < types.len()
        invariant
            i <= types.len(),
            all == types_model(types@),
            out.depth_limit() == old(out).depth_limit(),
            add_types(lib@, all, 0, old(out)@, depth as nat) == add_types(
                lib@,
                all,
                i as int,
                out@,
                depth as nat,
            ),
        decreases types.len() - i,
    {
        assert(all[i as int] == types[i as int]@);
        add_type_exec(lib, &types[i], out, depth);
        i += 1;
    }
}

fn instantiate_all_exec(
    lib: &Library,
    items: &Vec<ItemContainer>,
    args: &Vec<GenericArgument>,
    out: &mut Monomorphs,
    depth: usize,
)
    ensures
        final(out)@ == instantiate_all(
            lib@,
            views(items@),
            0,
            args_model(args@),
            old(out)@,
            depth as nat,
        ),
        final(out).depth_limit() == old(out).depth_limit(),
    decreases depth, 0nat, items, 0nat,
{
    let mut i: usize = 0;
    while i < items.len()
        invariant
            i <= items.len(),
            out.depth_limit() == old(out).depth_limit(),
            instantiate_all(lib@, views(items@), 0, args_model(args@), old(out)@, depth as nat)
                == instantiate_all(
                lib@,
                views(items@),
                i as int,
                args_model(args@),
                out@,
                depth as nat,
            ),
        decreases items.len() - i,
    {
        instantiate_one_exec(lib, &items[i], args, out, depth);
        i += 1;
    }
}

/// The concrete copy of `item` for `args`.
fn specialize_item(item: &ItemContainer, args: &Vec<GenericArgument>, lib: &Library) -> (res:
    ItemContainer)
    requires
        can_bind(item@.generic_params, args_model(args@)),
    ensures
        res@ == instantiation(item@, args_model(args@), lib@.config.export.mangle),
{
    let mappings = item.generic_params.call(item.name(), args.as_slice());
    let mut fields: Vec<Field> = Vec::new();
    let mut i: usize = 0;
    while i < item.fields.len()
        invariant
            i <= item.fields.len(),
            fields.len() == i,
            forall|j: int|
                0 <= j < i ==> fields[j]@ == (FieldModel {
                    name: item.fields[j].name@,
                    ty: specialize_type(item.fields[j].ty@, bindings_model(mappings@)),
                }),
        decreases item.fields.len() - i,
    {
        fields.push(
            Field {
                name: item.fields[i].name.clone(),
                ty: item.fields[i].ty.specialize(mappings.as_slice()),
            },
        );
        i += 1;
    }
    assert(views(fields@) =~= specialized_fields(
        item@.fields,
        bind(item@.generic_params, args_model(args@)),
    ));
    let path = mangle_path(&item.path, args, &lib.get_config().export.mangle);
    let res = ItemContainer {
        kind: item.kind,
        export_name: path.name().to_owned(),
        path,
        generic_params: GenericParams::new(),
        fields,
        is_transparent: item.is_transparent,
        tag: crate::model::clone_text(&item.tag),
        value: crate::model::clone_text(&item.value),
        mutable: item.mutable,
        cfg: crate::item::clone_cfg(&item.cfg),
        annotations: item.annotations.clone(),
        documentation: item.documentation.clone(),
    };
    res
}

fn instantiate_one_exec(
    lib: &Library,
    item: &ItemContainer,
    args: &Vec<GenericArgument>,
    out: &mut Monomorphs,
    depth: usize,
)
    ensures
        final(out)@ == instantiate_one(lib@, item@, args_model(args@), old(out)@, depth as nat),
        final(out).depth_limit() == old(out).depth_limit(),
    decreases depth, 0nat, item, 0nat,
{
    let key = GenericPath::new(item.path.clone(), clone_arg_list(args));
    if out.contains(&key) {
        return ;
    }
    if !item.is_generic() || !item.generic_params.accepts(args.as_slice()) {
        out.refuse(item.path.clone());
        return ;
    }
    if depth == 0 {
        out.stop();
        return ;
    }
    let copy = specialize_item(item, args, lib);
    out.register(key, copy.path.clone());
    let types = copy.types();
    proof {
        lemma_types_model_is_views(types@);
    }
    add_types_exec(lib, &types, out, depth - 1);
    out.push(copy);
}

impl Type {
    /// Registers in `out` every instantiation that this type asks for.
    pub fn add_monomorphs(&self, library: &Library, out: &mut Monomorphs)
        ensures
            final(out)@ == add_type(library@, self@, old(out)@, old(out).depth_limit()),
            final(out).depth_limit() == old(out).depth_limit(),
    {
        let depth = out.depth();
        add_type_exec(library, self, out, depth);
    }
}

impl ItemContainer {
    /// Registers in `out` every instantiation that the fields of this item
    /// ask for. An item that is still generic asks for nothing.
    pub fn add_monomorphs(&self, library: &Library, out: &mut Monomorphs)
        ensures
            final(out)@ == add_item(library@, self@, old(out)@, old(out).depth_limit()),
            final(out).depth_limit() == old(out).depth_limit(),
    {
        if self.is_generic() {
            return ;
        }
        let depth = out.depth();
        let types = self.types();
        proof {
            lemma_types_model_is_views(types@);
        }
        add_types_exec(library, &types, out, depth);
    }

    /// Registers in `out` the concrete copy of this item for
    /// `generic_values`, and what the copy asks for in turn. The item is
    /// generic and takes the values.
    pub fn instantiate_monomorph(
        &self,
        generic_values: &Vec<GenericArgument>,
        library: &Library,
        out: &mut Monomorphs,
    )
        requires
            self@.is_generic(),
            can_bind(self@.generic_params, args_model(generic_values@)),
        ensures
            final(out)@ == instantiate_one(
                library@,
                self@,
                args_model(generic_values@),
                old(out)@,
                old(out).depth_limit(),
            ),
            final(out).depth_limit() == old(out).depth_limit(),
    {
        let depth = out.depth();
        instantiate_one_exec(library, self, generic_values, out, depth);
    }
}

impl crate::opaque::OpaqueItem {
    /// Registers in `out` the concrete copy of this item for
    /// `generic_values`: an opaque item of the mangled name, without
    /// parameters. The item is generic and takes the values.
    pub fn instantiate_monomorph(
        &self,
        generic_values: &Vec<GenericArgument>,
        library: &Library,
        out: &mut Monomorphs,
    )
        requires
            self@.is_generic(),
            can_bind(self@.generic_params, args_model(generic_values@)),
        ensures
            final(out)@ == instantiate_one(
                library@,
                self@,
                args_model(generic_values@),
                old(out)@,
                old(out).depth_limit(),
            ),
            final(out).depth_limit() == old(out).depth_limit(),
    {
        self.container().instantiate_monomorph(generic_values, library, out);
    }
}

/// The registry after what the signature of `f` asks for is registered:
/// the return type, then the arguments in order.
pub open spec fn add_function(
    lib: LibraryModel,
    f: crate::function::FunctionModel,
    mono: MonomorphsModel,
    depth: nat,
) -> MonomorphsModel {
    add_types(lib, f.arg_types(), 0, add_type(lib, f.ret, mono, depth), depth)
}

impl Function {
    /// Registers in `out` every instantiation that the signature asks for.
    pub fn add_monomorphs(&self, library: &Library, out: &mut Monomorphs)
        ensures
            final(out)@ == add_function(library@, self@, old(out)@, old(out).depth_limit()),
            final(out).depth_limit() == old(out).depth_limit(),
    {
        let depth = out.depth();
        add_type_exec(library, &self.ret, out, depth);
        let types = self.arg_types();
        proof {
            lemma_types_model_is_views(types@);
        }
        add_types_exec(library, &types, out, depth);
    }
}

} // verus!
