use vstd::prelude::*;
use crate::generic_path::{bind, can_bind};
use crate::item::{ItemContainer, ItemKind, ItemModel};
use crate::library::{Library, LibraryModel};
use crate::model::view_of;
use crate::opaque::{erase_wrapper, wrapper_erasure};
use crate::path::Path;
use crate::ty::{
    args_model, bindings_model, first_binding, fresh_path,
    specialize_type, types_model, Bindings, GenericArgument, GenericArgumentModel, GenericPath,
    GenericPathModel, Type, TypeModel,
};

verus! {

/// What is known of the erasure of types: for each type that was asked
/// about, the form it erases to, or that it has none. Where a type was
/// recorded more than once, the latest record counts.
pub struct ErasureCache {
    pub records: Seq<(TypeModel, Option<TypeModel>)>,
    /// Whether an erasure was broken off because the bound was reached.
    pub cut: bool,
}

impl ErasureCache {
    /// The cache that knows nothing.
    pub open spec fn empty() -> ErasureCache {
        ErasureCache { records: Seq::empty(), cut: false }
    }

    /// The cache after it is recorded that `key` erases to `value`.
    pub open spec fn record(self, key: TypeModel, value: Option<TypeModel>) -> ErasureCache {
        ErasureCache { records: self.records.push((key, value)), ..self }
    }

    /// The cache after an erasure was broken off at the bound.
    pub open spec fn stopped(self) -> ErasureCache {
        ErasureCache { cut: true, ..self }
    }
}

/// What the latest of `records` says of `key`, if any says anything.
pub open spec fn recorded(records: Seq<(TypeModel, Option<TypeModel>)>, key: TypeModel) -> Option<
    Option<TypeModel>,
>
    decreases records.len(),
{
    if records.len() == 0 {
        None
    } else if records.last().0 == key {
        Some(records.last().1)
    } else {
        recorded(records.drop_last(), key)
    }
}

/// What `cache` records of `key`, if it records anything.
pub open spec fn cached(cache: ErasureCache, key: TypeModel) -> Option<Option<TypeModel>> {
    recorded(cache.records, key)
}

/// `target` with `m` applied, where `m` binds anything and the result
/// differs from `target`.
pub open spec fn specialized_form(target: TypeModel, m: Bindings) -> Option<TypeModel> {
    if m.len() == 0 {
        None
    } else if specialize_type(target, m) != target {
        Some(specialize_type(target, m))
    } else {
        None
    }
}

pub open spec fn or_else(first: Option<TypeModel>, second: Option<TypeModel>) -> Option<
    TypeModel,
> {
    match first {
        Some(_) => first,
        None => second,
    }
}

/// The type that `item` is an alias for: the type of its only field, where
/// the item is annotated as an alias and is a typedef, or is a struct or an
/// enum laid out as that field.
pub open spec fn alias_target(item: ItemModel) -> Option<TypeModel> {
    if item.annotations.transparent_typedef && item.fields.len() == 1 && (item.kind
        == ItemKind::Typedef || ((item.kind == ItemKind::Struct || item.kind == ItemKind::Enum)
        && item.is_transparent)) {
        Some(item.fields[0].ty)
    } else {
        None
    }
}

/// The path `p` applied to `args` instead of its own arguments, where
/// `changed` says that they differ.
pub open spec fn reapplied(p: GenericPathModel, args: Seq<GenericArgumentModel>, changed: bool)
    -> Option<TypeModel> {
    if changed {
        Some(TypeModel::Path(GenericPathModel { generics: args, ..p }))
    } else {
        None
    }
}

/// A query for the erasure of `target` under the bindings `m`, against what
/// `cache` knows: the cache after the query, and the type to put in place of
/// `target`, if any.
///
/// What the cache records of `target` is used as it stands. Otherwise the
/// erasure is worked out and recorded under `target`. The result is the
/// erased form, or else `target` with `m` applied, where that differs.
/// `depth` bounds how many aliases are looked through inside one another,
/// and how often a result is erased again; where the bound is reached, the
/// erasure is broken off and the cache says so.
pub open spec fn erase_query(
    cache: ErasureCache,
    lib: LibraryModel,
    target: TypeModel,
    m: Bindings,
    depth: nat,
) -> (ErasureCache, Option<TypeModel>)
    decreases depth, target, 3nat,
{
    match cached(cache, target) {
        Some(known) => (cache, or_else(known, specialized_form(target, m))),
        None => {
            let (c1, erased) = erase_fully(cache, lib, target, m, depth);
            (c1.record(target, erased), or_else(erased, specialized_form(target, m)))
        },
    }
}

/// The erasure of `target` carried on for as long as the result erases
/// further.
pub open spec fn erase_fully(
    cache: ErasureCache,
    lib: LibraryModel,
    target: TypeModel,
    m: Bindings,
    depth: nat,
) -> (ErasureCache, Option<TypeModel>)
    decreases depth, target, 2nat,
{
    let (c1, first) = erase_step(cache, lib, target, m, depth);
    match first {
        None => (c1, None),
        Some(t) => if depth == 0 {
            (c1.stopped(), Some(t))
        } else {
            erase_further(c1, lib, t, m, (depth - 1) as nat)
        },
    }
}

/// The type that the erased form `t` comes to when it is erased again for
/// as long as that changes it, and as `depth` allows.
pub open spec fn erase_further(
    cache: ErasureCache,
    lib: LibraryModel,
    t: TypeModel,
    m: Bindings,
    depth: nat,
) -> (ErasureCache, Option<TypeModel>)
    decreases depth, t, 1nat,
{
    let (c1, next) = erase_step(cache, lib, t, m, depth);
    match next {
        None => (c1, Some(t)),
        Some(t2) => if depth == 0 {
            (c1.stopped(), Some(t2))
        } else {
            erase_further(c1, lib, t2, m, (depth - 1) as nat)
        },
    }
}

/// One step of erasure on `ty`: the parts of `ty` are erased by queries, and
/// then `ty` itself by the rule of the item it names.
pub open spec fn erase_step(
    cache: ErasureCache,
    lib: LibraryModel,
    ty: TypeModel,
    m: Bindings,
    depth: nat,
) -> (ErasureCache, Option<TypeModel>)
    decreases depth, ty, 0nat,
{
    match ty {
        TypeModel::Primitive(_) => (cache, None),
        TypeModel::Ptr { ty: inner, is_const, is_nullable, is_ref } => {
            let (c1, e) = erase_query(cache, lib, *inner, m, depth);
            (
                c1,
                match e {
                    Some(x) => Some(
                        TypeModel::Ptr { ty: Box::new(x), is_const, is_nullable, is_ref },
                    ),
                    None => None,
                },
            )
        },
        TypeModel::Array(inner, len) => {
            let (c1, e) = erase_query(cache, lib, *inner, m, depth);
            (
                c1,
                match e {
                    Some(x) => Some(TypeModel::Array(Box::new(x), len)),
                    None => None,
                },
            )
        },
        TypeModel::FuncPtr { ret, args, is_nullable, never_return } => {
            let (c1, e) = erase_query(cache, lib, *ret, m, depth);
            let (c2, erased_args, changed) = erase_types(c1, lib, args, m, depth, 0);
            (
                c2,
                if e is Some || changed {
                    Some(
                        TypeModel::FuncPtr {
                            ret: Box::new(
                                match e {
                                    Some(x) => x,
                                    None => *ret,
                                },
                            ),
                            args: erased_args,
                            is_nullable,
                            never_return,
                        },
                    )
                } else {
                    None
                },
            )
        },
        TypeModel::Path(p) => {
            if p.generics.len() == 0 && first_binding(m, p.path, 0) is Some {
                // A bound parameter is replaced by its argument, never erased.
                (cache, None)
            } else {
                let (c1, args, changed) = erase_args(cache, lib, p.generics, m, depth, 0);
                match lib.first_item(p.path) {
                    None => (c1, reapplied(p, args, changed)),
                    Some(item) => if item.kind == ItemKind::OpaqueItem {
                        match wrapper_erasure(item.path, args) {
                            Some(t) => (c1, Some(t)),
                            None => (c1, reapplied(p, args, changed)),
                        }
                    } else {
                        match alias_target(item) {
                            Some(aliased) => if !can_bind(item.generic_params, args) {
                                (c1, reapplied(p, args, changed))
                            } else if depth == 0 {
                                (c1.stopped(), reapplied(p, args, changed))
                            } else {
                                let (c2, e) = erase_query(
                                    c1,
                                    lib,
                                    aliased,
                                    bind(item.generic_params, args),
                                    (depth - 1) as nat,
                                );
                                (
                                    c2,
                                    Some(
                                        match e {
                                            Some(x) => x,
                                            None => aliased,
                                        },
                                    ),
                                )
                            },
                            None => (c1, reapplied(p, args, changed)),
                        }
                    },
                }
            }
        },
    }
}

/// The arguments `args[from..]`, each erased by a query: the cache after the
/// queries, the arguments after erasure, and whether any of them changed.
///
/// A bare name that is bound to a constant becomes that constant.
pub open spec fn erase_args(
    cache: ErasureCache,
    lib: LibraryModel,
    args: Seq<GenericArgumentModel>,
    m: Bindings,
    depth: nat,
    from: int,
) -> (ErasureCache, Seq<GenericArgumentModel>, bool)
    decreases depth, args, args.len() - from,
{
    if from < 0 || from >= args.len() {
        (cache, Seq::empty(), false)
    } else {
        let (c1, e) = match args[from] {
            GenericArgumentModel::Const(_) => (cache, None),
            GenericArgumentModel::Type(t) => match bound_constant(t, m) {
                Some(c) => (cache, Some(c)),
                None => {
                    let (c, e) = erase_query(cache, lib, t, m, depth);
                    (
                        c,
                        match e {
                            Some(x) => Some(GenericArgumentModel::Type(x)),
                            None => None,
                        },
                    )
                },
            },
        };
        let (c2, rest, changed) = erase_args(c1, lib, args, m, depth, from + 1);
        (
            c2,
            seq![
                match e {
                    Some(x) => x,
                    None => args[from],
                },
            ] + rest,
            e is Some || changed,
        )
    }
}

/// The constant that `t` stands for, where `t` is a bare name that `m` binds
/// to a constant.
pub open spec fn bound_constant(t: TypeModel, m: Bindings) -> Option<GenericArgumentModel> {
    match t {
        TypeModel::Path(p) if p.generics.len() == 0 => match first_binding(m, p.path, 0) {
            Some(GenericArgumentModel::Const(c)) => Some(GenericArgumentModel::Const(c)),
            _ => None,
        },
        _ => None,
    }
}

/// The types `types[from..]`, each erased by a query: the cache after the
/// queries, the types after erasure, and whether any of them changed.
pub open spec fn erase_types(
    cache: ErasureCache,
    lib: LibraryModel,
    types: Seq<TypeModel>,
    m: Bindings,
    depth: nat,
    from: int,
) -> (ErasureCache, Seq<TypeModel>, bool)
    decreases depth, types, types.len() - from,
{
    if from < 0 || from >= types.len() {
        (cache, Seq::empty(), false)
    } else {
        let (c1, e) = erase_query(cache, lib, types[from], m, depth);
        let (c2, rest, changed) = erase_types(c1, lib, types, m, depth, from + 1);
        (
            c2,
            seq![
                match e {
                    Some(x) => x,
                    None => types[from],
                },
            ] + rest,
            e is Some || changed,
        )
    }
}

/// Erasing a list of types gives a list of the same length.
pub proof fn lemma_erase_types_len(
    cache: ErasureCache,
    lib: LibraryModel,
    types: Seq<TypeModel>,
    m: Bindings,
    depth: nat,
    from: int,
)
    requires
        0 <= from <= types.len(),
    ensures
        erase_types(cache, lib, types, m, depth, from).1.len() == types.len() - from,
    decreases types.len() - from,
{
    if from < types.len() {
        let c1 = erase_query(cache, lib, types[from], m, depth).0;
        lemma_erase_types_len(c1, lib, types, m, depth, from + 1);
    }
}

/// The depth to which aliases are looked through inside one another unless
/// another bound is chosen.
pub const DEFAULT_ERASURE_DEPTH: usize = 64;

/// Remembers the erasure of every type that was asked about, so that no type
/// is worked out twice and a type that refers to itself is not followed for
/// ever.
#[derive(Debug)]
pub struct KnownErasedTypes {
    known_types: Vec<(Type, Option<Type>)>,
    cut: bool,
    depth: usize,
}

pub open spec fn entry_model(e: (Type, Option<Type>)) -> (TypeModel, Option<TypeModel>) {
    (e.0@, view_of(e.1))
}

impl View for KnownErasedTypes {
    type V = ErasureCache;

    closed spec fn view(&self) -> ErasureCache {
        ErasureCache {
            records: Seq::new(
                self.known_types@.len(),
                |i: int| entry_model(self.known_types@[i]),
            ),
            cut: self.cut,
        }
    }
}

fn clone_erasure(e: &Option<Type>) -> (res: Option<Type>)
    ensures
        view_of(res) == view_of(*e),
{
    match e {
        Some(t) => Some(t.clone()),
        None => None,
    }
}

fn first_of(first: Option<Type>, second: Option<Type>) -> (res: Option<Type>)
    ensures
        view_of(res) == or_else(view_of(first), view_of(second)),
{
    match first {
        Some(t) => Some(t),
        None => second,
    }
}

fn specialized_exec(target: &Type, mappings: &[(&Path, &GenericArgument)]) -> (res: Option<Type>)
    ensures
        view_of(res) == specialized_form(target@, bindings_model(mappings@)),
{
    if mappings.len() == 0 {
        None
    } else {
        let specialized = target.specialize(mappings);
        if !specialized.equals(target) {
            Some(specialized)
        } else {
            None
        }
    }
}

fn alias_of(item: &ItemContainer) -> (res: Option<Type>)
    ensures
        view_of(res) == alias_target(item@),
{
    let shaped = match item.kind {
        ItemKind::Typedef => true,
        ItemKind::Struct | ItemKind::Enum => item.is_transparent,
        _ => false,
    };
    if item.annotations.transparent_typedef && item.fields.len() == 1 && shaped {
        Some(item.fields[0].ty.clone())
    } else {
        None
    }
}

fn reapply(p: &GenericPath, args: Vec<GenericArgument>, changed: bool) -> (res: Option<Type>)
    ensures
        view_of(res) == reapplied(p@, args_model(args@), changed),
{
    if changed {
        Some(
            Type::Path(
                GenericPath {
                    path: p.path.clone(),
                    export_name: p.export_name.clone(),
                    generics: args,
                    ctype: p.ctype,
                },
            ),
        )
    } else {
        None
    }
}

fn bound_constant_exec(t: &Type, mappings: &[(&Path, &GenericArgument)]) -> (res: Option<
    GenericArgument,
>)
    ensures
        view_of(res) == bound_constant(t@, bindings_model(mappings@)),
{
    match t {
        Type::Path(p) => {
            assert(t@ == TypeModel::Path(p@) && p@.generics.len() == p.generics.len());
            if p.generics.len() == 0 {
                match crate::ty::find_binding(mappings, &p.path) {
                    Some(GenericArgument::Const(c)) => Some(GenericArgument::Const(c.clone())),
                    _ => None,
                }
            } else {
                None
            }
        },
        _ => None,
    }
}

fn erase_query_exec(
    cache: &mut KnownErasedTypes,
    lib: &Library,
    target: &Type,
    mappings: &[(&Path, &GenericArgument)],
    depth: usize,
) -> (res: Option<Type>)
    ensures
        (final(cache)@, view_of(res)) == erase_query(
            old(cache)@,
            lib@,
            target@,
            bindings_model(mappings@),
            depth as nat,
        ),
        final(cache).depth == old(cache).depth,
    decreases depth, target, 3nat,
{
    let specialized = specialized_exec(target, mappings);
    match cache.lookup(target) {
        Some(known) => first_of(known, specialized),
        None => {
            let erased = erase_fully_exec(cache, lib, target, mappings, depth);
            cache.record(target.clone(), clone_erasure(&erased));
            first_of(erased, specialized)
        },
    }
}

fn erase_fully_exec(
    cache: &mut KnownErasedTypes,
    lib: &Library,
    target: &Type,
    mappings: &[(&Path, &GenericArgument)],
    depth: usize,
) -> (res: Option<Type>)
    ensures
        (final(cache)@, view_of(res)) == erase_fully(
            old(cache)@,
            lib@,
            target@,
            bindings_model(mappings@),
            depth as nat,
        ),
        final(cache).depth == old(cache).depth,
    decreases depth, target, 2nat,
{
    match erase_step_exec(cache, lib, target, mappings, depth) {
        None => None,
        Some(t) => if depth == 0 {
            cache.stop();
            Some(t)
        } else {
            erase_further_exec(cache, lib, t, mappings, depth - 1)
        },
    }
}

fn erase_further_exec(
    cache: &mut KnownErasedTypes,
    lib: &Library,
    t: Type,
    mappings: &[(&Path, &GenericArgument)],
    depth: usize,
) -> (res: Option<Type>)
    ensures
        (final(cache)@, view_of(res)) == erase_further(
            old(cache)@,
            lib@,
            t@,
            bindings_model(mappings@),
            depth as nat,
        ),
        final(cache).depth == old(cache).depth,
    decreases depth, t, 1nat,
{
    match erase_step_exec(cache, lib, &t, mappings, depth) {
        None => Some(t),
        Some(t2) => if depth == 0 {
            cache.stop();
            Some(t2)
        } else {
            erase_further_exec(cache, lib, t2, mappings, depth - 1)
        },
    }
}

fn erase_step_exec(
    cache: &mut KnownErasedTypes,
    lib: &Library,
    ty: &Type,
    mappings: &[(&Path, &GenericArgument)],
    depth: usize,
) -> (res: Option<Type>)
    ensures
        (final(cache)@, view_of(res)) == erase_step(
            old(cache)@,
            lib@,
            ty@,
            bindings_model(mappings@),
            depth as nat,
        ),
        final(cache).depth == old(cache).depth,
    decreases depth, ty, 0nat,
{
    match ty {
        Type::Primitive(_) => None,
        Type::Ptr { ty: inner, is_const, is_nullable, is_ref } => {
            match erase_query_exec(cache, lib, inner, mappings, depth) {
                Some(x) => Some(
                    Type::Ptr {
                        ty: Box::new(x),
                        is_const: *is_const,
                        is_nullable: *is_nullable,
                        is_ref: *is_ref,
                    },
                ),
                None => None,
            }
        },
        Type::Array(inner, len) => {
            match erase_query_exec(cache, lib, inner, mappings, depth) {
                Some(x) => Some(Type::Array(Box::new(x), len.clone())),
                None => None,
            }
        },
        Type::FuncPtr { ret, args, is_nullable, never_return } => {
            let e = erase_query_exec(cache, lib, ret, mappings, depth);
            let (erased_args, changed) = erase_types_exec(cache, lib, args, mappings, depth);
            if e.is_some() || changed {
                let new_ret = match e {
                    Some(x) => x,
                    None => (**ret).clone(),
                };
                Some(
                    Type::FuncPtr {
                        ret: Box::new(new_ret),
                        args: erased_args,
                        is_nullable: *is_nullable,
                        never_return: *never_return,
                    },
                )
            } else {
                None
            }
        },
        Type::Path(p) => {
            assert(ty@ == TypeModel::Path(p@) && p@.generics.len() == p.generics.len());
            if p.generics.len() == 0 && crate::ty::find_binding(mappings, &p.path).is_some() {
                return None;
            }
            let (args, changed) = erase_args_exec(cache, lib, &p.generics, mappings, depth);
            match lib.first_item(&p.path) {
                None => reapply(p, args, changed),
                Some(item) => {
                    if item.kind == ItemKind::OpaqueItem {
                        match erase_wrapper(&item.path, args.as_slice()) {
                            Some(t) => Some(t),
                            None => reapply(p, args, changed),
                        }
                    } else {
                        match alias_of(&item) {
                            Some(aliased) => {
                                if !item.generic_params.accepts(args.as_slice()) {
                                    reapply(p, args, changed)
                                } else if depth == 0 {
                                    cache.stop();
                                    reapply(p, args, changed)
                                } else {
                                    let bindings = item.generic_params.call(
                                        item.name(),
                                        args.as_slice(),
                                    );
                                    let e = erase_query_exec(
                                        cache,
                                        lib,
                                        &aliased,
                                        bindings.as_slice(),
                                        depth - 1,
                                    );
                                    match e {
                                        Some(x) => Some(x),
                                        None => Some(aliased),
                                    }
                                }
                            },
                            None => reapply(p, args, changed),
                        }
                    }
                },
            }
        },
    }
}

fn erase_args_exec(
    cache: &mut KnownErasedTypes,
    lib: &Library,
    args: &Vec<GenericArgument>,
    mappings: &[(&Path, &GenericArgument)],
    depth: usize,
) -> (res: (Vec<GenericArgument>, bool))
    ensures
        (final(cache)@, args_model(res.0@), res.1) == erase_args(
            old(cache)@,
            lib@,
            args_model(args@),
            bindings_model(mappings@),
            depth as nat,
            0,
        ),
        final(cache).depth == old(cache).depth,
    decreases depth, args, 0nat,
{
    let ghost all = args_model(args@);
    let ghost m = bindings_model(mappings@);
    let ghost goal = erase_args(old(cache)@, lib@, all, m, depth as nat, 0);
    let mut out: Vec<GenericArgument> = Vec::new();
    let mut changed = false;
    let mut i: usize = 0;
    assert(args_model(out@) + goal.1 =~= goal.1);
    while i < args.len()
        invariant
            i <= args.len(),
            all == args_model(args@),
            m == bindings_model(mappings@),
            cache.depth == old(cache).depth,
            goal == ({
                let rest = erase_args(cache@, lib@, all, m, depth as nat, i as int);
                (rest.0, args_model(out@) + rest.1, changed || rest.2)
            }),
        decreases args.len() - i,
    {
        let ghost before = args_model(out@);
        let ghost rest = erase_args(cache@, lib@, all, m, depth as nat, i as int);
        let e = match &args[i] {
            GenericArgument::Const(_) => None,
            GenericArgument::Type(t) => match bound_constant_exec(t, mappings) {
                Some(c) => Some(c),
                None => match erase_query_exec(cache, lib, t, mappings, depth) {
                    Some(x) => Some(GenericArgument::Type(x)),
                    None => None,
                },
            },
        };
        let ghost next = erase_args(cache@, lib@, all, m, depth as nat, i + 1);
        match e {
            Some(x) => {
                changed = true;
                out.push(x);
            },
            None => {
                out.push(args[i].clone());
            },
        }
        assert(args_model(out@) =~= before + rest.1.take(1));
        assert(rest.1 =~= rest.1.take(1) + next.1);
        assert(args_model(out@) + next.1 =~= before + rest.1);
        i += 1;
    }
    (out, changed)
}

fn erase_types_exec(
    cache: &mut KnownErasedTypes,
    lib: &Library,
    types: &Vec<Type>,
    mappings: &[(&Path, &GenericArgument)],
    depth: usize,
) -> (res: (Vec<Type>, bool))
    ensures
        (final(cache)@, types_model(res.0@), res.1) == erase_types(
            old(cache)@,
            lib@,
            types_model(types@),
            bindings_model(mappings@),
            depth as nat,
            0,
        ),
        final(cache).depth == old(cache).depth,
    decreases depth, types, 0nat,
{
    let ghost all = types_model(types@);
    let ghost m = bindings_model(mappings@);
    let ghost goal = erase_types(old(cache)@, lib@, all, m, depth as nat, 0);
    let mut out: Vec<Type> = Vec::new();
    let mut changed = false;
    let mut i: usize = 0;
    assert(types_model(out@) + goal.1 =~= goal.1);
    while i < types.len()
        invariant
            i <= types.len(),
            all == types_model(types@),
            m == bindings_model(mappings@),
            cache.depth == old(cache).depth,
            goal == ({
                let rest = erase_types(cache@, lib@, all, m, depth as nat, i as int);
                (rest.0, types_model(out@) + rest.1, changed || rest.2)
            }),
        decreases types.len() - i,
    {
        let ghost before = types_model(out@);
        let ghost rest = erase_types(cache@, lib@, all, m, depth as nat, i as int);
        let e = erase_query_exec(cache, lib, &types[i], mappings, depth);
        let ghost next = erase_types(cache@, lib@, all, m, depth as nat, i + 1);
        match e {
            Some(x) => {
                changed = true;
                out.push(x);
            },
            None => {
                out.push(types[i].clone());
            },
        }
        assert(types_model(out@) =~= before + rest.1.take(1));
        assert(rest.1 =~= rest.1.take(1) + next.1);
        assert(types_model(out@) + next.1 =~= before + rest.1);
        i += 1;
    }
    (out, changed)
}

pub open spec fn lookup_model(o: Option<Option<Type>>) -> Option<Option<TypeModel>> {
    match o {
        Some(e) => Some(view_of(e)),
        None => None,
    }
}

impl KnownErasedTypes {
    /// A cache that knows nothing yet and looks through aliases up to
    /// `depth` deep.
    pub fn with_depth(depth: usize) -> (res: KnownErasedTypes)
        ensures
            res@ == ErasureCache::empty(),
            res.depth_limit() == depth,
    {
        let res = KnownErasedTypes { known_types: Vec::new(), cut: false, depth };
        assert(res@.records =~= Seq::empty());
        res
    }

    /// The depth to which aliases are looked through inside one another.
    pub closed spec fn depth_limit(&self) -> nat {
        self.depth as nat
    }

    /// What is recorded of `key`, if anything.
    pub fn lookup(&self, key: &Type) -> (res: Option<Option<Type>>)
        ensures
            lookup_model(res) == cached(self@, key@),
    {
        let mut i: usize = self.known_types.len();
        assert(self@.records.take(i as int) =~= self@.records);
        while i > 0
            invariant
                i <= self.known_types.len(),
                cached(self@, key@) == recorded(self@.records.take(i as int), key@),
            decreases i,
        {
            assert(self@.records.take(i as int).drop_last() =~= self@.records.take(i - 1));
            i -= 1;
            if self.known_types[i].0.equals(key) {
                return Some(clone_erasure(&self.known_types[i].1));
            }
        }
        None
    }

    /// Records that `key` erases to `erased`.
    pub fn record(&mut self, key: Type, erased: Option<Type>)
        ensures
            final(self)@ == old(self)@.record(key@, view_of(erased)),
            final(self).depth_limit() == old(self).depth_limit(),
    {
        self.known_types.push((key, erased));
        assert(self@.records =~= old(self)@.records.push((key@, view_of(erased))));
    }

    /// Records that an erasure was broken off at the bound.
    pub fn stop(&mut self)
        ensures
            final(self)@ == old(self)@.stopped(),
            final(self).depth_limit() == old(self).depth_limit(),
    {
        self.cut = true;
    }

    /// Whether an erasure was broken off because the bound was reached.
    pub fn was_cut(&self) -> (b: bool)
        ensures
            b == self@.cut,
    {
        self.cut
    }

    /// Whether the erasure of the bare name `path` has been asked about.
    pub fn is_erased(&self, path: &Path) -> (b: bool)
        ensures
            b == cached(self@, TypeModel::Path(fresh_path(path@, Seq::empty()))) is Some,
    {
        let key = Type::Path(GenericPath::new(path.clone(), Vec::new()));
        assert(key@ == TypeModel::Path(fresh_path(path@, Seq::empty()))) by {
            assert(args_model(Seq::<GenericArgument>::empty()) =~= Seq::empty());
        }
        self.lookup(&key).is_some()
    }

    /// Puts in place of `target` the type that a query for its erasure gives,
    /// where it gives one.
    pub fn erase_types_inplace(
        &mut self,
        library: &Library,
        target: &mut Type,
        mappings: &[(&Path, &GenericArgument)],
    )
        ensures
            ({
                let (cache, erased) = erase_query(
                    old(self)@,
                    library@,
                    old(target)@,
                    bindings_model(mappings@),
                    old(self).depth_limit(),
                );
                &&& final(self)@ == cache
                &&& final(target)@ == (match erased {
                    Some(t) => t,
                    None => old(target)@,
                })
            }),
            final(self).depth_limit() == old(self).depth_limit(),
    {
        if let Some(erased_type) = self.erase_types(library, target, mappings) {
            *target = erased_type;
        }
    }

    /// Puts in place of each of `types` the type that a query for its erasure
    /// gives, where it gives one. The queries are made in order.
    pub fn erase_all(
        &mut self,
        library: &Library,
        types: &Vec<Type>,
        mappings: &[(&Path, &GenericArgument)],
    ) -> (res: Vec<Type>)
        ensures
            ({
                let all = erase_types(
                    old(self)@,
                    library@,
                    types_model(types@),
                    bindings_model(mappings@),
                    old(self).depth_limit(),
                    0,
                );
                final(self)@ == all.0 && types_model(res@) == all.1
            }),
            final(self).depth_limit() == old(self).depth_limit(),
    {
        let depth = self.depth;
        let (res, _) = erase_types_exec(self, library, types, mappings, depth);
        res
    }

    /// Asks for the erasure of `target` under `mappings`: the type to put in
    /// place of `target`, if any. The answer is remembered.
    #[must_use]
    pub fn erase_types(
        &mut self,
        library: &Library,
        target: &Type,
        mappings: &[(&Path, &GenericArgument)],
    ) -> (res: Option<Type>)
        ensures
            (final(self)@, view_of(res)) == erase_query(
                old(self)@,
                library@,
                target@,
                bindings_model(mappings@),
                old(self).depth_limit(),
            ),
            final(self).depth_limit() == old(self).depth_limit(),
    {
        let depth = self.depth;
        erase_query_exec(self, library, target, mappings, depth)
    }
}

impl Default for KnownErasedTypes {
    fn default() -> (res: KnownErasedTypes)
        ensures
            res@ == ErasureCache::empty(),
            res.depth_limit() == DEFAULT_ERASURE_DEPTH,
    {
        KnownErasedTypes::with_depth(DEFAULT_ERASURE_DEPTH)
    }
}

} // verus!
