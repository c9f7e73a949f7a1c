use vstd::prelude::*;
use crate::erase::{
    alias_target, cached, erase_args, erase_fully, erase_query, erase_step, erase_types,
    ErasureCache,
};
use crate::item::ItemKind;
use crate::library::LibraryModel;
use crate::opaque::wrapper_erasure;
use crate::ty::{GenericArgumentModel, TypeModel};

verus! {

/// Whether nothing can be erased in the type `t`: every path in it names no
/// item, or an opaque item that is no wrapper of what it is applied to, or
/// an item that is no alias.
pub open spec fn fully_erased(lib: LibraryModel, t: TypeModel) -> bool
    decreases t, 0nat,
{
    match t {
        TypeModel::Primitive(_) => true,
        TypeModel::Ptr { ty, .. } => fully_erased(lib, *ty),
        TypeModel::Array(ty, _) => fully_erased(lib, *ty),
        TypeModel::FuncPtr { ret, args, .. } => fully_erased(lib, *ret) && types_fully_erased(
            lib,
            args,
            0,
        ),
        TypeModel::Path(p) => args_fully_erased(lib, p.generics, 0) && (match lib.first_item(
            p.path,
        ) {
            None => true,
            Some(item) => if item.kind == ItemKind::OpaqueItem {
                wrapper_erasure(item.path, p.generics) is None
            } else {
                alias_target(item) is None
            },
        }),
    }
}

/// Whether nothing can be erased in the types `types[from..]`.
pub open spec fn types_fully_erased(lib: LibraryModel, types: Seq<TypeModel>, from: int) -> bool
    decreases types, types.len() - from,
{
    if from < 0 || from >= types.len() {
        true
    } else {
        fully_erased(lib, types[from]) && types_fully_erased(lib, types, from + 1)
    }
}

/// Whether nothing can be erased in the types among `args[from..]`.
pub open spec fn args_fully_erased(
    lib: LibraryModel,
    args: Seq<GenericArgumentModel>,
    from: int,
) -> bool
    decreases args, args.len() - from,
{
    if from < 0 || from >= args.len() {
        true
    } else {
        (match args[from] {
            GenericArgumentModel::Type(t) => fully_erased(lib, t),
            GenericArgumentModel::Const(_) => true,
        }) && args_fully_erased(lib, args, from + 1)
    }
}

/// Whether `cache` gives no erasure for `t` or for a part of `t` that a
/// query for `t` comes to ask about: what it records of `t` is that `t` has
/// no erasure, or it records nothing of `t` and the same holds of the parts
/// of `t`.
pub open spec fn answers_nothing(cache: ErasureCache, t: TypeModel) -> bool
    decreases t, 0nat,
{
    match cached(cache, t) {
        Some(known) => known is None,
        None => match t {
            TypeModel::Primitive(_) => true,
            TypeModel::Ptr { ty, .. } => answers_nothing(cache, *ty),
            TypeModel::Array(ty, _) => answers_nothing(cache, *ty),
            TypeModel::FuncPtr { ret, args, .. } => answers_nothing(cache, *ret)
                && types_answer_nothing(cache, args, 0),
            TypeModel::Path(p) => args_answer_nothing(cache, p.generics, 0),
        },
    }
}

pub open spec fn types_answer_nothing(cache: ErasureCache, types: Seq<TypeModel>, from: int) -> bool
    decreases types, types.len() - from,
{
    if from < 0 || from >= types.len() {
        true
    } else {
        answers_nothing(cache, types[from]) && types_answer_nothing(cache, types, from + 1)
    }
}

pub open spec fn args_answer_nothing(
    cache: ErasureCache,
    args: Seq<GenericArgumentModel>,
    from: int,
) -> bool
    decreases args, args.len() - from,
{
    if from < 0 || from >= args.len() {
        true
    } else {
        (match args[from] {
            GenericArgumentModel::Type(t) => answers_nothing(cache, t),
            GenericArgumentModel::Const(_) => true,
        }) && args_answer_nothing(cache, args, from + 1)
    }
}

/// Whether `new` differs from `old` only in recording of some types, of
/// which `old` recorded nothing, that they have no erasure.
pub open spec fn adds_nothing(old: ErasureCache, new: ErasureCache) -> bool {
    forall|k: TypeModel|
        #![trigger cached(new, k)]
        #![trigger cached(old, k)]
        cached(new, k) == cached(old, k) || (cached(old, k) is None && cached(new, k) == Some(
            None::<TypeModel>,
        ))
}

proof fn lemma_answers_nothing_stays(old: ErasureCache, new: ErasureCache, t: TypeModel)
    requires
        adds_nothing(old, new),
        answers_nothing(old, t),
    ensures
        answers_nothing(new, t),
    decreases t, 0nat,
{
    assert(cached(new, t) == cached(old, t) || (cached(old, t) is None && cached(new, t) == Some(
        None::<TypeModel>,
    )));
    if cached(new, t) is None {
        match t {
            TypeModel::Primitive(_) => {},
            TypeModel::Ptr { ty, .. } => lemma_answers_nothing_stays(old, new, *ty),
            TypeModel::Array(ty, _) => lemma_answers_nothing_stays(old, new, *ty),
            TypeModel::FuncPtr { ret, args, .. } => {
                lemma_answers_nothing_stays(old, new, *ret);
                lemma_types_answer_nothing_stay(old, new, args, 0);
            },
            TypeModel::Path(p) => lemma_args_answer_nothing_stay(old, new, p.generics, 0),
        }
    }
}

proof fn lemma_types_answer_nothing_stay(
    old: ErasureCache,
    new: ErasureCache,
    types: Seq<TypeModel>,
    from: int,
)
    requires
        adds_nothing(old, new),
        types_answer_nothing(old, types, from),
    ensures
        types_answer_nothing(new, types, from),
    decreases types, types.len() - from,
{
    if 0 <= from < types.len() {
        lemma_answers_nothing_stays(old, new, types[from]);
        lemma_types_answer_nothing_stay(old, new, types, from + 1);
    }
}

proof fn lemma_args_answer_nothing_stay(
    old: ErasureCache,
    new: ErasureCache,
    args: Seq<GenericArgumentModel>,
    from: int,
)
    requires
        adds_nothing(old, new),
        args_answer_nothing(old, args, from),
    ensures
        args_answer_nothing(new, args, from),
    decreases args, args.len() - from,
{
    if 0 <= from < args.len() {
        match args[from] {
            GenericArgumentModel::Type(t) => lemma_answers_nothing_stays(old, new, t),
            GenericArgumentModel::Const(_) => {},
        }
        lemma_args_answer_nothing_stay(old, new, args, from + 1);
    }
}

proof fn lemma_adds_nothing_twice(a: ErasureCache, b: ErasureCache, c: ErasureCache)
    requires
        adds_nothing(a, b),
        adds_nothing(b, c),
    ensures
        adds_nothing(a, c),
{
    assert forall|k: TypeModel|
        #![trigger cached(c, k)]
        #![trigger cached(a, k)]
        cached(c, k) == cached(a, k) || (cached(a, k) is None && cached(c, k) == Some(
            None::<TypeModel>,
        )) by {
        assert(cached(b, k) == cached(a, k) || (cached(a, k) is None && cached(b, k) == Some(
            None::<TypeModel>,
        )));
        assert(cached(c, k) == cached(b, k) || (cached(b, k) is None && cached(c, k) == Some(
            None::<TypeModel>,
        )));
    }
}

proof fn lemma_query_of_erased(cache: ErasureCache, lib: LibraryModel, t: TypeModel, depth: nat)
    requires
        fully_erased(lib, t),
        answers_nothing(cache, t),
    ensures
        erase_query(cache, lib, t, Seq::empty(), depth).1 is None,
        adds_nothing(cache, erase_query(cache, lib, t, Seq::empty(), depth).0),
    decreases depth, t, 3nat,
{
    if cached(cache, t) is None {
        lemma_step_of_erased(cache, lib, t, depth);
        let inner = erase_fully(cache, lib, t, Seq::empty(), depth);
        let after = inner.0.record(t, inner.1);
        assert(after.records.drop_last() =~= inner.0.records);
        assert forall|k: TypeModel|
            #![trigger cached(after, k)]
            #![trigger cached(cache, k)]
            cached(after, k) == cached(cache, k) || (cached(cache, k) is None && cached(after, k)
                == Some(None::<TypeModel>)) by {
            assert(cached(inner.0, k) == cached(cache, k) || (cached(cache, k) is None && cached(
                inner.0,
                k,
            ) == Some(None::<TypeModel>)));
        }
    }
}

proof fn lemma_step_of_erased(cache: ErasureCache, lib: LibraryModel, t: TypeModel, depth: nat)
    requires
        fully_erased(lib, t),
        cached(cache, t) is None,
        answers_nothing(cache, t),
    ensures
        erase_step(cache, lib, t, Seq::empty(), depth).1 is None,
        adds_nothing(cache, erase_step(cache, lib, t, Seq::empty(), depth).0),
        erase_fully(cache, lib, t, Seq::empty(), depth) == erase_step(
            cache,
            lib,
            t,
            Seq::empty(),
            depth,
        ),
    decreases depth, t, 0nat,
{
    let m = Seq::<(Seq<char>, GenericArgumentModel)>::empty();
    match t {
        TypeModel::Primitive(_) => {},
        TypeModel::Ptr { ty, .. } => {
            lemma_query_of_erased(cache, lib, *ty, depth);
        },
        TypeModel::Array(ty, _) => {
            lemma_query_of_erased(cache, lib, *ty, depth);
        },
        TypeModel::FuncPtr { ret, args, .. } => {
            lemma_query_of_erased(cache, lib, *ret, depth);
            let c1 = erase_query(cache, lib, *ret, m, depth).0;
            lemma_types_answer_nothing_stay(cache, c1, args, 0);
            lemma_types_of_erased(c1, lib, args, depth, 0);
            let c2 = erase_types(c1, lib, args, m, depth, 0).0;
            lemma_adds_nothing_twice(cache, c1, c2);
        },
        TypeModel::Path(p) => {
            assert(crate::ty::first_binding(m, p.path, 0) is None);
            lemma_args_of_erased(cache, lib, p.generics, depth, 0);
            let r = erase_args(cache, lib, p.generics, m, depth, 0);
            assert(r.1 =~= p.generics);
        },
    }
}

proof fn lemma_types_of_erased(
    cache: ErasureCache,
    lib: LibraryModel,
    types: Seq<TypeModel>,
    depth: nat,
    from: int,
)
    requires
        0 <= from <= types.len(),
        types_fully_erased(lib, types, from),
        types_answer_nothing(cache, types, from),
    ensures
        !erase_types(cache, lib, types, Seq::empty(), depth, from).2,
        erase_types(cache, lib, types, Seq::empty(), depth, from).1 == types.subrange(
            from,
            types.len() as int,
        ),
        adds_nothing(cache, erase_types(cache, lib, types, Seq::empty(), depth, from).0),
    decreases depth, types, types.len() - from,
{
    let m = Seq::<(Seq<char>, GenericArgumentModel)>::empty();
    if from < types.len() {
        lemma_query_of_erased(cache, lib, types[from], depth);
        let c1 = erase_query(cache, lib, types[from], m, depth).0;
        lemma_types_answer_nothing_stay(cache, c1, types, from + 1);
        lemma_types_of_erased(c1, lib, types, depth, from + 1);
        let rest = erase_types(c1, lib, types, m, depth, from + 1);
        lemma_adds_nothing_twice(cache, c1, rest.0);
        assert(seq![types[from]] + types.subrange(from + 1, types.len() as int)
            =~= types.subrange(from, types.len() as int));
    } else {
        assert(types.subrange(from, types.len() as int) =~= Seq::empty());
    }
}

proof fn lemma_args_of_erased(
    cache: ErasureCache,
    lib: LibraryModel,
    args: Seq<GenericArgumentModel>,
    depth: nat,
    from: int,
)
    requires
        0 <= from <= args.len(),
        args_fully_erased(lib, args, from),
        args_answer_nothing(cache, args, from),
    ensures
        !erase_args(cache, lib, args, Seq::empty(), depth, from).2,
        erase_args(cache, lib, args, Seq::empty(), depth, from).1 == args.subrange(
            from,
            args.len() as int,
        ),
        adds_nothing(cache, erase_args(cache, lib, args, Seq::empty(), depth, from).0),
    decreases depth, args, args.len() - from,
{
    let m = Seq::<(Seq<char>, GenericArgumentModel)>::empty();
    if from < args.len() {
        let c1 = match args[from] {
            GenericArgumentModel::Const(_) => cache,
            GenericArgumentModel::Type(t) => {
                assert(crate::erase::bound_constant(t, m) is None) by {
                    match t {
                        TypeModel::Path(p) => {
                            assert(crate::ty::first_binding(m, p.path, 0) is None);
                        },
                        _ => {},
                    }
                }
                lemma_query_of_erased(cache, lib, t, depth);
                erase_query(cache, lib, t, m, depth).0
            },
        };
        lemma_args_answer_nothing_stay(cache, c1, args, from + 1);
        lemma_args_of_erased(c1, lib, args, depth, from + 1);
        let rest = erase_args(c1, lib, args, m, depth, from + 1);
        lemma_adds_nothing_twice(cache, c1, rest.0);
        assert(seq![args[from]] + args.subrange(from + 1, args.len() as int) =~= args.subrange(
            from,
            args.len() as int,
        ));
    } else {
        assert(args.subrange(from, args.len() as int) =~= Seq::empty());
    }
}

/// Erasure leaves alone what is erased already: for a type in which nothing
/// can be erased, a query without bindings gives no type to put in its
/// place, so that the type stays as it is.
///
/// This holds against every cache that gives no erasure for the type or the
/// parts of it that the query comes to ask about. A cache that knows nothing
/// yet is such a cache, and so is the cache after such a query.
pub proof fn law_erased_type_is_left_alone(
    cache: ErasureCache,
    lib: LibraryModel,
    t: TypeModel,
    depth: nat,
)
    requires
        fully_erased(lib, t),
        answers_nothing(cache, t),
    ensures
        erase_query(cache, lib, t, Seq::empty(), depth).1 is None,
        answers_nothing(erase_query(cache, lib, t, Seq::empty(), depth).0, t),
{
    lemma_query_of_erased(cache, lib, t, depth);
    lemma_answers_nothing_stays(
        cache,
        erase_query(cache, lib, t, Seq::empty(), depth).0,
        t,
    );
}

/// A cache that knows nothing gives no erasure for any type.
pub proof fn lemma_empty_cache_answers_nothing(t: TypeModel)
    ensures
        answers_nothing(ErasureCache::empty(), t),
    decreases t, 0nat,
{
    let cache = ErasureCache::empty();
    match t {
        TypeModel::Primitive(_) => {},
        TypeModel::Ptr { ty, .. } => lemma_empty_cache_answers_nothing(*ty),
        TypeModel::Array(ty, _) => lemma_empty_cache_answers_nothing(*ty),
        TypeModel::FuncPtr { ret, args, .. } => {
            lemma_empty_cache_answers_nothing(*ret);
            lemma_empty_cache_answers_nothing_types(args, 0);
        },
        TypeModel::Path(p) => lemma_empty_cache_answers_nothing_args(p.generics, 0),
    }
}

proof fn lemma_empty_cache_answers_nothing_types(types: Seq<TypeModel>, from: int)
    ensures
        types_answer_nothing(ErasureCache::empty(), types, from),
    decreases types, types.len() - from,
{
    if 0 <= from < types.len() {
        lemma_empty_cache_answers_nothing(types[from]);
        lemma_empty_cache_answers_nothing_types(types, from + 1);
    }
}

proof fn lemma_empty_cache_answers_nothing_args(args: Seq<GenericArgumentModel>, from: int)
    ensures
        args_answer_nothing(ErasureCache::empty(), args, from),
    decreases args, args.len() - from,
{
    if 0 <= from < args.len() {
        match args[from] {
            GenericArgumentModel::Type(t) => lemma_empty_cache_answers_nothing(t),
            GenericArgumentModel::Const(_) => {},
        }
        lemma_empty_cache_answers_nothing_args(args, from + 1);
    }
}

} // verus!
