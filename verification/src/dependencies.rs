use vstd::prelude::*;
use crate::function::Function;
use crate::generic_path::{declares, GenericParamModel, GenericParams};
use crate::item::{ItemContainer, ItemKind, ItemModel};
use crate::item_map::lemma_filter_step;
use crate::library::{Library, LibraryModel};
use crate::model::{contains_text, views};
use crate::path::Path;
use crate::sorting::{sort_by_name, sorted_by_name};
use crate::ty::{
    args_model, lemma_types_model_is_views, types_model, GenericArgument, GenericArgumentModel,
    Type, TypeModel,
};

verus! {

/// The items to emit, in the order of emission, and the names that were
/// taken up so far.
#[derive(Debug)]
pub struct Dependencies {
    order: Vec<ItemContainer>,
    items: Vec<Path>,
    cut: bool,
    depth: usize,
}

pub struct DependenciesModel {
    pub order: Seq<ItemModel>,
    pub items: Seq<Seq<char>>,
    /// Whether items were added without what they depend on, because the
    /// bound was reached.
    pub cut: bool,
}

impl View for Dependencies {
    type V = DependenciesModel;

    closed spec fn view(&self) -> DependenciesModel {
        DependenciesModel { order: views(self.order@), items: views(self.items@), cut: self.cut }
    }
}

/// The depth to which items are followed into one another unless another
/// bound is chosen.
pub const DEFAULT_DEPENDENCY_DEPTH: usize = 4096;

impl DependenciesModel {
    pub open spec fn empty() -> DependenciesModel {
        DependenciesModel { order: Seq::empty(), items: Seq::empty(), cut: false }
    }

    /// Whether the name `path` was taken up.
    pub open spec fn seen(self, path: Seq<char>) -> bool {
        contains_text(self.items, path)
    }

    /// These dependencies with the name `path` taken up.
    pub open spec fn mark(self, path: Seq<char>) -> DependenciesModel {
        DependenciesModel { items: self.items.push(path), ..self }
    }

    /// These dependencies after the bound was reached.
    pub open spec fn stopped(self) -> DependenciesModel {
        DependenciesModel { cut: true, ..self }
    }

    /// These dependencies with `items` added at the end of the order.
    pub open spec fn append(self, items: Seq<ItemModel>) -> DependenciesModel {
        DependenciesModel { order: self.order + items, ..self }
    }
}

/// The dependencies after the type `t` is visited: every item that `t`
/// names and that was not taken up before is added to the order, after the
/// items that it depends on in turn. `params` are names that stand for no
/// item. `depth` bounds how deep items are followed into one another: at the
/// bound the items are added without what they depend on, and that is
/// recorded.
pub open spec fn visit_type(
    lib: LibraryModel,
    t: TypeModel,
    params: Seq<GenericParamModel>,
    deps: DependenciesModel,
    depth: nat,
) -> DependenciesModel
    decreases depth, 1nat, t, 0nat,
{
    match t {
        TypeModel::Ptr { ty, .. } => visit_type(lib, *ty, params, deps, depth),
        TypeModel::Path(p) => {
            let d1 = visit_args(lib, p.generics, 0, params, deps, depth);
            if declares(params, p.path) {
                d1
            } else {
                match lib.get_items(p.path) {
                    Some(items) => if d1.seen(p.path) {
                        d1
                    } else if depth == 0 {
                        d1.mark(p.path).stopped().append(items)
                    } else {
                        visit_items(lib, items, 0, d1.mark(p.path), (depth - 1) as nat).append(
                            items,
                        )
                    },
                    None => d1,
                }
            }
        },
        TypeModel::Primitive(_) => deps,
        TypeModel::Array(ty, _) => visit_type(lib, *ty, params, deps, depth),
        TypeModel::FuncPtr { ret, args, .. } => visit_types(
            lib,
            args,
            0,
            params,
            visit_type(lib, *ret, params, deps, depth),
            depth,
        ),
    }
}

/// The dependencies after the types among `args[from..]` are visited.
pub open spec fn visit_args(
    lib: LibraryModel,
    args: Seq<GenericArgumentModel>,
    from: int,
    params: Seq<GenericParamModel>,
    deps: DependenciesModel,
    depth: nat,
) -> DependenciesModel
    decreases depth, 1nat, args, args.len() - from,
{
    if from < 0 || from >= args.len() {
        deps
    } else {
        let next = match args[from] {
            GenericArgumentModel::Type(t) => visit_type(lib, t, params, deps, depth),
            GenericArgumentModel::Const(_) => deps,
        };
        visit_args(lib, args, from + 1, params, next, depth)
    }
}

/// The dependencies after the types `types[from..]` are visited.
pub open spec fn visit_types(
    lib: LibraryModel,
    types: Seq<TypeModel>,
    from: int,
    params: Seq<GenericParamModel>,
    deps: DependenciesModel,
    depth: nat,
) -> DependenciesModel
    decreases depth, 1nat, types, types.len() - from,
{
    if from < 0 || from >= types.len() {
        deps
    } else {
        visit_types(
            lib,
            types,
            from + 1,
            params,
            visit_type(lib, types[from], params, deps, depth),
            depth,
        )
    }
}

/// The dependencies after the fields of each of `items[from..]` are visited.
pub open spec fn visit_items(
    lib: LibraryModel,
    items: Seq<ItemModel>,
    from: int,
    deps: DependenciesModel,
    depth: nat,
) -> DependenciesModel
    decreases depth, 2nat, items, items.len() - from,
{
    if from < 0 || from >= items.len() {
        deps
    } else {
        visit_items(lib, items, from + 1, visit_item(lib, items[from], deps, depth), depth)
    }
}

/// The dependencies after the types of the fields of `item` are visited. The
/// parameters of the item stand for no item.
pub open spec fn visit_item(
    lib: LibraryModel,
    item: ItemModel,
    deps: DependenciesModel,
    depth: nat,
) -> DependenciesModel
    decreases depth, 2nat, item, 0nat,
{
    visit_types(lib, item.types(), 0, item.generic_params, deps, depth)
}

/// The test of an item for being an enum without a tag.
pub open spec fn plain_enum() -> spec_fn(ItemModel) -> bool {
    |x: ItemModel| x.kind == ItemKind::Enum && x.tag is None
}

/// The test of an item for being an opaque item.
pub open spec fn opaque() -> spec_fn(ItemModel) -> bool {
    |x: ItemModel| x.kind == ItemKind::OpaqueItem
}

/// The test of an item for being neither an enum without a tag nor opaque.
pub open spec fn composite() -> spec_fn(ItemModel) -> bool {
    |x: ItemModel| !(x.kind == ItemKind::Enum && x.tag is None) && x.kind != ItemKind::OpaqueItem
}

/// The order of emission: the enums without a tag by name, then the opaque
/// items by name, then all other items in the order they have in `order`.
pub open spec fn layered(order: Seq<ItemModel>) -> Seq<ItemModel> {
    sorted_by_name::<ItemContainer>(order.filter(plain_enum())) + sorted_by_name::<ItemContainer>(
        order.filter(opaque()),
    ) + order.filter(composite())
}

fn visit_type_exec(
    lib: &Library,
    t: &Type,
    params: &GenericParams,
    out: &mut Dependencies,
    depth: usize,
)
    ensures
        final(out)@ == visit_type(lib@, t@, params@, old(out)@, depth as nat),
        final(out).depth_limit() == old(out).depth_limit(),
    decreases depth, 1nat, t, 0nat,
{
    match t {
        Type::Ptr { ty, .. } => visit_type_exec(lib, ty, params, out, depth),
        Type::Path(p) => {
            assert(t@ == TypeModel::Path(p@));
            visit_args_exec(lib, &p.generics, params, out, depth);
            if !params.declares(&p.path) {
                if let Some(items) = lib.get_items(&p.path) {
                    if !out.seen(&p.path) {
                        out.mark(p.path.clone());
                        if depth > 0 {
                            visit_items_exec(lib, &items, out, depth - 1);
                        } else {
                            out.stop();
                        }
                        out.append(items);
                    }
                }
            }
        },
        Type::Primitive(_) => {},
        Type::Array(ty, _) => visit_type_exec(lib, ty, params, out, depth),
        Type::FuncPtr { ret, args, .. } => {
            visit_type_exec(lib, ret, params, out, depth);
            visit_types_exec(lib, args, params, out, depth);
        },
    }
}

fn visit_args_exec(
    lib: &Library,
    args: &Vec<GenericArgument>,
    params: &GenericParams,
    out: &mut Dependencies,
    depth: usize,
)
    ensures
        final(out)@ == visit_args(lib@, args_model(args@), 0, params@, old(out)@, depth as nat),
        final(out).depth_limit() == old(out).depth_limit(),
    decreases depth, 1nat, args, 0nat,
{
    let ghost all = args_model(args@);
    let mut i: usize = 0;
    while i < args.len()
        invariant
            i <= args.len(),
            all == args_model(args@),
            out.depth_limit() == old(out).depth_limit(),
            visit_args(lib@, all, 0, params@, old(out)@, depth as nat) == visit_args(
                lib@,
                all,
                i as int,
                params@,
                out@,
                depth as nat,
            ),
        decreases args.len() - i,
    {
        assert(all[i as int] == args[i as int]@);
        match &args[i] {
            GenericArgument::Type(t) => {
                visit_type_exec(lib, t, params, out, depth);
            },
            GenericArgument::Const(_) => {},
        }
        i += 1;
    }
}

fn visit_types_exec(
    lib: &Library,
    types: &Vec<Type>,
    params: &GenericParams,
    out: &mut Dependencies,
    depth: usize,
)
    ensures
        final(out)@ == visit_types(
            lib@,
            types_model(types@),
            0,
            params@,
            old(out)@,
            depth as nat,
        ),
        final(out).depth_limit() == old(out).depth_limit(),
    decreases depth, 1nat, types, 0nat,
{
    let ghost all = types_model(types@);
    let mut i: usize = 0;
    while i < types.len()
        invariant
            i <= types.len(),
            all == types_model(types@),
            out.depth_limit() == old(out).depth_limit(),
            visit_types(lib@, all, 0, params@, old(out)@, depth as nat) == visit_types(
                lib@,
                all,
                i as int,
                params@,
                out@,
                depth as nat,
            ),
        decreases types.len() - i,
    {
        assert(all[i as int] == types[i as int]@);
        visit_type_exec(lib, &types[i], params, out, depth);
        i += 1;
    }
}

fn visit_items_exec(lib: &Library, items: &Vec<ItemContainer>, out: &mut Dependencies, depth: usize)
    ensures
        final(out)@ == visit_items(lib@, views(items@), 0, old(out)@, depth as nat),
        final(out).depth_limit() == old(out).depth_limit(),
    decreases depth, 2nat, items, 0nat,
{
    let mut i: usize = 0;
    while i < items.len()
        invariant
            i <= items.len(),
            out.depth_limit() == old(out).depth_limit(),
            visit_items(lib@, views(items@), 0, old(out)@, depth as nat) == visit_items(
                lib@,
                views(items@),
                i as int,
                out@,
                depth as nat,
            ),
        decreases items.len() - i,
    {
        visit_item_exec(lib, &items[i], out, depth);
        i += 1;
    }
}

fn visit_item_exec(lib: &Library, item: &ItemContainer, out: &mut Dependencies, depth: usize)
    ensures
        final(out)@ == visit_item(lib@, item@, old(out)@, depth as nat),
        final(out).depth_limit() == old(out).depth_limit(),
    decreases depth, 2nat, item, 0nat,
{
    let types = item.types();
    proof {
        lemma_types_model_is_views(types@);
    }
    visit_types_exec(lib, &types, &item.generic_params, out, depth);
}

/// A layer of the order of emission.
#[derive(Clone, Copy, PartialEq, Eq, Structural)]
enum Layer {
    PlainEnums,
    OpaqueItems,
    Composites,
}

impl Layer {
    /// The test of an item for being of this layer.
    spec fn holds(self) -> spec_fn(ItemModel) -> bool {
        match self {
            Layer::PlainEnums => plain_enum(),
            Layer::OpaqueItems => opaque(),
            Layer::Composites => composite(),
        }
    }

    fn admits(self, item: &ItemContainer) -> (b: bool)
        ensures
            b == (self.holds())(item@),
    {
        let is_plain_enum = item.kind == ItemKind::Enum && item.tag.is_none();
        let is_opaque = item.kind == ItemKind::OpaqueItem;
        match self {
            Layer::PlainEnums => is_plain_enum,
            Layer::OpaqueItems => is_opaque,
            Layer::Composites => !is_plain_enum && !is_opaque,
        }
    }
}

/// The items of `v` that are of the layer `layer`, in order.
fn of_layer(v: &Vec<ItemContainer>, layer: Layer) -> (res: Vec<ItemContainer>)
    ensures
        views(res@) == views(v@).filter(layer.holds()),
{
    let mut out: Vec<ItemContainer> = Vec::new();
    let mut i: usize = 0;
    while i < v.len()
        invariant
            i <= v.len(),
            views(out@) == views(v@).take(i as int).filter(layer.holds()),
        decreases v.len() - i,
    {
        proof {
            lemma_filter_step(views(v@), layer.holds(), i as int);
        }
        if layer.admits(&v[i]) {
            out.push(v[i].clone());
            assert(views(out@) =~= views(v@).take(i as int).filter(layer.holds()).push(
                views(v@)[i as int],
            ));
        }
        i += 1;
    }
    assert(views(v@).take(v.len() as int) =~= views(v@));
    out
}

impl Dependencies {
    pub fn new() -> (res: Dependencies)
        ensures
            res@ == DependenciesModel::empty(),
            res.depth_limit() == DEFAULT_DEPENDENCY_DEPTH,
    {
        Dependencies::with_depth(DEFAULT_DEPENDENCY_DEPTH)
    }

    /// Dependencies that hold nothing yet and follow items up to `depth`
    /// deep into one another.
    pub fn with_depth(depth: usize) -> (res: Dependencies)
        ensures
            res@ == DependenciesModel::empty(),
            res.depth_limit() == depth,
    {
        let res = Dependencies { order: Vec::new(), items: Vec::new(), cut: false, depth };
        assert(res@.order =~= Seq::empty());
        assert(res@.items =~= Seq::empty());
        res
    }

    /// The depth to which items are followed into one another.
    pub closed spec fn depth_limit(&self) -> nat {
        self.depth as nat
    }

    pub fn depth(&self) -> (d: usize)
        ensures
            d == self.depth_limit(),
    {
        self.depth
    }

    /// The items in the order of emission.
    pub fn into_order(self) -> (res: Vec<ItemContainer>)
        ensures
            views(res@) == self@.order,
    {
        self.order
    }

    /// Whether the name `path` was taken up.
    pub fn seen(&self, path: &Path) -> (b: bool)
        ensures
            b == self@.seen(path@),
    {
        let mut i: usize = 0;
        while i < self.items.len()
            invariant
                i <= self.items.len(),
                forall|j: int| 0 <= j < i ==> self.items[j]@ != path@,
            decreases self.items.len() - i,
        {
            if self.items[i].equals(path) {
                assert(views(self.items@)[i as int] == path@);
                return true;
            }
            i += 1;
        }
        false
    }

    /// Takes up the name `path`.
    pub fn mark(&mut self, path: Path)
        ensures
            final(self)@ == old(self)@.mark(path@),
            final(self).depth_limit() == old(self).depth_limit(),
    {
        self.items.push(path);
        assert(self@.items =~= old(self)@.items.push(path@));
    }

    /// Records that the bound was reached.
    pub fn stop(&mut self)
        ensures
            final(self)@ == old(self)@.stopped(),
            final(self).depth_limit() == old(self).depth_limit(),
    {
        self.cut = true;
    }

    /// Whether items were added without what they depend on, because the
    /// bound was reached.
    pub fn was_cut(&self) -> (b: bool)
        ensures
            b == self@.cut,
    {
        self.cut
    }

    /// Adds `items` at the end of the order.
    pub fn append(&mut self, items: Vec<ItemContainer>)
        ensures
            final(self)@ == old(self)@.append(views(items@)),
            final(self).depth_limit() == old(self).depth_limit(),
    {
        let mut items = items;
        let ghost added = views(items@);
        self.order.append(&mut items);
        assert(self@.order =~= old(self)@.order + added);
    }

    /// Puts the order in layers: the enums without a tag by name, then the
    /// opaque items by name, then all other items as they stand.
    pub fn sort(&mut self)
        ensures
            final(self)@ == (DependenciesModel { order: layered(old(self)@.order), ..old(self)@ }),
            final(self).depth_limit() == old(self).depth_limit(),
    {
        let mut enums = sort_by_name(of_layer(&self.order, Layer::PlainEnums));
        let mut opaques = sort_by_name(of_layer(&self.order, Layer::OpaqueItems));
        let mut rest = of_layer(&self.order, Layer::Composites);
        let ghost a = views(enums@);
        let ghost b = views(opaques@);
        let ghost c = views(rest@);
        enums.append(&mut opaques);
        enums.append(&mut rest);
        assert(views(enums@) =~= a + b + c);
        self.order = enums;
    }
}

impl Type {
    /// Visits this type for the items it depends on.
    pub fn add_dependencies_ignoring_generics(
        &self,
        generic_params: &GenericParams,
        library: &Library,
        out: &mut Dependencies,
    )
        ensures
            final(out)@ == visit_type(
                library@,
                self@,
                generic_params@,
                old(out)@,
                old(out).depth_limit(),
            ),
            final(out).depth_limit() == old(out).depth_limit(),
    {
        let depth = out.depth();
        visit_type_exec(library, self, generic_params, out, depth);
    }

    /// Visits this type for the items it depends on.
    pub fn add_dependencies(&self, library: &Library, out: &mut Dependencies)
        ensures
            final(out)@ == visit_type(
                library@,
                self@,
                Seq::empty(),
                old(out)@,
                old(out).depth_limit(),
            ),
            final(out).depth_limit() == old(out).depth_limit(),
    {
        let params = GenericParams::new();
        self.add_dependencies_ignoring_generics(&params, library, out);
    }
}

impl ItemContainer {
    /// Visits the fields of this item for the items they depend on.
    pub fn add_dependencies(&self, library: &Library, out: &mut Dependencies)
        ensures
            final(out)@ == visit_item(library@, self@, old(out)@, old(out).depth_limit()),
            final(out).depth_limit() == old(out).depth_limit(),
    {
        let depth = out.depth();
        visit_item_exec(library, self, out, depth);
    }
}

/// The dependencies after the signature of `f` is visited: the return
/// type, then the arguments in order.
pub open spec fn visit_function(
    lib: LibraryModel,
    f: crate::function::FunctionModel,
    deps: DependenciesModel,
    depth: nat,
) -> DependenciesModel {
    visit_types(
        lib,
        f.arg_types(),
        0,
        Seq::empty(),
        visit_type(lib, f.ret, Seq::empty(), deps, depth),
        depth,
    )
}

impl Function {
    /// Visits the signature for the items it depends on: the return type,
    /// then the arguments.
    pub fn add_dependencies(&self, library: &Library, out: &mut Dependencies)
        ensures
            final(out)@ == visit_function(library@, self@, old(out)@, old(out).depth_limit()),
            final(out).depth_limit() == old(out).depth_limit(),
    {
        let depth = out.depth();
        let params = GenericParams::new();
        visit_type_exec(library, &self.ret, &params, out, depth);
        let types = self.arg_types();
        proof {
            lemma_types_model_is_views(types@);
        }
        visit_types_exec(library, &types, &params, out, depth);
    }
}

} // verus!
