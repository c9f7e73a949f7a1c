use vstd::prelude::*;
use crate::config::{Config, ConfigModel, ItemType};
use crate::erase::{ErasureCache, KnownErasedTypes};
use crate::function::{Function, FunctionModel};
use crate::item::{ItemContainer, ItemModel};
use crate::item_map::{items_named, ItemMap};
use crate::model::views;
use crate::config::{Language, SortKey};
use crate::declarationtyperesolver::{Declarations, DeclarationTypeResolver};
use crate::instantiate::{add_function, add_item};
use crate::item::{AnnotationSet, AnnotationSetModel, ItemKind};
use crate::item_map::{admits, lemma_filter_step};
use crate::model::contains_text;
use crate::monomorph::{Monomorphs, MonomorphsModel};
use crate::passes::{
    collect_declaration, erase_function, erase_item, rename_function, rename_item,
    rename_warnings, rewrite_function, rewrite_item,
};
use crate::bindings::{Bindings, BindingsModel, Error};
use crate::dependencies::{
    layered, visit_function, visit_items, Dependencies, DependenciesModel,
    DEFAULT_DEPENDENCY_DEPTH,
};
use crate::erase::DEFAULT_ERASURE_DEPTH;
use crate::monomorph::DEFAULT_MONOMORPH_DEPTH;
use crate::path::Path;
use crate::rewrite::PathOp;
use crate::sorting::{sort_by_name, sorted_by_name};
use crate::ty::root_path;
use crate::warning::{Stage, Warning, WarningModel};

verus! {

/// One snapshot of a parsed source library: its items by category, and the
/// configuration under which a header is generated from it.
#[derive(Debug, PartialEq, Eq)]
pub struct Library {
    pub(crate) config: Config,
    pub(crate) constants: ItemMap,
    pub(crate) globals: ItemMap,
    pub(crate) enums: ItemMap,
    pub(crate) structs: ItemMap,
    pub(crate) unions: ItemMap,
    pub(crate) opaque_items: ItemMap,
    pub(crate) typedefs: ItemMap,
    pub(crate) functions: Vec<Function>,
    pub(crate) source_files: Vec<String>,
    pub(crate) package_version: String,
}

pub struct LibraryModel {
    pub config: ConfigModel,
    pub constants: Seq<ItemModel>,
    pub globals: Seq<ItemModel>,
    pub enums: Seq<ItemModel>,
    pub structs: Seq<ItemModel>,
    pub unions: Seq<ItemModel>,
    pub opaque_items: Seq<ItemModel>,
    pub typedefs: Seq<ItemModel>,
    pub functions: Seq<FunctionModel>,
    pub source_files: Seq<Seq<char>>,
    pub package_version: Seq<char>,
}

impl View for Library {
    type V = LibraryModel;

    closed spec fn view(&self) -> LibraryModel {
        LibraryModel {
            config: self.config@,
            constants: self.constants@,
            globals: self.globals@,
            enums: self.enums@,
            structs: self.structs@,
            unions: self.unions@,
            opaque_items: self.opaque_items@,
            typedefs: self.typedefs@,
            functions: views(self.functions@),
            source_files: views(self.source_files@),
            package_version: self.package_version@,
        }
    }
}

/// The items of `items` called `path`, where the category is exported and
/// holds any.
pub open spec fn found_in(exported: bool, items: Seq<ItemModel>, path: Seq<char>) -> Option<
    Seq<ItemModel>,
> {
    if exported && items_named(items, path).len() > 0 {
        Some(items_named(items, path))
    } else {
        None
    }
}

impl LibraryModel {
    /// The items that the name `path` refers to: those of the first category
    /// that is exported and holds an item of that name, the categories taken
    /// in the order enums, structs, unions, opaque items, typedefs.
    pub open spec fn get_items(self, path: Seq<char>) -> Option<Seq<ItemModel>> {
        let export = self.config.export;
        if found_in(export.should_generate(ItemType::Enums), self.enums, path) is Some {
            found_in(export.should_generate(ItemType::Enums), self.enums, path)
        } else if found_in(export.should_generate(ItemType::Structs), self.structs, path)
            is Some {
            found_in(export.should_generate(ItemType::Structs), self.structs, path)
        } else if found_in(export.should_generate(ItemType::Unions), self.unions, path) is Some {
            found_in(export.should_generate(ItemType::Unions), self.unions, path)
        } else if found_in(
            export.should_generate(ItemType::OpaqueItems),
            self.opaque_items,
            path,
        ) is Some {
            found_in(export.should_generate(ItemType::OpaqueItems), self.opaque_items, path)
        } else {
            found_in(export.should_generate(ItemType::Typedefs), self.typedefs, path)
        }
    }

    /// The first of the items that the name `path` refers to.
    pub open spec fn first_item(self, path: Seq<char>) -> Option<ItemModel> {
        match self.get_items(path) {
            Some(items) => Some(items[0]),
            None => None,
        }
    }
}

fn find_in(exported: bool, items: &ItemMap, p: &Path) -> (res: Option<Vec<ItemContainer>>)
    ensures
        res is Some == found_in(exported, items@, p@) is Some,
        res matches Some(found) ==> Some(views(found@)) == found_in(exported, items@, p@),
{
    if exported {
        items.get_items(p)
    } else {
        None
    }
}

impl Library {
    pub fn new(
        config: Config,
        constants: ItemMap,
        globals: ItemMap,
        enums: ItemMap,
        structs: ItemMap,
        unions: ItemMap,
        opaque_items: ItemMap,
        typedefs: ItemMap,
        functions: Vec<Function>,
        source_files: Vec<String>,
        package_version: String,
    ) -> (res: Library)
        ensures
            res@ == (LibraryModel {
                config: config@,
                constants: constants@,
                globals: globals@,
                enums: enums@,
                structs: structs@,
                unions: unions@,
                opaque_items: opaque_items@,
                typedefs: typedefs@,
                functions: views(functions@),
                source_files: views(source_files@),
                package_version: package_version@,
            }),
    {
        Library {
            config,
            constants,
            globals,
            enums,
            structs,
            unions,
            opaque_items,
            typedefs,
            functions,
            source_files,
            package_version,
        }
    }

    /// The items that the name `p` refers to, if it refers to any.
    pub fn get_items(&self, p: &Path) -> (res: Option<Vec<ItemContainer>>)
        ensures
            res is Some == self@.get_items(p@) is Some,
            res matches Some(found) ==> Some(views(found@)) == self@.get_items(p@),
    {
        let export = &self.config.export;
        if let Some(x) = find_in(export.should_generate(ItemType::Enums), &self.enums, p) {
            return Some(x);
        }
        if let Some(x) = find_in(export.should_generate(ItemType::Structs), &self.structs, p) {
            return Some(x);
        }
        if let Some(x) = find_in(export.should_generate(ItemType::Unions), &self.unions, p) {
            return Some(x);
        }
        if let Some(x) = find_in(
            export.should_generate(ItemType::OpaqueItems),
            &self.opaque_items,
            p,
        ) {
            return Some(x);
        }
        find_in(export.should_generate(ItemType::Typedefs), &self.typedefs, p)
    }

    /// The first of the items that the name `p` refers to.
    pub fn first_item(&self, p: &Path) -> (res: Option<ItemContainer>)
        ensures
            crate::model::view_of(res) == self@.first_item(p@),
    {
        match self.get_items(p) {
            Some(mut found) => {
                assert(found.len() > 0);
                let item = found.swap_remove(0);
                Some(item)
            },
            None => None,
        }
    }

    pub fn constants(&self) -> (m: &ItemMap)
        ensures
            m@ == self@.constants,
    {
        &self.constants
    }

    pub fn globals(&self) -> (m: &ItemMap)
        ensures
            m@ == self@.globals,
    {
        &self.globals
    }

    pub fn enums(&self) -> (m: &ItemMap)
        ensures
            m@ == self@.enums,
    {
        &self.enums
    }

    pub fn structs(&self) -> (m: &ItemMap)
        ensures
            m@ == self@.structs,
    {
        &self.structs
    }

    pub fn unions(&self) -> (m: &ItemMap)
        ensures
            m@ == self@.unions,
    {
        &self.unions
    }

    pub fn opaque_items(&self) -> (m: &ItemMap)
        ensures
            m@ == self@.opaque_items,
    {
        &self.opaque_items
    }

    pub fn typedefs(&self) -> (m: &ItemMap)
        ensures
            m@ == self@.typedefs,
    {
        &self.typedefs
    }

    pub fn get_config(&self) -> (c: &Config)
        ensures
            c@ == self@.config,
    {
        &self.config
    }
}

/// The items `items[from..]` with the types of their fields erased against
/// `lib`, one item after the other. Items that are still generic are kept as
/// they are.
pub open spec fn erase_items(
    cache: ErasureCache,
    lib: LibraryModel,
    items: Seq<ItemModel>,
    from: int,
    depth: nat,
) -> (ErasureCache, Seq<ItemModel>)
    decreases items.len() - from,
{
    if from < 0 || from >= items.len() {
        (cache, Seq::empty())
    } else {
        let first = if items[from].is_generic() {
            (cache, items[from])
        } else {
            erase_item(cache, lib, items[from], Seq::empty(), depth)
        };
        let rest = erase_items(first.0, lib, items, from + 1, depth);
        (rest.0, seq![first.1] + rest.1)
    }
}

/// The functions `fs[from..]` with the types of their signatures erased
/// against `lib`, one function after the other.
pub open spec fn erase_functions(
    cache: ErasureCache,
    lib: LibraryModel,
    fs: Seq<FunctionModel>,
    from: int,
    depth: nat,
) -> (ErasureCache, Seq<FunctionModel>)
    decreases fs.len() - from,
{
    if from < 0 || from >= fs.len() {
        (cache, Seq::empty())
    } else {
        let first = erase_function(cache, lib, fs[from], depth);
        let rest = erase_functions(first.0, lib, fs, from + 1, depth);
        (rest.0, seq![first.1] + rest.1)
    }
}

impl LibraryModel {
    /// What the cache knows after every type of the library was asked about
    /// once, against the whole library: the constants, globals, enums,
    /// structs, unions, opaque items, typedefs and functions, in this order.
    pub open spec fn populate(self, cache: ErasureCache, depth: nat) -> ErasureCache {
        let c1 = erase_items(cache, self, self.constants, 0, depth).0;
        let c2 = erase_items(c1, self, self.globals, 0, depth).0;
        let c3 = erase_items(c2, self, self.enums, 0, depth).0;
        let c4 = erase_items(c3, self, self.structs, 0, depth).0;
        let c5 = erase_items(c4, self, self.unions, 0, depth).0;
        let c6 = erase_items(c5, self, self.opaque_items, 0, depth).0;
        let c7 = erase_items(c6, self, self.typedefs, 0, depth).0;
        erase_functions(c7, self, self.functions, 0, depth).0
    }

    /// The library with every type erased, and what the cache knows after.
    ///
    /// The cache is first filled against the whole library. Then the
    /// categories are erased one after the other, in the same order; while
    /// the items of a category are erased, the library does not hold them.
    pub open spec fn erase_types(self, cache: ErasureCache, depth: nat) -> (
        ErasureCache,
        LibraryModel,
    ) {
        let c0 = self.populate(cache, depth);
        let r1 = erase_items(
            c0,
            LibraryModel { constants: Seq::empty(), ..self },
            self.constants,
            0,
            depth,
        );
        let l1 = LibraryModel { constants: r1.1, ..self };
        let r2 = erase_items(
            r1.0,
            LibraryModel { globals: Seq::empty(), ..l1 },
            l1.globals,
            0,
            depth,
        );
        let l2 = LibraryModel { globals: r2.1, ..l1 };
        let r3 = erase_items(r2.0, LibraryModel { enums: Seq::empty(), ..l2 }, l2.enums, 0, depth);
        let l3 = LibraryModel { enums: r3.1, ..l2 };
        let r4 = erase_items(
            r3.0,
            LibraryModel { structs: Seq::empty(), ..l3 },
            l3.structs,
            0,
            depth,
        );
        let l4 = LibraryModel { structs: r4.1, ..l3 };
        let r5 = erase_items(
            r4.0,
            LibraryModel { unions: Seq::empty(), ..l4 },
            l4.unions,
            0,
            depth,
        );
        let l5 = LibraryModel { unions: r5.1, ..l4 };
        let r6 = erase_items(
            r5.0,
            LibraryModel { opaque_items: Seq::empty(), ..l5 },
            l5.opaque_items,
            0,
            depth,
        );
        let l6 = LibraryModel { opaque_items: r6.1, ..l5 };
        let r7 = erase_items(
            r6.0,
            LibraryModel { typedefs: Seq::empty(), ..l6 },
            l6.typedefs,
            0,
            depth,
        );
        let l7 = LibraryModel { typedefs: r7.1, ..l6 };
        let r8 = erase_functions(
            r7.0,
            LibraryModel { functions: Seq::empty(), ..l7 },
            l7.functions,
            0,
            depth,
        );
        (r8.0, LibraryModel { functions: r8.1, ..l7 })
    }
}

/// Erases the types of the items of `items` against `lib`.
fn erase_items_exec(lib: &Library, erased: &mut KnownErasedTypes, items: ItemMap) -> (res: ItemMap)
    ensures
        (final(erased)@, res@) == erase_items(
            old(erased)@,
            lib@,
            items@,
            0,
            old(erased).depth_limit(),
        ),
        final(erased).depth_limit() == old(erased).depth_limit(),
{
    let ghost all = items@;
    let ghost depth = erased.depth_limit();
    let ghost goal = erase_items(erased@, lib@, all, 0, depth);
    let mut src = items.items;
    let mut out: Vec<ItemContainer> = Vec::new();
    let mut i: usize = 0;
    assert(views(out@) + goal.1 =~= goal.1);
    while i < src.len()
        invariant
            i <= src.len(),
            src.len() == all.len(),
            erased.depth_limit() == depth,
            forall|j: int| i <= j < src.len() ==> src[j]@ == all[j],
            goal == ({
                let rest = erase_items(erased@, lib@, all, i as int, depth);
                (rest.0, views(out@) + rest.1)
            }),
        decreases src.len() - i,
    {
        let ghost before = views(out@);
        let ghost rest = erase_items(erased@, lib@, all, i as int, depth);
        let mut item = src[i].clone();
        if !item.is_generic() {
            let none: Vec<crate::ty::GenericArgument> = Vec::new();
            assert(crate::ty::args_model(none@) =~= Seq::empty());
            assert(crate::generic_path::effective_args(item@.generic_params, Seq::empty())
                =~= Seq::empty());
            item.erase_types_inplace(lib, erased, none.as_slice());
        }
        let ghost next = erase_items(erased@, lib@, all, i + 1, depth);
        out.push(item);
        assert(views(out@) =~= before + rest.1.take(1));
        assert(rest.1 =~= rest.1.take(1) + next.1);
        assert(views(out@) + next.1 =~= before + rest.1);
        i += 1;
    }
    ItemMap { items: out }
}

/// Erases the types of the signatures of `fs` against `lib`.
fn erase_functions_exec(lib: &Library, erased: &mut KnownErasedTypes, fs: Vec<Function>) -> (res:
    Vec<Function>)
    ensures
        (final(erased)@, views(res@)) == erase_functions(
            old(erased)@,
            lib@,
            views(fs@),
            0,
            old(erased).depth_limit(),
        ),
        final(erased).depth_limit() == old(erased).depth_limit(),
{
    let ghost all = views(fs@);
    let ghost depth = erased.depth_limit();
    let ghost goal = erase_functions(erased@, lib@, all, 0, depth);
    let mut out: Vec<Function> = Vec::new();
    let mut i: usize = 0;
    assert(views(out@) + goal.1 =~= goal.1);
    while i < fs.len()
        invariant
            i <= fs.len(),
            all == views(fs@),
            erased.depth_limit() == depth,
            goal == ({
                let rest = erase_functions(erased@, lib@, all, i as int, depth);
                (rest.0, views(out@) + rest.1)
            }),
        decreases fs.len() - i,
    {
        let ghost before = views(out@);
        let ghost rest = erase_functions(erased@, lib@, all, i as int, depth);
        let mut f = fs[i].clone();
        assert(f@ == all[i as int]);
        f.erase_transparent_types_inplace(lib, erased);
        let ghost next = erase_functions(erased@, lib@, all, i + 1, depth);
        out.push(f);
        assert(views(out@) =~= before + rest.1.take(1));
        assert(rest.1 =~= rest.1.take(1) + next.1);
        assert(views(out@) + next.1 =~= before + rest.1);
        i += 1;
    }
    out
}

impl Library {
    /// Erases the types of the items of `items` only in order to fill the
    /// cache: the items stay as they are.
    pub fn erase_item_types(&self, erased: &mut KnownErasedTypes, items: &ItemMap)
        ensures
            final(erased)@ == erase_items(
                old(erased)@,
                self@,
                items@,
                0,
                old(erased).depth_limit(),
            ).0,
            final(erased).depth_limit() == old(erased).depth_limit(),
    {
        let _ = erase_items_exec(self, erased, items.clone());
    }

    /// Erases the types of the items of `items` against this library. Items
    /// that are still generic are kept as they are.
    pub fn erase_item_types_inplace(&self, erased: &mut KnownErasedTypes, items: ItemMap) -> (res:
        ItemMap)
        ensures
            (final(erased)@, res@) == erase_items(
                old(erased)@,
                self@,
                items@,
                0,
                old(erased).depth_limit(),
            ),
            final(erased).depth_limit() == old(erased).depth_limit(),
    {
        erase_items_exec(self, erased, items)
    }

    /// Asks about every type of the library once, so that the cache knows
    /// the erasure of each. Nothing of the library is changed.
    fn populate(&self, erased: &mut KnownErasedTypes)
        ensures
            final(erased)@ == self@.populate(old(erased)@, old(erased).depth_limit()),
            final(erased).depth_limit() == old(erased).depth_limit(),
    {
        self.erase_item_types(erased, &self.constants);
        self.erase_item_types(erased, &self.globals);
        self.erase_item_types(erased, &self.enums);
        self.erase_item_types(erased, &self.structs);
        self.erase_item_types(erased, &self.unions);
        self.erase_item_types(erased, &self.opaque_items);
        self.erase_item_types(erased, &self.typedefs);
        let _ = erase_functions_exec(self, erased, crate::function::clone_functions(&self.functions));
    }

    /// Erases every type of the library.
    pub fn erase_types(&mut self, erased: &mut KnownErasedTypes)
        ensures
            (final(erased)@, final(self)@) == old(self)@.erase_types(
                old(erased)@,
                old(erased).depth_limit(),
            ),
            final(erased).depth_limit() == old(erased).depth_limit(),
    {
        // Make an initial pass to populate the known erased types, throwing
        // away the result. This is required in case one item is defined in
        // terms of another item of the same category, because the category
        // is not in the library while its items are erased.
        self.populate(erased);

        // Now we can actually erase the types.
        let mut constants = ItemMap::new();
        std::mem::swap(&mut self.constants, &mut constants);
        self.constants = self.erase_item_types_inplace(erased, constants);

        let mut globals = ItemMap::new();
        std::mem::swap(&mut self.globals, &mut globals);
        self.globals = self.erase_item_types_inplace(erased, globals);

        let mut enums = ItemMap::new();
        std::mem::swap(&mut self.enums, &mut enums);
        self.enums = self.erase_item_types_inplace(erased, enums);

        let mut structs = ItemMap::new();
        std::mem::swap(&mut self.structs, &mut structs);
        self.structs = self.erase_item_types_inplace(erased, structs);

        let mut unions = ItemMap::new();
        std::mem::swap(&mut self.unions, &mut unions);
        self.unions = self.erase_item_types_inplace(erased, unions);

        let mut opaque_items = ItemMap::new();
        std::mem::swap(&mut self.opaque_items, &mut opaque_items);
        self.opaque_items = self.erase_item_types_inplace(erased, opaque_items);

        let mut typedefs = ItemMap::new();
        std::mem::swap(&mut self.typedefs, &mut typedefs);
        self.typedefs = self.erase_item_types_inplace(erased, typedefs);

        let mut functions: Vec<Function> = Vec::new();
        std::mem::swap(&mut self.functions, &mut functions);
        assert(views(self.functions@) =~= Seq::empty());
        self.functions = erase_functions_exec(self, erased, functions);
    }
}

/// The annotations taken from aliases, each with the name of the item that
/// the alias stands for, in the order in which they were taken.
pub type Transfers = Seq<(Seq<char>, AnnotationSetModel)>;

/// Whether `transfers[from..]` holds annotations for the item `target`.
pub open spec fn has_transfer(transfers: Transfers, target: Seq<char>, from: int) -> bool
    decreases transfers.len() - from,
{
    if from < 0 || from >= transfers.len() {
        false
    } else if transfers[from].0 == target {
        true
    } else {
        has_transfer(transfers, target, from + 1)
    }
}

/// The item that the typedef `t` hands its annotations to: the item its
/// aliased type is about, where `t` has annotations.
pub open spec fn transfer_target(t: ItemModel) -> Option<Seq<char>> {
    if t.annotations.is_empty() || t.fields.len() == 0 {
        None
    } else {
        root_path(t.fields[0].ty)
    }
}

/// Takes the annotations off the typedefs `typedefs[from..]`, where
/// `typedefs[..from]` are done and `out`, `acc` and `warnings` hold what came
/// of them: the typedefs after, the annotations taken, and the warnings.
///
/// A typedef keeps its annotations where another had annotations for the
/// same item before it; that gives a warning.
pub open spec fn collect_transfers(
    typedefs: Seq<ItemModel>,
    from: int,
    out: Seq<ItemModel>,
    acc: Transfers,
    warnings: Seq<WarningModel>,
) -> (Seq<ItemModel>, Transfers, Seq<WarningModel>)
    decreases typedefs.len() - from,
{
    if from < 0 || from >= typedefs.len() {
        (out, acc, warnings)
    } else {
        let t = typedefs[from];
        match transfer_target(t) {
            None => collect_transfers(typedefs, from + 1, out.push(t), acc, warnings),
            Some(target) => if has_transfer(acc, target, 0) {
                collect_transfers(
                    typedefs,
                    from + 1,
                    out.push(t),
                    acc,
                    warnings.push(
                        WarningModel::DuplicateAnnotatedAlias { target, alias: t.path },
                    ),
                )
            } else {
                collect_transfers(
                    typedefs,
                    from + 1,
                    out.push(ItemModel { annotations: AnnotationSetModel::empty(), ..t }),
                    acc.push((target, t.annotations)),
                    warnings,
                )
            },
        }
    }
}

/// Gives the annotations `ann` to the items called `target` among
/// `items[from..]`, where `items[..from]` are done and `out`, `given` and
/// `warnings` hold what came of them: the items after, whether any item
/// took the annotations, and the warnings.
///
/// An item that has annotations of its own keeps them; that gives a warning.
pub open spec fn give_annotations(
    items: Seq<ItemModel>,
    from: int,
    target: Seq<char>,
    ann: AnnotationSetModel,
    out: Seq<ItemModel>,
    given: bool,
    warnings: Seq<WarningModel>,
) -> (Seq<ItemModel>, bool, Seq<WarningModel>)
    decreases items.len() - from,
{
    if from < 0 || from >= items.len() {
        (out, given, warnings)
    } else {
        let x = items[from];
        if x.path != target {
            give_annotations(items, from + 1, target, ann, out.push(x), given, warnings)
        } else if x.annotations.is_empty() {
            give_annotations(
                items,
                from + 1,
                target,
                ann,
                out.push(ItemModel { annotations: ann, ..x }),
                true,
                warnings,
            )
        } else {
            give_annotations(
                items,
                from + 1,
                target,
                ann,
                out.push(x),
                given,
                warnings.push(WarningModel::AnnotationConflict { target }),
            )
        }
    }
}

/// The test of an item for not being called by one of the names `exclude`.
pub open spec fn item_allowed(exclude: Seq<Seq<char>>) -> spec_fn(ItemModel) -> bool {
    |x: ItemModel| !contains_text(exclude, x.path)
}

/// The test of a function for not being called by one of the names `exclude`.
pub open spec fn function_allowed(exclude: Seq<Seq<char>>) -> spec_fn(FunctionModel) -> bool {
    |f: FunctionModel| !contains_text(exclude, f.path)
}

/// The test of an item for having no generic parameter.
pub open spec fn concrete() -> spec_fn(ItemModel) -> bool {
    |x: ItemModel| !x.is_generic()
}

/// The items `items`, each after the change `op`.
pub open spec fn rewrite_items(items: Seq<ItemModel>, op: PathOp) -> Seq<ItemModel> {
    Seq::new(items.len(), |i: int| rewrite_item(items[i], op))
}

/// The functions `fs`, each after the change `op`.
pub open spec fn rewrite_functions(fs: Seq<FunctionModel>, op: PathOp) -> Seq<FunctionModel> {
    Seq::new(fs.len(), |i: int| rewrite_function(fs[i], op))
}

/// The items `items`, each after renaming.
pub open spec fn rename_items(items: Seq<ItemModel>, cfg: ConfigModel) -> Seq<ItemModel> {
    Seq::new(items.len(), |i: int| rename_item(items[i], cfg.export))
}

/// The functions `fs`, each after renaming.
pub open spec fn rename_functions(fs: Seq<FunctionModel>, cfg: ConfigModel) -> Seq<FunctionModel> {
    Seq::new(fs.len(), |i: int| rename_function(fs[i], cfg))
}

/// The warnings that renaming the functions `fs[from..]` gives, after
/// `warnings`.
pub open spec fn rename_functions_warnings(
    fs: Seq<FunctionModel>,
    from: int,
    warnings: Seq<WarningModel>,
) -> Seq<WarningModel>
    decreases fs.len() - from,
{
    if from < 0 || from >= fs.len() {
        warnings
    } else {
        rename_functions_warnings(fs, from + 1, warnings + rename_warnings(fs[from]))
    }
}

/// The registrations after the items `items[from..]` are registered.
pub open spec fn collect_declarations(d: Declarations, items: Seq<ItemModel>, from: int)
    -> Declarations
    decreases items.len() - from,
{
    if from < 0 || from >= items.len() {
        d
    } else {
        collect_declarations(collect_declaration(d, items[from]), items, from + 1)
    }
}

/// The registry after what the items `items[from..]` ask for is registered.
pub open spec fn add_items(
    lib: LibraryModel,
    items: Seq<ItemModel>,
    from: int,
    mono: MonomorphsModel,
    depth: nat,
) -> MonomorphsModel
    decreases items.len() - from,
{
    if from < 0 || from >= items.len() {
        mono
    } else {
        add_items(lib, items, from + 1, add_item(lib, items[from], mono, depth), depth)
    }
}

/// The registry after what the functions `fs[from..]` ask for is registered.
pub open spec fn add_functions(
    lib: LibraryModel,
    fs: Seq<FunctionModel>,
    from: int,
    mono: MonomorphsModel,
    depth: nat,
) -> MonomorphsModel
    decreases fs.len() - from,
{
    if from < 0 || from >= fs.len() {
        mono
    } else {
        add_functions(lib, fs, from + 1, add_function(lib, fs[from], mono, depth), depth)
    }
}

/// `items` with `item` at its end, where `items` admits it.
pub open spec fn inserted(items: Seq<ItemModel>, item: ItemModel) -> Seq<ItemModel> {
    if admits(items, item) {
        items.push(item)
    } else {
        items
    }
}

impl LibraryModel {
    /// The items of the category that holds items of the kind `kind`.
    pub open spec fn category(self, kind: ItemKind) -> Seq<ItemModel> {
        match kind {
            ItemKind::Constant => self.constants,
            ItemKind::Static => self.globals,
            ItemKind::Enum => self.enums,
            ItemKind::Struct => self.structs,
            ItemKind::Union => self.unions,
            ItemKind::OpaqueItem => self.opaque_items,
            ItemKind::Typedef => self.typedefs,
        }
    }

    /// The library with `items` as the category that holds items of the kind
    /// `kind`.
    pub open spec fn with_category(self, kind: ItemKind, items: Seq<ItemModel>) -> LibraryModel {
        match kind {
            ItemKind::Constant => LibraryModel { constants: items, ..self },
            ItemKind::Static => LibraryModel { globals: items, ..self },
            ItemKind::Enum => LibraryModel { enums: items, ..self },
            ItemKind::Struct => LibraryModel { structs: items, ..self },
            ItemKind::Union => LibraryModel { unions: items, ..self },
            ItemKind::OpaqueItem => LibraryModel { opaque_items: items, ..self },
            ItemKind::Typedef => LibraryModel { typedefs: items, ..self },
        }
    }

    /// The library after the annotations `ann` are given to the items called
    /// `target`, and the warnings after `warnings`. The categories are tried
    /// in the order enums, structs, unions, opaque items, typedefs; once an
    /// item of a category took the annotations, the later categories are
    /// left alone.
    pub open spec fn give(
        self,
        target: Seq<char>,
        ann: AnnotationSetModel,
        warnings: Seq<WarningModel>,
    ) -> (LibraryModel, Seq<WarningModel>) {
        let r1 = give_annotations(self.enums, 0, target, ann, Seq::empty(), false, warnings);
        let l1 = LibraryModel { enums: r1.0, ..self };
        if r1.1 {
            (l1, r1.2)
        } else {
            let r2 = give_annotations(l1.structs, 0, target, ann, Seq::empty(), false, r1.2);
            let l2 = LibraryModel { structs: r2.0, ..l1 };
            if r2.1 {
                (l2, r2.2)
            } else {
                let r3 = give_annotations(l2.unions, 0, target, ann, Seq::empty(), false, r2.2);
                let l3 = LibraryModel { unions: r3.0, ..l2 };
                if r3.1 {
                    (l3, r3.2)
                } else {
                    let r4 = give_annotations(
                        l3.opaque_items,
                        0,
                        target,
                        ann,
                        Seq::empty(),
                        false,
                        r3.2,
                    );
                    let l4 = LibraryModel { opaque_items: r4.0, ..l3 };
                    if r4.1 {
                        (l4, r4.2)
                    } else {
                        let r5 = give_annotations(
                            l4.typedefs,
                            0,
                            target,
                            ann,
                            Seq::empty(),
                            false,
                            r4.2,
                        );
                        (LibraryModel { typedefs: r5.0, ..l4 }, r5.2)
                    }
                }
            }
        }
    }

    /// The library after each of `transfers[from..]` is given to its item,
    /// and the warnings after `warnings`.
    pub open spec fn give_all(self, transfers: Transfers, from: int, warnings: Seq<WarningModel>)
        -> (LibraryModel, Seq<WarningModel>)
        decreases transfers.len() - from,
    {
        if from < 0 || from >= transfers.len() {
            (self, warnings)
        } else {
            let next = self.give(transfers[from].0, transfers[from].1, warnings);
            next.0.give_all(transfers, from + 1, next.1)
        }
    }

    /// The library after the annotations of the aliases are handed to the
    /// items that the aliases stand for, and the warnings that this gives.
    pub open spec fn transfer_annotations(self) -> (LibraryModel, Seq<WarningModel>) {
        let taken = collect_transfers(
            self.typedefs,
            0,
            Seq::empty(),
            Seq::empty(),
            Seq::empty(),
        );
        LibraryModel { typedefs: taken.0, ..self }.give_all(taken.1, 0, taken.2)
    }

    /// The key by which the functions are ordered.
    pub open spec fn function_key(self) -> SortKey {
        match self.config.function_sort_by {
            Some(key) => key,
            None => self.config.sort_by,
        }
    }

    /// The key by which the constants and the globals are ordered.
    pub open spec fn constant_key(self) -> SortKey {
        match self.config.constant_sort_by {
            Some(key) => key,
            None => self.config.sort_by,
        }
    }

    /// The library with its functions in the configured order.
    pub open spec fn sort_functions(self) -> LibraryModel {
        if self.function_key() == SortKey::Name {
            LibraryModel { functions: sorted_by_name::<Function>(self.functions), ..self }
        } else {
            self
        }
    }

    /// The library without the items and functions that are called by a name
    /// of the list of names to leave out.
    pub open spec fn remove_excluded(self) -> LibraryModel {
        let exclude = self.config.export.exclude;
        LibraryModel {
            functions: self.functions.filter(function_allowed(exclude)),
            enums: self.enums.filter(item_allowed(exclude)),
            structs: self.structs.filter(item_allowed(exclude)),
            unions: self.unions.filter(item_allowed(exclude)),
            opaque_items: self.opaque_items.filter(item_allowed(exclude)),
            typedefs: self.typedefs.filter(item_allowed(exclude)),
            globals: self.globals.filter(item_allowed(exclude)),
            constants: self.constants.filter(item_allowed(exclude)),
            ..self
        }
    }

    /// The registrations of the items of the library: structs, enums, unions
    /// and typedefs, and the opaque items last, so that an opaque item never
    /// takes the place of an item of the same name that has a layout.
    pub open spec fn declarations(self) -> Declarations {
        let d1 = collect_declarations(Seq::empty(), self.structs, 0);
        let d2 = collect_declarations(d1, self.enums, 0);
        let d3 = collect_declarations(d2, self.unions, 0);
        let d4 = collect_declarations(d3, self.typedefs, 0);
        collect_declarations(d4, self.opaque_items, 0)
    }

    /// The library with the declaration category of each name resolved in
    /// the types of enums, structs, unions, typedefs, globals and functions,
    /// where references are written with their tag.
    pub open spec fn resolve_declaration_types(self) -> LibraryModel {
        if !self.config.style.spec_generate_tag() {
            self
        } else {
            let op = PathOp::Resolve(self.declarations());
            LibraryModel {
                enums: rewrite_items(self.enums, op),
                structs: rewrite_items(self.structs, op),
                unions: rewrite_items(self.unions, op),
                typedefs: rewrite_items(self.typedefs, op),
                globals: rewrite_items(self.globals, op),
                functions: rewrite_functions(self.functions, op),
                ..self
            }
        }
    }

    /// The library with every name as it is exported.
    pub open spec fn rename_items(self) -> LibraryModel {
        LibraryModel {
            globals: rename_items(self.globals, self.config),
            constants: rename_items(self.constants, self.config),
            structs: rename_items(self.structs, self.config),
            unions: rename_items(self.unions, self.config),
            enums: rename_items(self.enums, self.config),
            opaque_items: rename_items(self.opaque_items, self.config),
            typedefs: rename_items(self.typedefs, self.config),
            functions: rename_functions(self.functions, self.config),
            ..self
        }
    }

    /// The instantiations that the library asks for: those of its structs,
    /// unions, enums, typedefs, globals, constants and functions, in this
    /// order.
    pub open spec fn monomorphs(self, depth: nat) -> MonomorphsModel {
        let m1 = add_items(self, self.structs, 0, MonomorphsModel::empty(), depth);
        let m2 = add_items(self, self.unions, 0, m1, depth);
        let m3 = add_items(self, self.enums, 0, m2, depth);
        let m4 = add_items(self, self.typedefs, 0, m3, depth);
        let m5 = add_items(self, self.globals, 0, m4, depth);
        let m6 = add_items(self, self.constants, 0, m5, depth);
        add_functions(self, self.functions, 0, m6, depth)
    }

    /// The library after the concrete items `copies[from..]`, all of the
    /// kind `kind`, are erased and put into their category, one after the
    /// other, and what the cache knows after.
    pub open spec fn insert_copies(
        self,
        cache: ErasureCache,
        copies: Seq<ItemModel>,
        from: int,
        kind: ItemKind,
        depth: nat,
    ) -> (ErasureCache, LibraryModel)
        decreases copies.len() - from,
    {
        if from < 0 || from >= copies.len() {
            (cache, self)
        } else {
            let erased = erase_item(cache, self, copies[from], Seq::empty(), depth);
            self.with_category(kind, inserted(self.category(kind), erased.1)).insert_copies(
                erased.0,
                copies,
                from + 1,
                kind,
                depth,
            )
        }
    }

    /// The library after the concrete items of `mono` are put into it:
    /// structs, unions, opaque items, typedefs and enums, in this order.
    pub open spec fn insert_monomorphs(self, cache: ErasureCache, mono: MonomorphsModel, depth: nat)
        -> (ErasureCache, LibraryModel) {
        let r1 = self.insert_copies(
            cache,
            mono.of_kind(ItemKind::Struct),
            0,
            ItemKind::Struct,
            depth,
        );
        let r2 = r1.1.insert_copies(
            r1.0,
            mono.of_kind(ItemKind::Union),
            0,
            ItemKind::Union,
            depth,
        );
        let r3 = r2.1.insert_copies(
            r2.0,
            mono.of_kind(ItemKind::OpaqueItem),
            0,
            ItemKind::OpaqueItem,
            depth,
        );
        let r4 = r3.1.insert_copies(
            r3.0,
            mono.of_kind(ItemKind::Typedef),
            0,
            ItemKind::Typedef,
            depth,
        );
        r4.1.insert_copies(r4.0, mono.of_kind(ItemKind::Enum), 0, ItemKind::Enum, depth)
    }

    /// The library without the generic items among its opaque items,
    /// structs, unions, enums and typedefs.
    pub open spec fn remove_generic(self) -> LibraryModel {
        LibraryModel {
            opaque_items: self.opaque_items.filter(concrete()),
            structs: self.structs.filter(concrete()),
            unions: self.unions.filter(concrete()),
            enums: self.enums.filter(concrete()),
            typedefs: self.typedefs.filter(concrete()),
            ..self
        }
    }

    /// The library with each path with arguments replaced by the concrete
    /// item that `mono` holds for it, in the types of unions, structs, enums,
    /// typedefs, globals, constants and functions.
    pub open spec fn mangle_paths(self, mono: MonomorphsModel) -> LibraryModel {
        let op = PathOp::Mangle(mono);
        LibraryModel {
            unions: rewrite_items(self.unions, op),
            structs: rewrite_items(self.structs, op),
            enums: rewrite_items(self.enums, op),
            typedefs: rewrite_items(self.typedefs, op),
            globals: rewrite_items(self.globals, op),
            constants: rewrite_items(self.constants, op),
            functions: rewrite_functions(self.functions, op),
            ..self
        }
    }

    /// The library with a concrete item in place of every use of a generic
    /// item with arguments, and what the cache knows after. Generic items
    /// are gone from the result.
    pub open spec fn instantiate_monomorphs(
        self,
        cache: ErasureCache,
        erase_depth: nat,
        depth: nat,
    ) -> (ErasureCache, LibraryModel) {
        let mono = self.monomorphs(depth);
        let r = self.insert_monomorphs(cache, mono, erase_depth);
        (r.0, r.1.remove_generic().mangle_paths(mono))
    }
}

fn has_transfer_exec(transfers: &Vec<(Path, AnnotationSet)>, target: &Path) -> (b: bool)
    ensures
        b == has_transfer(transfers_model(transfers@), target@, 0),
{
    let mut i: usize = 0;
    while i < transfers.len()
        invariant
            i <= transfers.len(),
            has_transfer(transfers_model(transfers@), target@, 0) == has_transfer(
                transfers_model(transfers@),
                target@,
                i as int,
            ),
        decreases transfers.len() - i,
    {
        if transfers[i].0.equals(target) {
            return true;
        }
        i += 1;
    }
    false
}

pub open spec fn transfers_model(v: Seq<(Path, AnnotationSet)>) -> Transfers {
    Seq::new(v.len(), |i: int| (v[i].0@, v[i].1@))
}

fn transfer_target_exec(t: &ItemContainer) -> (res: Option<Path>)
    ensures
        crate::model::view_of(res) == transfer_target(t@),
{
    if t.annotations.is_empty() || t.fields.len() == 0 {
        None
    } else {
        t.fields[0].ty.get_root_path()
    }
}

fn collect_transfers_exec(typedefs: &mut ItemMap, warnings: &mut Vec<Warning>) -> (res: Vec<
    (Path, AnnotationSet),
>)
    ensures
        (final(typedefs)@, transfers_model(res@), views(final(warnings)@)) == collect_transfers(
            old(typedefs)@,
            0,
            Seq::empty(),
            Seq::empty(),
            views(old(warnings)@),
        ),
{
    let ghost all = typedefs@;
    let ghost goal = collect_transfers(all, 0, Seq::empty(), Seq::empty(), views(warnings@));
    let mut out: Vec<ItemContainer> = Vec::new();
    let mut acc: Vec<(Path, AnnotationSet)> = Vec::new();
    let mut i: usize = 0;
    assert(views(out@) =~= Seq::empty());
    assert(transfers_model(acc@) =~= Seq::empty());
    while i < typedefs.items.len()
        invariant
            i <= typedefs.items.len(),
            typedefs@ == all,
            goal == collect_transfers(
                all,
                i as int,
                views(out@),
                transfers_model(acc@),
                views(warnings@),
            ),
        decreases typedefs.items.len() - i,
    {
        let ghost out0 = views(out@);
        let ghost acc0 = transfers_model(acc@);
        let ghost w0 = views(warnings@);
        let t = &typedefs.items[i];
        assert(t@ == all[i as int]);
        match transfer_target_exec(t) {
            None => {
                out.push(t.clone());
                assert(views(out@) =~= out0.push(t@));
            },
            Some(target) => {
                if has_transfer_exec(&acc, &target) {
                    warnings.push(
                        Warning::DuplicateAnnotatedAlias {
                            target: target.clone(),
                            alias: t.path.clone(),
                        },
                    );
                    out.push(t.clone());
                    assert(views(out@) =~= out0.push(t@));
                    assert(views(warnings@) =~= w0.push(
                        WarningModel::DuplicateAnnotatedAlias { target: target@, alias: t@.path },
                    ));
                } else {
                    let mut stripped = t.clone();
                    stripped.annotations = AnnotationSet::new();
                    acc.push((target, t.annotations.clone()));
                    out.push(stripped);
                    assert(views(out@) =~= out0.push(
                        ItemModel { annotations: AnnotationSetModel::empty(), ..t@ },
                    ));
                    assert(transfers_model(acc@) =~= acc0.push((target@, t@.annotations)));
                }
            },
        }
        i += 1;
    }
    typedefs.items = out;
    acc
}

fn give_annotations_exec(
    items: &mut ItemMap,
    target: &Path,
    ann: &AnnotationSet,
    warnings: &mut Vec<Warning>,
) -> (given: bool)
    ensures
        (final(items)@, given, views(final(warnings)@)) == give_annotations(
            old(items)@,
            0,
            target@,
            ann@,
            Seq::empty(),
            false,
            views(old(warnings)@),
        ),
{
    let ghost all = items@;
    let ghost goal = give_annotations(
        all,
        0,
        target@,
        ann@,
        Seq::empty(),
        false,
        views(warnings@),
    );
    let mut out: Vec<ItemContainer> = Vec::new();
    let mut given = false;
    let mut i: usize = 0;
    assert(views(out@) =~= Seq::empty());
    while i < items.items.len()
        invariant
            i <= items.items.len(),
            items@ == all,
            goal == give_annotations(
                all,
                i as int,
                target@,
                ann@,
                views(out@),
                given,
                views(warnings@),
            ),
        decreases items.items.len() - i,
    {
        let ghost out0 = views(out@);
        let ghost w0 = views(warnings@);
        let x = &items.items[i];
        assert(x@ == all[i as int]);
        if !x.path.equals(target) {
            out.push(x.clone());
            assert(views(out@) =~= out0.push(x@));
        } else if x.annotations.is_empty() {
            let mut changed = x.clone();
            changed.annotations = ann.clone();
            out.push(changed);
            given = true;
            assert(views(out@) =~= out0.push(ItemModel { annotations: ann@, ..x@ }));
        } else {
            warnings.push(Warning::AnnotationConflict { target: target.clone() });
            out.push(x.clone());
            assert(views(out@) =~= out0.push(x@));
            assert(views(warnings@) =~= w0.push(
                WarningModel::AnnotationConflict { target: target@ },
            ));
        }
        i += 1;
    }
    items.items = out;
    given
}

fn retain_allowed(items: &mut ItemMap, exclude: &Vec<String>)
    ensures
        final(items)@ == old(items)@.filter(item_allowed(views(exclude@))),
{
    let ghost pred = item_allowed(views(exclude@));
    let mut out: Vec<ItemContainer> = Vec::new();
    let mut i: usize = 0;
    assert(items@.take(0).filter(pred) =~= Seq::empty()) by {
        reveal(Seq::filter);
    }
    assert(views(out@) =~= Seq::empty());
    while i < items.items.len()
        invariant
            i <= items.items.len(),
            *items == *old(items),
            pred == item_allowed(views(exclude@)),
            views(out@) == items@.take(i as int).filter(pred),
        decreases items.items.len() - i,
    {
        proof {
            lemma_filter_step(items@, pred, i as int);
        }
        if !crate::model::list_contains(exclude, items.items[i].path.name()) {
            out.push(items.items[i].clone());
            assert(views(out@) =~= items@.take(i as int).filter(pred).push(items@[i as int]));
        }
        i += 1;
    }
    assert(items@.take(items.items.len() as int) =~= items@);
    items.items = out;
}

fn retain_allowed_functions(fs: &mut Vec<Function>, exclude: &Vec<String>)
    ensures
        views(final(fs)@) == views(old(fs)@).filter(function_allowed(views(exclude@))),
{
    let ghost pred = function_allowed(views(exclude@));
    let ghost all = views(fs@);
    let mut out: Vec<Function> = Vec::new();
    let mut i: usize = 0;
    assert(all.take(0).filter(pred) =~= Seq::empty()) by {
        reveal(Seq::filter);
    }
    assert(views(out@) =~= Seq::empty());
    while i < fs.len()
        invariant
            i <= fs.len(),
            *fs == *old(fs),
            all == views(fs@),
            pred == function_allowed(views(exclude@)),
            views(out@) == all.take(i as int).filter(pred),
        decreases fs.len() - i,
    {
        proof {
            lemma_filter_step(all, pred, i as int);
        }
        if !crate::model::list_contains(exclude, fs[i].path.name()) {
            out.push(fs[i].clone());
            assert(views(out@) =~= all.take(i as int).filter(pred).push(all[i as int]));
        }
        i += 1;
    }
    assert(all.take(fs.len() as int) =~= all);
    *fs = out;
}

fn retain_concrete(items: &mut ItemMap)
    ensures
        final(items)@ == old(items)@.filter(concrete()),
{
    let ghost pred = concrete();
    let mut out: Vec<ItemContainer> = Vec::new();
    let mut i: usize = 0;
    assert(items@.take(0).filter(pred) =~= Seq::empty()) by {
        reveal(Seq::filter);
    }
    assert(views(out@) =~= Seq::empty());
    while i < items.items.len()
        invariant
            i <= items.items.len(),
            *items == *old(items),
            pred == concrete(),
            views(out@) == items@.take(i as int).filter(pred),
        decreases items.items.len() - i,
    {
        proof {
            lemma_filter_step(items@, pred, i as int);
        }
        if !items.items[i].is_generic() {
            out.push(items.items[i].clone());
            assert(views(out@) =~= items@.take(i as int).filter(pred).push(items@[i as int]));
        }
        i += 1;
    }
    assert(items@.take(items.items.len() as int) =~= items@);
    items.items = out;
}

impl Library {
    /// Hands the annotations of the aliases to the items that the aliases
    /// stand for. An item that has annotations of its own keeps them.
    /// Returns the warnings.
    pub fn transfer_annotations(&mut self) -> (warnings: Vec<Warning>)
        ensures
            (final(self)@, views(warnings@)) == old(self)@.transfer_annotations(),
    {
        let mut warnings: Vec<Warning> = Vec::new();
        assert(views(warnings@) =~= Seq::empty());
        let annotations = collect_transfers_exec(&mut self.typedefs, &mut warnings);
        let ghost transfers = transfers_model(annotations@);
        let ghost start = self@;
        let ghost w0 = views(warnings@);
        let mut i: usize = 0;
        while i < annotations.len()
            invariant
                i <= annotations.len(),
                transfers == transfers_model(annotations@),
                start.give_all(transfers, 0, w0) == self@.give_all(
                    transfers,
                    i as int,
                    views(warnings@),
                ),
            decreases annotations.len() - i,
        {
            let alias_path = &annotations[i].0;
            let ann = &annotations[i].1;
            let mut transferred = give_annotations_exec(
                &mut self.enums,
                alias_path,
                ann,
                &mut warnings,
            );
            if !transferred {
                transferred = give_annotations_exec(
                    &mut self.structs,
                    alias_path,
                    ann,
                    &mut warnings,
                );
            }
            if !transferred {
                transferred = give_annotations_exec(
                    &mut self.unions,
                    alias_path,
                    ann,
                    &mut warnings,
                );
            }
            if !transferred {
                transferred = give_annotations_exec(
                    &mut self.opaque_items,
                    alias_path,
                    ann,
                    &mut warnings,
                );
            }
            if !transferred {
                let _ = give_annotations_exec(&mut self.typedefs, alias_path, ann, &mut warnings);
            }
            i += 1;
        }
        warnings
    }

    /// Puts the functions in the configured order.
    pub fn sort_functions(&mut self)
        ensures
            final(self)@ == old(self)@.sort_functions(),
    {
        let key = match self.config.function.sort_by {
            Some(key) => key,
            None => self.config.sort_by,
        };
        match key {
            SortKey::Name => {
                let mut functions: Vec<Function> = Vec::new();
                std::mem::swap(&mut self.functions, &mut functions);
                self.functions = sort_by_name(functions);
            },
            SortKey::Unsorted => {
                // keep input order
            },
        }
    }

    /// Removes the items and functions that are called by a name of the list
    /// of names to leave out.
    pub fn remove_excluded(&mut self)
        ensures
            final(self)@ == old(self)@.remove_excluded(),
    {
        let exclude = crate::model::clone_strings(&self.config.export.exclude);
        retain_allowed_functions(&mut self.functions, &exclude);
        retain_allowed(&mut self.enums, &exclude);
        retain_allowed(&mut self.structs, &exclude);
        retain_allowed(&mut self.unions, &exclude);
        retain_allowed(&mut self.opaque_items, &exclude);
        retain_allowed(&mut self.typedefs, &exclude);
        retain_allowed(&mut self.globals, &exclude);
        retain_allowed(&mut self.constants, &exclude);
    }
}

/// Putting concrete items into the library leaves its functions and its
/// configuration as they are.
pub proof fn lemma_insert_copies_keeps_rest(
    lib: LibraryModel,
    cache: ErasureCache,
    copies: Seq<ItemModel>,
    from: int,
    kind: ItemKind,
    depth: nat,
)
    requires
        0 <= from,
    ensures
        lib.insert_copies(cache, copies, from, kind, depth).1.functions == lib.functions,
        lib.insert_copies(cache, copies, from, kind, depth).1.config == lib.config,
    decreases copies.len() - from,
{
    if from < copies.len() {
        let erased = erase_item(cache, lib, copies[from], Seq::empty(), depth);
        lemma_insert_copies_keeps_rest(
            lib.with_category(kind, inserted(lib.category(kind), erased.1)),
            erased.0,
            copies,
            from + 1,
            kind,
            depth,
        );
    }
}

/// Binding the parameters of an item to themselves is always possible.
pub proof fn lemma_identity_binds(params: Seq<crate::generic_path::GenericParamModel>)
    ensures
        crate::generic_path::can_bind(
            params,
            crate::generic_path::effective_args(params, Seq::empty()),
        ),
{
}

fn rewrite_items_exec(items: &mut ItemMap, op: &crate::rewrite::PathRewrite)
    ensures
        final(items)@ == rewrite_items(old(items)@, op@),
{
    let mut out: Vec<ItemContainer> = Vec::new();
    let mut i: usize = 0;
    while i < items.items.len()
        invariant
            i <= items.items.len(),
            *items == *old(items),
            out.len() == i,
            forall|j: int| 0 <= j < i ==> out[j]@ == rewrite_item(items@[j], op@),
        decreases items.items.len() - i,
    {
        let mut x = items.items[i].clone();
        match op {
            crate::rewrite::PathRewrite::Resolve(resolver) => x.resolve_declaration_types(resolver),
            crate::rewrite::PathRewrite::Mangle(monomorphs) => x.mangle_paths(monomorphs),
            crate::rewrite::PathRewrite::ReplaceSelf(by) => x.replace_self_with(by),
        }
        out.push(x);
        i += 1;
    }
    assert(views(out@) =~= rewrite_items(old(items)@, op@));
    items.items = out;
}

fn rewrite_functions_exec(fs: &mut Vec<Function>, op: &crate::rewrite::PathRewrite)
    ensures
        views(final(fs)@) == rewrite_functions(views(old(fs)@), op@),
{
    let mut out: Vec<Function> = Vec::new();
    let mut i: usize = 0;
    while i < fs.len()
        invariant
            i <= fs.len(),
            *fs == *old(fs),
            out.len() == i,
            forall|j: int| 0 <= j < i ==> out[j]@ == rewrite_function(fs[j]@, op@),
        decreases fs.len() - i,
    {
        let mut f = fs[i].clone();
        assert(f@ == views(fs@)[i as int]);
        match op {
            crate::rewrite::PathRewrite::Resolve(resolver) => f.resolve_declaration_types(resolver),
            crate::rewrite::PathRewrite::Mangle(monomorphs) => f.mangle_paths(monomorphs),
            crate::rewrite::PathRewrite::ReplaceSelf(by) => f.replace_self_with(by),
        }
        out.push(f);
        i += 1;
    }
    assert(views(out@) =~= rewrite_functions(views(old(fs)@), op@));
    *fs = out;
}

fn rename_items_exec(items: &mut ItemMap, config: &Config)
    ensures
        final(items)@ == rename_items(old(items)@, config@),
{
    let mut out: Vec<ItemContainer> = Vec::new();
    let mut i: usize = 0;
    while i < items.items.len()
        invariant
            i <= items.items.len(),
            *items == *old(items),
            out.len() == i,
            forall|j: int| 0 <= j < i ==> out[j]@ == rename_item(items@[j], config@.export),
        decreases items.items.len() - i,
    {
        let mut x = items.items[i].clone();
        x.rename_for_config(config);
        out.push(x);
        i += 1;
    }
    assert(views(out@) =~= rename_items(old(items)@, config@));
    items.items = out;
}

fn collect_declarations_exec(resolver: &mut DeclarationTypeResolver, items: &ItemMap)
    ensures
        final(resolver)@ == collect_declarations(old(resolver)@, items@, 0),
{
    let mut i: usize = 0;
    while i < items.items.len()
        invariant
            i <= items.items.len(),
            collect_declarations(old(resolver)@, items@, 0) == collect_declarations(
                resolver@,
                items@,
                i as int,
            ),
        decreases items.items.len() - i,
    {
        items.items[i].collect_declaration_types(resolver);
        i += 1;
    }
}

fn add_items_exec(lib: &Library, items: &ItemMap, out: &mut Monomorphs)
    ensures
        final(out)@ == add_items(lib@, items@, 0, old(out)@, old(out).depth_limit()),
        final(out).depth_limit() == old(out).depth_limit(),
{
    let mut i: usize = 0;
    while i < items.items.len()
        invariant
            i <= items.items.len(),
            out.depth_limit() == old(out).depth_limit(),
            add_items(lib@, items@, 0, old(out)@, old(out).depth_limit()) == add_items(
                lib@,
                items@,
                i as int,
                out@,
                old(out).depth_limit(),
            ),
        decreases items.items.len() - i,
    {
        items.items[i].add_monomorphs(lib, out);
        i += 1;
    }
}

fn add_functions_exec(lib: &Library, fs: &Vec<Function>, out: &mut Monomorphs)
    ensures
        final(out)@ == add_functions(lib@, views(fs@), 0, old(out)@, old(out).depth_limit()),
        final(out).depth_limit() == old(out).depth_limit(),
{
    let mut i: usize = 0;
    while i < fs.len()
        invariant
            i <= fs.len(),
            out.depth_limit() == old(out).depth_limit(),
            add_functions(lib@, views(fs@), 0, old(out)@, old(out).depth_limit()) == add_functions(
                lib@,
                views(fs@),
                i as int,
                out@,
                old(out).depth_limit(),
            ),
        decreases fs.len() - i,
    {
        assert(fs[i as int]@ == views(fs@)[i as int]);
        fs[i].add_monomorphs(lib, out);
        i += 1;
    }
}

impl ItemContainer {
    /// Replaces the placeholder `Self` in the types of the fields by
    /// `self_ty`.
    pub fn replace_self_with(&mut self, self_ty: &Path)
        ensures
            final(self)@ == rewrite_item(old(self)@, PathOp::ReplaceSelf(self_ty@)),
    {
        let types = self.types();
        let changed = crate::rewrite::rewrite_type_list(
            &types,
            &crate::rewrite::PathRewrite::ReplaceSelf(self_ty),
        );
        proof {
            crate::ty::lemma_types_model_is_views(types@);
            crate::ty::lemma_types_model_is_views(changed@);
        }
        self.set_types(changed);
    }
}

impl Library {
    /// Resolves the declaration category of each name in the types of the
    /// library, where references are written with their tag.
    pub fn resolve_declaration_types(&mut self)
        ensures
            final(self)@ == old(self)@.resolve_declaration_types(),
    {
        if !self.config.style.generate_tag() {
            return ;
        }
        let mut resolver = DeclarationTypeResolver::new();
        collect_declarations_exec(&mut resolver, &self.structs);
        collect_declarations_exec(&mut resolver, &self.enums);
        collect_declarations_exec(&mut resolver, &self.unions);
        collect_declarations_exec(&mut resolver, &self.typedefs);
        // Intentionally last, so that in case there's an opaque type which
        // conflicts with a non-opaque one, the non-opaque one wins.
        collect_declarations_exec(&mut resolver, &self.opaque_items);

        let op = crate::rewrite::PathRewrite::Resolve(&resolver);
        rewrite_items_exec(&mut self.enums, &op);
        rewrite_items_exec(&mut self.structs, &op);
        rewrite_items_exec(&mut self.unions, &op);
        rewrite_items_exec(&mut self.typedefs, &op);
        rewrite_items_exec(&mut self.globals, &op);
        rewrite_functions_exec(&mut self.functions, &op);
    }

    /// Replaces every name by the name it is exported under. Returns the
    /// warnings that renaming the functions gives.
    pub fn rename_items(&mut self) -> (warnings: Vec<Warning>)
        ensures
            final(self)@ == old(self)@.rename_items(),
            views(warnings@) == rename_functions_warnings(old(self)@.functions, 0, Seq::empty()),
    {
        let config = self.config.clone();
        rename_items_exec(&mut self.globals, &config);
        rename_items_exec(&mut self.constants, &config);
        rename_items_exec(&mut self.structs, &config);
        rename_items_exec(&mut self.unions, &config);
        rename_items_exec(&mut self.enums, &config);
        rename_items_exec(&mut self.opaque_items, &config);
        rename_items_exec(&mut self.typedefs, &config);

        let ghost fs = views(self.functions@);
        let mut warnings: Vec<Warning> = Vec::new();
        assert(views(warnings@) =~= Seq::empty());
        let mut out: Vec<Function> = Vec::new();
        let mut i: usize = 0;
        while i < self.functions.len()
            invariant
                i <= self.functions.len(),
                fs == views(self.functions@),
                out.len() == i,
                forall|j: int| 0 <= j < i ==> out[j]@ == rename_function(fs[j], config@),
                rename_functions_warnings(fs, 0, Seq::empty()) == rename_functions_warnings(
                    fs,
                    i as int,
                    views(warnings@),
                ),
            decreases self.functions.len() - i,
        {
            let ghost w0 = views(warnings@);
            let mut f = self.functions[i].clone();
            let mut more = f.rename_for_config(&config);
            let ghost added = views(more@);
            warnings.append(&mut more);
            assert(views(warnings@) =~= w0 + added);
            out.push(f);
            i += 1;
        }
        assert(views(out@) =~= rename_functions(fs, config@));
        self.functions = out;
        warnings
    }

    fn insert_into(&mut self, kind: ItemKind, item: ItemContainer)
        ensures
            final(self)@ == old(self)@.with_category(
                kind,
                inserted(old(self)@.category(kind), item@),
            ),
    {
        match kind {
            ItemKind::Constant => {
                let _ = self.constants.try_insert(item);
            },
            ItemKind::Static => {
                let _ = self.globals.try_insert(item);
            },
            ItemKind::Enum => {
                let _ = self.enums.try_insert(item);
            },
            ItemKind::Struct => {
                let _ = self.structs.try_insert(item);
            },
            ItemKind::Union => {
                let _ = self.unions.try_insert(item);
            },
            ItemKind::OpaqueItem => {
                let _ = self.opaque_items.try_insert(item);
            },
            ItemKind::Typedef => {
                let _ = self.typedefs.try_insert(item);
            },
        }
    }

    fn insert_copies(&mut self, erased: &mut KnownErasedTypes, copies: Vec<ItemContainer>, kind:
        ItemKind)
        ensures
            (final(erased)@, final(self)@) == old(self)@.insert_copies(
                old(erased)@,
                views(copies@),
                0,
                kind,
                old(erased).depth_limit(),
            ),
            final(erased).depth_limit() == old(erased).depth_limit(),
    {
        let ghost all = views(copies@);
        let ghost depth = erased.depth_limit();
        let mut i: usize = 0;
        while i < copies.len()
            invariant
                i <= copies.len(),
                all == views(copies@),
                erased.depth_limit() == depth,
                old(self)@.insert_copies(old(erased)@, all, 0, kind, depth) == self@.insert_copies(
                    erased@,
                    all,
                    i as int,
                    kind,
                    depth,
                ),
            decreases copies.len() - i,
        {
            let mut monomorph = copies[i].clone();
            assert(monomorph@ == all[i as int]);
            let none: Vec<crate::ty::GenericArgument> = Vec::new();
            assert(crate::ty::args_model(none@) =~= Seq::empty());
            proof {
                lemma_identity_binds(monomorph@.generic_params);
            }
            monomorph.erase_types_inplace(self, erased, none.as_slice());
            self.insert_into(kind, monomorph);
            i += 1;
        }
    }

    /// Puts a concrete item in place of every use of a generic item with
    /// arguments, and removes the generic items. Returns a warning for each
    /// use that could not be instantiated, and one where the bound was
    /// reached.
    pub fn instantiate_monomorphs(&mut self, erased: &mut KnownErasedTypes) -> (warnings: Vec<
        Warning,
    >)
        ensures
            views(warnings@) == instantiation_warnings(
                old(self)@.monomorphs(crate::monomorph::DEFAULT_MONOMORPH_DEPTH as nat),
                Seq::empty(),
            ),
            (final(erased)@, final(self)@) == old(self)@.instantiate_monomorphs(
                old(erased)@,
                old(erased).depth_limit(),
                crate::monomorph::DEFAULT_MONOMORPH_DEPTH as nat,
            ),
            final(erased).depth_limit() == old(erased).depth_limit(),
    {
        // Collect a list of monomorphs
        let mut monomorphs = Monomorphs::default();
        add_items_exec(self, &self.structs, &mut monomorphs);
        add_items_exec(self, &self.unions, &mut monomorphs);
        add_items_exec(self, &self.enums, &mut monomorphs);
        add_items_exec(self, &self.typedefs, &mut monomorphs);
        add_items_exec(self, &self.globals, &mut monomorphs);
        add_items_exec(self, &self.constants, &mut monomorphs);
        add_functions_exec(self, &self.functions, &mut monomorphs);

        // Insert the monomorphs into self
        self.insert_copies(erased, monomorphs.of_kind(ItemKind::Struct), ItemKind::Struct);
        self.insert_copies(erased, monomorphs.of_kind(ItemKind::Union), ItemKind::Union);
        self.insert_copies(
            erased,
            monomorphs.of_kind(ItemKind::OpaqueItem),
            ItemKind::OpaqueItem,
        );
        self.insert_copies(erased, monomorphs.of_kind(ItemKind::Typedef), ItemKind::Typedef);
        self.insert_copies(erased, monomorphs.of_kind(ItemKind::Enum), ItemKind::Enum);

        // Remove structs and opaque items that are generic
        retain_concrete(&mut self.opaque_items);
        retain_concrete(&mut self.structs);
        retain_concrete(&mut self.unions);
        retain_concrete(&mut self.enums);
        retain_concrete(&mut self.typedefs);

        // Mangle the paths that remain
        let op = crate::rewrite::PathRewrite::Mangle(&monomorphs);
        rewrite_items_exec(&mut self.unions, &op);
        rewrite_items_exec(&mut self.structs, &op);
        rewrite_items_exec(&mut self.enums, &op);
        rewrite_items_exec(&mut self.typedefs, &op);
        rewrite_items_exec(&mut self.globals, &op);
        rewrite_items_exec(&mut self.constants, &op);
        rewrite_functions_exec(&mut self.functions, &op);

        let mut warnings: Vec<Warning> = Vec::new();
        assert(views(warnings@) =~= Seq::empty());
        let refused = monomorphs.refused();
        let mut i: usize = 0;
        while i < refused.len()
            invariant
                i <= refused.len(),
                views(refused@) == monomorphs@.refused,
                refusals(monomorphs@.refused, 0, Seq::empty()) == refusals(
                    monomorphs@.refused,
                    i as int,
                    views(warnings@),
                ),
            decreases refused.len() - i,
        {
            let ghost before = views(warnings@);
            warnings.push(Warning::CannotInstantiate { item: refused[i].clone() });
            assert(views(warnings@) =~= before.push(
                WarningModel::CannotInstantiate { item: monomorphs@.refused[i as int] },
            ));
            i += 1;
        }
        push_bound_warning(monomorphs.was_cut(), Stage::Instantiation, &mut warnings);
        warnings
    }
}

/// The warnings after `warnings` for the uses `refused[from..]` that were
/// refused.
pub open spec fn refusals(refused: Seq<Seq<char>>, from: int, warnings: Seq<WarningModel>) -> Seq<
    WarningModel,
>
    decreases refused.len() - from,
{
    if from < 0 || from >= refused.len() {
        warnings
    } else {
        refusals(
            refused,
            from + 1,
            warnings.push(WarningModel::CannotInstantiate { item: refused[from] }),
        )
    }
}

/// The warnings after `warnings` that the stage `stage` gives where `cut`
/// says that it reached its bound.
pub open spec fn bound_warning(cut: bool, stage: Stage, warnings: Seq<WarningModel>) -> Seq<
    WarningModel,
> {
    if cut {
        warnings.push(WarningModel::DepthReached { stage })
    } else {
        warnings
    }
}

/// The warnings after `warnings` that the registry `mono` gives: one for
/// each use that was refused, and one where the bound was reached.
pub open spec fn instantiation_warnings(mono: MonomorphsModel, warnings: Seq<WarningModel>) -> Seq<
    WarningModel,
> {
    bound_warning(mono.cut, Stage::Instantiation, refusals(mono.refused, 0, warnings))
}

/// The warnings for refused uses come after the warnings given before.
pub proof fn lemma_refusals_after(
    refused: Seq<Seq<char>>,
    from: int,
    acc: Seq<WarningModel>,
    before: Seq<WarningModel>,
)
    requires
        0 <= from,
    ensures
        refusals(refused, from, before + acc) == before + refusals(refused, from, acc),
    decreases refused.len() - from,
{
    if from < refused.len() {
        let w = WarningModel::CannotInstantiate { item: refused[from] };
        assert((before + acc).push(w) =~= before + acc.push(w));
        lemma_refusals_after(refused, from + 1, acc.push(w), before);
    }
}

/// The warnings of a registry come after the warnings given before.
pub proof fn lemma_instantiation_warnings_after(mono: MonomorphsModel, before: Seq<WarningModel>)
    ensures
        instantiation_warnings(mono, before) == before + instantiation_warnings(
            mono,
            Seq::empty(),
        ),
{
    lemma_refusals_after(mono.refused, 0, Seq::empty(), before);
    assert(before + Seq::<WarningModel>::empty() =~= before);
    let inner = refusals(mono.refused, 0, Seq::empty());
    if mono.cut {
        let w = WarningModel::DepthReached { stage: Stage::Instantiation };
        assert((before + inner).push(w) =~= before + inner.push(w));
    }
}

fn push_bound_warning(cut: bool, stage: Stage, warnings: &mut Vec<Warning>)
    ensures
        views(final(warnings)@) == bound_warning(cut, stage, views(old(warnings)@)),
{
    if cut {
        warnings.push(Warning::DepthReached { stage });
        assert(views(warnings@) =~= views(old(warnings)@).push(
            WarningModel::DepthReached { stage },
        ));
    }
}

/// The dependencies after the signatures of the functions `fs[from..]` are
/// visited.
pub open spec fn visit_functions(
    lib: LibraryModel,
    fs: Seq<FunctionModel>,
    from: int,
    deps: DependenciesModel,
    depth: nat,
) -> DependenciesModel
    decreases fs.len() - from,
{
    if from < 0 || from >= fs.len() {
        deps
    } else {
        visit_functions(lib, fs, from + 1, visit_function(lib, fs[from], deps, depth), depth)
    }
}

/// The dependencies after the roots `names[from..]` are visited: the items
/// that a root names are added to the order after what they depend on,
/// unless the name was taken up before.
pub open spec fn visit_roots(
    lib: LibraryModel,
    names: Seq<Seq<char>>,
    from: int,
    deps: DependenciesModel,
    depth: nat,
) -> DependenciesModel
    decreases names.len() - from,
{
    if from < 0 || from >= names.len() {
        deps
    } else {
        let next = match lib.get_items(names[from]) {
            Some(items) => if deps.seen(names[from]) {
                deps
            } else {
                visit_items(lib, items, 0, deps.mark(names[from]), depth).append(items)
            },
            None => deps,
        };
        visit_roots(lib, names, from + 1, next, depth)
    }
}

impl LibraryModel {
    /// What the library asks to be emitted: what its functions, globals and
    /// constants depend on, and the items named as roots with what they
    /// depend on.
    pub open spec fn dependencies(self, depth: nat) -> DependenciesModel {
        let d1 = visit_functions(self, self.functions, 0, DependenciesModel::empty(), depth);
        let d2 = visit_items(self, self.globals, 0, d1, depth);
        let d3 = visit_items(self, self.constants, 0, d2, depth);
        visit_roots(self, self.config.export.roots, 0, d3, depth)
    }

    /// The constants or globals `items` as they are handed on: none where
    /// the category `ty` is not exported, and else in the configured order.
    pub open spec fn exported(self, ty: ItemType, items: Seq<ItemModel>) -> Seq<ItemModel> {
        if !self.config.export.should_generate(ty) {
            Seq::empty()
        } else if self.constant_key() == SortKey::Name {
            sorted_by_name::<ItemContainer>(items)
        } else {
            items
        }
    }

    /// The library as it stands before the items to emit are chosen: with
    /// its types erased, the annotations of aliases handed on, the functions
    /// ordered, generic items instantiated unless the language has
    /// generics, the excluded items removed, declaration categories resolved
    /// where the language is C, and every name as it is exported. With it,
    /// the warnings that the stages give: those of the aliases, of the
    /// instantiations, of an erasure that reached its bound, and of the
    /// renaming, in this order.
    pub open spec fn prepare(self) -> (LibraryModel, Seq<WarningModel>) {
        let erased = self.erase_types(ErasureCache::empty(), DEFAULT_ERASURE_DEPTH as nat);
        let transferred = erased.1.transfer_annotations();
        let sorted = transferred.0.sort_functions();
        let concrete = if sorted.config.language != Language::Cxx {
            sorted.instantiate_monomorphs(
                erased.0,
                DEFAULT_ERASURE_DEPTH as nat,
                DEFAULT_MONOMORPH_DEPTH as nat,
            ).1
        } else {
            sorted
        };
        let known = if sorted.config.language != Language::Cxx {
            sorted.instantiate_monomorphs(
                erased.0,
                DEFAULT_ERASURE_DEPTH as nat,
                DEFAULT_MONOMORPH_DEPTH as nat,
            ).0
        } else {
            erased.0
        };
        let noted = bound_warning(
            known.cut,
            Stage::Erasure,
            if sorted.config.language != Language::Cxx {
                instantiation_warnings(
                    sorted.monomorphs(DEFAULT_MONOMORPH_DEPTH as nat),
                    transferred.1,
                )
            } else {
                transferred.1
            },
        );
        let allowed = concrete.remove_excluded();
        let resolved = if allowed.config.language == Language::C {
            allowed.resolve_declaration_types()
        } else {
            allowed
        };
        (resolved.rename_items(), rename_functions_warnings(resolved.functions, 0, noted))
    }

    /// What is handed to the writer for the prepared library `self`, with
    /// the warnings `warnings`, and one more where the visit of the
    /// dependencies reached its bound.
    pub open spec fn assemble(self, warnings: Seq<WarningModel>) -> BindingsModel {
        BindingsModel {
            config: self.config,
            struct_map: self.structs,
            typedef_map: self.typedefs,
            constants: self.exported(ItemType::Constants, self.constants),
            globals: self.exported(ItemType::Globals, self.globals),
            items: layered(self.dependencies(DEFAULT_DEPENDENCY_DEPTH as nat).order),
            functions: if self.config.export.should_generate(ItemType::Functions) {
                self.functions
            } else {
                Seq::empty()
            },
            source_files: self.source_files,
            package_version: self.package_version,
            warnings: bound_warning(
                self.dependencies(DEFAULT_DEPENDENCY_DEPTH as nat).cut,
                Stage::Dependencies,
                warnings,
            ),
        }
    }

    /// What is handed to the writer for this library.
    pub open spec fn generate(self) -> BindingsModel {
        let prepared = self.prepare();
        prepared.0.assemble(prepared.1)
    }
}

impl Library {
    /// Brings the library into the form in which the items to emit are
    /// chosen. Returns the warnings.
    #[verifier::rlimit(40)]
    pub fn prepare(&mut self) -> (warnings: Vec<Warning>)
        ensures
            (final(self)@, views(warnings@)) == old(self)@.prepare(),
    {
        let mut erased = KnownErasedTypes::default();
        self.erase_types(&mut erased);
        let mut warnings = self.transfer_annotations();
        let ghost w1 = views(warnings@);

        self.sort_functions();

        if self.config.language != Language::Cxx {
            proof {
                lemma_instantiation_warnings_after(
                    self@.monomorphs(DEFAULT_MONOMORPH_DEPTH as nat),
                    w1,
                );
            }
            let mut more = self.instantiate_monomorphs(&mut erased);
            let ghost added = views(more@);
            warnings.append(&mut more);
            assert(views(warnings@) =~= w1 + added);
        }
        push_bound_warning(erased.was_cut(), Stage::Erasure, &mut warnings);
        let ghost noted = views(warnings@);
        self.remove_excluded();
        if self.config.language == Language::C {
            self.resolve_declaration_types();
        }
        let ghost resolved = self@;
        let mut more = self.rename_items();
        proof {
            lemma_rename_warnings_after(resolved.functions, 0, Seq::empty(), noted);
        }
        let ghost w2 = views(more@);
        warnings.append(&mut more);
        assert(views(warnings@) =~= noted + w2);
        warnings
    }

    fn exported(&self, ty: ItemType, items: &ItemMap) -> (res: Vec<ItemContainer>)
        ensures
            views(res@) == self@.exported(ty, items@),
    {
        if self.config.export.should_generate(ty) {
            let list = items.to_vec();
            let key = match self.config.constant.sort_by {
                Some(key) => key,
                None => self.config.sort_by,
            };
            match key {
                SortKey::Name => sort_by_name(list),
                SortKey::Unsorted => list,
            }
        } else {
            let none: Vec<ItemContainer> = Vec::new();
            assert(views(none@) =~= Seq::empty());
            none
        }
    }

    /// The items to emit for this library, with what they depend on before
    /// them: what the functions, globals and constants depend on, and the
    /// items named as roots.
    pub fn dependencies(&self) -> (res: Dependencies)
        ensures
            res@ == self@.dependencies(DEFAULT_DEPENDENCY_DEPTH as nat),
    {
        let mut dependencies = Dependencies::new();
        let ghost depth = DEFAULT_DEPENDENCY_DEPTH as nat;

        let mut i: usize = 0;
        while i < self.functions.len()
            invariant
                i <= self.functions.len(),
                dependencies.depth_limit() == depth,
                visit_functions(self@, self@.functions, 0, DependenciesModel::empty(), depth)
                    == visit_functions(self@, self@.functions, i as int, dependencies@, depth),
            decreases self.functions.len() - i,
        {
            assert(self@.functions[i as int] == self.functions[i as int]@);
            self.functions[i].add_dependencies(self, &mut dependencies);
            i += 1;
        }
        let ghost d1 = dependencies@;
        let mut i: usize = 0;
        while i < self.globals.items.len()
            invariant
                i <= self.globals.items.len(),
                dependencies.depth_limit() == depth,
                visit_items(self@, self@.globals, 0, d1, depth) == visit_items(
                    self@,
                    self@.globals,
                    i as int,
                    dependencies@,
                    depth,
                ),
            decreases self.globals.items.len() - i,
        {
            assert(self@.globals[i as int] == self.globals.items[i as int]@);
            self.globals.items[i].add_dependencies(self, &mut dependencies);
            i += 1;
        }
        let ghost d2 = dependencies@;
        let mut i: usize = 0;
        while i < self.constants.items.len()
            invariant
                i <= self.constants.items.len(),
                dependencies.depth_limit() == depth,
                visit_items(self@, self@.constants, 0, d2, depth) == visit_items(
                    self@,
                    self@.constants,
                    i as int,
                    dependencies@,
                    depth,
                ),
            decreases self.constants.items.len() - i,
        {
            assert(self@.constants[i as int] == self.constants.items[i as int]@);
            self.constants.items[i].add_dependencies(self, &mut dependencies);
            i += 1;
        }
        let ghost d3 = dependencies@;
        let ghost names = self@.config.export.roots;
        let mut i: usize = 0;
        while i < self.config.export.roots.len()
            invariant
                i <= self.config.export.roots.len(),
                dependencies.depth_limit() == depth,
                names == self@.config.export.roots,
                names.len() == self.config.export.roots.len(),
                visit_roots(self@, names, 0, d3, depth) == visit_roots(
                    self@,
                    names,
                    i as int,
                    dependencies@,
                    depth,
                ),
            decreases self.config.export.roots.len() - i,
        {
            let path = Path::new(self.config.export.roots[i].as_str());
            assert(path@ == names[i as int]);
            if let Some(items) = self.get_items(&path) {
                if !dependencies.seen(&path) {
                    dependencies.mark(path);
                    let mut k: usize = 0;
                    let ghost start = dependencies@;
                    while k < items.len()
                        invariant
                            k <= items.len(),
                            dependencies.depth_limit() == depth,
                            visit_items(self@, views(items@), 0, start, depth) == visit_items(
                                self@,
                                views(items@),
                                k as int,
                                dependencies@,
                                depth,
                            ),
                        decreases items.len() - k,
                    {
                        items[k].add_dependencies(self, &mut dependencies);
                        k += 1;
                    }
                    dependencies.append(items);
                }
            }
            i += 1;
        }
        dependencies
    }

    /// Hands the prepared library to the writer.
    pub fn assemble(self, warnings: Vec<Warning>) -> (res: Bindings)
        ensures
            res@ == self@.assemble(views(warnings@)),
    {
        let mut dependencies = self.dependencies();
        let mut warnings = warnings;
        push_bound_warning(dependencies.was_cut(), Stage::Dependencies, &mut warnings);
        dependencies.sort();

        let items = dependencies.into_order();
        let constants = self.exported(ItemType::Constants, &self.constants);
        let globals = self.exported(ItemType::Globals, &self.globals);
        let functions = if self.config.export.should_generate(ItemType::Functions) {
            self.functions
        } else {
            let none: Vec<Function> = Vec::new();
            assert(views(none@) =~= Seq::empty());
            none
        };
        Bindings {
            config: self.config,
            struct_map: self.structs,
            typedef_map: self.typedefs,
            constants,
            globals,
            items,
            functions,
            source_files: self.source_files,
            package_version: self.package_version,
            warnings,
        }
    }

    /// Turns the library into what the writer of a header needs: the items
    /// to emit, in the order of emission, and beside them the constants,
    /// globals and functions.
    ///
    /// A library is refused where a category holds an item of another kind,
    /// or an opaque item or an enum without a tag holds a field: such a
    /// library was put together wrongly.
    pub fn generate(self) -> (res: Result<Bindings, Error>)
        ensures
            self@.well_formed() ==> (res matches Ok(bindings) && bindings@ == self@.generate()),
            !self@.well_formed() ==> (res matches Err(Error::Unsupported(reason)) && reason@
                == "an item stands in a category of another kind"@),
    {
        if !self.is_well_formed() {
            return Err(
                Error::Unsupported("an item stands in a category of another kind".to_owned()),
            );
        }
        let mut library = self;
        let warnings = library.prepare();
        Ok(library.assemble(warnings))
    }
}

/// The warnings of renaming come after the warnings given before.
pub proof fn lemma_rename_warnings_after(
    fs: Seq<FunctionModel>,
    from: int,
    acc: Seq<WarningModel>,
    before: Seq<WarningModel>,
)
    requires
        0 <= from,
    ensures
        rename_functions_warnings(fs, from, before + acc) == before + rename_functions_warnings(
            fs,
            from,
            acc,
        ),
    decreases fs.len() - from,
{
    if from < fs.len() {
        assert((before + acc) + rename_warnings(fs[from]) =~= before + (acc + rename_warnings(
            fs[from],
        )));
        lemma_rename_warnings_after(fs, from + 1, acc + rename_warnings(fs[from]), before);
    }
}

} // verus!
