use vstd::prelude::*;
use crate::config::{apply_rule, Config, ConfigModel, ExportConfigModel, RenameRuleModel};
use crate::declarationtyperesolver::{
    declaration_of, register, Declarations, DeclarationTypeResolver,
};
use crate::erase::{erase_types, ErasureCache, KnownErasedTypes};
use crate::function::{Function, FunctionArgument, FunctionArgumentModel, FunctionModel};
use crate::generic_path::{
    bind, can_bind, effective_args, GenericParams, MaybeDefaultGenericAguments,
};
use crate::item::{ArrayNote, ItemContainer, ItemKind, ItemModel};
use crate::library::{Library, LibraryModel};
use crate::model::{clone_text, view_of, views};
use crate::monomorph::Monomorphs;
use crate::opaque::OpaqueItem;
use crate::reserved::{escape, escaped, text_is};
use crate::rewrite::{
    rename_type, rename_type_list, rename_types, rewrite_type_list, rewrite_types, PathOp,
    PathRewrite,
};
use crate::ty::{
    args_model, lemma_types_model_is_views, DeclarationType, GenericArgument,
    GenericArgumentModel, Type,
};
use crate::warning::{Warning, WarningModel};

verus! {

/// The item `item` after the change `op` is made to the types of its fields.
pub open spec fn rewrite_item(item: ItemModel, op: PathOp) -> ItemModel {
    item.with_types(rewrite_types(item.types(), op))
}

/// The function `f` after the change `op` is made to the types of its
/// signature.
pub open spec fn rewrite_function(f: FunctionModel, op: PathOp) -> FunctionModel {
    FunctionModel {
        ret: crate::rewrite::rewrite_type(f.ret, op),
        ..f.with_arg_types(rewrite_types(f.arg_types(), op))
    }
}

/// The item `item` with its own name and the names in the types of its
/// fields as they are exported.
pub open spec fn rename_item(item: ItemModel, export: ExportConfigModel) -> ItemModel {
    ItemModel {
        export_name: export.exported_name(item.export_name),
        ..item.with_types(rename_types(item.types(), export, item.generic_params))
    }
}

/// The item `item` with the types of its fields erased by queries against
/// `cache`, with the parameters of the item bound to `args`. An opaque item
/// has nothing to erase.
pub open spec fn erase_item(
    cache: ErasureCache,
    lib: LibraryModel,
    item: ItemModel,
    args: Seq<GenericArgumentModel>,
    depth: nat,
) -> (ErasureCache, ItemModel) {
    if item.kind == ItemKind::OpaqueItem {
        (cache, item)
    } else {
        let erased = erase_types(
            cache,
            lib,
            item.types(),
            bind(item.generic_params, effective_args(item.generic_params, args)),
            depth,
            0,
        );
        (erased.0, item.with_types(erased.1))
    }
}

/// The function `f` with the types of its signature erased by queries
/// against `cache`: the return type first, then the arguments in order.
pub open spec fn erase_function(cache: ErasureCache, lib: LibraryModel, f: FunctionModel, depth: nat)
    -> (ErasureCache, FunctionModel) {
    let ret = crate::erase::erase_query(cache, lib, f.ret, Seq::empty(), depth);
    let args = erase_types(ret.0, lib, f.arg_types(), Seq::empty(), depth, 0);
    (
        args.0,
        FunctionModel {
            ret: match ret.1 {
                Some(t) => t,
                None => f.ret,
            },
            ..f.with_arg_types(args.1)
        },
    )
}

/// The registrations after `item` is registered under its category.
pub open spec fn collect_declaration(d: Declarations, item: ItemModel) -> Declarations {
    match declaration_of(item) {
        Some(kind) => register(d, item.path, kind),
        None => d,
    }
}

/// The length that the entries `notes[..upto]` give for the argument called
/// `name`: the second part of the last entry of two parts whose first part
/// is `name`.
pub open spec fn noted_length(notes: Seq<Seq<Seq<char>>>, name: Seq<char>, upto: int) -> Option<
    Seq<char>,
>
    decreases upto,
{
    if upto <= 0 || upto > notes.len() {
        None
    } else if notes[upto - 1].len() == 2 && notes[upto - 1][0] == name {
        Some(notes[upto - 1][1])
    } else {
        noted_length(notes, name, upto - 1)
    }
}

/// The warnings for the entries among `notes[from..]` that do not have two
/// parts.
pub open spec fn malformed_notes(notes: Seq<Seq<Seq<char>>>, from: int) -> Seq<WarningModel>
    decreases notes.len() - from,
{
    if from < 0 || from >= notes.len() {
        Seq::empty()
    } else if notes[from].len() != 2 {
        seq![WarningModel::MalformedArrayNote { parts: notes[from] }] + malformed_notes(
            notes,
            from + 1,
        )
    } else {
        malformed_notes(notes, from + 1)
    }
}

/// The rule by which the arguments of `f` are renamed: the one annotated
/// on `f`, or else the configured one.
pub open spec fn argument_rule(f: FunctionModel, cfg: ConfigModel) -> RenameRuleModel {
    match f.annotations.rename_all {
        Some(rule) => rule,
        None => cfg.rename_args,
    }
}

/// An argument of `f` after renaming: its name goes through the rule, which
/// also drops a length noted before, and is then escaped; the names in its
/// type are exported; and a pointer with a name gets the length that the
/// annotation for arrays gives for that name, where `f` has that annotation.
pub open spec fn rename_argument(a: FunctionArgumentModel, f: FunctionModel, cfg: ConfigModel)
    -> FunctionArgumentModel {
    let rule = argument_rule(f, cfg);
    let name = match a.name {
        Some(n) => Some(
            escaped(
                if rule is Keep {
                    n
                } else {
                    apply_rule(rule, n)
                },
            ),
        ),
        None => None,
    };
    let kept_length = if rule is Keep {
        a.array_length
    } else {
        None
    };
    let ty = rename_type(a.ty, cfg.export, Seq::empty());
    FunctionArgumentModel {
        name,
        ty,
        array_length: match (f.annotations.ptrs_as_arrays, name) {
            (Some(notes), Some(n)) if ty is Ptr => noted_length(notes, n, notes.len() as int),
            _ => kept_length,
        },
    }
}

/// The function `f` after renaming.
pub open spec fn rename_function(f: FunctionModel, cfg: ConfigModel) -> FunctionModel {
    FunctionModel {
        ret: rename_type(f.ret, cfg.export, Seq::empty()),
        args: Seq::new(f.args.len(), |i: int| rename_argument(f.args[i], f, cfg)),
        ..f
    }
}

/// The warnings that renaming `f` gives.
pub open spec fn rename_warnings(f: FunctionModel) -> Seq<WarningModel> {
    match f.annotations.ptrs_as_arrays {
        Some(notes) => malformed_notes(notes, 0),
        None => Seq::empty(),
    }
}

fn find_noted_length(notes: &Vec<ArrayNote>, name: &str) -> (res: Option<String>)
    ensures
        view_of(res) == noted_length(views(notes@), name@, notes.len() as int),
{
    let mut i: usize = notes.len();
    while i > 0
        invariant
            i <= notes.len(),
            noted_length(views(notes@), name@, notes.len() as int) == noted_length(
                views(notes@),
                name@,
                i as int,
            ),
        decreases i,
    {
        i -= 1;
        let note = &notes[i];
        assert(views(notes@)[i as int] == note@);
        if note.parts.len() == 2 {
            assert(note@[0] == note.parts[0]@);
            assert(note@[1] == note.parts[1]@);
            if text_is(note.parts[0].as_str(), name) {
                return Some(note.parts[1].clone());
            }
        }
    }
    None
}

fn collect_malformed(notes: &Vec<ArrayNote>) -> (res: Vec<Warning>)
    ensures
        views(res@) == malformed_notes(views(notes@), 0),
{
    let ghost all = views(notes@);
    let mut out: Vec<Warning> = Vec::new();
    let mut i: usize = 0;
    assert(views(out@) + malformed_notes(all, 0) =~= malformed_notes(all, 0));
    while i < notes.len()
        invariant
            i <= notes.len(),
            all == views(notes@),
            malformed_notes(all, 0) == views(out@) + malformed_notes(all, i as int),
        decreases notes.len() - i,
    {
        let ghost before = views(out@);
        assert(all[i as int] == notes[i as int]@);
        if notes[i].parts.len() != 2 {
            let w = Warning::MalformedArrayNote {
                parts: crate::model::clone_strings(&notes[i].parts),
            };
            out.push(w);
            assert(views(out@) =~= before + seq![
                WarningModel::MalformedArrayNote { parts: all[i as int] },
            ]);
            assert(views(out@) + malformed_notes(all, i + 1) =~= before + malformed_notes(
                all,
                i as int,
            ));
        }
        i += 1;
    }
    assert(views(out@) + malformed_notes(all, i as int) =~= views(out@));
    out
}

impl ItemContainer {
    /// Registers this item with `resolver` under its category.
    pub fn collect_declaration_types(&self, resolver: &mut DeclarationTypeResolver)
        ensures
            final(resolver)@ == collect_declaration(old(resolver)@, self@),
    {
        match self.kind {
            ItemKind::Struct => resolver.add_struct(&self.path),
            ItemKind::Enum => resolver.add_enum(&self.path),
            ItemKind::Union => resolver.add_union(&self.path),
            ItemKind::Typedef => resolver.add_typedef(&self.path),
            ItemKind::OpaqueItem => resolver.add_struct(&self.path),
            ItemKind::Constant => {},
            ItemKind::Static => {},
        }
    }

    /// Gives each path in the types of the fields the declaration category
    /// that `resolver` holds for its name.
    pub fn resolve_declaration_types(&mut self, resolver: &DeclarationTypeResolver)
        ensures
            final(self)@ == rewrite_item(old(self)@, PathOp::Resolve(resolver@)),
    {
        let types = self.types();
        let changed = rewrite_type_list(&types, &PathRewrite::Resolve(resolver));
        proof {
            lemma_types_model_is_views(types@);
            lemma_types_model_is_views(changed@);
        }
        self.set_types(changed);
    }

    /// Replaces each path with arguments in the types of the fields by the
    /// concrete item that `monomorphs` holds for it.
    pub fn mangle_paths(&mut self, monomorphs: &Monomorphs)
        ensures
            final(self)@ == rewrite_item(old(self)@, PathOp::Mangle(monomorphs@)),
    {
        let types = self.types();
        let changed = rewrite_type_list(&types, &PathRewrite::Mangle(monomorphs));
        proof {
            lemma_types_model_is_views(types@);
            lemma_types_model_is_views(changed@);
        }
        self.set_types(changed);
    }

    /// Replaces the name of this item and the names in the types of its
    /// fields by the names they are exported under.
    pub fn rename_for_config(&mut self, config: &Config)
        ensures
            final(self)@ == rename_item(old(self)@, config@.export),
    {
        let types = self.types();
        let changed = rename_type_list(&types, config, &self.generic_params);
        proof {
            lemma_types_model_is_views(types@);
            lemma_types_model_is_views(changed@);
        }
        self.set_types(changed);
        config.export.rename(&mut self.export_name);
    }

    /// Erases the types of the fields, with the parameters of this item
    /// bound to `generics`.
    pub fn erase_types_inplace(
        &mut self,
        library: &Library,
        erased: &mut KnownErasedTypes,
        generics: &[GenericArgument],
    )
        requires
            can_bind(
                old(self)@.generic_params,
                effective_args(old(self)@.generic_params, args_model(generics@)),
            ),
        ensures
            (final(erased)@, final(self)@) == erase_item(
                old(erased)@,
                library@,
                old(self)@,
                args_model(generics@),
                old(erased).depth_limit(),
            ),
            final(erased).depth_limit() == old(erased).depth_limit(),
    {
        if self.kind == ItemKind::OpaqueItem {
            // An opaque item embeds no type.
            return ;
        }
        let params = self.generic_params.clone();
        let arguments = MaybeDefaultGenericAguments::new(&params, generics);
        let mappings = params.call(self.path.name(), arguments.as_slice());
        let types = self.types();
        proof {
            lemma_types_model_is_views(types@);
        }
        let changed = erased.erase_all(library, &types, mappings.as_slice());
        proof {
            lemma_types_model_is_views(changed@);
            crate::erase::lemma_erase_types_len(
                old(erased)@,
                library@,
                views(types@),
                crate::ty::bindings_model(mappings@),
                old(erased).depth_limit(),
                0,
            );
        }
        self.set_types(changed);
    }
}

impl OpaqueItem {
    pub fn collect_declaration_types(&self, resolver: &mut DeclarationTypeResolver)
        ensures
            final(resolver)@ == register(old(resolver)@, self@.path, DeclarationType::Struct),
    {
        resolver.add_struct(&self.path);
    }

    /// An opaque item embeds no type, so there is nothing to erase.
    pub fn erase_types_inplace(
        &mut self,
        _library: &Library,
        _erased: &mut KnownErasedTypes,
        _generics: &[GenericArgument],
    )
        ensures
            *final(self) == *old(self),
            *final(_erased) == *old(_erased),
    {
    }

    pub fn rename_for_config(&mut self, config: &Config)
        ensures
            final(self)@ == rename_item(old(self)@, config@.export),
    {
        config.export.rename(&mut self.export_name);
        assert(self@.fields =~= rename_item(old(self)@, config@.export).fields);
    }

    /// An opaque item depends on nothing.
    pub fn add_dependencies(&self, _library: &Library, _out: &mut crate::dependencies::Dependencies)
        ensures
            *final(_out) == *old(_out),
    {
    }
}

impl Function {
    pub fn mangle_paths(&mut self, monomorphs: &Monomorphs)
        ensures
            final(self)@ == rewrite_function(old(self)@, PathOp::Mangle(monomorphs@)),
    {
        self.ret.mangle_paths(monomorphs);
        let types = self.arg_types();
        let changed = rewrite_type_list(&types, &PathRewrite::Mangle(monomorphs));
        proof {
            lemma_types_model_is_views(types@);
            lemma_types_model_is_views(changed@);
        }
        self.set_arg_types(changed);
    }

    pub fn resolve_declaration_types(&mut self, resolver: &DeclarationTypeResolver)
        ensures
            final(self)@ == rewrite_function(old(self)@, PathOp::Resolve(resolver@)),
    {
        self.ret.resolve_declaration_types(resolver);
        let types = self.arg_types();
        let changed = rewrite_type_list(&types, &PathRewrite::Resolve(resolver));
        proof {
            lemma_types_model_is_views(types@);
            lemma_types_model_is_views(changed@);
        }
        self.set_arg_types(changed);
    }

    /// Replaces the placeholder `Self` in the types of the signature by
    /// `self_ty`.
    pub fn replace_self_with(&mut self, self_ty: &crate::path::Path)
        ensures
            final(self)@ == rewrite_function(old(self)@, PathOp::ReplaceSelf(self_ty@)),
    {
        self.ret.replace_self_with(self_ty);
        let types = self.arg_types();
        let changed = rewrite_type_list(&types, &PathRewrite::ReplaceSelf(self_ty));
        proof {
            lemma_types_model_is_views(types@);
            lemma_types_model_is_views(changed@);
        }
        self.set_arg_types(changed);
    }

    /// Erases the types of the signature: the return type, then the
    /// arguments in order.
    pub fn erase_transparent_types_inplace(
        &mut self,
        library: &Library,
        eraser: &mut KnownErasedTypes,
    )
        ensures
            (final(eraser)@, final(self)@) == erase_function(
                old(eraser)@,
                library@,
                old(self)@,
                old(eraser).depth_limit(),
            ),
            final(eraser).depth_limit() == old(eraser).depth_limit(),
    {
        let mappings: Vec<(&crate::path::Path, &GenericArgument)> = Vec::new();
        assert(crate::ty::bindings_model(mappings@) =~= Seq::empty());
        eraser.erase_types_inplace(library, &mut self.ret, mappings.as_slice());
        let ghost middle = eraser@;
        let types = self.arg_types();
        proof {
            lemma_types_model_is_views(types@);
        }
        let changed = eraser.erase_all(library, &types, mappings.as_slice());
        proof {
            lemma_types_model_is_views(changed@);
            crate::erase::lemma_erase_types_len(
                middle,
                library@,
                views(types@),
                Seq::empty(),
                old(eraser).depth_limit(),
                0,
            );
        }
        self.set_arg_types(changed);
    }

    /// Renames the arguments and the names in the types of the signature,
    /// and notes the lengths of the pointer arguments that are to be written
    /// as arrays. Returns a warning for each entry of the annotation for
    /// arrays that does not have two parts.
    pub fn rename_for_config(&mut self, config: &Config) -> (warnings: Vec<Warning>)
        ensures
            final(self)@ == rename_function(old(self)@, config@),
            views(warnings@) == rename_warnings(old(self)@),
    {
        // Rename the types used in arguments
        let generic_params = GenericParams::new();
        self.ret.rename_for_config(config, &generic_params);

        // Apply rename rules to argument names, escape reserved words used
        // in argument names, and rename argument types.
        let rules = match &self.annotations.rename_all {
            Some(rule) => rule,
            None => &config.function.rename_args,
        };
        let rule = rules.not_keep();
        let mut args: Vec<FunctionArgument> = Vec::new();
        let mut i: usize = 0;
        while i < self.args.len()
            invariant
                i <= self.args.len(),
                args.len() == i,
                generic_params@ == Seq::<crate::generic_path::GenericParamModel>::empty(),
                self.args == old(self).args,
                self.annotations == old(self).annotations,
                rules@ == argument_rule(old(self)@, config@),
                rule is Some == !(rules@ is Keep),
                rule matches Some(r) ==> r@ == rules@,
                forall|j: int|
                    0 <= j < i ==> args[j]@ == rename_argument(
                        old(self).args[j]@,
                        old(self)@,
                        config@,
                    ),
            decreases self.args.len() - i,
        {
            let arg = &self.args[i];
            let ghost a = arg@;
            let mut name = match rule {
                Some(r) => match &arg.name {
                    Some(n) => Some(r.apply(n.as_str())),
                    None => None,
                },
                None => clone_text(&arg.name),
            };
            let mut array_length = match rule {
                Some(_) => None,
                None => clone_text(&arg.array_length),
            };
            let mut ty = arg.ty.clone();
            ty.rename_for_config(config, &generic_params);
            if let Some(n) = &mut name {
                escape(n);
            }
            // Save the array length of the pointer arguments which need to
            // use the array notation
            if let Some(notes) = &self.annotations.ptrs_as_arrays {
                if let Type::Ptr { .. } = ty {
                    if let Some(n) = &name {
                        array_length = find_noted_length(notes, n.as_str());
                    }
                }
            }
            let renamed = FunctionArgument { name, ty, array_length };
            assert(old(self)@.args[i as int] == a);
            assert(renamed@ == rename_argument(a, old(self)@, config@));
            args.push(renamed);
            i += 1;
        }
        let warnings = match &self.annotations.ptrs_as_arrays {
            Some(notes) => collect_malformed(notes),
            None => {
                let none: Vec<Warning> = Vec::new();
                assert(views(none@) =~= Seq::empty());
                none
            },
        };
        assert(views(args@) =~= rename_function(old(self)@, config@).args);
        self.args = args;
        warnings
    }
}

} // verus!
