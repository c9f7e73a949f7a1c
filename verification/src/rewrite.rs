use vstd::prelude::*;
use crate::config::{Config, ExportConfigModel};
use crate::declarationtyperesolver::{declared_as, Declarations, DeclarationTypeResolver};
use crate::generic_path::{declares, GenericParamModel, GenericParams};
use crate::monomorph::{Monomorphs, MonomorphsModel};
use crate::path::Path;
use crate::ty::{
    args_model, fresh_path, types_model, ConstExpr, ConstExprModel, GenericArgument,
    GenericArgumentModel, GenericPath, GenericPathModel, Type, TypeModel,
};

verus! {

/// A change made to the paths that a type is written with.
pub enum PathOp {
    /// The placeholder `Self` is replaced by the given name.
    ReplaceSelf(Seq<char>),
    /// Each path gets the declaration category registered for its name.
    Resolve(Declarations),
    /// Each path with arguments is replaced by the name of the concrete item
    /// registered for it.
    Mangle(MonomorphsModel),
}

/// The path `p` after the change `op`.
pub open spec fn rewrite_path(p: GenericPathModel, op: PathOp) -> GenericPathModel {
    match op {
        PathOp::ReplaceSelf(by) => if p.path == "Self"@ {
            GenericPathModel { path: by, export_name: by, ..p }
        } else {
            p
        },
        PathOp::Resolve(d) => GenericPathModel { ctype: declared_as(d, p.path, 0), ..p },
        PathOp::Mangle(m) => if p.generics.len() == 0 {
            p
        } else {
            match m.mangle_path(p) {
                Some(name) => fresh_path(name, Seq::empty()),
                None => p,
            }
        },
    }
}

/// The type `t` after the change `op` is made to every path it is written
/// with, the arguments of the paths left as they are.
pub open spec fn rewrite_type(t: TypeModel, op: PathOp) -> TypeModel
    decreases t,
{
    match t {
        TypeModel::Ptr { ty, is_const, is_nullable, is_ref } => TypeModel::Ptr {
            ty: Box::new(rewrite_type(*ty, op)),
            is_const,
            is_nullable,
            is_ref,
        },
        TypeModel::Path(p) => TypeModel::Path(rewrite_path(p, op)),
        TypeModel::Primitive(_) => t,
        TypeModel::Array(ty, len) => TypeModel::Array(Box::new(rewrite_type(*ty, op)), len),
        TypeModel::FuncPtr { ret, args, is_nullable, never_return } => TypeModel::FuncPtr {
            ret: Box::new(rewrite_type(*ret, op)),
            args: rewrite_types(args, op),
            is_nullable,
            never_return,
        },
    }
}

pub open spec fn rewrite_types(v: Seq<TypeModel>, op: PathOp) -> Seq<TypeModel>
    decreases v,
{
    Seq::new(
        v.len(),
        |i: int|
            if 0 <= i < v.len() {
                rewrite_type(v[i], op)
            } else {
                arbitrary()
            },
    )
}

/// A change to make to the paths of a type.
pub enum PathRewrite<'a> {
    ReplaceSelf(&'a Path),
    Resolve(&'a DeclarationTypeResolver),
    Mangle(&'a Monomorphs),
}

impl<'a> View for PathRewrite<'a> {
    type V = PathOp;

    open spec fn view(&self) -> PathOp {
        match self {
            PathRewrite::ReplaceSelf(p) => PathOp::ReplaceSelf(p@),
            PathRewrite::Resolve(r) => PathOp::Resolve(r@),
            PathRewrite::Mangle(m) => PathOp::Mangle(m@),
        }
    }
}

fn rewrite_path_exec(p: &GenericPath, op: &PathRewrite) -> (res: GenericPath)
    ensures
        res@ == rewrite_path(p@, op@),
{
    match op {
        PathRewrite::ReplaceSelf(by) => {
            if p.path.is_named("Self") {
                GenericPath {
                    path: (*by).clone(),
                    export_name: by.name().to_owned(),
                    generics: crate::ty::clone_arg_list(&p.generics),
                    ctype: p.ctype,
                }
            } else {
                p.clone()
            }
        },
        PathRewrite::Resolve(resolver) => GenericPath {
            path: p.path.clone(),
            export_name: p.export_name.clone(),
            generics: crate::ty::clone_arg_list(&p.generics),
            ctype: resolver.type_for(&p.path),
        },
        PathRewrite::Mangle(monomorphs) => {
            if p.generics.len() == 0 {
                p.clone()
            } else {
                match monomorphs.mangle_path(p) {
                    Some(mangled) => {
                        let res = GenericPath::new(mangled.clone(), Vec::new());
                        assert(res@.generics =~= Seq::empty());
                        res
                    },
                    None => p.clone(),
                }
            }
        },
    }
}

fn rewrite_type_exec(t: &Type, op: &PathRewrite) -> (res: Type)
    ensures
        res@ == rewrite_type(t@, op@),
    decreases t,
{
    match t {
        Type::Ptr { ty, is_const, is_nullable, is_ref } => Type::Ptr {
            ty: Box::new(rewrite_type_exec(ty, op)),
            is_const: *is_const,
            is_nullable: *is_nullable,
            is_ref: *is_ref,
        },
        Type::Path(p) => {
            assert(t@ == TypeModel::Path(p@));
            Type::Path(rewrite_path_exec(p, op))
        },
        Type::Primitive(p) => Type::Primitive(*p),
        Type::Array(ty, len) => Type::Array(Box::new(rewrite_type_exec(ty, op)), len.clone()),
        Type::FuncPtr { ret, args, is_nullable, never_return } => Type::FuncPtr {
            ret: Box::new(rewrite_type_exec(ret, op)),
            args: rewrite_types_exec(args, op),
            is_nullable: *is_nullable,
            never_return: *never_return,
        },
    }
}

fn rewrite_types_exec(v: &Vec<Type>, op: &PathRewrite) -> (res: Vec<Type>)
    ensures
        res.len() == v.len(),
        types_model(res@) == rewrite_types(types_model(v@), op@),
    decreases v,
{
    let mut out: Vec<Type> = Vec::new();
    let mut i: usize = 0;
    while i < v.len()
        invariant
            i <= v.len(),
            out.len() == i,
            forall|j: int| 0 <= j < i ==> out[j]@ == rewrite_type(v[j]@, op@),
        decreases v.len() - i,
    {
        out.push(rewrite_type_exec(&v[i], op));
        i += 1;
    }
    assert(types_model(out@) =~= rewrite_types(types_model(v@), op@));
    out
}

/// The constant `c` with the name it mentions, if any, as it is exported.
pub open spec fn rename_const(c: ConstExprModel, export: ExportConfigModel) -> ConstExprModel {
    match c {
        ConstExprModel::Name(n) => ConstExprModel::Name(export.exported_name(n)),
        ConstExprModel::Value(_) => c,
    }
}

/// The path `p` with the names it mentions as they are exported. The names
/// of the parameters `params` are kept.
pub open spec fn rename_path(
    p: GenericPathModel,
    export: ExportConfigModel,
    params: Seq<GenericParamModel>,
) -> GenericPathModel {
    GenericPathModel {
        generics: rename_args(p.generics, export, params),
        export_name: if declares(params, p.path) {
            p.export_name
        } else {
            export.exported_name(p.export_name)
        },
        ..p
    }
}

/// The type `t` with the names it mentions as they are exported. The names
/// of the parameters `params` are kept.
pub open spec fn rename_type(
    t: TypeModel,
    export: ExportConfigModel,
    params: Seq<GenericParamModel>,
) -> TypeModel
    decreases t,
{
    match t {
        TypeModel::Ptr { ty, is_const, is_nullable, is_ref } => TypeModel::Ptr {
            ty: Box::new(rename_type(*ty, export, params)),
            is_const,
            is_nullable,
            is_ref,
        },
        TypeModel::Path(p) => TypeModel::Path(
            GenericPathModel {
                generics: rename_args(p.generics, export, params),
                export_name: if declares(params, p.path) {
                    p.export_name
                } else {
                    export.exported_name(p.export_name)
                },
                ..p
            },
        ),
        TypeModel::Primitive(_) => t,
        TypeModel::Array(ty, len) => TypeModel::Array(
            Box::new(rename_type(*ty, export, params)),
            rename_const(len, export),
        ),
        TypeModel::FuncPtr { ret, args, is_nullable, never_return } => TypeModel::FuncPtr {
            ret: Box::new(rename_type(*ret, export, params)),
            args: rename_types(args, export, params),
            is_nullable,
            never_return,
        },
    }
}

pub open spec fn rename_arg(
    a: GenericArgumentModel,
    export: ExportConfigModel,
    params: Seq<GenericParamModel>,
) -> GenericArgumentModel
    decreases a,
{
    match a {
        GenericArgumentModel::Type(t) => GenericArgumentModel::Type(
            rename_type(t, export, params),
        ),
        GenericArgumentModel::Const(c) => GenericArgumentModel::Const(rename_const(c, export)),
    }
}

pub open spec fn rename_types(
    v: Seq<TypeModel>,
    export: ExportConfigModel,
    params: Seq<GenericParamModel>,
) -> Seq<TypeModel>
    decreases v,
{
    Seq::new(
        v.len(),
        |i: int|
            if 0 <= i < v.len() {
                rename_type(v[i], export, params)
            } else {
                arbitrary()
            },
    )
}

pub open spec fn rename_args(
    v: Seq<GenericArgumentModel>,
    export: ExportConfigModel,
    params: Seq<GenericParamModel>,
) -> Seq<GenericArgumentModel>
    decreases v,
{
    Seq::new(
        v.len(),
        |i: int|
            if 0 <= i < v.len() {
                rename_arg(v[i], export, params)
            } else {
                arbitrary()
            },
    )
}

fn rename_const_exec(c: &ConstExpr, config: &Config) -> (res: ConstExpr)
    ensures
        res@ == rename_const(c@, config@.export),
{
    match c {
        ConstExpr::Name(n) => {
            let mut name = n.clone();
            config.export.rename(&mut name);
            ConstExpr::Name(name)
        },
        ConstExpr::Value(v) => ConstExpr::Value(v.clone()),
    }
}

fn rename_path_exec(p: &GenericPath, config: &Config, params: &GenericParams) -> (res: GenericPath)
    ensures
        res@ == rename_path(p@, config@.export, params@),
    decreases p,
{
    let generics = rename_args_exec(&p.generics, config, params);
    let mut export_name = p.export_name.clone();
    if !params.declares(&p.path) {
        config.export.rename(&mut export_name);
    }
    GenericPath { path: p.path.clone(), export_name, generics, ctype: p.ctype }
}

fn rename_type_exec(t: &Type, config: &Config, params: &GenericParams) -> (res: Type)
    ensures
        res@ == rename_type(t@, config@.export, params@),
    decreases t,
{
    match t {
        Type::Ptr { ty, is_const, is_nullable, is_ref } => Type::Ptr {
            ty: Box::new(rename_type_exec(ty, config, params)),
            is_const: *is_const,
            is_nullable: *is_nullable,
            is_ref: *is_ref,
        },
        Type::Path(p) => {
            assert(t@ == TypeModel::Path(p@));
            Type::Path(rename_path_exec(p, config, params))
        },
        Type::Primitive(p) => Type::Primitive(*p),
        Type::Array(ty, len) => Type::Array(
            Box::new(rename_type_exec(ty, config, params)),
            rename_const_exec(len, config),
        ),
        Type::FuncPtr { ret, args, is_nullable, never_return } => Type::FuncPtr {
            ret: Box::new(rename_type_exec(ret, config, params)),
            args: rename_types_exec(args, config, params),
            is_nullable: *is_nullable,
            never_return: *never_return,
        },
    }
}

fn rename_arg_exec(a: &GenericArgument, config: &Config, params: &GenericParams) -> (res:
    GenericArgument)
    ensures
        res@ == rename_arg(a@, config@.export, params@),
    decreases a,
{
    match a {
        GenericArgument::Type(t) => GenericArgument::Type(rename_type_exec(t, config, params)),
        GenericArgument::Const(c) => GenericArgument::Const(rename_const_exec(c, config)),
    }
}

fn rename_types_exec(v: &Vec<Type>, config: &Config, params: &GenericParams) -> (res: Vec<Type>)
    ensures
        res.len() == v.len(),
        types_model(res@) == rename_types(types_model(v@), config@.export, params@),
    decreases v,
{
    let mut out: Vec<Type> = Vec::new();
    let mut i: usize = 0;
    while i < v.len()
        invariant
            i <= v.len(),
            out.len() == i,
            forall|j: int| 0 <= j < i ==> out[j]@ == rename_type(v[j]@, config@.export, params@),
        decreases v.len() - i,
    {
        out.push(rename_type_exec(&v[i], config, params));
        i += 1;
    }
    assert(types_model(out@) =~= rename_types(types_model(v@), config@.export, params@));
    out
}

fn rename_args_exec(v: &Vec<GenericArgument>, config: &Config, params: &GenericParams) -> (res:
    Vec<GenericArgument>)
    ensures
        args_model(res@) == rename_args(args_model(v@), config@.export, params@),
    decreases v,
{
    let mut out: Vec<GenericArgument> = Vec::new();
    let mut i: usize = 0;
    while i < v.len()
        invariant
            i <= v.len(),
            out.len() == i,
            forall|j: int| 0 <= j < i ==> out[j]@ == rename_arg(v[j]@, config@.export, params@),
        decreases v.len() - i,
    {
        out.push(rename_arg_exec(&v[i], config, params));
        i += 1;
    }
    assert(args_model(out@) =~= rename_args(args_model(v@), config@.export, params@));
    out
}

impl Type {
    /// Replaces the placeholder `Self`, wherever this type is written with
    /// it, by `self_ty`.
    pub fn replace_self_with(&mut self, self_ty: &Path)
        ensures
            final(self)@ == rewrite_type(old(self)@, PathOp::ReplaceSelf(self_ty@)),
    {
        let res = rewrite_type_exec(self, &PathRewrite::ReplaceSelf(self_ty));
        *self = res;
    }

    /// Gives each path of this type the declaration category that
    /// `resolver` holds for its name.
    pub fn resolve_declaration_types(&mut self, resolver: &DeclarationTypeResolver)
        ensures
            final(self)@ == rewrite_type(old(self)@, PathOp::Resolve(resolver@)),
    {
        let res = rewrite_type_exec(self, &PathRewrite::Resolve(resolver));
        *self = res;
    }

    /// Replaces each path with arguments by the concrete item that
    /// `monomorphs` holds for it. A path that it holds nothing for is kept.
    pub fn mangle_paths(&mut self, monomorphs: &Monomorphs)
        ensures
            final(self)@ == rewrite_type(old(self)@, PathOp::Mangle(monomorphs@)),
    {
        let res = rewrite_type_exec(self, &PathRewrite::Mangle(monomorphs));
        *self = res;
    }

    /// Replaces the names that this type mentions by the names they are
    /// exported under. The names of `generic_params` are kept.
    pub fn rename_for_config(&mut self, config: &Config, generic_params: &GenericParams)
        ensures
            final(self)@ == rename_type(old(self)@, config@.export, generic_params@),
    {
        let res = rename_type_exec(self, config, generic_params);
        *self = res;
    }
}

impl ConstExpr {
    pub fn rename_for_config(&mut self, config: &Config)
        ensures
            final(self)@ == rename_const(old(self)@, config@.export),
    {
        let res = rename_const_exec(self, config);
        *self = res;
    }
}

impl GenericArgument {
    pub fn rename_for_config(&mut self, config: &Config, generic_params: &GenericParams)
        ensures
            final(self)@ == rename_arg(old(self)@, config@.export, generic_params@),
    {
        let res = rename_arg_exec(self, config, generic_params);
        *self = res;
    }
}

impl GenericPath {
    pub fn replace_self_with(&mut self, self_ty: &Path)
        ensures
            final(self)@ == rewrite_path(old(self)@, PathOp::ReplaceSelf(self_ty@)),
    {
        if self.path.replace_self_with(self_ty) {
            self.export_name = self_ty.name().to_owned();
        }
        // Caller deals with generics.
    }

    pub fn path(&self) -> (p: &Path)
        ensures
            p@ == self@.path,
    {
        &self.path
    }

    pub fn generics(&self) -> (g: &[GenericArgument])
        ensures
            args_model(g@) == self@.generics,
    {
        self.generics.as_slice()
    }

    pub fn generics_mut(&mut self) -> (g: &mut [GenericArgument])
        ensures
            g@ == old(self).generics@,
            final(self)@ == (GenericPathModel {
                generics: args_model(final(g)@),
                ..old(self)@
            }),
    {
        self.generics.as_mut_slice()
    }

    pub fn ctype(&self) -> (c: Option<&crate::ty::DeclarationType>)
        ensures
            c matches Some(k) ==> self@.ctype == Some(*k),
            c is None ==> self@.ctype is None,
    {
        self.ctype.as_ref()
    }

    pub fn name(&self) -> (s: &str)
        ensures
            s@ == self@.path,
    {
        self.path.name()
    }

    pub fn export_name(&self) -> (s: &str)
        ensures
            s@ == self@.export_name,
    {
        self.export_name.as_str()
    }

    pub fn is_single_identifier(&self) -> (b: bool)
        ensures
            b == (self@.generics.len() == 0),
    {
        self.generics.len() == 0
    }

    pub fn rename_for_config(&mut self, config: &Config, generic_params: &GenericParams)
        ensures
            final(self)@ == rename_path(old(self)@, config@.export, generic_params@),
    {
        let res = rename_path_exec(self, config, generic_params);
        *self = res;
    }

    pub fn resolve_declaration_types(&mut self, resolver: &DeclarationTypeResolver)
        ensures
            final(self)@ == rewrite_path(old(self)@, PathOp::Resolve(resolver@)),
    {
        self.ctype = resolver.type_for(&self.path);
    }
}

/// The types of `v`, each after the change `op`.
pub fn rewrite_type_list(v: &Vec<Type>, op: &PathRewrite) -> (res: Vec<Type>)
    ensures
        res.len() == v.len(),
        types_model(res@) == rewrite_types(types_model(v@), op@),
{
    rewrite_types_exec(v, op)
}

/// The types of `v`, each with the names it mentions as they are exported.
pub fn rename_type_list(v: &Vec<Type>, config: &Config, params: &GenericParams) -> (res: Vec<Type>)
    ensures
        res.len() == v.len(),
        types_model(res@) == rename_types(types_model(v@), config@.export, params@),
{
    rename_types_exec(v, config, params)
}

} // verus!
