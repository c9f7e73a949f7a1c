use vstd::prelude::*;
use crate::generic_path::GenericParams;
use crate::item::{
    clone_cfg, plain_item, AnnotationSet, Cfg, Documentation, ItemContainer, ItemKind, ItemModel,
};
use crate::config::Config;
use crate::model::view_of;
use crate::path::Path;
use crate::ty::{
    args_model, nullable_form, zeroable_form, GenericArgument, GenericArgumentModel, Type,
    TypeModel,
};

verus! {

/// An item that is exposed only as a handle: it is declared, and nothing of
/// its layout is written.
#[derive(Debug, PartialEq, Eq)]
pub struct OpaqueItem {
    pub path: Path,
    pub export_name: String,
    pub generic_params: GenericParams,
    pub cfg: Option<Cfg>,
    pub annotations: AnnotationSet,
    pub documentation: Documentation,
}

impl View for OpaqueItem {
    type V = ItemModel;

    open spec fn view(&self) -> ItemModel {
        ItemModel {
            export_name: self.export_name@,
            ..plain_item(
                ItemKind::OpaqueItem,
                self.path@,
                self.generic_params@,
                Seq::empty(),
                view_of(self.cfg),
                self.annotations@,
                self.documentation@,
            )
        }
    }
}

impl Clone for OpaqueItem {
    fn clone(&self) -> (res: OpaqueItem)
        ensures
            res@ == self@,
    {
        OpaqueItem {
            path: self.path.clone(),
            export_name: self.export_name.clone(),
            generic_params: self.generic_params.clone(),
            cfg: clone_cfg(&self.cfg),
            annotations: self.annotations.clone(),
            documentation: self.documentation.clone(),
        }
    }
}

/// What a wrapper of the source language called `name` stands for, when
/// applied to `generics`: the form that the target language has for it.
///
/// `Option` of a pointer is the pointer made nullable, and of an integer that
/// bars zero the integer with zero allowed. `NonNull` is a pointer that is not
/// nullable. `NonZero` of an integer is the integer with zero barred.
pub open spec fn wrapper_erasure(name: Seq<char>, generics: Seq<GenericArgumentModel>) -> Option<
    TypeModel,
> {
    if generics.len() == 0 {
        None
    } else {
        match generics[0] {
            GenericArgumentModel::Type(ty) => {
                if name == "Option"@ {
                    match nullable_form(ty) {
                        Some(nullable) => Some(nullable),
                        None => zeroable_form(ty, true),
                    }
                } else if name == "NonNull"@ {
                    Some(
                        TypeModel::Ptr {
                            ty: Box::new(ty),
                            is_const: false,
                            is_nullable: false,
                            is_ref: false,
                        },
                    )
                } else if name == "NonZero"@ {
                    zeroable_form(ty, false)
                } else {
                    None
                }
            },
            GenericArgumentModel::Const(_) => None,
        }
    }
}

/// The form that the target language has for the wrapper called `name`
/// applied to `generics`, if it has one.
pub fn erase_wrapper(name: &Path, generics: &[GenericArgument]) -> (res: Option<Type>)
    ensures
        view_of(res) == wrapper_erasure(name@, args_model(generics@)),
{
    if generics.len() == 0 {
        return None;
    }
    match &generics[0] {
        GenericArgument::Type(ty) => {
            if name.is_named("Option") {
                match ty.make_nullable() {
                    Some(nullable) => Some(nullable),
                    None => ty.make_zeroable(true),
                }
            } else if name.is_named("NonNull") {
                Some(
                    Type::Ptr {
                        ty: Box::new(ty.clone()),
                        is_const: false,
                        is_nullable: false,
                        is_ref: false,
                    },
                )
            } else if name.is_named("NonZero") {
                ty.make_zeroable(false)
            } else {
                None
            }
        },
        GenericArgument::Const(_) => None,
    }
}

impl OpaqueItem {
    /// The type that this item stands for when applied to `generics`, where
    /// it is one of the wrappers that the target language has a form for.
    pub fn try_erase_type(&self, generics: &[GenericArgument], _config: &Config) -> (res: Option<
        Type,
    >)
        ensures
            view_of(res) == wrapper_erasure(self@.path, args_model(generics@)),
    {
        erase_wrapper(&self.path, generics)
    }

    pub fn new(
        path: Path,
        generic_params: GenericParams,
        cfg: Option<Cfg>,
        annotations: AnnotationSet,
        documentation: Documentation,
    ) -> (res: OpaqueItem)
        ensures
            res@ == plain_item(
                ItemKind::OpaqueItem,
                path@,
                generic_params@,
                Seq::empty(),
                view_of(cfg),
                annotations@,
                documentation@,
            ),
    {
        let export_name = path.name().to_owned();
        OpaqueItem { path, export_name, generic_params, cfg, annotations, documentation }
    }

    pub fn path(&self) -> (p: &Path)
        ensures
            p@ == self@.path,
    {
        &self.path
    }

    pub fn name(&self) -> (s: &str)
        ensures
            s@ == self@.path,
    {
        self.path.name()
    }

    pub fn export_name(&self) -> (s: &str)
        ensures
            s@ == self@.export_name,
    {
        self.export_name.as_str()
    }

    pub fn cfg(&self) -> (c: Option<&Cfg>)
        ensures
            view_of(c) == self@.cfg,
    {
        self.cfg.as_ref()
    }

    pub fn annotations(&self) -> (a: &AnnotationSet)
        ensures
            a@ == self@.annotations,
    {
        &self.annotations
    }

    pub fn annotations_mut(&mut self) -> (a: &mut AnnotationSet)
        ensures
            *a == old(self).annotations,
            *final(self) == (OpaqueItem { annotations: *final(a), ..*old(self) }),
    {
        &mut self.annotations
    }

    pub fn documentation(&self) -> (d: &Documentation)
        ensures
            d@ == self@.documentation,
    {
        &self.documentation
    }

    pub fn generic_params(&self) -> (g: Option<&GenericParams>)
        ensures
            g matches Some(p) && p@ == self@.generic_params,
    {
        Some(&self.generic_params)
    }

    pub fn is_generic(&self) -> (b: bool)
        ensures
            b == self@.is_generic(),
    {
        self.generic_params.len() > 0
    }

    /// This item as an item of the library.
    pub fn container(&self) -> (res: ItemContainer)
        ensures
            res@ == self@,
    {
        let res = ItemContainer {
            kind: ItemKind::OpaqueItem,
            path: self.path.clone(),
            export_name: self.export_name.clone(),
            generic_params: self.generic_params.clone(),
            fields: Vec::new(),
            is_transparent: false,
            tag: None,
            value: None,
            mutable: false,
            cfg: clone_cfg(&self.cfg),
            annotations: self.annotations.clone(),
            documentation: self.documentation.clone(),
        };
        assert(res@.fields =~= Seq::empty());
        res
    }
}

} // verus!
