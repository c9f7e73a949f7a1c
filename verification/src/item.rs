use vstd::prelude::*;
use vstd::string::StrSliceExecFns;
use crate::config::{RenameRule, RenameRuleModel};
use crate::generic_path::{GenericParamModel, GenericParams};
use crate::model::{clone_strings, clone_text, view_of, views};
use crate::path::Path;
use crate::ty::{Type, TypeModel};

verus! {

/// The platform condition under which an item exists.
#[derive(Debug, PartialEq, Eq)]
pub struct Cfg {
    pub condition: String,
}

impl View for Cfg {
    type V = Seq<char>;

    open spec fn view(&self) -> Seq<char> {
        self.condition@
    }
}

impl Clone for Cfg {
    fn clone(&self) -> (res: Cfg)
        ensures
            res@ == self@,
    {
        Cfg { condition: self.condition.clone() }
    }
}

pub fn clone_cfg(cfg: &Option<Cfg>) -> (res: Option<Cfg>)
    ensures
        view_of(res) == view_of(*cfg),
{
    match cfg {
        Some(c) => Some(c.clone()),
        None => None,
    }
}

/// The documentation comment of an item, line by line.
#[derive(Debug, PartialEq, Eq)]
pub struct Documentation {
    pub doc_comment: Vec<String>,
}

impl View for Documentation {
    type V = Seq<Seq<char>>;

    open spec fn view(&self) -> Seq<Seq<char>> {
        views(self.doc_comment@)
    }
}

impl Clone for Documentation {
    fn clone(&self) -> (res: Documentation)
        ensures
            res@ == self@,
    {
        Documentation { doc_comment: clone_strings(&self.doc_comment) }
    }
}

impl Documentation {
    pub fn none() -> (res: Documentation)
        ensures
            res@ == Seq::<Seq<char>>::empty(),
    {
        let res = Documentation { doc_comment: Vec::new() };
        assert(res@ =~= Seq::<Seq<char>>::empty());
        res
    }
}

/// One entry of the annotation that asks for pointer arguments to be written
/// as arrays: the parts of the entry as they were written. A well-formed
/// entry has two parts, the argument's name and the array's length.
#[derive(Debug, PartialEq, Eq)]
pub struct ArrayNote {
    pub parts: Vec<String>,
}

impl View for ArrayNote {
    type V = Seq<Seq<char>>;

    open spec fn view(&self) -> Seq<Seq<char>> {
        views(self.parts@)
    }
}

impl Clone for ArrayNote {
    fn clone(&self) -> (res: ArrayNote)
        ensures
            res@ == self@,
    {
        ArrayNote { parts: clone_strings(&self.parts) }
    }
}

/// The parts of an entry of the annotation for arrays, written as
/// `[name; length]`: what stands between the brackets, split at the
/// semicolons, each part without the white space around it.
pub open spec fn note_parts(entry: Seq<char>) -> Seq<Seq<char>> {
    crate::text::split_trimmed(entry.subrange(1, entry.len() - 1), 0, Seq::empty())
}

/// The entry `entry` of the annotation for arrays, taken apart. The entry
/// stands in brackets.
pub fn split_note(entry: &str) -> (res: ArrayNote)
    requires
        entry@.len() >= 2,
    ensures
        res@ == note_parts(entry@),
{
    let n = entry.unicode_len();
    let inner = entry.substring_char(1, n - 1);
    ArrayNote { parts: crate::text::split_at_semicolons(inner) }
}

/// The annotations written on an item.
#[derive(Debug, PartialEq, Eq)]
pub struct AnnotationSet {
    /// The item is an alias for its only field and is replaced by it.
    pub transparent_typedef: bool,
    /// The rule by which the item's members are renamed.
    pub rename_all: Option<RenameRule>,
    /// The pointer arguments to write as arrays.
    pub ptrs_as_arrays: Option<Vec<ArrayNote>>,
    /// Every other annotation: its name and its value as written.
    pub entries: Vec<(String, String)>,
}

pub struct AnnotationSetModel {
    pub transparent_typedef: bool,
    pub rename_all: Option<RenameRuleModel>,
    pub ptrs_as_arrays: Option<Seq<Seq<Seq<char>>>>,
    pub entries: Seq<(Seq<char>, Seq<char>)>,
}

pub open spec fn entry_pairs(v: Seq<(String, String)>) -> Seq<(Seq<char>, Seq<char>)> {
    Seq::new(v.len(), |i: int| (v[i].0@, v[i].1@))
}

pub open spec fn notes_model(notes: Option<Vec<ArrayNote>>) -> Option<Seq<Seq<Seq<char>>>> {
    match notes {
        Some(v) => Some(views(v@)),
        None => None,
    }
}

impl View for AnnotationSet {
    type V = AnnotationSetModel;

    open spec fn view(&self) -> AnnotationSetModel {
        AnnotationSetModel {
            transparent_typedef: self.transparent_typedef,
            rename_all: view_of(self.rename_all),
            ptrs_as_arrays: notes_model(self.ptrs_as_arrays),
            entries: entry_pairs(self.entries@),
        }
    }
}

impl AnnotationSetModel {
    /// The set that holds no annotation.
    pub open spec fn empty() -> AnnotationSetModel {
        AnnotationSetModel {
            transparent_typedef: false,
            rename_all: None,
            ptrs_as_arrays: None,
            entries: Seq::empty(),
        }
    }

    pub open spec fn is_empty(self) -> bool {
        &&& !self.transparent_typedef
        &&& self.rename_all is None
        &&& self.ptrs_as_arrays is None
        &&& self.entries.len() == 0
    }
}

impl Clone for AnnotationSet {
    fn clone(&self) -> (res: AnnotationSet)
        ensures
            res@ == self@,
    {
        let ptrs_as_arrays = match &self.ptrs_as_arrays {
            Some(notes) => {
                let mut out: Vec<ArrayNote> = Vec::new();
                let mut i: usize = 0;
                while i < notes.len()
                    invariant
                        i <= notes.len(),
                        out.len() == i,
                        forall|j: int| 0 <= j < i ==> out[j]@ == notes[j]@,
                    decreases notes.len() - i,
                {
                    out.push(notes[i].clone());
                    i += 1;
                }
                assert(views(out@) =~= views(notes@));
                Some(out)
            },
            None => None,
        };
        let mut entries: Vec<(String, String)> = Vec::new();
        let mut k: usize = 0;
        while k < self.entries.len()
            invariant
                k <= self.entries.len(),
                entries.len() == k,
                forall|j: int|
                    0 <= j < k ==> entries[j].0@ == self.entries[j].0@ && entries[j].1@
                        == self.entries[j].1@,
            decreases self.entries.len() - k,
        {
            entries.push((self.entries[k].0.clone(), self.entries[k].1.clone()));
            k += 1;
        }
        assert(entry_pairs(entries@) =~= entry_pairs(self.entries@));
        AnnotationSet {
            transparent_typedef: self.transparent_typedef,
            rename_all: match &self.rename_all {
                Some(r) => Some(r.clone()),
                None => None,
            },
            ptrs_as_arrays,
            entries,
        }
    }
}

impl AnnotationSet {
    pub fn new() -> (res: AnnotationSet)
        ensures
            res@ == AnnotationSetModel::empty(),
    {
        let res = AnnotationSet {
            transparent_typedef: false,
            rename_all: None,
            ptrs_as_arrays: None,
            entries: Vec::new(),
        };
        assert(res@.entries =~= Seq::empty());
        res
    }

    pub fn is_empty(&self) -> (b: bool)
        ensures
            b == self@.is_empty(),
    {
        !self.transparent_typedef && self.rename_all.is_none() && self.ptrs_as_arrays.is_none()
            && self.entries.len() == 0
    }
}

/// A named member of an item, with its type.
#[derive(Debug, PartialEq, Eq)]
pub struct Field {
    pub name: String,
    pub ty: Type,
}

pub struct FieldModel {
    pub name: Seq<char>,
    pub ty: TypeModel,
}

impl View for Field {
    type V = FieldModel;

    open spec fn view(&self) -> FieldModel {
        FieldModel { name: self.name@, ty: self.ty@ }
    }
}

impl Clone for Field {
    fn clone(&self) -> (res: Field)
        ensures
            res@ == self@,
    {
        Field { name: self.name.clone(), ty: self.ty.clone() }
    }
}

pub fn clone_fields(v: &Vec<Field>) -> (res: Vec<Field>)
    ensures
        views(res@) == views(v@),
{
    let mut out: Vec<Field> = Vec::new();
    let mut i: usize = 0;
    while i < v.len()
        invariant
            i <= v.len(),
            out.len() == i,
            forall|j: int| 0 <= j < i ==> out[j]@ == v[j]@,
        decreases v.len() - i,
    {
        out.push(v[i].clone());
        i += 1;
    }
    assert(views(out@) =~= views(v@));
    out
}

/// The category of an item.
#[derive(Clone, Copy, Debug, PartialEq, Eq, Structural)]
pub enum ItemKind {
    Constant,
    Static,
    Enum,
    Struct,
    Union,
    OpaqueItem,
    Typedef,
}

/// An item of the library, of any category but functions.
///
/// `fields` holds the types an item is made of: the fields of a struct or a
/// union, the fields of the variants of an enum, the aliased type of a
/// typedef, the type of a constant or a global. An opaque item has none.
#[derive(Debug, PartialEq, Eq)]
pub struct ItemContainer {
    pub kind: ItemKind,
    pub path: Path,
    pub export_name: String,
    pub generic_params: GenericParams,
    pub fields: Vec<Field>,
    /// Whether the item is laid out as its only field.
    pub is_transparent: bool,
    /// The name of the tag of an enum whose variants carry data.
    pub tag: Option<String>,
    /// The value of a constant, as written.
    pub value: Option<String>,
    /// Whether a global can be written to.
    pub mutable: bool,
    pub cfg: Option<Cfg>,
    pub annotations: AnnotationSet,
    pub documentation: Documentation,
}

pub struct ItemModel {
    pub kind: ItemKind,
    pub path: Seq<char>,
    pub export_name: Seq<char>,
    pub generic_params: Seq<GenericParamModel>,
    pub fields: Seq<FieldModel>,
    pub is_transparent: bool,
    pub tag: Option<Seq<char>>,
    pub value: Option<Seq<char>>,
    pub mutable: bool,
    pub cfg: Option<Seq<char>>,
    pub annotations: AnnotationSetModel,
    pub documentation: Seq<Seq<char>>,
}

impl View for ItemContainer {
    type V = ItemModel;

    open spec fn view(&self) -> ItemModel {
        ItemModel {
            kind: self.kind,
            path: self.path@,
            export_name: self.export_name@,
            generic_params: self.generic_params@,
            fields: views(self.fields@),
            is_transparent: self.is_transparent,
            tag: view_of(self.tag),
            value: view_of(self.value),
            mutable: self.mutable,
            cfg: view_of(self.cfg),
            annotations: self.annotations@,
            documentation: self.documentation@,
        }
    }
}

impl Clone for ItemContainer {
    fn clone(&self) -> (res: ItemContainer)
        ensures
            res@ == self@,
    {
        ItemContainer {
            kind: self.kind,
            path: self.path.clone(),
            export_name: self.export_name.clone(),
            generic_params: self.generic_params.clone(),
            fields: clone_fields(&self.fields),
            is_transparent: self.is_transparent,
            tag: clone_text(&self.tag),
            value: clone_text(&self.value),
            mutable: self.mutable,
            cfg: clone_cfg(&self.cfg),
            annotations: self.annotations.clone(),
            documentation: self.documentation.clone(),
        }
    }
}

impl ItemModel {
    pub open spec fn is_generic(self) -> bool {
        self.generic_params.len() > 0
    }

    /// The types of the fields, in order.
    pub open spec fn types(self) -> Seq<TypeModel> {
        Seq::new(self.fields.len(), |i: int| self.fields[i].ty)
    }

    /// This item with the types of its fields replaced by `types`.
    pub open spec fn with_types(self, types: Seq<TypeModel>) -> ItemModel {
        ItemModel {
            fields: Seq::new(
                self.fields.len(),
                |i: int| FieldModel { name: self.fields[i].name, ty: types[i] },
            ),
            ..self
        }
    }
}

/// An item of the given kind, exported under its own name, with nothing set
/// but what is given.
pub open spec fn plain_item(
    kind: ItemKind,
    path: Seq<char>,
    generic_params: Seq<GenericParamModel>,
    fields: Seq<FieldModel>,
    cfg: Option<Seq<char>>,
    annotations: AnnotationSetModel,
    documentation: Seq<Seq<char>>,
) -> ItemModel {
    ItemModel {
        kind,
        path,
        export_name: path,
        generic_params,
        fields,
        is_transparent: false,
        tag: None,
        value: None,
        mutable: false,
        cfg,
        annotations,
        documentation,
    }
}

impl ItemContainer {
    /// An item of the given kind with the given fields.
    pub fn new(
        kind: ItemKind,
        path: Path,
        generic_params: GenericParams,
        fields: Vec<Field>,
        cfg: Option<Cfg>,
        annotations: AnnotationSet,
        documentation: Documentation,
    ) -> (res: ItemContainer)
        ensures
            res@ == plain_item(
                kind,
                path@,
                generic_params@,
                views(fields@),
                view_of(cfg),
                annotations@,
                documentation@,
            ),
    {
        let export_name = path.name().to_owned();
        ItemContainer {
            kind,
            path,
            export_name,
            generic_params,
            fields,
            is_transparent: false,
            tag: None,
            value: None,
            mutable: false,
            cfg,
            annotations,
            documentation,
        }
    }

    pub fn path(&self) -> (p: &Path)
        ensures
            p@ == self@.path,
    {
        &self.path
    }

    pub fn name(&self) -> (s: &str)
        ensures
            s@ == self@.path,
    {
        self.path.name()
    }

    pub fn export_name(&self) -> (s: &str)
        ensures
            s@ == self@.export_name,
    {
        self.export_name.as_str()
    }

    pub fn is_generic(&self) -> (b: bool)
        ensures
            b == self@.is_generic(),
    {
        self.generic_params.len() > 0
    }

    /// The types of the fields, in order.
    pub fn types(&self) -> (res: Vec<Type>)
        ensures
            res.len() == self.fields.len(),
            views(res@) == self@.types(),
    {
        let mut out: Vec<Type> = Vec::new();
        let mut i: usize = 0;
        while i < self.fields.len()
            invariant
                i <= self.fields.len(),
                out.len() == i,
                forall|j: int| 0 <= j < i ==> out[j]@ == self.fields[j].ty@,
            decreases self.fields.len() - i,
        {
            out.push(self.fields[i].ty.clone());
            i += 1;
        }
        assert(views(out@) =~= self@.types());
        out
    }

    /// Replaces the types of the fields by `types`, in order.
    pub fn set_types(&mut self, types: Vec<Type>)
        requires
            types.len() == old(self).fields.len(),
        ensures
            final(self)@ == old(self)@.with_types(views(types@)),
    {
        let mut fields: Vec<Field> = Vec::new();
        let mut types = types;
        let ghost all = views(types@);
        let mut i: usize = 0;
        while i < self.fields.len()
            invariant
                i <= self.fields.len(),
                fields.len() == i,
                types.len() == self.fields.len(),
                views(types@) == all,
                *self == *old(self),
                forall|j: int|
                    0 <= j < i ==> fields[j]@ == (FieldModel {
                        name: self.fields[j].name@,
                        ty: all[j],
                    }),
            decreases self.fields.len() - i,
        {
            fields.push(Field { name: self.fields[i].name.clone(), ty: types[i].clone() });
            i += 1;
        }
        assert(views(fields@) =~= old(self)@.with_types(all).fields);
        self.fields = fields;
    }
}

} // verus!
