use vstd::prelude::*;
use crate::config::{Config, ConfigModel, Language};
use crate::item::{clone_cfg, AnnotationSet, AnnotationSetModel, Cfg, Documentation};
use crate::text::{starts_with, strip_repeated, strip_underscores, trim_start_matches, trim_underscores};
use crate::model::{clone_text, view_of, views};
use crate::path::Path;
use crate::ty::{Type, TypeModel};

verus! {

/// An argument of a function.
#[derive(Debug, PartialEq, Eq)]
pub struct FunctionArgument {
    pub name: Option<String>,
    pub ty: Type,
    pub array_length: Option<String>,
}

pub struct FunctionArgumentModel {
    pub name: Option<Seq<char>>,
    pub ty: TypeModel,
    pub array_length: Option<Seq<char>>,
}

impl View for FunctionArgument {
    type V = FunctionArgumentModel;

    open spec fn view(&self) -> FunctionArgumentModel {
        FunctionArgumentModel {
            name: view_of(self.name),
            ty: self.ty@,
            array_length: view_of(self.array_length),
        }
    }
}

impl Clone for FunctionArgument {
    fn clone(&self) -> (res: FunctionArgument)
        ensures
            res@ == self@,
    {
        FunctionArgument {
            name: clone_text(&self.name),
            ty: self.ty.clone(),
            array_length: clone_text(&self.array_length),
        }
    }
}

/// A function of the library.
#[derive(Debug, PartialEq, Eq)]
pub struct Function {
    pub path: Path,
    /// Path to the self-type of the function.
    /// If the function is a method, this is the path of the type of its impl block.
    pub self_type_path: Option<Path>,
    pub ret: Type,
    pub args: Vec<FunctionArgument>,
    pub extern_decl: bool,
    pub cfg: Option<Cfg>,
    pub annotations: AnnotationSet,
    pub documentation: Documentation,
    pub never_return: bool,
}

pub struct FunctionModel {
    pub path: Seq<char>,
    pub self_type_path: Option<Seq<char>>,
    pub ret: TypeModel,
    pub args: Seq<FunctionArgumentModel>,
    pub extern_decl: bool,
    pub cfg: Option<Seq<char>>,
    pub annotations: AnnotationSetModel,
    pub documentation: Seq<Seq<char>>,
    pub never_return: bool,
}

impl View for Function {
    type V = FunctionModel;

    open spec fn view(&self) -> FunctionModel {
        FunctionModel {
            path: self.path@,
            self_type_path: view_of(self.self_type_path),
            ret: self.ret@,
            args: views(self.args@),
            extern_decl: self.extern_decl,
            cfg: view_of(self.cfg),
            annotations: self.annotations@,
            documentation: self.documentation@,
            never_return: self.never_return,
        }
    }
}

pub fn clone_arguments(v: &Vec<FunctionArgument>) -> (res: Vec<FunctionArgument>)
    ensures
        views(res@) == views(v@),
{
    let mut out: Vec<FunctionArgument> = Vec::new();
    let mut i: usize = 0;
    while i < v.len()
        invariant
            i <= v.len(),
            out.len() == i,
            forall|j: int| 0 <= j < i ==> out[j]@ == v[j]@,
        decreases v.len() - i,
    {
        out.push(v[i].clone());
        i += 1;
    }
    assert(views(out@) =~= views(v@));
    out
}

impl Clone for Function {
    fn clone(&self) -> (res: Function)
        ensures
            res@ == self@,
    {
        Function {
            path: self.path.clone(),
            self_type_path: match &self.self_type_path {
                Some(p) => Some(p.clone()),
                None => None,
            },
            ret: self.ret.clone(),
            args: clone_arguments(&self.args),
            extern_decl: self.extern_decl,
            cfg: clone_cfg(&self.cfg),
            annotations: self.annotations.clone(),
            documentation: self.documentation.clone(),
            never_return: self.never_return,
        }
    }
}

pub fn clone_functions(v: &Vec<Function>) -> (res: Vec<Function>)
    ensures
        views(res@) == views(v@),
{
    let mut out: Vec<Function> = Vec::new();
    let mut i: usize = 0;
    while i < v.len()
        invariant
            i <= v.len(),
            out.len() == i,
            forall|j: int| 0 <= j < i ==> out[j]@ == v[j]@,
        decreases v.len() - i,
    {
        out.push(v[i].clone());
        i += 1;
    }
    assert(views(out@) =~= views(v@));
    out
}

impl FunctionModel {
    /// The types of the arguments, in order.
    pub open spec fn arg_types(self) -> Seq<TypeModel> {
        Seq::new(self.args.len(), |i: int| self.args[i].ty)
    }

    /// This function with the types of its arguments replaced by `types`.
    pub open spec fn with_arg_types(self, types: Seq<TypeModel>) -> FunctionModel {
        FunctionModel {
            args: Seq::new(
                self.args.len(),
                |i: int| FunctionArgumentModel { ty: types[i], ..self.args[i] },
            ),
            ..self
        }
    }
}

impl Function {
    pub fn path(&self) -> (p: &Path)
        ensures
            p@ == self@.path,
    {
        &self.path
    }

    /// The types of the arguments, in order.
    pub fn arg_types(&self) -> (res: Vec<Type>)
        ensures
            res.len() == self.args.len(),
            views(res@) == self@.arg_types(),
    {
        let mut out: Vec<Type> = Vec::new();
        let mut i: usize = 0;
        while i < self.args.len()
            invariant
                i <= self.args.len(),
                out.len() == i,
                forall|j: int| 0 <= j < i ==> out[j]@ == self.args[j].ty@,
            decreases self.args.len() - i,
        {
            out.push(self.args[i].ty.clone());
            i += 1;
        }
        assert(views(out@) =~= self@.arg_types());
        out
    }

    /// Replaces the types of the arguments by `types`, in order.
    pub fn set_arg_types(&mut self, types: Vec<Type>)
        requires
            types.len() == old(self).args.len(),
        ensures
            final(self)@ == old(self)@.with_arg_types(views(types@)),
    {
        let ghost all = views(types@);
        let mut args: Vec<FunctionArgument> = Vec::new();
        let mut i: usize = 0;
        while i < self.args.len()
            invariant
                i <= self.args.len(),
                args.len() == i,
                types.len() == self.args.len(),
                views(types@) == all,
                *self == *old(self),
                forall|j: int|
                    0 <= j < i ==> args[j]@ == (FunctionArgumentModel {
                        ty: all[j],
                        ..self.args[j]@
                    }),
            decreases self.args.len() - i,
        {
            args.push(
                FunctionArgument {
                    name: clone_text(&self.args[i].name),
                    ty: types[i].clone(),
                    array_length: clone_text(&self.args[i].array_length),
                },
            );
            i += 1;
        }
        assert(views(args@) =~= old(self)@.with_arg_types(all).args);
        self.args = args;
    }
}

/// The labels of the arguments `args[from..]`, after `acc`: each name with
/// a colon after it. There are none where an argument has no name.
pub open spec fn swift_labels(args: Seq<FunctionArgumentModel>, from: int, acc: Seq<char>)
    -> Option<Seq<char>>
    decreases args.len() - from,
{
    if from < 0 || from >= args.len() {
        Some(acc)
    } else {
        match args[from].name {
            Some(name) => swift_labels(args, from + 1, acc + name + ":"@),
            None => None,
        }
    }
}

/// The name of the member that the function called `path` is of the type
/// called `owner`: `path` without every copy of `owner` at its
/// start, and without the underscores after them.
pub open spec fn swift_member(path: Seq<char>, owner: Seq<char>) -> Seq<char> {
    strip_underscores(strip_repeated(path, owner))
}

impl FunctionModel {
    /// The name under which Swift sees this function.
    ///
    /// A method whose name starts with the name of its type is written as a
    /// member of the type, so that Swift ties the two together. There is no
    /// such name for Cython, nor where an argument has no name.
    pub open spec fn swift_name(self, cfg: ConfigModel) -> Option<Seq<char>> {
        if cfg.language == Language::Cython {
            None
        } else {
            match self.self_type_path {
                Some(owner) => if !owner.is_prefix_of(self.path) {
                    Some(self.path)
                } else {
                    match swift_labels(self.args, 0, Seq::empty()) {
                        Some(labels) => Some(
                            owner + "."@ + swift_member(self.path, owner) + "("@ + labels
                                + ")"@,
                        ),
                        None => None,
                    }
                },
                None => match swift_labels(self.args, 0, Seq::empty()) {
                    Some(labels) => Some(
                        swift_member(self.path, Seq::empty()) + "("@ + labels + ")"@,
                    ),
                    None => None,
                },
            }
        }
    }
}

impl Function {
    fn swift_labels(&self) -> (res: Option<String>)
        ensures
            view_of(res) == swift_labels(self@.args, 0, Seq::empty()),
    {
        let mut out = String::new();
        let mut i: usize = 0;
        while i < self.args.len()
            invariant
                i <= self.args.len(),
                swift_labels(self@.args, 0, Seq::empty()) == swift_labels(
                    self@.args,
                    i as int,
                    out@,
                ),
            decreases self.args.len() - i,
        {
            assert(self@.args[i as int] == self.args[i as int]@);
            match &self.args[i].name {
                Some(name) => {
                    out.append(name.as_str());
                    out.append(":");
                },
                None => {
                    return None;
                },
            }
            i += 1;
        }
        Some(out)
    }

    /// The name under which Swift sees this function.
    pub fn swift_name(&self, config: &Config) -> (res: Option<String>)
        ensures
            view_of(res) == self@.swift_name(config@),
    {
        if config.language == Language::Cython {
            return None;
        }
        // If the symbol name starts with the type name, separate the two
        // components with '.' so that Swift recognises the association
        // between the method and the type
        let mut out = String::new();
        let item_name = match &self.self_type_path {
            Some(owner) => {
                if !starts_with(self.path.name(), owner.name()) {
                    return Some(self.path.name().to_owned());
                }
                out.append(owner.name());
                out.append(".");
                trim_underscores(trim_start_matches(self.path.name(), owner.name()))
            },
            None => trim_underscores(trim_start_matches(self.path.name(), "")),
        };
        proof {
            reveal_strlit("");
        }
        let ghost prefix = out@;
        let item_args = match self.swift_labels() {
            Some(labels) => labels,
            None => {
                return None;
            },
        };
        out.append(item_name);
        out.append("(");
        out.append(item_args.as_str());
        out.append(")");
        assert(out@ =~= prefix + item_name@ + "("@ + item_args@ + ")"@);
        assert(Seq::<char>::empty() + item_name@ =~= item_name@);
        Some(out)
    }
}

} // verus!
