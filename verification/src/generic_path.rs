use vstd::prelude::*;
use crate::config::{Config, Language};
use crate::model::{view_of, views};
use crate::path::Path;
use crate::ty::{
    args_model, bindings_model, fresh_path, Bindings, GenericArgumentModel, Type, TypeModel,
};
pub use crate::ty::{GenericArgument, GenericPath};

verus! {

/// What a generic parameter ranges over: types, or constants of a type.
#[derive(Debug, PartialEq, Eq)]
pub enum GenericParamType {
    Type,
    Const(Type),
}

pub enum GenericParamTypeModel {
    Type,
    Const(TypeModel),
}

impl View for GenericParamType {
    type V = GenericParamTypeModel;

    open spec fn view(&self) -> GenericParamTypeModel {
        match self {
            GenericParamType::Type => GenericParamTypeModel::Type,
            GenericParamType::Const(t) => GenericParamTypeModel::Const(t@),
        }
    }
}

impl Clone for GenericParamType {
    fn clone(&self) -> (res: GenericParamType)
        ensures
            res@ == self@,
    {
        match self {
            GenericParamType::Type => GenericParamType::Type,
            GenericParamType::Const(t) => GenericParamType::Const(t.clone()),
        }
    }
}

/// A declared generic parameter of an item.
#[derive(Debug, PartialEq, Eq)]
pub struct GenericParam {
    name: Path,
    ty: GenericParamType,
    default: Option<GenericArgument>,
}

pub struct GenericParamModel {
    pub name: Seq<char>,
    pub ty: GenericParamTypeModel,
    pub default: Option<GenericArgumentModel>,
}

impl View for GenericParam {
    type V = GenericParamModel;

    closed spec fn view(&self) -> GenericParamModel {
        GenericParamModel { name: self.name@, ty: self.ty@, default: view_of(self.default) }
    }
}

impl Clone for GenericParam {
    fn clone(&self) -> (res: GenericParam)
        ensures
            res@ == self@,
    {
        GenericParam {
            name: self.name.clone(),
            ty: self.ty.clone(),
            default: match &self.default {
                Some(a) => Some(a.clone()),
                None => None,
            },
        }
    }
}

impl GenericParam {
    pub fn new(name: Path, ty: GenericParamType, default: Option<GenericArgument>) -> (p:
        GenericParam)
        ensures
            p@ == (GenericParamModel { name: name@, ty: ty@, default: view_of(default) }),
    {
        GenericParam { name, ty, default }
    }

    pub fn new_type_param(name: &str) -> (p: GenericParam)
        ensures
            p@ == (GenericParamModel {
                name: name@,
                ty: GenericParamTypeModel::Type,
                default: None,
            }),
    {
        GenericParam { name: Path::new(name), ty: GenericParamType::Type, default: None }
    }

    pub fn name(&self) -> (n: &Path)
        ensures
            n@ == self@.name,
    {
        &self.name
    }

    pub fn ty(&self) -> (t: &GenericParamType)
        ensures
            t@ == self@.ty,
    {
        &self.ty
    }

    pub fn default(&self) -> (d: Option<&GenericArgument>)
        ensures
            view_of(d) == self@.default,
    {
        self.default.as_ref()
    }
}

/// The declared generic parameters of an item, in order. Arguments are bound
/// to them by position.
#[derive(Debug, PartialEq, Eq)]
pub struct GenericParams(pub Vec<GenericParam>);

impl View for GenericParams {
    type V = Seq<GenericParamModel>;

    open spec fn view(&self) -> Seq<GenericParamModel> {
        views(self.0@)
    }
}

impl Clone for GenericParams {
    fn clone(&self) -> (res: GenericParams)
        ensures
            res@ == self@,
    {
        let mut out: Vec<GenericParam> = Vec::new();
        let mut i: usize = 0;
        while i < self.0.len()
            invariant
                i <= self.0.len(),
                out.len() == i,
                forall|j: int| 0 <= j < i ==> out[j]@ == self.0[j]@,
            decreases self.0.len() - i,
        {
            out.push(self.0[i].clone());
            i += 1;
        }
        assert(views(out@) =~= views(self.0@));
        GenericParams(out)
    }
}

/// Whether `args` can be bound to `params`: there are no more arguments than
/// parameters, and every parameter left without one has a default.
pub open spec fn can_bind(params: Seq<GenericParamModel>, args: Seq<GenericArgumentModel>) -> bool {
    &&& args.len() <= params.len()
    &&& forall|i: int| args.len() <= i < params.len() ==> (#[trigger] params[i]).default is Some
}

/// Each parameter with its argument: the one supplied at its position, or
/// else its default.
pub open spec fn bind(params: Seq<GenericParamModel>, args: Seq<GenericArgumentModel>) -> Bindings {
    Seq::new(
        params.len(),
        |i: int|
            (
                params[i].name,
                if i < args.len() {
                    args[i]
                } else {
                    params[i].default->0
                },
            ),
    )
}

/// Whether `name` is one of the parameters.
pub open spec fn declares(params: Seq<GenericParamModel>, name: Seq<char>) -> bool {
    exists|i: int| 0 <= i < params.len() && (#[trigger] params[i]).name == name
}

/// The arguments that name each parameter by itself.
pub open spec fn identity_args(params: Seq<GenericParamModel>) -> Seq<GenericArgumentModel> {
    Seq::new(
        params.len(),
        |i: int|
            GenericArgumentModel::Type(
                TypeModel::Path(fresh_path(params[i].name, Seq::empty())),
            ),
    )
}

/// The arguments to bind where `args` were supplied: `args`, or, where none
/// were supplied to an item that has parameters, the parameters themselves.
pub open spec fn effective_args(params: Seq<GenericParamModel>, args: Seq<GenericArgumentModel>)
    -> Seq<GenericArgumentModel> {
    if args.len() == 0 && params.len() > 0 {
        identity_args(params)
    } else {
        args
    }
}

impl GenericParams {
    pub fn new() -> (res: GenericParams)
        ensures
            res@ == Seq::<GenericParamModel>::empty(),
    {
        let res = GenericParams(Vec::new());
        assert(res@ =~= Seq::<GenericParamModel>::empty());
        res
    }

    pub fn len(&self) -> (n: usize)
        ensures
            n == self@.len(),
    {
        self.0.len()
    }

    pub fn is_empty(&self) -> (b: bool)
        ensures
            b == (self@.len() == 0),
    {
        self.0.len() == 0
    }

    /// Whether a parameter is called `name`.
    pub fn declares(&self, name: &Path) -> (b: bool)
        ensures
            b == declares(self@, name@),
    {
        let mut i: usize = 0;
        while i < self.0.len()
            invariant
                i <= self.0.len(),
                forall|j: int| 0 <= j < i ==> self@[j].name != name@,
            decreases self.0.len() - i,
        {
            if self.0[i].name.equals(name) {
                assert(self@[i as int].name == name@);
                return true;
            }
            i += 1;
        }
        false
    }

    /// Whether `arguments` can be bound to these parameters.
    pub fn accepts(&self, arguments: &[GenericArgument]) -> (b: bool)
        ensures
            b == can_bind(self@, args_model(arguments@)),
    {
        if arguments.len() > self.0.len() {
            return false;
        }
        let mut i: usize = arguments.len();
        while i < self.0.len()
            invariant
                arguments.len() <= i <= self.0.len(),
                forall|j: int| arguments.len() <= j < i ==> (#[trigger] self@[j]).default is Some,
            decreases self.0.len() - i,
        {
            if self.0[i].default.is_none() {
                assert(self@[i as int].default is None);
                return false;
            }
            i += 1;
        }
        true
    }

    /// Associate each parameter with an argument.
    pub fn call<'out>(&'out self, item_name: &str, arguments: &'out [GenericArgument]) -> (res:
        Vec<(&'out Path, &'out GenericArgument)>)
        requires
            can_bind(self@, args_model(arguments@)),
        ensures
            bindings_model(res@) == bind(self@, args_model(arguments@)),
    {
        let mut out: Vec<(&'out Path, &'out GenericArgument)> = Vec::new();
        let mut i: usize = 0;
        while i < self.0.len()
            invariant
                i <= self.0.len(),
                out.len() == i,
                can_bind(self@, args_model(arguments@)),
                forall|j: int|
                    0 <= j < i ==> out[j].0@ == self.0[j].name@ && out[j].1@ == (if j
                        < arguments.len() {
                        arguments[j]@
                    } else {
                        self@[j].default->0
                    }),
            decreases self.0.len() - i,
        {
            let param = &self.0[i];
            if i < arguments.len() {
                out.push((&param.name, &arguments[i]));
            } else {
                assert(self@[i as int].default is Some);
                match &param.default {
                    Some(arg) => {
                        out.push((&param.name, arg));
                    },
                    None => {},
                }
            }
            i += 1;
        }
        assert(bindings_model(out@) =~= bind(self@, args_model(arguments@)));
        out
    }
}

/// The arguments to bind against an item's parameters. Where none are
/// supplied, each parameter is bound to its own name, so that `call` can be
/// used where nothing has been instantiated.
pub struct MaybeDefaultGenericAguments<'a> {
    generics: &'a [GenericArgument],
    defaults: Option<Vec<GenericArgument>>,
}

impl<'a> View for MaybeDefaultGenericAguments<'a> {
    type V = Seq<GenericArgumentModel>;

    closed spec fn view(&self) -> Seq<GenericArgumentModel> {
        match self.defaults {
            Some(d) => args_model(d@),
            None => args_model(self.generics@),
        }
    }
}

impl<'a> MaybeDefaultGenericAguments<'a> {
    pub fn new(params: &GenericParams, generics: &'a [GenericArgument]) -> (res: Self)
        ensures
            res@ == effective_args(params@, args_model(generics@)),
    {
        let defaults = if generics.len() == 0 && !params.is_empty() {
            let mut out: Vec<GenericArgument> = Vec::new();
            let mut i: usize = 0;
            while i < params.0.len()
                invariant
                    i <= params.0.len(),
                    out.len() == i,
                    forall|j: int| 0 <= j < i ==> out[j]@ == identity_args(params@)[j],
                decreases params.0.len() - i,
            {
                let path = GenericPath::new(params.0[i].name.clone(), Vec::new());
                assert(path@.generics =~= Seq::empty());
                out.push(GenericArgument::Type(Type::Path(path)));
                i += 1;
            }
            assert(args_model(out@) =~= identity_args(params@));
            Some(out)
        } else {
            None
        };
        Self { generics, defaults }
    }

    pub fn as_slice(&self) -> (res: &[GenericArgument])
        ensures
            args_model(res@) == self@,
    {
        match &self.defaults {
            Some(d) => d.as_slice(),
            None => self.generics,
        }
    }
}

impl GenericPath {
    pub fn new(path: Path, generics: Vec<GenericArgument>) -> (res: GenericPath)
        ensures
            res@ == fresh_path(path@, args_model(generics@)),
    {
        let export_name = path.name().to_owned();
        GenericPath { path, export_name, generics, ctype: None }
    }

    /// The path that stands for the type an `impl` block is written for.
    pub fn self_path() -> (res: GenericPath)
        ensures
            res@ == fresh_path("Self"@, Seq::empty()),
    {
        let res = GenericPath::new(Path::new("Self"), Vec::new());
        assert(res@.generics =~= Seq::empty());
        res
    }
}

/// What is written for the parameter `p` in the head of a template.
/// `rendered` is what the writer of declarations gives for the parameter:
/// for a type parameter its default type, for a const parameter its
/// declaration.
///
/// A parameter without a default gets a default that means nothing where
/// `with_default` asks for one.
pub open spec fn template_item(p: GenericParamModel, rendered: Seq<char>, with_default: bool)
    -> Seq<char> {
    match p.ty {
        GenericParamTypeModel::Type => "typename "@ + p.name + (match p.default {
            Some(GenericArgumentModel::Type(_)) => " = "@ + rendered,
            _ => if with_default {
                " = void"@
            } else {
                Seq::empty()
            },
        }),
        GenericParamTypeModel::Const(_) => rendered + (match p.default {
            Some(GenericArgumentModel::Const(expr)) => " = "@ + crate::mangle::const_text(expr),
            _ => if with_default {
                " = 0"@
            } else {
                Seq::empty()
            },
        }),
    }
}

/// The text at the position `i` of `texts`; the empty text where there is
/// none.
pub open spec fn text_at(texts: Seq<Seq<char>>, i: int) -> Seq<char> {
    if 0 <= i < texts.len() {
        texts[i]
    } else {
        Seq::empty()
    }
}

/// What is written for the parameters `params[from..]`, after `acc`, with a
/// comma between two parameters.
pub open spec fn template_items(
    params: Seq<GenericParamModel>,
    rendered: Seq<Seq<char>>,
    from: int,
    with_default: bool,
    acc: Seq<char>,
) -> Seq<char>
    decreases params.len() - from,
{
    if from < 0 || from >= params.len() {
        acc
    } else {
        template_items(
            params,
            rendered,
            from + 1,
            with_default,
            acc + (if from != 0 {
                ", "@
            } else {
                Seq::empty()
            }) + template_item(params[from], text_at(rendered, from), with_default),
        )
    }
}

/// The head of the template that stands for an item with the parameters
/// `params`: a line of its own in C++, and nothing in a language without
/// templates or for an item without parameters.
pub open spec fn template_head(
    params: Seq<GenericParamModel>,
    language: Language,
    rendered: Seq<Seq<char>>,
    with_default: bool,
) -> Seq<char> {
    if params.len() > 0 && language == Language::Cxx {
        template_items(params, rendered, 0, with_default, "template<"@) + ">"@ + "\n"@
    } else {
        Seq::empty()
    }
}

impl GenericParams {
    /// The head of the template that stands for an item with these
    /// parameters. `rendered` holds, for each parameter, what the writer of
    /// declarations gives for it: for a type parameter its default type, for
    /// a const parameter its declaration.
    pub fn write_internal(&self, config: &Config, rendered: &Vec<String>, with_default: bool) -> (res:
        String)
        ensures
            res@ == template_head(self@, config@.language, views(rendered@), with_default),
    {
        let mut out = String::new();
        if !self.0.is_empty() && config.language == Language::Cxx {
            out.append("template<");
            assert(out@ =~= "template<"@);
            let mut i: usize = 0;
            while i < self.0.len()
                invariant
                    i <= self.0.len(),
                    template_items(self@, views(rendered@), 0, with_default, "template<"@)
                        == template_items(self@, views(rendered@), i as int, with_default, out@),
                decreases self.0.len() - i,
            {
                let ghost before = out@;
                let item = &self.0[i];
                assert(self@[i as int] == item@);
                let text = if i < rendered.len() {
                    rendered[i].as_str()
                } else {
                    proof {
                        reveal_strlit("");
                    }
                    ""
                };
                assert(text@ =~= text_at(views(rendered@), i as int));
                if i != 0 {
                    out.append(", ");
                }
                let ghost middle = out@;
                match &item.ty {
                    GenericParamType::Type => {
                        out.append("typename ");
                        out.append(item.name.name());
                        if let Some(GenericArgument::Type(_)) = &item.default {
                            out.append(" = ");
                            out.append(text);
                        } else if with_default {
                            out.append(" = void");
                        }
                    },
                    GenericParamType::Const(_) => {
                        out.append(text);
                        if let Some(GenericArgument::Const(expr)) = &item.default {
                            out.append(" = ");
                            out.append(
                                match expr {
                                    crate::ty::ConstExpr::Name(n) => n.as_str(),
                                    crate::ty::ConstExpr::Value(v) => v.as_str(),
                                },
                            );
                        } else if with_default {
                            out.append(" = 0");
                        }
                    },
                }
                assert(out@ =~= middle + template_item(
                    self@[i as int],
                    text_at(views(rendered@), i as int),
                    with_default,
                ));
                assert(middle =~= before + (if i != 0 {
                    ", "@
                } else {
                    Seq::empty()
                }));
                i += 1;
            }
            out.append(">");
            out.append("\n");
        }
        out
    }

    /// The head of the template that stands for an item with these
    /// parameters, with a default for every parameter.
    pub fn write_with_default(&self, config: &Config, rendered: &Vec<String>) -> (res: String)
        ensures
            res@ == template_head(self@, config@.language, views(rendered@), true),
    {
        self.write_internal(config, rendered, true)
    }
}

} // verus!
