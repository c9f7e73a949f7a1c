use vstd::prelude::*;
use crate::path::Path;

verus! {

/// The declaration category under which a name is referenced.
#[derive(Clone, Copy, Debug, PartialEq, Eq, Structural)]
pub enum DeclarationType {
    Struct,
    Enum,
    Union,
    Typedef,
}

/// Width class of an integer primitive.
#[derive(Clone, Copy, Debug, PartialEq, Eq, Structural)]
pub enum IntKind {
    Short,
    Int,
    Long,
    LongLong,
    SizeT,
    Size,
    B8,
    B16,
    B32,
    B64,
}

/// A primitive type of the target language.
#[derive(Clone, Copy, Debug, PartialEq, Eq, Structural)]
pub enum PrimitiveType {
    Void,
    Bool,
    Char,
    SChar,
    UChar,
    Char32,
    Float,
    Double,
    VaList,
    PtrDiffT,
    Integer { zeroable: bool, signed: bool, kind: IntKind },
}

/// A constant expression used as an array length or a const generic argument.
#[derive(Debug, PartialEq, Eq)]
pub enum ConstExpr {
    Name(String),
    Value(String),
}

pub enum ConstExprModel {
    Name(Seq<char>),
    Value(Seq<char>),
}

impl View for ConstExpr {
    type V = ConstExprModel;

    open spec fn view(&self) -> ConstExprModel {
        match self {
            ConstExpr::Name(s) => ConstExprModel::Name(s@),
            ConstExpr::Value(s) => ConstExprModel::Value(s@),
        }
    }
}

impl Clone for ConstExpr {
    fn clone(&self) -> (res: ConstExpr)
        ensures
            res@ == self@,
    {
        match self {
            ConstExpr::Name(s) => ConstExpr::Name(s.clone()),
            ConstExpr::Value(s) => ConstExpr::Value(s.clone()),
        }
    }
}

impl ConstExpr {
    /// The constant that stands in place of this one under `mappings`: what
    /// is bound to its name, where it is a bound name, and itself otherwise.
    pub fn specialize(&self, mappings: &[(&Path, &GenericArgument)]) -> (res: ConstExpr)
        ensures
            res@ == specialize_const(self@, bindings_model(mappings@)),
    {
        match self {
            ConstExpr::Name(name) => match find_const_binding(mappings, name.as_str()) {
                Some(e) => e,
                None => self.clone(),
            },
            ConstExpr::Value(_) => self.clone(),
        }
    }

    pub fn equals(&self, other: &ConstExpr) -> (b: bool)
        ensures
            b == (self@ == other@),
    {
        match (self, other) {
            (ConstExpr::Name(a), ConstExpr::Name(b)) => *a == *b,
            (ConstExpr::Value(a), ConstExpr::Value(b)) => *a == *b,
            _ => false,
        }
    }
}

/// A type expression.
#[derive(Debug, PartialEq, Eq)]
pub enum Type {
    Ptr { ty: Box<Type>, is_const: bool, is_nullable: bool, is_ref: bool },
    Path(GenericPath),
    Primitive(PrimitiveType),
    Array(Box<Type>, ConstExpr),
    FuncPtr { ret: Box<Type>, args: Vec<Type>, is_nullable: bool, never_return: bool },
}

/// A path together with the generic arguments it is applied to.
#[derive(Debug, PartialEq, Eq)]
pub struct GenericPath {
    pub path: Path,
    pub export_name: String,
    pub generics: Vec<GenericArgument>,
    pub ctype: Option<DeclarationType>,
}

/// An argument passed to a generic item: a type or a constant expression.
///
/// An argument written as a bare name is always held as a `Type`, even where
/// the name is that of a const parameter.
#[derive(Debug, PartialEq, Eq)]
pub enum GenericArgument {
    Type(Type),
    Const(ConstExpr),
}

pub enum TypeModel {
    Ptr { ty: Box<TypeModel>, is_const: bool, is_nullable: bool, is_ref: bool },
    Path(GenericPathModel),
    Primitive(PrimitiveType),
    Array(Box<TypeModel>, ConstExprModel),
    FuncPtr { ret: Box<TypeModel>, args: Seq<TypeModel>, is_nullable: bool, never_return: bool },
}

pub struct GenericPathModel {
    pub path: Seq<char>,
    pub export_name: Seq<char>,
    pub generics: Seq<GenericArgumentModel>,
    pub ctype: Option<DeclarationType>,
}

pub enum GenericArgumentModel {
    Type(TypeModel),
    Const(ConstExprModel),
}

pub open spec fn type_model(t: Type) -> TypeModel
    decreases t,
{
    match t {
        Type::Ptr { ty, is_const, is_nullable, is_ref } => TypeModel::Ptr {
            ty: Box::new(type_model(*ty)),
            is_const,
            is_nullable,
            is_ref,
        },
        Type::Path(p) => TypeModel::Path(
            GenericPathModel {
                path: p.path@,
                export_name: p.export_name@,
                generics: args_model(p.generics@),
                ctype: p.ctype,
            },
        ),
        Type::Primitive(p) => TypeModel::Primitive(p),
        Type::Array(ty, c) => TypeModel::Array(Box::new(type_model(*ty)), c@),
        Type::FuncPtr { ret, args, is_nullable, never_return } => TypeModel::FuncPtr {
            ret: Box::new(type_model(*ret)),
            args: types_model(args@),
            is_nullable,
            never_return,
        },
    }
}

pub open spec fn path_model(p: GenericPath) -> GenericPathModel {
    GenericPathModel {
        path: p.path@,
        export_name: p.export_name@,
        generics: args_model(p.generics@),
        ctype: p.ctype,
    }
}

pub open spec fn arg_model(a: GenericArgument) -> GenericArgumentModel
    decreases a,
{
    match a {
        GenericArgument::Type(t) => GenericArgumentModel::Type(type_model(t)),
        GenericArgument::Const(c) => GenericArgumentModel::Const(c@),
    }
}

pub open spec fn types_model(v: Seq<Type>) -> Seq<TypeModel>
    decreases v,
{
    Seq::new(
        v.len(),
        |i: int|
            if 0 <= i < v.len() {
                type_model(v[i])
            } else {
                arbitrary()
            },
    )
}

pub open spec fn args_model(v: Seq<GenericArgument>) -> Seq<GenericArgumentModel>
    decreases v,
{
    Seq::new(
        v.len(),
        |i: int|
            if 0 <= i < v.len() {
                arg_model(v[i])
            } else {
                arbitrary()
            },
    )
}

impl View for Type {
    type V = TypeModel;

    open spec fn view(&self) -> TypeModel {
        type_model(*self)
    }
}

impl View for GenericPath {
    type V = GenericPathModel;

    open spec fn view(&self) -> GenericPathModel {
        path_model(*self)
    }
}

impl View for GenericArgument {
    type V = GenericArgumentModel;

    open spec fn view(&self) -> GenericArgumentModel {
        arg_model(*self)
    }
}

fn clone_type(t: &Type) -> (res: Type)
    ensures
        res@ == t@,
    decreases t,
{
    match t {
        Type::Ptr { ty, is_const, is_nullable, is_ref } => Type::Ptr {
            ty: Box::new(clone_type(ty)),
            is_const: *is_const,
            is_nullable: *is_nullable,
            is_ref: *is_ref,
        },
        Type::Path(p) => Type::Path(clone_path(p)),
        Type::Primitive(p) => Type::Primitive(*p),
        Type::Array(ty, c) => Type::Array(Box::new(clone_type(ty)), c.clone()),
        Type::FuncPtr { ret, args, is_nullable, never_return } => Type::FuncPtr {
            ret: Box::new(clone_type(ret)),
            args: clone_types(args),
            is_nullable: *is_nullable,
            never_return: *never_return,
        },
    }
}

fn clone_path(p: &GenericPath) -> (res: GenericPath)
    ensures
        res@ == p@,
    decreases p,
{
    GenericPath {
        path: p.path.clone(),
        export_name: p.export_name.clone(),
        generics: clone_args(&p.generics),
        ctype: p.ctype,
    }
}

fn clone_arg(a: &GenericArgument) -> (res: GenericArgument)
    ensures
        res@ == a@,
    decreases a,
{
    match a {
        GenericArgument::Type(t) => GenericArgument::Type(clone_type(t)),
        GenericArgument::Const(c) => GenericArgument::Const(c.clone()),
    }
}

fn clone_types(v: &Vec<Type>) -> (res: Vec<Type>)
    ensures
        types_model(res@) == types_model(v@),
    decreases v,
{
    let mut out: Vec<Type> = Vec::new();
    let mut i: usize = 0;
    while i < v.len()
        invariant
            i <= v.len(),
            out.len() == i,
            forall|j: int| 0 <= j < i ==> out[j]@ == v[j]@,
        decreases v.len() - i,
    {
        out.push(clone_type(&v[i]));
        i += 1;
    }
    assert(types_model(out@) =~= types_model(v@));
    out
}

fn clone_args(v: &Vec<GenericArgument>) -> (res: Vec<GenericArgument>)
    ensures
        args_model(res@) == args_model(v@),
    decreases v,
{
    let mut out: Vec<GenericArgument> = Vec::new();
    let mut i: usize = 0;
    while i < v.len()
        invariant
            i <= v.len(),
            out.len() == i,
            forall|j: int| 0 <= j < i ==> out[j]@ == v[j]@,
        decreases v.len() - i,
    {
        out.push(clone_arg(&v[i]));
        i += 1;
    }
    assert(args_model(out@) =~= args_model(v@));
    out
}


fn equal_types(a: &Type, b: &Type) -> (r: bool)
    ensures
        r == (a@ == b@),
    decreases a,
{
    match (a, b) {
        (
            Type::Ptr { ty: ta, is_const: ca, is_nullable: na, is_ref: ra },
            Type::Ptr { ty: tb, is_const: cb, is_nullable: nb, is_ref: rb },
        ) => *ca == *cb && *na == *nb && *ra == *rb && equal_types(ta, tb),
        (Type::Path(pa), Type::Path(pb)) => equal_paths(pa, pb),
        (Type::Primitive(pa), Type::Primitive(pb)) => *pa == *pb,
        (Type::Array(ta, ca), Type::Array(tb, cb)) => ca.equals(cb) && equal_types(ta, tb),
        (
            Type::FuncPtr { ret: ra, args: aa, is_nullable: na, never_return: va },
            Type::FuncPtr { ret: rb, args: ab, is_nullable: nb, never_return: vb },
        ) => *na == *nb && *va == *vb && equal_types(ra, rb) && equal_type_lists(aa, ab),
        _ => false,
    }
}

fn equal_paths(a: &GenericPath, b: &GenericPath) -> (r: bool)
    ensures
        r == (a@ == b@),
    decreases a,
{
    a.path.equals(&b.path) && a.export_name == b.export_name && a.ctype == b.ctype
        && equal_arg_lists(&a.generics, &b.generics)
}

fn equal_args(a: &GenericArgument, b: &GenericArgument) -> (r: bool)
    ensures
        r == (a@ == b@),
    decreases a,
{
    match (a, b) {
        (GenericArgument::Type(ta), GenericArgument::Type(tb)) => equal_types(ta, tb),
        (GenericArgument::Const(ca), GenericArgument::Const(cb)) => ca.equals(cb),
        _ => false,
    }
}

fn equal_type_lists(a: &Vec<Type>, b: &Vec<Type>) -> (r: bool)
    ensures
        r == (types_model(a@) == types_model(b@)),
    decreases a,
{
    if a.len() != b.len() {
        assert(types_model(a@).len() != types_model(b@).len());
        return false;
    }
    let mut i: usize = 0;
    while i < a.len()
        invariant
            i <= a.len(),
            a.len() == b.len(),
            forall|j: int| 0 <= j < i ==> a[j]@ == b[j]@,
        decreases a.len() - i,
    {
        if !equal_types(&a[i], &b[i]) {
            assert(types_model(a@)[i as int] != types_model(b@)[i as int]);
            return false;
        }
        i += 1;
    }
    assert(types_model(a@) =~= types_model(b@));
    true
}

fn equal_arg_lists(a: &Vec<GenericArgument>, b: &Vec<GenericArgument>) -> (r: bool)
    ensures
        r == (args_model(a@) == args_model(b@)),
    decreases a,
{
    if a.len() != b.len() {
        assert(args_model(a@).len() != args_model(b@).len());
        return false;
    }
    let mut i: usize = 0;
    while i < a.len()
        invariant
            i <= a.len(),
            a.len() == b.len(),
            forall|j: int| 0 <= j < i ==> a[j]@ == b[j]@,
        decreases a.len() - i,
    {
        if !equal_args(&a[i], &b[i]) {
            assert(args_model(a@)[i as int] != args_model(b@)[i as int]);
            return false;
        }
        i += 1;
    }
    assert(args_model(a@) =~= args_model(b@));
    true
}


/// A substitution: parameter names with the arguments bound to them, in
/// declaration order.
pub type Bindings = Seq<(Seq<char>, GenericArgumentModel)>;

pub open spec fn bindings_model(m: Seq<(&Path, &GenericArgument)>) -> Bindings {
    Seq::new(m.len(), |i: int| (m[i].0@, m[i].1@))
}

/// The argument of the first binding at or after `from` whose parameter is `name`.
pub open spec fn first_binding(m: Bindings, name: Seq<char>, from: int) -> Option<
    GenericArgumentModel,
>
    decreases m.len() - from,
{
    if from < 0 || from >= m.len() {
        None
    } else if m[from].0 == name {
        Some(m[from].1)
    } else {
        first_binding(m, name, from + 1)
    }
}

/// The type of the first binding at or after `from` whose parameter is `name`
/// and whose argument is a type.
pub open spec fn first_type_binding(m: Bindings, name: Seq<char>, from: int) -> Option<TypeModel>
    decreases m.len() - from,
{
    if from < 0 || from >= m.len() {
        None
    } else {
        match m[from].1 {
            GenericArgumentModel::Type(t) if m[from].0 == name => Some(t),
            _ => first_type_binding(m, name, from + 1),
        }
    }
}

/// The constant of the first binding at or after `from` whose parameter is
/// `name` and whose argument can stand for a constant: a constant expression,
/// or a bare name.
pub open spec fn first_const_binding(m: Bindings, name: Seq<char>, from: int) -> Option<
    ConstExprModel,
>
    decreases m.len() - from,
{
    if from < 0 || from >= m.len() {
        None
    } else {
        match m[from].1 {
            GenericArgumentModel::Const(e) if m[from].0 == name => Some(e),
            GenericArgumentModel::Type(TypeModel::Path(p)) if m[from].0 == name
                && p.generics.len() == 0 => Some(ConstExprModel::Name(p.path)),
            _ => first_const_binding(m, name, from + 1),
        }
    }
}

pub open spec fn specialize_const(c: ConstExprModel, m: Bindings) -> ConstExprModel {
    match c {
        ConstExprModel::Name(name) => match first_const_binding(m, name, 0) {
            Some(e) => e,
            None => c,
        },
        ConstExprModel::Value(_) => c,
    }
}

/// A path as it is first written: exported under its own name, with no
/// declaration category resolved yet.
pub open spec fn fresh_path(path: Seq<char>, generics: Seq<GenericArgumentModel>) -> GenericPathModel {
    GenericPathModel { path, export_name: path, generics, ctype: None }
}

/// `t` with every bound parameter replaced by its argument.
pub open spec fn specialize_type(t: TypeModel, m: Bindings) -> TypeModel
    decreases t,
{
    match t {
        TypeModel::Ptr { ty, is_const, is_nullable, is_ref } => TypeModel::Ptr {
            ty: Box::new(specialize_type(*ty, m)),
            is_const,
            is_nullable,
            is_ref,
        },
        TypeModel::Path(p) => match first_type_binding(m, p.path, 0) {
            Some(bound) => bound,
            None => TypeModel::Path(fresh_path(p.path, specialize_args(p.generics, m))),
        },
        TypeModel::Primitive(p) => t,
        TypeModel::Array(ty, len) => TypeModel::Array(
            Box::new(specialize_type(*ty, m)),
            specialize_const(len, m),
        ),
        TypeModel::FuncPtr { ret, args, is_nullable, never_return } => TypeModel::FuncPtr {
            ret: Box::new(specialize_type(*ret, m)),
            args: specialize_types(args, m),
            is_nullable,
            never_return,
        },
    }
}

/// `a` with every bound parameter replaced by its argument. A bare name that
/// is bound becomes whatever is bound to it, a constant included.
pub open spec fn specialize_arg(a: GenericArgumentModel, m: Bindings) -> GenericArgumentModel
    decreases a,
{
    match a {
        GenericArgumentModel::Type(t) => {
            let bound = match t {
                TypeModel::Path(p) if p.generics.len() == 0 => first_binding(m, p.path, 0),
                _ => None,
            };
            match bound {
                Some(value) => value,
                None => GenericArgumentModel::Type(specialize_type(t, m)),
            }
        },
        GenericArgumentModel::Const(c) => a,
    }
}

pub open spec fn specialize_types(v: Seq<TypeModel>, m: Bindings) -> Seq<TypeModel>
    decreases v,
{
    Seq::new(
        v.len(),
        |i: int|
            if 0 <= i < v.len() {
                specialize_type(v[i], m)
            } else {
                arbitrary()
            },
    )
}

pub open spec fn specialize_args(v: Seq<GenericArgumentModel>, m: Bindings) -> Seq<
    GenericArgumentModel,
>
    decreases v,
{
    Seq::new(
        v.len(),
        |i: int|
            if 0 <= i < v.len() {
                specialize_arg(v[i], m)
            } else {
                arbitrary()
            },
    )
}

/// The argument that `mappings` binds first to `name`.
pub fn find_binding<'a>(mappings: &[(&Path, &'a GenericArgument)], name: &Path) -> (res: Option<
    &'a GenericArgument,
>)
    ensures
        res is Some == first_binding(bindings_model(mappings@), name@, 0) is Some,
        res matches Some(a) ==> first_binding(bindings_model(mappings@), name@, 0) == Some(a@),
{
    let mut i: usize = 0;
    while i < mappings.len()
        invariant
            i <= mappings.len(),
            first_binding(bindings_model(mappings@), name@, 0) == first_binding(
                bindings_model(mappings@),
                name@,
                i as int,
            ),
        decreases mappings.len() - i,
    {
        if mappings[i].0.equals(name) {
            return Some(mappings[i].1);
        }
        i += 1;
    }
    None
}

fn find_type_binding<'a>(mappings: &[(&Path, &'a GenericArgument)], name: &Path) -> (res: Option<
    &'a Type,
>)
    ensures
        res is Some == first_type_binding(bindings_model(mappings@), name@, 0) is Some,
        res matches Some(t) ==> first_type_binding(bindings_model(mappings@), name@, 0) == Some(
            t@,
        ),
{
    let mut i: usize = 0;
    while i < mappings.len()
        invariant
            i <= mappings.len(),
            first_type_binding(bindings_model(mappings@), name@, 0) == first_type_binding(
                bindings_model(mappings@),
                name@,
                i as int,
            ),
        decreases mappings.len() - i,
    {
        if mappings[i].0.equals(name) {
            if let GenericArgument::Type(t) = mappings[i].1 {
                return Some(t);
            }
        }
        i += 1;
    }
    None
}

fn find_const_binding(mappings: &[(&Path, &GenericArgument)], name: &str) -> (res: Option<
    ConstExpr,
>)
    ensures
        res is Some == first_const_binding(bindings_model(mappings@), name@, 0) is Some,
        res matches Some(c) ==> first_const_binding(bindings_model(mappings@), name@, 0) == Some(
            c@,
        ),
{
    let mut i: usize = 0;
    while i < mappings.len()
        invariant
            i <= mappings.len(),
            first_const_binding(bindings_model(mappings@), name@, 0) == first_const_binding(
                bindings_model(mappings@),
                name@,
                i as int,
            ),
        decreases mappings.len() - i,
    {
        if mappings[i].0.is_named(name) {
            match mappings[i].1 {
                GenericArgument::Const(e) => {
                    return Some(e.clone());
                },
                GenericArgument::Type(Type::Path(p)) => {
                    if p.generics.len() == 0 {
                        return Some(ConstExpr::Name(p.path.name().to_owned()));
                    }
                },
                _ => {},
            }
        }
        i += 1;
    }
    None
}

fn specialize_type_exec(t: &Type, mappings: &[(&Path, &GenericArgument)]) -> (res: Type)
    ensures
        res@ == specialize_type(t@, bindings_model(mappings@)),
    decreases t,
{
    match t {
        Type::Ptr { ty, is_const, is_nullable, is_ref } => {
            let r = Type::Ptr {
                ty: Box::new(specialize_type_exec(ty, mappings)),
                is_const: *is_const,
                is_nullable: *is_nullable,
                is_ref: *is_ref,
            };
            r
        },
        Type::Path(p) => {
            match find_type_binding(mappings, &p.path) {
                Some(bound) => {
                    let r = bound.clone();
                    r
                },
                None => {
                    let generics = specialize_args_exec(&p.generics, mappings);
                    let path = GenericPath {
                        path: p.path.clone(),
                        export_name: p.path.name().to_owned(),
                        generics,
                        ctype: None,
                    };
                    Type::Path(path)
                },
            }
        },
        Type::Primitive(p) => Type::Primitive(*p),
        Type::Array(ty, len) => {
            let r = Type::Array(
                Box::new(specialize_type_exec(ty, mappings)),
                len.specialize(mappings),
            );
            r
        },
        Type::FuncPtr { ret, args, is_nullable, never_return } => {
            let r = Type::FuncPtr {
                ret: Box::new(specialize_type_exec(ret, mappings)),
                args: specialize_types_exec(args, mappings),
                is_nullable: *is_nullable,
                never_return: *never_return,
            };
            r
        },
    }
}

fn specialize_arg_exec(a: &GenericArgument, mappings: &[(&Path, &GenericArgument)]) -> (res:
    GenericArgument)
    ensures
        res@ == specialize_arg(a@, bindings_model(mappings@)),
    decreases a,
{
    match a {
        GenericArgument::Type(t) => {
            if let Type::Path(p) = t {
                if p.generics.len() == 0 {
                    if let Some(value) = find_binding(mappings, &p.path) {
                        return value.clone();
                    }
                }
            }
            GenericArgument::Type(specialize_type_exec(t, mappings))
        },
        GenericArgument::Const(c) => GenericArgument::Const(c.clone()),
    }
}

fn specialize_types_exec(v: &Vec<Type>, mappings: &[(&Path, &GenericArgument)]) -> (res: Vec<Type>)
    ensures
        types_model(res@) == specialize_types(types_model(v@), bindings_model(mappings@)),
    decreases v,
{
    let mut out: Vec<Type> = Vec::new();
    let mut i: usize = 0;
    while i < v.len()
        invariant
            i <= v.len(),
            out.len() == i,
            forall|j: int|
                0 <= j < i ==> out[j]@ == specialize_type(v[j]@, bindings_model(mappings@)),
        decreases v.len() - i,
    {
        out.push(specialize_type_exec(&v[i], mappings));
        i += 1;
    }
    assert(types_model(out@) =~= specialize_types(types_model(v@), bindings_model(mappings@)));
    out
}

fn specialize_args_exec(v: &Vec<GenericArgument>, mappings: &[(&Path, &GenericArgument)]) -> (res:
    Vec<GenericArgument>)
    ensures
        args_model(res@) == specialize_args(args_model(v@), bindings_model(mappings@)),
    decreases v,
{
    let mut out: Vec<GenericArgument> = Vec::new();
    let mut i: usize = 0;
    while i < v.len()
        invariant
            i <= v.len(),
            out.len() == i,
            forall|j: int|
                0 <= j < i ==> out[j]@ == specialize_arg(v[j]@, bindings_model(mappings@)),
        decreases v.len() - i,
    {
        out.push(specialize_arg_exec(&v[i], mappings));
        i += 1;
    }
    assert(args_model(out@) =~= specialize_args(args_model(v@), bindings_model(mappings@)));
    out
}

impl Clone for Type {
    fn clone(&self) -> (res: Type)
        ensures
            res@ == self@,
    {
        clone_type(self)
    }
}

impl Clone for GenericPath {
    fn clone(&self) -> (res: GenericPath)
        ensures
            res@ == self@,
    {
        clone_path(self)
    }
}

impl Clone for GenericArgument {
    fn clone(&self) -> (res: GenericArgument)
        ensures
            res@ == self@,
    {
        clone_arg(self)
    }
}

/// The nullable form of `t`, where `t` is a pointer that is not nullable yet.
pub open spec fn nullable_form(t: TypeModel) -> Option<TypeModel> {
    match t {
        TypeModel::Ptr { ty, is_const, is_nullable, is_ref } if !is_nullable => Some(
            TypeModel::Ptr { ty, is_const, is_nullable: true, is_ref },
        ),
        TypeModel::FuncPtr { ret, args, is_nullable, never_return } if !is_nullable => Some(
            TypeModel::FuncPtr { ret, args, is_nullable: true, never_return },
        ),
        _ => None,
    }
}

/// `t` with its zero value allowed or barred as `zeroable` says, where `t` is
/// an integer for which this is a change.
pub open spec fn zeroable_form(t: TypeModel, zeroable: bool) -> Option<TypeModel> {
    match t {
        TypeModel::Primitive(PrimitiveType::Integer { zeroable: old, signed, kind }) if old
            != zeroable => Some(
            TypeModel::Primitive(PrimitiveType::Integer { zeroable, signed, kind }),
        ),
        _ => None,
    }
}

/// The name that a type is about, looking through pointers.
pub open spec fn root_path(t: TypeModel) -> Option<Seq<char>>
    decreases t,
{
    match t {
        TypeModel::Ptr { ty, .. } => root_path(*ty),
        TypeModel::Path(p) => Some(p.path),
        _ => None,
    }
}

impl Type {
    /// Whether both types are the same type expression.
    pub fn equals(&self, other: &Type) -> (b: bool)
        ensures
            b == (self@ == other@),
    {
        equal_types(self, other)
    }

    /// This type with every parameter that `mappings` binds replaced by its
    /// argument.
    pub fn specialize(&self, mappings: &[(&Path, &GenericArgument)]) -> (res: Type)
        ensures
            res@ == specialize_type(self@, bindings_model(mappings@)),
    {
        specialize_type_exec(self, mappings)
    }

    pub fn make_nullable(&self) -> (res: Option<Type>)
        ensures
            crate::model::view_of(res) == nullable_form(self@),
    {
        match self {
            Type::Ptr { ty, is_const, is_nullable, is_ref } => {
                if *is_nullable {
                    None
                } else {
                    Some(
                        Type::Ptr {
                            ty: Box::new(clone_type(ty)),
                            is_const: *is_const,
                            is_nullable: true,
                            is_ref: *is_ref,
                        },
                    )
                }
            },
            Type::FuncPtr { ret, args, is_nullable, never_return } => {
                if *is_nullable {
                    None
                } else {
                    Some(
                        Type::FuncPtr {
                            ret: Box::new(clone_type(ret)),
                            args: clone_types(args),
                            is_nullable: true,
                            never_return: *never_return,
                        },
                    )
                }
            },
            _ => None,
        }
    }

    pub fn make_zeroable(&self, new_zeroable: bool) -> (res: Option<Type>)
        ensures
            crate::model::view_of(res) == zeroable_form(self@, new_zeroable),
    {
        match self {
            Type::Primitive(PrimitiveType::Integer { zeroable, signed, kind }) => {
                if *zeroable != new_zeroable {
                    Some(
                        Type::Primitive(
                            PrimitiveType::Integer {
                                zeroable: new_zeroable,
                                signed: *signed,
                                kind: *kind,
                            },
                        ),
                    )
                } else {
                    None
                }
            },
            _ => None,
        }
    }

    /// The name that this type is about, looking through pointers.
    pub fn get_root_path(&self) -> (res: Option<Path>)
        ensures
            crate::model::view_of(res) == root_path(self@),
        decreases self,
    {
        match self {
            Type::Ptr { ty, .. } => ty.get_root_path(),
            Type::Path(p) => Some(p.path.clone()),
            _ => None,
        }
    }
}

impl GenericPath {
    /// Whether both are the same path applied to the same arguments.
    pub fn equals(&self, other: &GenericPath) -> (b: bool)
        ensures
            b == (self@ == other@),
    {
        equal_paths(self, other)
    }
}

impl GenericArgument {
    /// Whether both are the same argument.
    pub fn equals(&self, other: &GenericArgument) -> (b: bool)
        ensures
            b == (self@ == other@),
    {
        equal_args(self, other)
    }

    /// This argument with every parameter that `mappings` binds replaced by
    /// its argument.
    pub fn specialize(&self, mappings: &[(&Path, &GenericArgument)]) -> (res: GenericArgument)
        ensures
            res@ == specialize_arg(self@, bindings_model(mappings@)),
    {
        specialize_arg_exec(self, mappings)
    }
}

/// Copies of `v`, in order.
pub fn clone_arg_list(v: &Vec<GenericArgument>) -> (res: Vec<GenericArgument>)
    ensures
        args_model(res@) == args_model(v@),
{
    clone_args(v)
}

/// Both ways of writing the views of a list of types agree.
pub proof fn lemma_types_model_is_views(s: Seq<Type>)
    ensures
        types_model(s) == crate::model::views(s),
{
    assert(types_model(s) =~= crate::model::views(s));
}

} // verus!
