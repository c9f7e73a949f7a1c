use vstd::prelude::*;
use crate::item::{ItemKind, ItemModel};
use crate::path::Path;
pub use crate::ty::DeclarationType;

verus! {

/// The declaration category of each name that was registered, in the order
/// of registration. A name is registered once: a later registration of the
/// same name changes nothing.
#[derive(Debug)]
pub struct DeclarationTypeResolver {
    types: Vec<(Path, DeclarationType)>,
}

pub type Declarations = Seq<(Seq<char>, DeclarationType)>;

impl View for DeclarationTypeResolver {
    type V = Declarations;

    closed spec fn view(&self) -> Declarations {
        Seq::new(self.types@.len(), |i: int| (self.types@[i].0@, self.types@[i].1))
    }
}

/// The category of the first registration of `name` at or after `from`.
pub open spec fn declared_as(d: Declarations, name: Seq<char>, from: int) -> Option<
    DeclarationType,
>
    decreases d.len() - from,
{
    if from < 0 || from >= d.len() {
        None
    } else if d[from].0 == name {
        Some(d[from].1)
    } else {
        declared_as(d, name, from + 1)
    }
}

/// `d` after `name` is registered as `kind`.
pub open spec fn register(d: Declarations, name: Seq<char>, kind: DeclarationType)
    -> Declarations {
    if declared_as(d, name, 0) is Some {
        d
    } else {
        d.push((name, kind))
    }
}

/// The category under which an item is declared. An opaque item is declared
/// as a struct; constants and globals are not declared as types.
pub open spec fn declaration_of(item: ItemModel) -> Option<DeclarationType> {
    match item.kind {
        ItemKind::Struct => Some(DeclarationType::Struct),
        ItemKind::Enum => Some(DeclarationType::Enum),
        ItemKind::Union => Some(DeclarationType::Union),
        ItemKind::Typedef => Some(DeclarationType::Typedef),
        ItemKind::OpaqueItem => Some(DeclarationType::Struct),
        ItemKind::Constant => None,
        ItemKind::Static => None,
    }
}

/// `d` after the items `items[from..]` are registered, in order.
pub open spec fn register_all(d: Declarations, items: Seq<ItemModel>, from: int) -> Declarations
    decreases items.len() - from,
{
    if from < 0 || from >= items.len() {
        d
    } else {
        let next = match declaration_of(items[from]) {
            Some(kind) => register(d, items[from].path, kind),
            None => d,
        };
        register_all(next, items, from + 1)
    }
}

/// A later registration never changes what was registered before.
pub proof fn lemma_declared_stays(d: Declarations, name: Seq<char>, kind: DeclarationType, other:
    Seq<char>, from: int)
    requires
        0 <= from,
        declared_as(d, other, from) is Some,
    ensures
        declared_as(register(d, name, kind), other, from) == declared_as(d, other, from),
    decreases d.len() - from,
{
    if from < d.len() && d[from].0 != other {
        lemma_declared_stays(d, name, kind, other, from + 1);
    }
}

impl DeclarationTypeResolver {
    pub fn new() -> (res: DeclarationTypeResolver)
        ensures
            res@ == Seq::<(Seq<char>, DeclarationType)>::empty(),
    {
        let res = DeclarationTypeResolver { types: Vec::new() };
        assert(res@ =~= Seq::<(Seq<char>, DeclarationType)>::empty());
        res
    }

    /// The category under which `path` was registered, if it was.
    pub fn type_for(&self, path: &Path) -> (res: Option<DeclarationType>)
        ensures
            res == declared_as(self@, path@, 0),
    {
        let mut i: usize = 0;
        while i < self.types.len()
            invariant
                i <= self.types.len(),
                declared_as(self@, path@, 0) == declared_as(self@, path@, i as int),
            decreases self.types.len() - i,
        {
            if self.types[i].0.equals(path) {
                return Some(self.types[i].1);
            }
            i += 1;
        }
        None
    }

    fn insert(&mut self, path: &Path, kind: DeclarationType)
        ensures
            final(self)@ == register(old(self)@, path@, kind),
    {
        if self.type_for(path).is_none() {
            self.types.push((path.clone(), kind));
            assert(self@ =~= old(self)@.push((path@, kind)));
        }
    }

    pub fn add_enum(&mut self, path: &Path)
        ensures
            final(self)@ == register(old(self)@, path@, DeclarationType::Enum),
    {
        self.insert(path, DeclarationType::Enum);
    }

    pub fn add_struct(&mut self, path: &Path)
        ensures
            final(self)@ == register(old(self)@, path@, DeclarationType::Struct),
    {
        self.insert(path, DeclarationType::Struct);
    }

    pub fn add_union(&mut self, path: &Path)
        ensures
            final(self)@ == register(old(self)@, path@, DeclarationType::Union),
    {
        self.insert(path, DeclarationType::Union);
    }

    pub fn add_typedef(&mut self, path: &Path)
        ensures
            final(self)@ == register(old(self)@, path@, DeclarationType::Typedef),
    {
        self.insert(path, DeclarationType::Typedef);
    }
}

} // verus!
