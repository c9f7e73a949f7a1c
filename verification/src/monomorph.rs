use vstd::prelude::*;
use crate::item::{ItemContainer, ItemKind, ItemModel};
use crate::item_map::lemma_filter_step;
use crate::model::views;
use crate::path::Path;
use crate::ty::{GenericPath, GenericPathModel};

verus! {

/// The instantiations that were asked for: for each generic path with its
/// arguments the name of the concrete item that stands for it, and the
/// concrete items themselves, in the order in which they were registered.
#[derive(Debug)]
pub struct Monomorphs {
    replacements: Vec<(GenericPath, Path)>,
    items: Vec<ItemContainer>,
    refused: Vec<Path>,
    cut: bool,
    depth: usize,
}

/// The depth to which instantiations are followed into one another unless
/// another bound is chosen.
pub const DEFAULT_MONOMORPH_DEPTH: usize = 64;

pub struct MonomorphsModel {
    pub replacements: Seq<(GenericPathModel, Seq<char>)>,
    pub items: Seq<ItemModel>,
    /// The names of the items that were used with arguments they do not
    /// take, one for each such use that was met.
    pub refused: Seq<Seq<char>>,
    /// Whether an instantiation was left out because the bound was reached.
    pub cut: bool,
}

impl View for Monomorphs {
    type V = MonomorphsModel;

    closed spec fn view(&self) -> MonomorphsModel {
        MonomorphsModel {
            replacements: Seq::new(
                self.replacements@.len(),
                |i: int| (self.replacements@[i].0@, self.replacements@[i].1@),
            ),
            items: views(self.items@),
            refused: views(self.refused@),
            cut: self.cut,
        }
    }
}

/// The name registered for `key` by the first registration at or after `from`.
pub open spec fn replacement(
    r: Seq<(GenericPathModel, Seq<char>)>,
    key: GenericPathModel,
    from: int,
) -> Option<Seq<char>>
    decreases r.len() - from,
{
    if from < 0 || from >= r.len() {
        None
    } else if r[from].0 == key {
        Some(r[from].1)
    } else {
        replacement(r, key, from + 1)
    }
}

/// The test of an item for being of the category `kind`.
pub open spec fn of_kind(kind: ItemKind) -> spec_fn(ItemModel) -> bool {
    |x: ItemModel| x.kind == kind
}

impl MonomorphsModel {
    pub open spec fn empty() -> MonomorphsModel {
        MonomorphsModel {
            replacements: Seq::empty(),
            items: Seq::empty(),
            refused: Seq::empty(),
            cut: false,
        }
    }

    pub open spec fn contains(self, key: GenericPathModel) -> bool {
        replacement(self.replacements, key, 0) is Some
    }

    /// The name of the concrete item that stands for `key`.
    pub open spec fn mangle_path(self, key: GenericPathModel) -> Option<Seq<char>> {
        replacement(self.replacements, key, 0)
    }

    /// The registry after `name` is registered as the concrete item that
    /// stands for `key`.
    pub open spec fn register(self, key: GenericPathModel, name: Seq<char>) -> MonomorphsModel {
        MonomorphsModel { replacements: self.replacements.push((key, name)), ..self }
    }

    /// The registry after a use of the item called `name` was refused.
    pub open spec fn refuse(self, name: Seq<char>) -> MonomorphsModel {
        MonomorphsModel { refused: self.refused.push(name), ..self }
    }

    /// The registry after an instantiation was left out at the bound.
    pub open spec fn stopped(self) -> MonomorphsModel {
        MonomorphsModel { cut: true, ..self }
    }

    /// The registry after the concrete item `item` is added.
    pub open spec fn with_item(self, item: ItemModel) -> MonomorphsModel {
        MonomorphsModel { items: self.items.push(item), ..self }
    }

    /// The concrete items of the category `kind`, in order.
    pub open spec fn of_kind(self, kind: ItemKind) -> Seq<ItemModel> {
        self.items.filter(of_kind(kind))
    }
}

impl Default for Monomorphs {
    fn default() -> (res: Monomorphs)
        ensures
            res@ == MonomorphsModel::empty(),
            res.depth_limit() == DEFAULT_MONOMORPH_DEPTH,
    {
        Monomorphs::with_depth(DEFAULT_MONOMORPH_DEPTH)
    }
}

impl Monomorphs {
    /// A registry that holds nothing yet and follows instantiations up to
    /// `depth` deep into one another.
    pub fn with_depth(depth: usize) -> (res: Monomorphs)
        ensures
            res@ == MonomorphsModel::empty(),
            res.depth_limit() == depth,
    {
        let res = Monomorphs {
            replacements: Vec::new(),
            items: Vec::new(),
            refused: Vec::new(),
            cut: false,
            depth,
        };
        assert(res@.replacements =~= Seq::empty());
        assert(res@.items =~= Seq::empty());
        assert(res@.refused =~= Seq::empty());
        res
    }

    /// The depth to which instantiations are followed into one another.
    pub closed spec fn depth_limit(&self) -> nat {
        self.depth as nat
    }

    pub fn depth(&self) -> (d: usize)
        ensures
            d == self.depth_limit(),
    {
        self.depth
    }

    /// The name of the concrete item that stands for `path`, if one was
    /// registered.
    pub fn mangle_path(&self, path: &GenericPath) -> (res: Option<&Path>)
        ensures
            crate::model::view_of(res) == self@.mangle_path(path@),
    {
        let mut i: usize = 0;
        while i < self.replacements.len()
            invariant
                i <= self.replacements.len(),
                replacement(self@.replacements, path@, 0) == replacement(
                    self@.replacements,
                    path@,
                    i as int,
                ),
            decreases self.replacements.len() - i,
        {
            if self.replacements[i].0.equals(path) {
                return Some(&self.replacements[i].1);
            }
            i += 1;
        }
        None
    }

    pub fn contains(&self, path: &GenericPath) -> (b: bool)
        ensures
            b == self@.contains(path@),
    {
        self.mangle_path(path).is_some()
    }

    /// How many instantiations are registered.
    pub fn len(&self) -> (n: usize)
        ensures
            n == self@.replacements.len(),
    {
        self.replacements.len()
    }

    /// Registers `name` as the concrete item that stands for `key`.
    pub fn register(&mut self, key: GenericPath, name: Path)
        ensures
            final(self)@ == old(self)@.register(key@, name@),
            final(self).depth_limit() == old(self).depth_limit(),
    {
        self.replacements.push((key, name));
        assert(self@.replacements =~= old(self)@.replacements.push((key@, name@)));
    }

    /// Records that a use of the item called `name` was refused.
    pub fn refuse(&mut self, name: Path)
        ensures
            final(self)@ == old(self)@.refuse(name@),
            final(self).depth_limit() == old(self).depth_limit(),
    {
        self.refused.push(name);
        assert(self@.refused =~= old(self)@.refused.push(name@));
    }

    /// Records that an instantiation was left out at the bound.
    pub fn stop(&mut self)
        ensures
            final(self)@ == old(self)@.stopped(),
            final(self).depth_limit() == old(self).depth_limit(),
    {
        self.cut = true;
    }

    /// The names of the items that were used with arguments they do not
    /// take.
    pub fn refused(&self) -> (res: &Vec<Path>)
        ensures
            views(res@) == self@.refused,
    {
        &self.refused
    }

    /// Whether an instantiation was left out because the bound was reached.
    pub fn was_cut(&self) -> (b: bool)
        ensures
            b == self@.cut,
    {
        self.cut
    }

    /// Adds the concrete item `item`.
    pub fn push(&mut self, item: ItemContainer)
        ensures
            final(self)@ == old(self)@.with_item(item@),
            final(self).depth_limit() == old(self).depth_limit(),
    {
        self.items.push(item);
        assert(self@.items =~= old(self)@.items.push(item@));
    }

    /// The concrete items of the category `kind`, in the order in which they
    /// were registered.
    pub fn of_kind(&self, kind: ItemKind) -> (res: Vec<ItemContainer>)
        ensures
            views(res@) == self@.of_kind(kind),
    {
        let mut out: Vec<ItemContainer> = Vec::new();
        let mut i: usize = 0;
        while i < self.items.len()
            invariant
                i <= self.items.len(),
                views(out@) == self@.items.take(i as int).filter(of_kind(kind)),
            decreases self.items.len() - i,
        {
            proof {
                lemma_filter_step(self@.items, of_kind(kind), i as int);
            }
            if self.items[i].kind == kind {
                out.push(self.items[i].clone());
                assert(views(out@) =~= self@.items.take(i as int).filter(of_kind(kind)).push(
                    self@.items[i as int],
                ));
            }
            i += 1;
        }
        assert(self@.items.take(self.items.len() as int) =~= self@.items);
        out
    }
}

} // verus!
