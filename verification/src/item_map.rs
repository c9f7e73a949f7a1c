use vstd::prelude::*;
use crate::item::{ItemContainer, ItemModel};
use crate::model::views;
use crate::path::Path;

verus! {

/// The items of one category, in the order in which they were inserted.
#[derive(Debug, PartialEq, Eq)]
pub struct ItemMap {
    pub items: Vec<ItemContainer>,
}

impl View for ItemMap {
    type V = Seq<ItemModel>;

    open spec fn view(&self) -> Seq<ItemModel> {
        views(self.items@)
    }
}

pub fn clone_items(v: &Vec<ItemContainer>) -> (res: Vec<ItemContainer>)
    ensures
        views(res@) == views(v@),
{
    let mut out: Vec<ItemContainer> = Vec::new();
    let mut i: usize = 0;
    while i < v.len()
        invariant
            i <= v.len(),
            out.len() == i,
            forall|j: int| 0 <= j < i ==> out[j]@ == v[j]@,
        decreases v.len() - i,
    {
        out.push(v[i].clone());
        i += 1;
    }
    assert(views(out@) =~= views(v@));
    out
}

impl Clone for ItemMap {
    fn clone(&self) -> (res: ItemMap)
        ensures
            res@ == self@,
    {
        ItemMap { items: clone_items(&self.items) }
    }
}

/// The test of an item for being called `path`.
pub open spec fn named(path: Seq<char>) -> spec_fn(ItemModel) -> bool {
    |x: ItemModel| x.path == path
}

/// The items of `items` that are called `path`, in order.
pub open spec fn items_named(items: Seq<ItemModel>, path: Seq<char>) -> Seq<ItemModel> {
    items.filter(named(path))
}

/// Whether `item` can join `items`: no item of its name is there yet, or all
/// of them, and `item` too, exist only under a platform condition.
pub open spec fn admits(items: Seq<ItemModel>, item: ItemModel) -> bool {
    forall|i: int|
        0 <= i < items.len() && (#[trigger] items[i]).path == item.path ==> items[i].cfg is Some
            && item.cfg is Some
}

/// `s` up to `i`, filtered, is `s` up to `i + 1`, filtered, but for `s[i]`.
pub proof fn lemma_filter_step<T>(s: Seq<T>, pred: spec_fn(T) -> bool, i: int)
    requires
        0 <= i < s.len(),
    ensures
        s.take(i + 1).filter(pred) == (if pred(s[i]) {
            s.take(i).filter(pred).push(s[i])
        } else {
            s.take(i).filter(pred)
        }),
{
    reveal(Seq::filter);
    assert(s.take(i + 1).drop_last() =~= s.take(i));
}

impl ItemMap {
    pub fn new() -> (res: ItemMap)
        ensures
            res@ == Seq::<ItemModel>::empty(),
    {
        let res = ItemMap { items: Vec::new() };
        assert(res@ =~= Seq::<ItemModel>::empty());
        res
    }

    pub fn len(&self) -> (n: usize)
        ensures
            n == self@.len(),
    {
        self.items.len()
    }

    /// Adds `item` at the end, if the map admits it. Returns whether it did.
    pub fn try_insert(&mut self, item: ItemContainer) -> (inserted: bool)
        ensures
            inserted == admits(old(self)@, item@),
            final(self)@ == (if inserted {
                old(self)@.push(item@)
            } else {
                old(self)@
            }),
    {
        let mut i: usize = 0;
        while i < self.items.len()
            invariant
                i <= self.items.len(),
                *self == *old(self),
                forall|j: int|
                    0 <= j < i && (#[trigger] self@[j]).path == item@.path ==> self@[j].cfg is Some
                        && item@.cfg is Some,
            decreases self.items.len() - i,
        {
            if self.items[i].path.equals(&item.path) && (self.items[i].cfg.is_none()
                || item.cfg.is_none()) {
                assert(self@[i as int].path == item@.path);
                return false;
            }
            i += 1;
        }
        self.items.push(item);
        assert(self@ =~= old(self)@.push(item@));
        true
    }

    /// The items called `path`, if there are any.
    pub fn get_items(&self, path: &Path) -> (res: Option<Vec<ItemContainer>>)
        ensures
            res is Some == (items_named(self@, path@).len() > 0),
            res matches Some(found) ==> views(found@) == items_named(self@, path@),
    {
        let mut out: Vec<ItemContainer> = Vec::new();
        let mut i: usize = 0;
        while i < self.items.len()
            invariant
                i <= self.items.len(),
                views(out@) == items_named(self@.take(i as int), path@),
            decreases self.items.len() - i,
        {
            proof {
                lemma_filter_step(self@, named(path@), i as int);
            }
            if self.items[i].path.equals(path) {
                out.push(self.items[i].clone());
                assert(views(out@) =~= items_named(self@.take(i as int), path@).push(
                    self@[i as int],
                ));
            }
            i += 1;
        }
        assert(self@.take(self.items.len() as int) =~= self@);
        if out.len() == 0 {
            None
        } else {
            Some(out)
        }
    }

    /// The items, in order.
    pub fn to_vec(&self) -> (res: Vec<ItemContainer>)
        ensures
            views(res@) == self@,
    {
        clone_items(&self.items)
    }
}

} // verus!
