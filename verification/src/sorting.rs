use vstd::prelude::*;
use vstd::utf8::encode_utf8;
use vstd::string::StringSliceAdditionalSpecFns;
use crate::function::Function;
use crate::item::ItemContainer;
use crate::model::views;

verus! {

/// Whether `a[from..]` comes before or with `b[from..]`, comparing byte by
/// byte; a sequence comes before each of its extensions.
pub open spec fn lex_le(a: Seq<u8>, b: Seq<u8>, from: int) -> bool
    decreases a.len() - from,
{
    if from < 0 || from >= a.len() {
        true
    } else if from >= b.len() {
        false
    } else if a[from] != b[from] {
        a[from] < b[from]
    } else {
        lex_le(a, b, from + 1)
    }
}

/// Whether the name `a` comes before or with the name `b`: names are ordered
/// by the bytes of their UTF-8 form.
pub open spec fn name_le(a: Seq<char>, b: Seq<char>) -> bool {
    lex_le(encode_utf8(a), encode_utf8(b), 0)
}

/// Whether the name `a` comes before or with the name `b`.
pub fn name_le_exec(a: &str, b: &str) -> (r: bool)
    ensures
        r == name_le(a@, b@),
{
    let x = a.as_bytes();
    let y = b.as_bytes();
    let mut i: usize = 0;
    while i < x.len()
        invariant
            i <= x.len(),
            x@ == encode_utf8(a@),
            y@ == encode_utf8(b@),
            lex_le(x@, y@, 0) == lex_le(x@, y@, i as int),
        decreases x.len() - i,
    {
        if i >= y.len() {
            return false;
        }
        if x[i] != y[i] {
            return x[i] < y[i];
        }
        i += 1;
    }
    true
}

/// Something that is ordered by its name.
pub trait Named: View + Sized {
    /// The name by which a value with the view `model` is ordered.
    spec fn key(model: Self::V) -> Seq<char>;

    fn sort_name(&self) -> (s: &str)
        ensures
            s@ == Self::key(self@),
    ;
}

impl Named for ItemContainer {
    open spec fn key(model: crate::item::ItemModel) -> Seq<char> {
        model.path
    }

    fn sort_name(&self) -> (s: &str) {
        self.path.name()
    }
}

impl Named for Function {
    open spec fn key(model: crate::function::FunctionModel) -> Seq<char> {
        model.path
    }

    fn sort_name(&self) -> (s: &str) {
        self.path.name()
    }
}

/// The first position at or after `from` whose element `x` comes before or
/// with; the length of `s` where there is none.
pub open spec fn slot<T: Named>(x: T::V, s: Seq<T::V>, from: int) -> int
    decreases s.len() - from,
{
    if from < 0 || from >= s.len() {
        s.len() as int
    } else if name_le(T::key(x), T::key(s[from])) {
        from
    } else {
        slot::<T>(x, s, from + 1)
    }
}

/// `s` in the order of the names. Elements of the same name keep the order
/// they have in `s`.
pub open spec fn sorted_by_name<T: Named>(s: Seq<T::V>) -> Seq<T::V>
    decreases s.len(),
{
    if s.len() == 0 {
        s
    } else {
        let rest = sorted_by_name::<T>(s.drop_first());
        rest.insert(slot::<T>(s[0], rest, 0), s[0])
    }
}

/// Puts `v` in the order of the names. Elements of the same name keep their
/// order.
pub fn sort_by_name<T: Named>(v: Vec<T>) -> (res: Vec<T>)
    ensures
        views(res@) == sorted_by_name::<T>(views(v@)),
{
    let ghost all = views(v@);
    let mut v = v;
    let mut out: Vec<T> = Vec::new();
    assert(all.subrange(all.len() as int, all.len() as int) =~= Seq::empty());
    assert(views(out@) =~= Seq::empty());
    while v.len() > 0
        invariant
            v.len() <= all.len(),
            views(v@) == all.subrange(0, v.len() as int),
            views(out@) == sorted_by_name::<T>(all.subrange(v.len() as int, all.len() as int)),
        decreases v.len(),
    {
        let ghost n = v.len() as int;
        let ghost sorted = views(out@);
        let ghost before = v@;
        assert(views(before)[n - 1] == all.subrange(0, n)[n - 1]);
        let x = v.pop().unwrap();
        assert(x@ == all[n - 1]);
        assert(all.subrange(n - 1, all.len() as int).drop_first() =~= all.subrange(
            n,
            all.len() as int,
        ));
        let mut j: usize = 0;
        while j < out.len() && !name_le_exec(x.sort_name(), out[j].sort_name())
            invariant
                j <= out.len(),
                sorted == views(out@),
                slot::<T>(x@, sorted, 0) == slot::<T>(x@, sorted, j as int),
            decreases out.len() - j,
        {
            j += 1;
        }
        out.insert(j, x);
        assert(views(out@) =~= sorted.insert(j as int, x@));
        assert(views(v@) =~= all.subrange(0, v.len() as int));
    }
    assert(all.subrange(0, all.len() as int) =~= all);
    out
}

} // verus!
