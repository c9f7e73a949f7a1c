use vstd::prelude::*;

verus! {

/// The name of an item. A path has no structure: two paths are the same path
/// exactly when their names are the same text.
#[derive(Debug, PartialEq, Eq)]
pub struct Path {
    name: String,
}

impl View for Path {
    type V = Seq<char>;

    closed spec fn view(&self) -> Seq<char> {
        self.name@
    }
}

impl Clone for Path {
    fn clone(&self) -> (res: Path)
        ensures
            res@ == self@,
    {
        Path { name: self.name.clone() }
    }
}

impl Path {
    pub fn new(name: &str) -> (p: Path)
        ensures
            p@ == name@,
    {
        Path { name: name.to_owned() }
    }

    pub fn name(&self) -> (s: &str)
        ensures
            s@ == self@,
    {
        self.name.as_str()
    }

    /// Whether both paths carry the same name.
    pub fn equals(&self, other: &Path) -> (b: bool)
        ensures
            b == (self@ == other@),
    {
        self.name == other.name
    }

    /// Whether this path is the name `text`.
    pub fn is_named(&self, text: &str) -> (b: bool)
        ensures
            b == (self@ == text@),
    {
        let other = text.to_owned();
        self.name == other
    }

    /// Replaces the placeholder path `Self` by `path`; any other path is kept.
    /// Returns whether the replacement took place.
    pub fn replace_self_with(&mut self, path: &Path) -> (replaced: bool)
        ensures
            replaced == (old(self)@ == "Self"@),
            final(self)@ == (if replaced { path@ } else { old(self)@ }),
    {
        if !self.is_named("Self") {
            return false;
        }
        *self = path.clone();
        true
    }
}

} // verus!
