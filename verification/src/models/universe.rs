use vstd::prelude::*;

verus! {

/// A fictional universe, identified by its name.
#[derive(Debug)]
pub struct Universe {
    pub name: String,
    pub description: String,
}

impl Clone for Universe {
    /// An exact copy: every field of the copy equals the original's.
    fn clone(&self) -> (r: Self)
        ensures
            r == *self,
    {
        Universe { name: self.name.clone(), description: self.description.clone() }
    }
}

/// The mathematical content of a [`Universe`].
#[verifier::ext_equal]
pub ghost struct UniverseView {
    pub name: Seq<char>,
    pub description: Seq<char>,
}

impl View for Universe {
    type V = UniverseView;

    open spec fn view(&self) -> UniverseView {
        UniverseView { name: self.name@, description: self.description@ }
    }
}

} // verus!
