use vstd::prelude::*;

verus! {

/// A value that can serve as the key of a [`crate::table::Table`]: two keys
/// denote the same record exactly when their views are equal, and `same`
/// decides that.
pub trait Key: View + Sized {
    fn same(&self, other: &Self) -> (r: bool)
        ensures
            r == (self@ == other@),
    ;
}

/// An opaque identity: an owner, a delegate, an administrator or a deployer.
/// Its view is the sequence of characters of its name, and two identities are
/// the same party exactly when their views are equal.
#[derive(Debug, PartialEq, Eq)]
pub struct Identity {
    name: String,
}

impl View for Identity {
    type V = Seq<char>;

    closed spec fn view(&self) -> Seq<char> {
        self.name@
    }
}

impl Identity {
    /// The identity with the given name.
    pub fn new(name: &str) -> (r: Identity)
        ensures
            r@ == name@,
    {
        Identity { name: name.to_owned() }
    }

    /// The identity's name.
    pub fn as_str(&self) -> (r: &str)
        ensures
            r@ == self@,
    {
        self.name.as_str()
    }
}

impl Clone for Identity {
    fn clone(&self) -> (r: Self)
        ensures
            r == *self,
    {
        Identity { name: self.name.clone() }
    }
}

impl Key for Identity {
    fn same(&self, other: &Self) -> (r: bool) {
        self.name == other.name
    }
}

impl Key for String {
    fn same(&self, other: &Self) -> (r: bool) {
        *self == *other
    }
}

} // verus!
