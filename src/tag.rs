//! Values paired with the name of the struct type they come from.
use vstd::prelude::*;

verus! {

/// A value with a provenance label: the name of the struct type it comes
/// from, or the empty string.
#[derive(Debug, PartialEq)]
pub struct Tagged<T> {
    pub tag: String,
    pub value: T,
}

impl<T: View> View for Tagged<T> {
    type V = (Seq<char>, T::V);

    open spec fn view(&self) -> (Seq<char>, T::V) {
        (self.tag@, self.value@)
    }
}

/// Attaching a label to a value.
pub trait Tag: Sized {
    fn tag(self, s: String) -> (r: Tagged<Self>)
        ensures
            r.tag == s,
            r.value == self,
    ;
}

impl<T> Tag for T {
    fn tag(self, s: String) -> (r: Tagged<T>) {
        Tagged { tag: s, value: self }
    }
}

impl<T> Tagged<T> {
    /// The value without a label.
    pub fn void(t: T) -> (r: Self)
        ensures
            r.tag@ == Seq::<char>::empty(),
            r.value == t,
    {
        Tagged { tag: String::new(), value: t }
    }
}

} // verus!
