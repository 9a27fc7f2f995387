//! Identifiers: values that name an account or a piece of content.
use vstd::prelude::*;

verus! {

/// A value that names something.  Its view is the name; two identifiers name
/// the same thing exactly when their views are equal.
pub trait Identifier: View + Sized {
    /// Tests whether both identifiers carry the same name.
    fn same(&self, other: &Self) -> (r: bool)
        ensures
            r == (self@ == other@),
    ;

    /// A second identifier with the same name.
    fn duplicate(&self) -> (r: Self)
        ensures
            r@ == self@,
    ;
}

impl Identifier for String {
    fn same(&self, other: &Self) -> (r: bool) {
        *self == *other
    }

    fn duplicate(&self) -> (r: Self) {
        self.clone()
    }
}

/// `str`'s `==` from the standard library: two string slices are equal
/// exactly when they hold the same characters.
#[verifier::external_body]
fn str_eq(a: &str, b: &str) -> (r: bool)
    ensures
        r == (a@ == b@),
{
    a == b
}

impl Identifier for &'static str {
    fn same(&self, other: &Self) -> (r: bool) {
        str_eq(*self, *other)
    }

    fn duplicate(&self) -> (r: Self) {
        *self
    }
}

} // verus!
