use std::sync::Arc;
use vstd::prelude::*;

verus! {

/// A shared, immutable string: names of players and words in play are held
/// this way so that the many places that mention them share one allocation.
#[derive(Debug, PartialEq, Eq, Hash)]
pub struct ArcString(pub Arc<String>);

impl View for ArcString {
    type V = Seq<char>;

    open spec fn view(&self) -> Seq<char> {
        self.0@
    }
}

/// `Arc::clone` (std): hands out another pointer to the same allocation, so the
/// string it points to is the one that `a` points to.
#[verifier::external_body]
fn share(a: &Arc<String>) -> (r: Arc<String>)
    ensures
        r == *a,
{
    Arc::clone(a)
}

impl Clone for ArcString {
    fn clone(&self) -> (r: Self)
        ensures
            r == *self,
    {
        ArcString(share(&self.0))
    }
}

impl ArcString {
    /// Wraps an owned string.
    pub fn new(s: String) -> (r: ArcString)
        ensures
            r@ == s@,
    {
        ArcString(Arc::new(s))
    }

    /// Copies a string slice into a new shared string.
    pub fn from_str(s: &str) -> (r: ArcString)
        ensures
            r@ == s@,
    {
        ArcString(Arc::new(s.to_owned()))
    }

    /// The text of this string.
    pub fn as_string(&self) -> (r: &String)
        ensures
            r@ == self@,
    {
        &*self.0
    }

    /// Whether two shared strings hold the same text.
    pub fn same_text(&self, other: &ArcString) -> (b: bool)
        ensures
            b == (self@ == other@),
    {
        *self.0 == *other.0
    }

    /// An owned copy of the text.
    pub fn to_owned_string(&self) -> (r: String)
        ensures
            r@ == self@,
    {
        (*self.0).clone()
    }
}

} // verus!
