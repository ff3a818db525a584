//! Identifiers of accounts.

use vstd::prelude::*;
use vstd::utf8::encode_utf8;

verus! {

/// An opaque account key: a string, compared exactly as written (no trimming,
/// no case folding). Its view is the string's sequence of characters.
#[derive(Debug, Hash)]
pub struct Id(String);

impl View for Id {
    type V = Seq<char>;

    closed spec fn view(&self) -> Seq<char> {
        self.0@
    }
}

impl Id {
    /// The identifier as text.
    pub fn to_string(&self) -> (text: String)
        ensures
            text@ == self@,
    {
        self.0.clone()
    }

    /// The UTF-8 bytes of the identifier.
    pub fn to_bytes(&self) -> (bytes: Vec<u8>)
        ensures
            bytes@ == encode_utf8(self@),
    {
        self.0.as_str().as_bytes_vec()
    }
}

impl Clone for Id {
    fn clone(&self) -> (id: Self)
        ensures
            id == *self,
    {
        Id(self.0.clone())
    }
}

impl PartialEq for Id {
    fn eq(&self, other: &Id) -> (same: bool) {
        self.0 == other.0
    }
}

impl vstd::std_specs::cmp::PartialEqSpecImpl for Id {
    open spec fn obeys_eq_spec() -> bool {
        true
    }

    open spec fn eq_spec(&self, other: &Id) -> bool {
        self@ == other@
    }
}

impl Eq for Id {

}

impl From<String> for Id {
    fn from(s: String) -> (id: Id)
        ensures
            id@ == s@,
    {
        Id(s)
    }
}

impl vstd::std_specs::convert::FromSpecImpl<String> for Id {
    open spec fn obeys_from_spec() -> bool {
        true
    }

    closed spec fn from_spec(s: String) -> Id {
        Id(s)
    }
}

impl<'a> From<&'a str> for Id {
    fn from(s: &'a str) -> (id: Id)
        ensures
            id@ == s@,
    {
        Id(s.to_string())
    }
}

/// A string slice is copied into a fresh `String`, of which only the
/// characters are known. So `from` states them itself, and `from_spec` stays
/// out of use.
impl<'a> vstd::std_specs::convert::FromSpecImpl<&'a str> for Id {
    open spec fn obeys_from_spec() -> bool {
        false
    }

    closed spec fn from_spec(s: &'a str) -> Id {
        Id(choose|owned: String| owned@ == s@)
    }
}

} // verus!
