//! The authentication credential, as the library holds it.

use vstd::prelude::*;

verus! {

/// An authentication credential.  The surrounding application wraps this
/// in its secrecy guard; the library only carries it to the transport.
#[derive(Debug, Clone)]
pub struct Token(String);

impl View for Token {
    type V = Seq<char>;

    closed spec fn view(&self) -> Seq<char> {
        self.0@
    }
}

impl Token {
    pub fn new(s: String) -> (r: Token)
        ensures
            r@ == s@,
    {
        Token(s)
    }

    /// The credential's text.
    pub fn as_str(&self) -> (r: &str)
        ensures
            r@ == self@,
    {
        self.0.as_str()
    }

    /// Surrender the credential's text.
    pub fn into_string(self) -> (r: String)
        ensures
            r@ == self@,
    {
        self.0
    }
}

} // verus!
