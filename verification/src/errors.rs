//! The error that configuration resolution reports.

use vstd::prelude::*;

verus! {

/// Why a configuration was refused.
#[derive(Debug)]
pub enum Error {
    /// A configured value cannot be used; the text says which and why.
    Config(String),
}

impl Error {
    /// The text of the error, as shown to the user.
    pub open spec fn message(self) -> Seq<char> {
        match self {
            Error::Config(text) => text@,
        }
    }

    /// The error as text.
    pub fn to_string(&self) -> (text: String)
        ensures
            text@ == self.message(),
    {
        match self {
            Error::Config(text) => text.clone(),
        }
    }
}

impl Clone for Error {
    fn clone(&self) -> (copy: Error)
        ensures
            copy == *self,
    {
        match self {
            Error::Config(text) => Error::Config(text.clone()),
        }
    }
}

} // verus!
