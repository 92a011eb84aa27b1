//! The ways in which a script can fail to parse.

use vstd::prelude::*;
use vstd::string::StringExecFns;

verus! {

/// A parse error as a mathematical value: the view of [`ScparseError`].
pub enum Fault {
    /// A `{` was opened and the text ended before the `}` that closes it.
    BracketNotClosed,
    /// An assignment to the given name has nothing on its right.
    NoRightHandSide(Seq<char>),
    /// Anything else, with a message.
    Unknown(Seq<char>),
}

impl Fault {
    /// The sentence that reports this error.
    pub open spec fn message(self) -> Seq<char> {
        match self {
            Fault::BracketNotClosed => "bracket is not closed"@,
            Fault::NoRightHandSide(name) => "There is no right hand side of "@ + name,
            Fault::Unknown(text) => text,
        }
    }
}

/// Why a script was refused. One error ends the whole parse: nothing of the
/// script is returned beside it.
#[derive(Debug, PartialEq, Eq)]
pub enum ScparseError {
    /// A `{` was opened and the text ended before the `}` that closes it.
    BracketNotClosed,
    /// An assignment to the given name has nothing on its right.
    NoRightHandSide(String),
    /// Anything else, with a message.
    UNKNOWN(String),
}

impl View for ScparseError {
    type V = Fault;

    open spec fn view(&self) -> Fault {
        match self {
            ScparseError::BracketNotClosed => Fault::BracketNotClosed,
            ScparseError::NoRightHandSide(name) => Fault::NoRightHandSide(name@),
            ScparseError::UNKNOWN(text) => Fault::Unknown(text@),
        }
    }
}

impl ScparseError {
    /// The sentence that reports this error.
    pub fn to_string(&self) -> (s: String)
        ensures
            s@ == self@.message(),
    {
        match self {
            ScparseError::BracketNotClosed => "bracket is not closed".to_owned(),
            ScparseError::NoRightHandSide(name) => {
                let mut s = "There is no right hand side of ".to_owned();
                s.append(name.as_str());
                s
            },
            ScparseError::UNKNOWN(text) => text.clone(),
        }
    }

    /// A short name for this family of errors.
    pub fn description(&self) -> (s: &'static str)
        ensures
            s@ == "ScparseError"@,
    {
        "ScparseError"
    }
}

} // verus!
