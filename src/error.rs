//! The single terminal error of a graph load.
use vstd::prelude::*;

verus! {

/// The first problem met while loading; each carries a readable cause.
#[derive(Debug, Clone)]
pub enum LoadError {
    /// A node name repeats, or takes the name of the synthetic relay.
    DuplicateNode(String),
    /// An edge or initial packet names an undeclared component or selection.
    UnknownEndpoint(String),
    /// An initial-packet directive has no `:` between contract and value.
    MalformedIip(String),
    /// A contract name is empty, or the registry resolved it to nothing.
    MissingDelimiter(String),
    /// A message to or from an outside collaborator could not be exchanged.
    ChannelFault(String),
}

impl LoadError {
    /// The cause carried by the error.
    pub fn message(&self) -> (r: String)
        ensures
            r@ == self.cause(),
    {
        match self {
            LoadError::DuplicateNode(m) => m.clone(),
            LoadError::UnknownEndpoint(m) => m.clone(),
            LoadError::MalformedIip(m) => m.clone(),
            LoadError::MissingDelimiter(m) => m.clone(),
            LoadError::ChannelFault(m) => m.clone(),
        }
    }

    pub open spec fn cause(&self) -> Seq<char> {
        match self {
            LoadError::DuplicateNode(m) => m@,
            LoadError::UnknownEndpoint(m) => m@,
            LoadError::MalformedIip(m) => m@,
            LoadError::MissingDelimiter(m) => m@,
            LoadError::ChannelFault(m) => m@,
        }
    }
}

} // verus!
