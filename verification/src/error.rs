//! What an operation on the graph can fail with.

use crate::backend::describe;
use vstd::prelude::*;
use vstd::string::StringExecFns;

verus! {

/// The failures of the tagging operations.
#[derive(Debug)]
pub enum TagError {
    /// The target is neither an existing path nor a web address; holds the
    /// target.
    Classification(String),
    /// No vertex holds the value that was asked for; holds that value.
    NotFound(String),
    /// No vertex with a property has the identifier that was asked for;
    /// holds the identifier.
    UnknownVertex(u128),
    /// More than one vertex holds a value that was taken to be unique; holds
    /// that value.
    AmbiguousMatch(String),
    /// The store does not accept the name as a type; holds the name.
    InvalidType(String),
    /// The store failed; holds its error.
    Backend(indradb::Error),
}

impl TagError {
    /// What `message` returns for every error but that of the store.
    pub open spec fn text(self) -> Seq<char> {
        match self {
            TagError::Classification(target) => "Found "@ + target@
                + " which is neither a web address nor a path"@,
            TagError::NotFound(value) => "You supplied the property value "@ + value@
                + " which can't be found in the database"@,
            TagError::UnknownVertex(_) => "No vertex with a property has the identifier"@,
            TagError::AmbiguousMatch(value) => "More than one vertex holds the property value "@
                + value@,
            TagError::InvalidType(name) => "The store does not accept the type "@ + name@,
            TagError::Backend(_) => Seq::empty(),
        }
    }

    /// The error in words. For an error of the store the words are the
    /// store's own.
    pub fn message(&self) -> (s: String)
        ensures
            !(self is Backend) ==> s@ == self.text(),
    {
        match self {
            TagError::Classification(target) => {
                let mut s = "Found ".to_owned();
                s.append(target.as_str());
                s.append(" which is neither a web address nor a path");
                s
            },
            TagError::NotFound(value) => {
                let mut s = "You supplied the property value ".to_owned();
                s.append(value.as_str());
                s.append(" which can't be found in the database");
                s
            },
            TagError::UnknownVertex(_) => "No vertex with a property has the identifier".to_owned(),
            TagError::AmbiguousMatch(value) => {
                let mut s = "More than one vertex holds the property value ".to_owned();
                s.append(value.as_str());
                s
            },
            TagError::InvalidType(name) => {
                let mut s = "The store does not accept the type ".to_owned();
                s.append(name.as_str());
                s
            },
            TagError::Backend(e) => describe(e),
        }
    }
}

} // verus!
