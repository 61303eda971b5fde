//! The ways in which building the model of a table can fail.

use vstd::prelude::*;
use vstd::string::*;

verus! {

/// Why no table model was built.
#[derive(Debug)]
pub enum ModelError {
    /// A key refers to a constraint that the constraint rows do not define.
    /// Holds the name of that constraint.
    SchemaInconsistency(String),
    /// The table's name or the name of one of its columns is empty.
    MalformedIdentifier,
    /// No well-formed statement can be made for the table: it has no column.
    SynthesisFailure,
}

impl ModelError {
    /// A line of text that says what went wrong.
    pub fn message(&self) -> (r: String)
        ensures
            r@ == (match *self {
                ModelError::SchemaInconsistency(name) => "no constraint row defines "@ + name@,
                ModelError::MalformedIdentifier => "a table or column name is empty"@,
                ModelError::SynthesisFailure => "a table without columns has no statements"@,
            }),
    {
        match self {
            ModelError::SchemaInconsistency(name) => {
                let mut out = String::from_str("no constraint row defines ");
                out.append(name.as_str());
                out
            },
            ModelError::MalformedIdentifier => String::from_str("a table or column name is empty"),
            ModelError::SynthesisFailure => String::from_str(
                "a table without columns has no statements",
            ),
        }
    }
}

} // verus!
