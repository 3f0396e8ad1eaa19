//! Errors reported by notation parsing and romanizer construction.

use vstd::prelude::*;

verus! {

#[derive(Clone, Debug, Eq, PartialEq)]
pub enum ParseError {
    EmptyInput,
    InvalidRoot(String),
    InvalidBass(String),
    InvalidNote(String),
    AccidentalOutOfRange(String),
}

impl ParseError {
    /// Human-readable message, e.g. `invalid chord root: Q`.
    pub fn to_string(&self) -> (r: String)
        ensures
            r@ == self.message(),
    {
        let mut out = String::new();
        match self {
            ParseError::EmptyInput => {
                out.append("the chord symbol is empty");
            },
            ParseError::InvalidRoot(value) => {
                out.append("invalid chord root: ");
                out.append(value.as_str());
            },
            ParseError::InvalidBass(value) => {
                out.append("invalid slash bass: ");
                out.append(value.as_str());
            },
            ParseError::InvalidNote(value) => {
                out.append("invalid note: ");
                out.append(value.as_str());
            },
            ParseError::AccidentalOutOfRange(value) => {
                out.append("too many accidentals in note: ");
                out.append(value.as_str());
            },
        }
        out
    }

    pub open spec fn message(&self) -> Seq<char> {
        match self {
            ParseError::EmptyInput => "the chord symbol is empty"@,
            ParseError::InvalidRoot(value) => "invalid chord root: "@ + value@,
            ParseError::InvalidBass(value) => "invalid slash bass: "@ + value@,
            ParseError::InvalidNote(value) => "invalid note: "@ + value@,
            ParseError::AccidentalOutOfRange(value) => "too many accidentals in note: "@ + value@,
        }
    }
}

#[derive(Clone, Debug, Eq, PartialEq)]
pub enum AnalysisError {
    InvalidTonic(String),
}

impl AnalysisError {
    pub fn to_string(&self) -> (r: String)
        ensures
            r@ == self.message(),
    {
        let mut out = String::new();
        match self {
            AnalysisError::InvalidTonic(value) => {
                out.append("invalid tonic: ");
                out.append(value.as_str());
            },
        }
        out
    }

    pub open spec fn message(&self) -> Seq<char> {
        match self {
            AnalysisError::InvalidTonic(value) => "invalid tonic: "@ + value@,
        }
    }
}

} // verus!
