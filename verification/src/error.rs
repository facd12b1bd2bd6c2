//! The failure taxonomy of dump processing.
//!
//! Every failure is fatal to the record in progress and is surfaced to the
//! caller; nothing is retried internally.

use vstd::prelude::*;

verus! {

/// An error raised while assembling records from a dump.
///
/// - `Xml` carries a tokenizer message: the underlying event stream was
///   malformed.
/// - `Builder` reports a required field absent at a record's closing
///   boundary; it names the missing field and the kind of record.
/// - `Parse` reports text that failed to parse as a decimal integer.
/// - `Utf8` reports text that was not valid in the expected encoding.
#[derive(Debug)]
pub enum Error {
    Xml(String),
    Builder { field: &'static str, model: &'static str },
    Parse,
    Utf8,
}

impl Error {
    /// What `describe` returns, stated over character sequences.
    pub open spec fn spec_describe(&self) -> Seq<char> {
        match *self {
            Error::Xml(_) => "could not parse XML"@,
            Error::Builder { field, model } => "missing field "@ + field@ + " from model "@
                + model@,
            Error::Parse => "could not parse integer"@,
            Error::Utf8 => "invalid UTF-8 input"@,
        }
    }

    /// A human-readable account of the error, naming the missing field and
    /// record kind where one applies.
    pub fn describe(&self) -> (r: String)
        ensures
            r@ == self.spec_describe(),
    {
        match self {
            Error::Xml(_) => "could not parse XML".to_owned(),
            Error::Builder { field, model } => {
                let mut s = "missing field ".to_owned();
                s.append(field);
                s.append(" from model ");
                s.append(model);
                s
            },
            Error::Parse => "could not parse integer".to_owned(),
            Error::Utf8 => "invalid UTF-8 input".to_owned(),
        }
    }
}

} // verus!
