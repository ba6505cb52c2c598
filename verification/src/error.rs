//! Errors surfaced while building descriptors.

use vstd::prelude::*;

verus! {

/// An error raised while decoding schema data into descriptors.
#[derive(Debug, Clone, PartialEq, Eq)]
pub enum Error {
    /// A field's textual default value could not be decoded against the
    /// field's type; carries the offending text.
    BadDefaultValue {
        /// The default text that failed to decode.
        default_value: String,
    },
}

impl Error {
    /// The default text that this error reports as undecodable.
    pub fn bad_default(&self) -> (r: &str)
        ensures
            self matches Error::BadDefaultValue { default_value } && r@ == default_value@,
    {
        match self {
            Error::BadDefaultValue { default_value } => default_value.as_str(),
        }
    }
}

} // verus!
