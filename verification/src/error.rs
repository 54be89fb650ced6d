use vstd::prelude::*;

verus! {

/// Errors reported while reading configuration or assembling a concept.
#[derive(Debug)]
pub enum Error {
    /// A configuration value could not be used (bad filter expression, bad file).
    Config(String),
    /// A record could not be turned into a concept.
    Concept(String),
}

impl Error {
    /// The human-readable message carried by the error.
    pub fn message(&self) -> (r: &str)
        ensures
            match self {
                Error::Config(m) => r@ == m@,
                Error::Concept(m) => r@ == m@,
            },
    {
        match self {
            Error::Config(m) => m.as_str(),
            Error::Concept(m) => m.as_str(),
        }
    }
}

} // verus!
