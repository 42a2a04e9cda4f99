use vstd::prelude::*;

verus! {

/// An error of the tracer, with its message.
#[derive(Debug)]
pub enum Error {
    /// An error reported by the PHP engine.
    PHPer(String),
    /// Any other error.
    Anyhow(String),
}

impl Error {
    /// The message of the error.
    pub fn message(&self) -> (m: String)
        ensures
            m@ == match self {
                Error::PHPer(s) => s@,
                Error::Anyhow(s) => s@,
            },
    {
        match self {
            Error::PHPer(s) => s.clone(),
            Error::Anyhow(s) => s.clone(),
        }
    }
}

impl From<String> for Error {
    fn from(e: String) -> (r: Self) {
        Error::Anyhow(e)
    }
}

impl vstd::std_specs::convert::FromSpecImpl<String> for Error {
    open spec fn obeys_from_spec() -> bool {
        true
    }

    open spec fn from_spec(v: String) -> Self {
        Error::Anyhow(v)
    }
}

} // verus!
