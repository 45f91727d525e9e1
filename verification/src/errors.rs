use vstd::prelude::*;
use vstd::string::*;

verus! {

/// Error raised when the list of filers given on the command line cannot be understood.
#[derive(Debug)]
pub struct FilerParseError {
    pub details: String,
}

impl FilerParseError {
    /// Builds the error from its message.
    pub fn new(msg: &str) -> (e: FilerParseError)
        ensures
            e.details@ == msg@,
    {
        FilerParseError { details: String::from_str(msg) }
    }

    /// The message, as `Error::description` gives it.
    pub fn description(&self) -> (s: &str)
        ensures
            s@ == self.details@,
    {
        self.details.as_str()
    }

    /// The message, as `Display` writes it.
    pub fn to_string(&self) -> (s: String)
        ensures
            s@ == self.details@,
    {
        self.details.clone()
    }
}

/// Error raised when a request to a filer fails.
#[derive(Debug)]
pub struct FilerRequestError {
    pub details: String,
}

impl FilerRequestError {
    /// Builds the error from its message.
    pub fn new(msg: &str) -> (e: FilerRequestError)
        ensures
            e.details@ == msg@,
    {
        FilerRequestError { details: String::from_str(msg) }
    }

    /// The message, as `Error::description` gives it.
    pub fn description(&self) -> (s: &str)
        ensures
            s@ == self.details@,
    {
        self.details.as_str()
    }

    /// The message, as `Display` writes it.
    pub fn to_string(&self) -> (s: String)
        ensures
            s@ == self.details@,
    {
        self.details.clone()
    }
}

} // verus!
