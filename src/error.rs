use vstd::prelude::*;

verus! {

/// What went wrong, as a machine-readable tag.
#[derive(Clone, Copy, Debug, PartialEq, Eq, Structural)]
pub enum Code {
    General,
    SourceTypeIsRequired,
    CannotOpenDestinationFile,
    Timeout,
    UnableToSpawnCommand,
    UnableToParse,
    UnableToWrite,
    InvalidConfigCurvePoints,
    /// A periodic job was due but no worker was free to take it.
    AdmissionExhausted,
    /// A scheduler tick took longer than the configured resolution.
    TickBudgetExceeded,
    /// A periodic job was attached with parameters that cannot be scheduled.
    ConfigurationInvalid,
    /// The pool has been shut down and takes no more periodic jobs.
    PoolShutDown,
}

/// An error with its code and a human-readable message.
#[derive(Debug)]
pub struct Error {
    code: Code,
    message: String,
}

impl Error {
    /// The error's code.
    pub closed spec fn spec_code(&self) -> Code {
        self.code
    }

    /// The error's message, as characters.
    pub closed spec fn spec_message(&self) -> Seq<char> {
        self.message@
    }

    pub fn new(code: Code, message: String) -> (r: Self)
        ensures
            r.spec_code() == code,
            r.spec_message() == message@,
    {
        Self { code, message }
    }

    pub fn code(&self) -> (r: Code)
        ensures
            r == self.spec_code(),
    {
        self.code
    }

    pub fn message(&self) -> (r: &String)
        ensures
            r@ == self.spec_message(),
    {
        &self.message
    }

    /// The text shown to a user: the message alone.
    pub fn to_string(&self) -> (r: String)
        ensures
            r@ == self.spec_message(),
    {
        self.message.clone()
    }
}

} // verus!
