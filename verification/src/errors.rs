use vstd::prelude::*;

verus! {

/// Everything that can stop a run before or while the child is launched.
#[derive(Debug, Clone)]
pub enum TenvError {
    /// No target program was given.
    MissingCommand,
    /// An environment assignment was not of the form `NAME=VALUE`; holds the
    /// offending token.
    InvalidAssignment(String),
    /// An argument file could not be read; holds the underlying description.
    ArgfileError(String),
    /// The child process could not be started; holds the underlying
    /// description.
    SpawnError(String),
    /// Any other failure, such as a path addition that cannot be joined into
    /// the search-path string.
    Other(String),
}

impl TenvError {
    /// A readable diagnostic for this error.
    pub fn message(&self) -> (r: String)
        ensures
            self is MissingCommand ==> r@ == "no program was given"@,
            self matches TenvError::InvalidAssignment(s) ==> r@ == "invalid KEY=value: no `=` found in `"@
                + s@ + "`"@,
            self matches TenvError::ArgfileError(s) ==> r@ == "could not read argument file: "@ + s@,
            self matches TenvError::SpawnError(s) ==> r@ == "could not run command: "@ + s@,
            self matches TenvError::Other(s) ==> r@ == s@,
    {
        match self {
            TenvError::MissingCommand => String::from_str("no program was given"),
            TenvError::InvalidAssignment(s) => String::from_str("invalid KEY=value: no `=` found in `")
                .concat(s.as_str()).concat("`"),
            TenvError::ArgfileError(s) => String::from_str("could not read argument file: ").concat(
                s.as_str(),
            ),
            TenvError::SpawnError(s) => String::from_str("could not run command: ").concat(s.as_str()),
            TenvError::Other(s) => s.clone(),
        }
    }
}

} // verus!
