use vstd::prelude::*;

verus! {

/// Failure taxonomy of the orchestration layer.
#[derive(Debug, Clone)]
pub enum CliError {
    /// Malformed public key, relay URL, relay role or group identifier.
    Validation(String),
    /// No active account, or an item that is not there.
    State(String),
    /// An opaque failure reported by the messaging engine.
    Engine(String),
    /// A local persistence failure.
    Io(String),
}

impl CliError {
    pub open spec fn is_validation(&self) -> bool {
        self is Validation
    }

    /// The message carried by the error.
    pub fn message(&self) -> (r: &String)
        ensures
            r@ == self.message_view(),
    {
        match self {
            CliError::Validation(m) => m,
            CliError::State(m) => m,
            CliError::Engine(m) => m,
            CliError::Io(m) => m,
        }
    }

    pub open spec fn message_view(&self) -> Seq<char> {
        match self {
            CliError::Validation(m) => m@,
            CliError::State(m) => m@,
            CliError::Engine(m) => m@,
            CliError::Io(m) => m@,
        }
    }
}

} // verus!
