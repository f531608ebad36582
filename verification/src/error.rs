use vstd::prelude::*;

use crate::text::{dec_str, owned, push_decimal, push_str};

verus! {

/// The library's own error conditions.
///
/// Errors raised by the storage layer (SQLite, I/O, JSON) are carried by the
/// application around the library and are not represented here.
#[derive(Debug, Clone, PartialEq, Eq)]
pub enum TdgError {
    Validation(String),
    NotFound(String),
    CircuitBreakerTripped { threshold: usize },
    GraphSizeLimit(String),
    BusyTimeout,
    SchemaMigration(String),
    Hrr(String),
    Ollama(String),
    FileLock(String),
    Custom(String),
}

/// Result type alias for TDG operations.
pub type TdgResult<T> = Result<T, TdgError>;

/// The text an error is shown with.
pub open spec fn error_message_of(e: TdgError) -> Seq<char> {
    match e {
        TdgError::Validation(s) => "Validation error: "@ + s@,
        TdgError::NotFound(s) => "Not found: "@ + s@,
        TdgError::CircuitBreakerTripped { threshold } =>
            "Circuit breaker tripped after "@ + dec_str(threshold as nat) + " consecutive failures"@,
        TdgError::GraphSizeLimit(s) => "Graph size limit exceeded: "@ + s@,
        TdgError::BusyTimeout => "Busy timeout: database is locked"@,
        TdgError::SchemaMigration(s) => "Schema migration error: "@ + s@,
        TdgError::Hrr(s) => "HRR error: "@ + s@,
        TdgError::Ollama(s) => "Ollama error: "@ + s@,
        TdgError::FileLock(s) => "File lock error: "@ + s@,
        TdgError::Custom(s) => s@,
    }
}

fn prefixed(prefix: &str, s: &String) -> (m: String)
    ensures
        m@ == prefix@ + s@,
{
    let mut m = owned(prefix);
    push_str(&mut m, s.as_str());
    m
}

impl TdgError {
    /// The text the error is shown with.
    pub fn message(&self) -> (m: String)
        ensures
            m@ == error_message_of(*self),
    {
        match self {
            TdgError::Validation(s) => prefixed("Validation error: ", s),
            TdgError::NotFound(s) => prefixed("Not found: ", s),
            TdgError::CircuitBreakerTripped { threshold } => {
                let mut m = owned("Circuit breaker tripped after ");
                push_decimal(&mut m, *threshold as u64);
                push_str(&mut m, " consecutive failures");
                m
            },
            TdgError::GraphSizeLimit(s) => prefixed("Graph size limit exceeded: ", s),
            TdgError::BusyTimeout => owned("Busy timeout: database is locked"),
            TdgError::SchemaMigration(s) => prefixed("Schema migration error: ", s),
            TdgError::Hrr(s) => prefixed("HRR error: ", s),
            TdgError::Ollama(s) => prefixed("Ollama error: ", s),
            TdgError::FileLock(s) => prefixed("File lock error: ", s),
            TdgError::Custom(s) => owned(s.as_str()),
        }
    }
}

} // verus!
