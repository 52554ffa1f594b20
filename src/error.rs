use vstd::prelude::*;

verus! {

/// Status code that the engine reports for a successful call.
pub const STATUS_SUCCESS: u16 = 0;

/// Errors surfaced by connections and by individual operations.
#[derive(Debug, Clone, PartialEq, Eq, Structural)]
pub enum CouchbaseError {
    /// Bootstrapping the connection failed, with the engine's status.
    ConnectError(u16),
    /// A required engine control setting could not be applied.
    ControlError(u16),
    /// The engine reported a non-success status for one operation.
    OperationError(u16),
    /// Response bytes that should hold text are not valid UTF-8.
    DecodingError,
    /// The connection was shut down before the operation completed.
    ShutdownError,
}

} // verus!
