//! Error taxonomy of the runtime: local failures are reported with these
//! values; wire-visible failures are JSON-RPC error objects built elsewhere.

use vstd::prelude::*;

verus! {

/// A local (non-wire) failure of the runtime.
#[derive(Debug, Clone, PartialEq, Eq)]
pub enum MCPError {
    /// Transport-level failure: I/O, buffer overflow, disconnect.
    Transport(String),
    /// A message could not be encoded or decoded.
    Serialization(String),
    /// The peer violated the protocol.
    Protocol(String),
    /// A bounded wait elapsed without a result.
    Timeout,
}

impl MCPError {
    /// A short description of the error, for logs and tests.
    pub fn describe(&self) -> (r: String)
        ensures
            match self {
                MCPError::Transport(m) => r@ == m@,
                MCPError::Serialization(m) => r@ == m@,
                MCPError::Protocol(m) => r@ == m@,
                MCPError::Timeout => r@ == "timeout"@,
            },
    {
        match self {
            MCPError::Transport(m) => m.clone(),
            MCPError::Serialization(m) => m.clone(),
            MCPError::Protocol(m) => m.clone(),
            MCPError::Timeout => String::from_str("timeout"),
        }
    }
}

} // verus!
