//! A symmetric runtime for the Model Context Protocol: a JSON-RPC 2.0
//! conversation between a host (the client) and a provider (the server).
//!
//! Both peers share the same machinery. The wire text is read and written
//! by a codec whose round trip is proved: the canonical text of any
//! well-formed message decodes back to the message (`rpc`, over the JSON
//! grammar in `json`). The server (`server`) is a state machine that
//! dispatches requests by the protocol's method table, answers requests
//! that arrive before the running state with an invalid-request error,
//! filters outbound log records by the session's stored level, and streams
//! tool output as responses only while the job is held. The client
//! (`client`) draws strictly increasing request ids and correlates at most
//! one cached answer per take. Transport bytes flow through a
//! single-producer single-consumer ring (`ring`) whose reads drain exactly
//! what the writes queued, framed as a length followed by that many bytes.
//! Sessions (`session`) expire at an absolute instant and are gone once it
//! passes.
//!
//! Only the clock is taken on trust (`time`); everything else is verified.
//! Threads, files, and the layer plumbing around the engines live with the
//! embedder.

pub mod builders;
pub mod client;
pub mod error_codes;
pub mod errors;
pub mod jobman;
pub mod json;
pub mod logging;
pub mod ring;
pub mod rpc;
pub mod schema;
pub mod server;
pub mod session;
pub mod time;
pub mod transport;
pub mod wire;
