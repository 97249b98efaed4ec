//! Verified core of an interface through which a mobile host proves transactions.
//!
//! The host calls in with C strings and gets log lines, status codes and a JSON result back. This
//! crate holds the decisions: what an input is worth, in which order a session goes, which status
//! or result it ends with, what is logged, what is cleaned up. File access, the asynchronous
//! runtime and the prover itself are outside; sessions ask for them by actions and hear of them by
//! events.

pub mod base64;
pub mod c_string;
pub mod call;
pub mod cleanup;
pub mod felt;
pub mod input;
pub mod json_reader;
pub mod live;
pub mod live_laws;
pub mod log;
pub mod megabytes;
pub mod memory_mode;
pub mod offline;
pub mod offline_laws;
pub mod proof_laws;
pub mod proof_run;
pub mod request;
pub mod result;
pub mod result_laws;
pub mod rpc_url;
pub mod runtime;
pub mod status;
pub mod text;
pub mod utf8;
pub mod walk;
