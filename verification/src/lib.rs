//! Talon command protocol: a file-based request/response contract that lets an
//! external dictation client drive an editor's composer buffer.
//!
//! The crate models the editor snapshot, the closed set of commands, the
//! interpreter that applies a batch of commands in order, and the JSON
//! encoding of requests and responses.

pub mod codec;
pub mod command;
pub mod env_display;
pub mod interp;
pub mod json;
pub mod mcp;
pub mod pipeline;
pub mod respjson;
pub mod response;
pub mod state;
pub mod status;
