//! Glypheris: a semantic compiler that turns validated JSON payloads into
//! Protobuf packets, frames them for the local broadcast bridge, keeps a
//! bounded session log, and drives execution plans task by task.

pub mod frame;
pub mod json;
pub mod text;
pub mod wire;
pub mod compile;
pub mod engine;
pub mod gesture;
pub mod hex;
pub mod plan;
pub mod inference;
pub mod export;
pub mod session;
pub mod command;
pub mod runtime;
