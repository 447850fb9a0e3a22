//! Relay-and-throttle core of a chat bot: the envelope handed between the
//! front handler and the worker, the channel handshake, the registry of
//! in-flight work, the windowed throttle and the streamed-completion parser.

pub mod registry;
pub mod window;
pub mod sse;
pub mod ipc;
pub mod channel;
pub mod completions;
pub mod verification;
pub mod slack;
