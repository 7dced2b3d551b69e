//! Answers to requests for responses.
pub mod event_laws;
pub mod failure;
pub mod managed;
pub mod sse;
pub mod stream;
pub mod stream_laws;
pub mod websocket;
