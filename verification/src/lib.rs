//! A minimal batching span-export pipeline: a span recorder that tracks
//! nested scopes, a bounded in-memory buffer for finished spans, and a
//! batch exporter state machine with retry, backoff and graceful shutdown.

pub mod buffer;
pub mod exporter;
pub mod recorder;
pub mod span;
