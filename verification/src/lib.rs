//! Lifecycle orchestration for a fleet of live-video sources.
//!
//! Each source is driven by a per-source supervisor: a state machine that
//! connects, authenticates and starts the upstream stream, waits until every
//! mounted tag reports a primed buffer, and then arbitrates between streaming
//! and paused according to the configured pause policy.  Failures are
//! classified as fatal (the source stops for good) or retryable (the source
//! resets to disconnected and retries after an exponential backoff).
//!
//! The library is purely decision logic: it tells its embedder what to do
//! next (connect, poll, send a command to every tag, sleep, stop) and is fed
//! back the outcome of each action as an event.  The media transport and the
//! upstream wire protocol live outside it.

pub mod backoff;
pub mod config;
pub mod engine;
pub mod failure;
pub mod fleet;
pub mod lifecycle;
pub mod registry;
pub mod sessions;
pub mod supervisor;
