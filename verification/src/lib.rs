//! A hierarchical, span-tracking logging engine.
//!
//! Events are buffered per thread while spans are open and are handed to the
//! renderer as one batch when the outermost span of a thread completes.

pub mod event;
pub mod thread_state;
pub mod registry;
pub mod text;
pub mod filter;
pub mod render;
pub mod logger;
pub mod profile;
pub mod laws;
pub mod control;
