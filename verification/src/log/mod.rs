//! Log events: what they hold, how they are captured from tracing calls and
//! how they are projected onto the observer's event types.

pub mod bridge;
pub mod event;
pub mod extra;
pub mod laws;
pub mod layer;
