//! The decision layer of an agent runtime: onboarding sections, skill
//! bundles and skill tools, agent lifecycle, sub-agent permissions, log
//! capture and projection, and the dream cycle's command surface.
//!
//! Every function here maps plain values to plain values. Reading and
//! writing files, talking to a model and installing global hooks is left to
//! the caller.

pub mod agents;
pub mod alias;
pub mod config;
pub mod dream;
pub mod json;
pub mod log;
pub mod onboarding;
pub mod order;
pub mod path;
pub mod policy;
pub mod quote;
pub mod sessions;
pub mod skills;
pub mod subagent;
pub mod text;
