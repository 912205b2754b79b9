//! What an agent is allowed to do.

use vstd::prelude::*;

verus! {

/// What an agent is allowed to do.
#[derive(Clone, Debug)]
pub struct SecurityPolicy {
    pub workspace_dir: String,
    /// Nothing outside the workspace and the roots is touched.
    pub workspace_only: bool,
    /// Directories outside the workspace that can be read and written.
    pub allowed_roots: Vec<String>,
    /// Directories outside the workspace that can be read.
    pub allowed_roots_read_only: Vec<String>,
    pub allowed_commands: Vec<String>,
    pub max_actions_per_hour: u32,
    pub max_cost_per_day_cents: u32,
}

} // verus!
