//! Dream cycles: the set of changes that one proposes, and what the operator
//! is shown of it.

pub mod pending;
pub mod run;
