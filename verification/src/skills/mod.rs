//! Skills: a directory each, with a `SKILL.md` that begins with front matter.
//! The tools here decide; reading and writing is left to the caller, who hands
//! in what was found and carries out what comes back.

pub mod answers;
pub mod bundle;
pub mod dirs;
pub mod front;
pub mod laws;
pub mod list;
pub mod manage;
pub mod stamp;
pub mod tool;
pub mod view;
