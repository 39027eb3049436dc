//! The verbs: five at the git level (`portal`, `summon`, `sync`, `cascade`,
//! `env`) plus the filesystem-only `resonate`.
//!
//! Nothing here touches a file or spawns a process. Each verb is a function
//! or a small machine that takes what was read or observed and says what to
//! do next.

pub mod cascade;
pub mod env;
pub mod glob;
pub mod lookup;
pub mod merged;
pub mod portal;
pub mod resonate;
pub mod status;
pub mod summon;
pub mod sync;
pub mod work;
