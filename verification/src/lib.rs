//! Intent-only multi-repo orchestration: the decisions behind the `xen`
//! verbs, as functions from plain values to plain values.

pub mod cli;
pub mod gitignore;
pub mod hooks;
pub mod invocation;
pub mod key;
pub mod laws;
pub mod pattern;
pub mod place;
pub mod proc;
pub mod rules;
pub mod store;
pub mod text;
pub mod textmap;
pub mod verbs;
