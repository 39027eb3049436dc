//! What the operations of the library are for, each in terms of what goes in
//! and what comes out.

pub mod cascade;
pub mod env;
pub mod gitignore;
pub mod glob;
pub mod hooks;
pub mod key;
pub mod merged;
pub mod place;
pub mod portal;
pub mod proc;
pub mod resonate;
pub mod rules;
pub mod status;
pub mod store;
pub mod summon;
pub mod sync;
pub mod text;
pub mod view;
