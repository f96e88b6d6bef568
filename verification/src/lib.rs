//! Pruning of local branches that track no remote.
//!
//! The library decides; it never touches a repository. A caller lists the
//! local branches as [`branch::Branch`] values, lets [`collect::collect`]
//! pick the deletion candidates, and then drives a [`run::Run`], which says
//! when to ask the operator and which candidate to delete next.

pub mod branch;
pub mod collect;
pub mod confirm;
pub mod pattern;
pub mod protect;
pub mod run;
