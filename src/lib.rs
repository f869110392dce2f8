//! Backend engine of a desktop file manager: the directory scanner, the
//! file-operation engine, the metadata cache and the change watcher, stated
//! as verified decision logic over plain values. The host performs the
//! filesystem work and feeds the results in.
use vstd::prelude::*;

pub mod error;
pub mod path;
pub mod text;
pub mod fs;
pub mod cache;
pub mod security;
pub mod plugins;
pub mod config;
pub mod mounts;
pub mod trash;

pub use error::Error;

verus! {

} // verus!
