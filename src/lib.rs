//! A personal manager of parameterised shell commands: the configuration,
//! the stored entries, the search over them, named parameters in command
//! templates, and the interactive session that ties them together.
use vstd::prelude::*;

pub mod config;
pub mod entry;
pub mod params;
pub mod render;
pub mod search;
pub mod session;
pub mod text;

verus! {

} // verus!
