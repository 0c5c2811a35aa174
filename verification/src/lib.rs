//! Environment resolution and synchronization core for a Python packaging
//! tool: interpreter discovery with fallthrough priority rules, requirement
//! satisfaction checking, exact environment synchronization, and a
//! content-keyed cache of ephemeral tool environments.
pub mod discover;
pub mod environment;
pub mod errors;
pub mod name;
pub mod pipeline;
pub mod requirement;
pub mod runner;
pub mod site;
pub mod strutil;
pub mod sync;
pub mod tool;
pub mod version;
