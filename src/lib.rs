//! Scaffolding of Rust module files: resolving a target module, finding the
//! root file that must declare it, the declaration lines to write, and the
//! order in which one run does so.
pub mod declare;
pub mod locate;
pub mod populate;
pub mod roots;
pub mod session;
pub mod target;
pub mod text;
