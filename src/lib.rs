//! Resolution of declarative sandbox policies into command lines for the
//! bubblewrap (`bwrap`) namespace-isolation launcher.
pub mod bind;
pub mod bwrap;
pub mod config;
pub mod namespace;
pub mod shell_hooks;
pub mod text;
