//! Core engine of a scratch-pad code runner: a registry of toolchain
//! descriptions, dependency resolution against the executables available on
//! the search path, template substitution over command arguments, and a
//! three-phase (setup / main / teardown) command pipeline driven as a state
//! machine.  Everything that touches the operating system (spawning the
//! commands, probing the search path, reading and writing files) lives in the
//! surrounding binary; this crate makes the decisions and proves them right.

pub mod cache;
pub mod codes;
pub mod driver;
pub mod lang;
pub mod pipeline;
pub mod registry;
pub mod runner;
pub mod template;
