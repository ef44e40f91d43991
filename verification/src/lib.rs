//! Verified core of a small game-server management library.
//!
//! The library models the lifecycle of a single game-server process running
//! inside a named terminal-multiplexer session: building the shell commands
//! that drive the multiplexer, deploying configuration templates with secret
//! substitution, and sequencing the startup / shutdown / backup / update
//! operations as guarded step plans. All decision logic lives here and is
//! verified; spawning processes, file I/O and sleeping are left to the
//! surrounding application, which executes the step plans this library
//! produces.

pub mod backup;
pub mod config;
pub mod decimal;
pub mod lifecycle;
pub mod process;
pub mod session;
pub mod store;
pub mod template;
