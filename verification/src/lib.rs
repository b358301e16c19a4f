//! Pick a host from an SSH client configuration and build the shell command
//! that opens a terminal emulator running `ssh` to it.
//!
//! The pipeline has four stages: locate the config file, parse it into raw
//! host blocks, filter and map those blocks into selectable entries, and
//! build the launch command for the entry the user picked. Everything that
//! decides or computes lives here with a contract; reading files, prompting
//! and spawning the child process are left to the surrounding binary.

pub mod config;
pub mod error;
pub mod hosts;
pub mod launch;
