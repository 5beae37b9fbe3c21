//! A prompt-line composition library.
//!
//! The crate gathers the logic behind a shell status line: a single-flight
//! cache over external command invocations, a deterministic status-icon
//! merge algorithm, detection and dispatch over five version-control
//! backends, and order-preserving assembly of concurrently computed
//! segments into one rendered line.
//!
//! All I/O (spawning commands, reading files, querying the OS) lives in the
//! surrounding binary; the library receives observed values and decides.

pub mod chunk;
pub mod cmd;
pub mod git;
pub mod options;
pub mod prompt;
pub mod providers;
pub mod style;
pub mod text;
pub mod vcs;
