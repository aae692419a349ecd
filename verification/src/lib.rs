//! Core engine of a visual diff/status browser for a git repository.
//!
//! The library covers the non-visual work: it describes the exact
//! command lines to run, parses the machine-oriented reports the tool
//! prints (porcelain status, raw diff/show), organizes the parsed
//! records into a navigable entry tree, decides where each side of a
//! file comparison gets its bytes from, and computes classified
//! line-level differences with change-navigation semantics.
//!
//! Running the subprocesses and rendering are left to the surrounding
//! application; the library hands it plain values to execute and
//! interprets what comes back.

pub mod commands;
pub mod content;
pub mod diff;
pub mod model;
pub mod parse;
pub mod text;
pub mod workspace;
