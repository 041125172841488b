//! Shorthand command launcher: the composition engine.
//!
//! A short command name is looked up in a configuration, the parameters given with it are
//! placed in one of three positions and filled into their templates, and the pieces are laid
//! out as the argument vector of the command to run. Everything here works on plain values;
//! reading the configuration, parsing the command line and replacing the process are left to
//! the program around this library.

pub mod config;
pub mod listing;
pub mod opt;
pub mod runner;
pub mod util;
