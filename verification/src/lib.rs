//! The decisions of a CPU-time probe for a training simulator: how its command line
//! and its defaults are read, which deck a run plays, when a game has come to the
//! training decision at which searches are timed, with which seeds the searches run,
//! and what the lines look like that report them.

pub mod advance;
pub mod arguments;
pub mod cli;
pub mod command;
pub mod deck;
pub mod defaults;
pub mod error;
pub mod help;
pub mod numeral;
pub mod quote;
pub mod report;
pub mod root_run;
pub mod search;
pub mod text;
pub mod whole_run;
