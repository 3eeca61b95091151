//! Supervision of batch runs of the tedana command-line tool, and what the
//! application around it needs to know of a dataset.
//!
//! - `environment` finds the environment of an interpreter and the tool in it.
//! - `command` builds the argument string of each item of a batch.
//! - `transcript` keeps what the process of an item wrote, line by line.
//! - `tedana` is the supervisor: it admits one run at a time, goes through
//!   the items in order, and ends the run at the first failure or on request.
//!   `directive` and `outcome` hold what it hands out and takes in, and `laws`
//!   what holds of every run.
//! - `installation` checks that the tool can be imported.
//! - `bids` reads the layout of a dataset and tells whether it can be run on.
//! - `assets` and `theme` serve the user interface.
//! - `text`, `pattern` and `json` are the helpers on strings that the others
//!   share.
//!
//! Nothing here touches the file system or starts a process. The caller does
//! that, and hands in what it found.

pub mod assets;
pub mod bids;
pub mod command;
pub mod directive;
pub mod environment;
pub mod error;
pub mod installation;
pub mod json;
pub mod laws;
pub mod outcome;
pub mod pattern;
pub mod tedana;
pub mod text;
pub mod theme;
pub mod transcript;
