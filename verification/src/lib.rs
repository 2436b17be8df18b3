//! The engine of a background download agent: the planning of byte ranges,
//! the policy that picks how many workers fetch at once, the steps of a
//! chunk's worker and of a job's runner, the rows of the resume store, the
//! registry of jobs, and the merge of the parts into the output.
//!
//! Nothing here touches a socket, a file or a clock. The program around the
//! library does what the library asks for and tells it what came of it.

pub mod api;
pub mod cli;
pub mod config;
pub mod db;
pub mod download;
pub mod error;
pub mod models;
pub mod network;
pub mod scheduler;
pub mod text;
