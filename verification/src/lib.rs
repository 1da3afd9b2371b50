//! CodeSmith: the verified core of a local, execution-only coding agent.
//!
//! The library holds the agent's decisions and text formats: the command
//! safety policy, the parser for assistant output, the REPL command parser,
//! model-profile settings, run summaries and the local wiki's page format and
//! ranking. Everything that touches the terminal, the network, the disk or a
//! child process lives in the `app/` crate and calls into this library.

pub mod text;
pub mod path;
pub mod types;
pub mod settings;
pub mod policy;
pub mod json;
pub mod agent;
pub mod cli;
pub mod runs;
pub mod wiki;
pub mod search;
pub mod context;
pub mod lint;
pub mod ui;
pub mod sources;
pub mod reports;
pub mod llm;
pub mod runner;
pub mod desk;
