//! The commands of the interactive tool.  Each command is a small value
//! holding what it needs to run — usually the user configuration; the
//! effectful part of each command (HTTP calls, assistant queries,
//! terminal output) is driven by the application, while anything it
//! decides or computes lives in the library.

pub mod ask;
pub mod call;
pub mod config;
pub mod discover;
pub mod explain;
pub mod fix;
pub mod generate;
pub mod monitor;
pub mod predict;
pub mod test;
