//! Change tracking for nesting programs.
//!
//! Observed states of a program are compared to the state rebuilt from its
//! change log; the differences are appended to the log, and adjacent
//! delete/post pairs that the source system emits for a single re-post are
//! collapsed into one marker.

pub mod change;
pub mod config;
pub mod consistency;
pub mod error;
pub mod history;
pub mod parse;
pub mod part;
pub mod posted;
pub mod sheet;
pub mod state;
pub mod time;

pub use change::{PostingChange, ProgramStatus};
pub use config::{AuthSettings, ConnectionSettings, DbConfig, MssqlConnParams};
pub use error::SnapshotError;
pub use history::{Observation, ProgramHistory};
pub use part::Part;
pub use posted::{PostedProgram, Program};
pub use sheet::{Sheet, SheetData};
pub use state::ProgramStateSnapshot;
pub use time::Timestamp;
