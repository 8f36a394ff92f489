//! Running external programs: the logic around a child process.
//!
//! The application layer spawns the program, reads its output streams, writes
//! its input and waits for it. This crate holds what is decided along the way:
//! the redaction of secrets in every captured line, the accumulated result, the
//! runner configuration and its command line, the state machine of a run and
//! its outcome, and the registry of the process identifiers of running
//! children.
pub mod error;
pub mod redact;
pub mod registry;
pub mod result;
pub mod runner;
pub mod session;

pub use error::{Error, Result};
pub use registry::PidRegistry;
pub use result::{CmdResult, ExitStatus, Stream};
pub use runner::{CmdLineRunner, StdioMode};
pub use session::{JobStatus, Outcome, Session, SinkAction};
