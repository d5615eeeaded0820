//! krill: a verified terminal engine.
//!
//! - `attrs`: cells, colors and renditions;
//! - `model`: the mathematical description of a screen and its operations;
//! - `screen`: the executable grid that follows the model;
//! - `action`, `performer` and `parser`: parser events as values, and their
//!   effect on a screen;
//! - `snapshot`: run-length snapshots for a renderer;
//! - `transport`, `session` and `actor`: the loopback transport, the session
//!   core, and the decisions of a session's actor loop;
//! - `registry`: sessions by id;
//! - `laws`: properties that span operations.

pub mod action;
pub mod actor;
pub mod attrs;
mod grid;
pub mod laws;
pub mod model;
pub mod parser;
pub mod performer;
pub mod pty;
pub mod registry;
pub mod screen;
pub mod session;
pub mod snapshot;
pub mod text;
pub mod transport;

pub use attrs::{Attrs, Cell, Color, Modes};
pub use model::ScreenView;
pub use parser::{ParserConfig, VtParser};
pub use performer::TermPerformer;
pub use registry::SessionRegistry;
pub use screen::{validate_screen_size, Screen, ScreenSizeError, MAX_SCREEN_CELLS, MAX_SCREEN_DIMENSION};
pub use session::{ScreenEnvelope, SessionCore, SessionInfo, SessionStatus, StatusDto};
pub use snapshot::{AttrDto, ColorDto, RowDto, RunDto, SnapshotDto};
pub use transport::{shell_command, ByteQueue, LoopbackTransport, ShellCommand, ShellKind, SpawnOptions, TransportError};
