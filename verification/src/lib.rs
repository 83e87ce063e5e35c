//! Verified core of the Codex MCP server: resource URIs and project ids, the thread and
//! project registry, the thread trace state machine, remote-thread import decisions and
//! approval policy decisions.
use vstd::prelude::*;

pub mod approval;
pub mod codec;
pub mod registry;
pub mod resources;
pub mod server;
pub mod state;
pub mod sync;
pub mod text;
