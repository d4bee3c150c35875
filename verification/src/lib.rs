//! Core logic of the Kei toolchain: the standard effect hierarchy, the binary
//! operator precedence table, the project-root and module-cache rules of the
//! file-system module resolver, and the MCP (JSON-RPC 2.0) request dispatch
//! of the Kei MCP server together with its line-framed stdio transport rules
//! and the JSON text it reads and writes.

pub mod codec;
pub mod effects;
pub mod json;
pub mod precedence;
pub mod resolve;
pub mod server;
pub mod text;
pub mod transport;
