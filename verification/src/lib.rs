//! A node runtime for distributed-systems protocol nodes that exchange
//! newline-delimited JSON envelopes over a byte stream.
//!
//! The library holds the verified core: the envelope model and reply
//! construction, the handler dispatch table, the callback correlation store,
//! the synchronous-send bookkeeping, and the protocol handlers (init,
//! topology, echo, generate, flood-broadcast, grow-only counter).  The
//! surrounding process — reading lines, JSON encoding and decoding, timers
//! and task spawning — hands the library plain values and performs the
//! actions it decides on.

pub mod handlers;
pub mod messaging;
pub mod server;
pub mod types;

pub use handlers::HandlersMap;
pub use handlers::build_default_handlers;
pub use messaging::CallbackStore;
pub use messaging::handle_msg;
pub use messaging::process_line;
pub use messaging::send_synchronous;
pub use server::Server;
pub use server::ServerState;
pub use types::Body;
pub use types::Message;
pub use types::Node;
pub use types::SequentialKV;
