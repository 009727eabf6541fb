//! Verified core of an Arrow gateway: the service table with its wire
//! encoding, the bounded per-session buffers that bridge one TCP connection
//! to the upstream message stream, and the manager that polls all sessions
//! fairly and announces each session's end with a HUP message.

pub mod addr;
pub mod buffer;
pub mod context;
pub mod context_state;
pub mod error;
pub mod manager;
pub mod manager_state;
pub mod msg;
pub mod poll;
pub(crate) mod registry;
pub mod session;
pub mod svc_decode;
pub mod svc_table;
pub mod task;
