//! The runtime kernel of a clustered MQTT broker: the hook bus that threads an
//! accumulator through priority-ordered handlers, the plugin life cycle, the
//! authentication and ACL engine with its per-session cache, the cluster
//! message envelope, and the rules by which offline sessions are restored.
//!
//! Everything here computes on plain values. Sockets, timers, tasks and storage
//! drivers live with the embedding broker, which feeds their results in.

pub mod text;
pub mod placeholder;
pub mod types;
pub mod wire;
pub mod codec;
pub mod json;
pub mod acl;
pub mod acl_cache;
pub mod auth_http;
pub mod auth_jwt;
pub mod cluster_raft;
pub mod grpc;
pub mod hook;
pub mod plugin;
pub mod retainer;
pub mod session_storage;
