//! Verified core of a multi-session PPPoE supervisor.
//!
//! The library holds the decision logic of the supervisor: the per-session
//! client state machine, the connection registry with its health and traffic
//! bookkeeping, the rotation scheduler, the dialer-output parser, and the
//! builders for the external commands and the proxy-engine configuration.
//! Process spawning, channels and timers live outside the library; they feed
//! it plain values (events, probe results, clock readings) and carry out the
//! actions it returns.

pub mod client;
pub mod clock;
pub mod config;
pub mod laws;
pub mod manager;
pub mod proxy;
pub mod route;
pub mod text;
