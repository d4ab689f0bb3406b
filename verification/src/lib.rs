//! The verified core of a multi-tenant remote job runner: peer
//! authentication from certificate subjects, a handle-indexed task
//! registry with per-request authorization, a replay-from-start fan-out
//! log of task output, the framing of results crossing the child
//! process boundary, and the isolation prelude that each child runs.

pub mod auth;
pub mod codec;
pub mod isolation;
pub mod log;
pub mod scheduler;
