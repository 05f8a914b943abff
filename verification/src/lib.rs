//! The correlation core of a job gateway.
//!
//! Callers hand jobs to a single multiplexer, which tags each one with the
//! gateway's identity, forwards it to a shared work queue and routes every
//! reply fragment that comes back to the delivery handle of the caller that
//! submitted the job. The decisions of that multiplexer are the functions of
//! this crate; the sockets and channels that carry the bytes are the
//! business of whoever drives it.

pub mod auth;
pub mod config;
pub mod errors;
pub mod frame;
pub mod identity;
pub mod laws;
pub mod multiplexer;
pub mod number;
pub mod openid;
pub mod payload;
pub mod store;
pub mod table;
