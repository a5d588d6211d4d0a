//! Decisions of a local-network HTTP gateway for services advertised over
//! multicast DNS: which backend a request is for, where that backend
//! currently lives, whether the request may proceed, and what the client is
//! told when it may not.
//!
//! The library holds no socket and no clock. Whoever runs it accepts
//! connections, browses the network and keeps time, and hands each request,
//! each discovery event and the current time to the functions here.

pub mod addr;
pub mod cache;
pub mod config;
pub mod discover;
pub mod error;
pub mod http;
pub mod proxy;
pub mod queue;
pub mod route;
pub mod serve;
pub mod text;

pub use crate::proxy::Proxy;
