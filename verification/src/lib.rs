//! Request-routing core of a small API gateway: service registry and load
//! balancing, token issuing and checking, rate limiting, an in-process event
//! queue, a response cache and the bookkeeping around them.

pub mod auth;
pub mod cache;
pub mod clock;
pub mod consul_discovery;
pub mod gateway;
pub mod logging;
pub mod message_queue;
pub mod rate_limiter;
pub mod service_registry;
