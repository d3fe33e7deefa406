//! The request pipeline of a small HTTP service, with its rules proved:
//! configuration, the item store, the handlers, the routing table, the
//! correlation-id layer and the shutdown coordinator.

pub mod config;
pub mod handlers;
pub mod headers;
pub mod items;
pub mod message;
pub mod middleware;
pub mod router;
pub mod service;
pub mod shutdown;
