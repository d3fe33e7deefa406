//! The layers that this service adds to the stack.

pub mod request_id;
