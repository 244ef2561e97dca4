//! The task pool: boundary values, the FIFO queue, and the worker protocol.

pub mod host;
pub mod pool;
pub mod text;
pub mod values;
