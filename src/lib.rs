//! A line filter over text, and the shared state of a fixed-size worker pool.

pub mod grep;
pub mod pool;
