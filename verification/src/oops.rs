//! Run-time data that the class-file reader refers to.

pub mod constant_pool;
