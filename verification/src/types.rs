//! The values that operations hand back.

pub mod duration;
pub mod responses;
