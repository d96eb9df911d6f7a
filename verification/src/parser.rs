//! Reading dates and durations from text.

pub mod natural;
