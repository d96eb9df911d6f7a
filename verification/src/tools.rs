//! The operations: one function per question that a caller may ask.

pub mod add;
pub mod convert;
pub mod diff;
pub mod info;
pub mod instructions;
pub mod now;
pub mod parse;
pub mod status;

pub use add::ucm_add;
pub use convert::ucm_convert;
pub use diff::ucm_diff;
pub use info::ucm_info;
pub use instructions::ucm_instructions;
pub use now::ucm_now;
pub use parse::ucm_parse;
pub use status::ucm_status;
