//! The pattern blocks and what they share.

pub mod armhole;
pub mod corset;
pub mod corset_sheet;
pub mod sleeve;
pub mod sleeve_sheet;
pub mod stretch;
