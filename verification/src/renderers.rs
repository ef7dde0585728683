//! Drawing formats.

pub mod svg;
