//! Parsing of Capla function signatures, their validation, and the state of
//! the interactive export picker.

pub mod chars;
pub mod types;
pub mod validate;
pub mod grammar;
pub mod export;
pub mod picker;
