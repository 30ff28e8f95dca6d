//! The interpreter and the display surface it draws on.

pub mod cpu;
pub mod font_set;
pub mod instruction;
pub mod laws;
pub mod machine;
pub mod screen;
