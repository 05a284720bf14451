//! The line, its tokens and the state that they drive.

pub mod coordinate;
pub mod line_parser;
pub mod positioning_mode;
pub mod state;
