//! Tracks the X/Y position commanded by lines of a G-code-like machine
//! control language.
//!
//! A line is scanned for up to three tokens: a positioning mode (`G90`
//! absolute, `G91` incremental) and an `X` and a `Y` coordinate. Every other
//! character of the line is noise. The tokens then drive a small state
//! machine that replaces or accumulates the stored position, depending on
//! the active mode.
//!
//! Coordinates are fixed-point numbers with six decimal places, so that
//! incremental moves add up exactly: see [`decimal::Decimal`].

pub mod decimal;
pub mod error;
pub mod numeral;
pub mod structs;
pub mod text;
pub mod theorems;
