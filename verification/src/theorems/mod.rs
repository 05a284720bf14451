//! What holds of the library as a whole, proved from its specifications.

pub mod grammar;
pub mod machine;
pub mod rounding;
