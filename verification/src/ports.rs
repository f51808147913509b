//! What the library asks of its surroundings.

pub mod fs;
