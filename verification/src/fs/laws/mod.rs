//! What the file system is for: what holds of its operations whatever happens.

pub mod cloud;
pub mod content;
pub mod open;
pub mod start;
pub mod tree;
