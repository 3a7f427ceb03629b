//! Decision core of the TwoDrive client: the files-on-demand file system, the
//! device peer and the desktop engine.

pub mod desktop;
pub mod fs;
pub mod json;
pub mod ordered;
pub mod peer;
pub mod sorting;
pub mod table;
pub mod text;
