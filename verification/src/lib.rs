//! Locating a zip archive, checking it for a project file and planning its
//! extraction, with every step stated as a contract and proved.

pub mod archive;
pub mod config;
pub mod disk;
pub mod error;
pub mod extract;
pub mod marker;
pub mod run;
pub mod text;
pub mod traits;
