//! Trims a container-image archive down to the layers that a reference image
//! does not already hold.

pub mod archive;
pub mod cli;
pub mod digest;
pub mod error;
pub mod json;
pub mod layers;
pub mod manifest;
pub mod report;
pub mod text;
pub mod trim;
