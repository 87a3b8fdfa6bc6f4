//! Object-store access: paths, listings and readers.

pub mod gcs;
pub mod listing;
pub mod path;
