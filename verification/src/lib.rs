//! Update decision, artifact naming, backup planning and process supervision
//! for a launcher that keeps a separately versioned executable up to date.

pub mod args;
pub mod artifact;
pub mod backup;
pub mod confirm;
pub mod decision;
pub mod download;
pub mod error;
pub mod listing;
pub mod metadata;
pub mod paths;
pub mod resolver;
pub mod source;
pub mod supervisor;
pub mod text;
pub mod update;
pub mod version;
