//! Reconciles media files with their JSON sidecars, resolves one capture
//! timestamp per file and decides where each file is filed.

pub mod text;
pub mod cascade;
pub mod conventions;
pub mod pairing;
pub mod sidecar;
pub mod routing;
pub mod manifest;
pub mod tags;
