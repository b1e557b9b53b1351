//! Verified core of the cluster certificate utility: classification of
//! cluster names, INI key-ring and signing-config updates, and the text of
//! the artifacts that a new cluster certificate needs.

pub mod create_artifacts;
pub mod get_ini_section;
pub mod get_island;
pub mod invocation;
pub mod mk_ini_manager;
pub mod patterns;
pub mod sign_config_ini;
pub mod text;
