pub mod auth;
pub mod client;
pub mod listing;
pub mod model;
pub mod nexus_uri;
pub mod ordering;
pub mod pathspec;
pub mod remote_sync;
pub mod restapi;
pub mod staging;
pub mod text;
pub mod traversal;
