//! Verified core of a split-pane SFTP client: remote path handling, host trust,
//! the session state machine and the transfer queue.
pub mod text;
pub mod models;
pub mod transfer;
pub mod remote_path;
pub mod sftp_failure;
pub mod trust;
pub mod session;
pub mod events;
pub mod scp_compat;
pub mod listing;
pub mod local_path;
pub mod local_fs;
pub mod remote_listing;
pub mod binary32;
