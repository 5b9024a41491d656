//! Verified core of iOS AFC filesystem mounts for Linux and Windows.

pub mod address;
pub mod afc;
pub mod answer_laws;
pub mod apps;
pub mod backend;
pub mod config_laws;
pub mod error;
pub mod error_laws;
pub mod filesystem;
pub mod fuse_laws;
pub mod inode;
pub mod le;
pub mod mount;
pub mod options;
pub mod packet_laws;
pub mod printed;
pub mod reparse;
pub mod sorting;
pub mod text;
pub mod transport;
pub mod utf16;
pub mod windows_filesystem;
pub mod winfsp_laws;
pub mod worker;
