//! Persistence, monitoring, AI and file-transfer services.
pub mod ai;
pub mod editor;
pub mod monitor;
pub mod sftp;
pub mod storage;
