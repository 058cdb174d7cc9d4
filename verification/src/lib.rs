//! Signature-based recovery of deleted files: file-type detection, size
//! estimation, classification heuristics and the decisions of the scan loop.

pub mod signatures;
pub mod bytes;
pub mod entropy;
pub mod text;
pub mod classifier;
pub mod names;
pub mod scanner;
pub mod scan_loop;
pub mod recovery;
pub mod drive_info;
pub mod filesystem;
pub mod words;
pub mod android;
pub mod laws;
pub mod ui;
pub mod access;
