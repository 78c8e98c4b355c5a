//! Copies a local file or directory tree to a remote host or to an
//! object-storage bucket, resolving literal or base64-encoded destination
//! descriptors and remote command lists.
//!
//! The library holds every decision of a run: destination parsing, path
//! mapping, the order of remote actions, command quoting and progress
//! throttling. Network and file-system work is left to the caller.
pub mod error;
pub mod text;
pub mod encoding;
pub mod destination;
pub mod paths;
pub mod oss;
pub mod transfer;
pub mod command;
pub mod progress;
pub mod dispatch;
