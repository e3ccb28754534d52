//! Replication of a single, frequently rewritten file to remote consumers as a
//! stream of whole-file snapshots.
//!
//! Each snapshot travels as one [`frame::Frame`]: the file's bytes, closed by
//! exactly one newline. A connection starts with a [`handshake`] that carries
//! a role and a token; the [`registry`] binds tokens to files. Everything that
//! travels in one direction passes through one compressed stream, whose two
//! ends are in [`codec`]. On the producing side a [`watcher`] notices that the
//! file has been replaced; where many consumers want the same file, the
//! latest content is kept in a [`snapshot::VersionedSnapshot`] that each of
//! them follows at its own pace. On the consuming side every frame is staged
//! and renamed into place as [`writer`] lays down.
//!
//! Nothing in this crate touches a socket, a file or a clock. A
//! [`session::Session`] decides, and its caller performs.

pub mod auth;
pub mod bytes;
pub mod cleanup;
pub mod codec;
pub mod error;
pub mod frame;
pub mod handshake;
pub mod registry;
pub mod session;
pub mod snapshot;
pub mod watcher;
pub mod writer;

pub use cleanup::delete_file_on_quit;
pub use cleanup::remove_file_if_present;
pub use codec::Receiver;
pub use codec::Sender;
pub use error::Error;
pub use frame::Frame;
pub use registry::TokenRegistry;
pub use session::Session;
pub use snapshot::VersionedSnapshot;
