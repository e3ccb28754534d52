//! What can go wrong: a token table that is refused before anything starts,
//! and the failures that end a single session.

use vstd::prelude::*;

verus! {

/// A token table that is not unique. It is refused as a whole, and nothing
/// may start.
#[derive(Clone, Copy, Debug, PartialEq, Eq, Structural)]
pub enum ConfigError {
    /// Two bindings carry the same token.
    DuplicateToken,
    /// Two bindings name the same file.
    DuplicateFilename,
}

/// A byte stream that is not a sequence of frames.
#[derive(Clone, Copy, Debug, PartialEq, Eq, Structural)]
pub enum ProtocolViolation {
    /// A payload holds a newline before its last byte; `at` is the index of
    /// the first one.
    InteriorNewline { at: usize },
    /// The stream ended after a non-empty partial frame.
    TruncatedFrame,
}

/// Why a session cannot go on. A session's failure is its own: it ends that
/// session and touches no other.
#[derive(Clone, Copy, Debug, PartialEq, Eq, Structural)]
pub enum Error {
    /// The transport could not be established.
    Connect,
    /// The handshake named no known token.
    Auth,
    /// The peer, or the watched file, broke the framing rules.
    Protocol(ProtocolViolation),
    /// Reading, writing, renaming, compressing or sending failed.
    Io,
}

} // verus!
