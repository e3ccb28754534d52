//! Noticing that the watched file has been replaced.
//!
//! The producer of the file writes it elsewhere and renames it into place, so
//! a change counts as complete when something is renamed to the watched name
//! in the watched directory. Writes in place are not waited for.

use crate::bytes::bytes_equal;
use crate::error::ProtocolViolation;
use crate::frame::seal_spec;
use crate::frame::Frame;
use vstd::prelude::*;

verus! {

/// The bit that marks a rename among the operations of a change notice.
pub const RENAME: u32 = 8;

/// One notice from the watch on the directory, as far as it matters here.
#[derive(Debug, PartialEq, Eq)]
pub struct WatchEvent {
    /// The last component of the path that the notice is about, where it has
    /// one.
    pub file_name: Option<Vec<u8>>,
    /// The operations that the notice reports, as a set of bits; `None` where
    /// the watch reported an error instead.
    pub op: Option<u32>,
}

/// What a notice means for the watched file.
#[derive(Clone, Copy, Debug, PartialEq, Eq, Structural)]
pub enum Notice {
    /// Something was renamed to the watched name: the file is complete.
    Completed,
    /// The notice is about something else.
    Unrelated,
    /// The notice names no path, or carries an error.
    Malformed,
}

/// What a notice with the given name and operations means to one who watches
/// `watched`.
pub open spec fn notice_spec(
    file_name: Option<Seq<u8>>,
    op: Option<u32>,
    watched: Seq<u8>,
) -> Notice {
    match (file_name, op) {
        (Some(name), Some(bits)) => if name == watched && bits & RENAME == RENAME {
            Notice::Completed
        } else {
            Notice::Unrelated
        },
        _ => Notice::Malformed,
    }
}

/// `notify::Op::contains`, asked of the operations with bit pattern `bits`
/// whether `notify::op::RENAME` is among them: it is where the rename bit is
/// set.
#[verifier::external_body]
fn includes_rename(bits: u32) -> (r: bool)
    ensures
        r == (bits & RENAME == RENAME),
{
    notify::Op::from_bits_truncate(bits).contains(notify::op::RENAME)
}

/// The directory to watch for a file whose path has the parent `parent`: the
/// parent itself, or `.` where the path has none or an empty one.
pub open spec fn watch_directory_spec(parent: Option<Seq<u8>>) -> Seq<u8> {
    match parent {
        Some(directory) => if directory.len() > 0 {
            directory
        } else {
            seq![46u8]
        },
        None => seq![46u8],
    }
}

/// The watch on one file: the directory that is watched and the name that is
/// waited for in it.
#[derive(Debug)]
pub struct PublisherWatcher {
    directory: Vec<u8>,
    name: Vec<u8>,
}

impl PublisherWatcher {
    /// The directory that is watched.
    pub closed spec fn directory_spec(&self) -> Seq<u8> {
        self.directory@
    }

    /// The name that is waited for.
    pub closed spec fn name_spec(&self) -> Seq<u8> {
        self.name@
    }

    /// The watch for a file, given the parent of its path, if it has one, and
    /// the last component of its path.
    pub fn new(parent: Option<Vec<u8>>, name: Vec<u8>) -> (r: PublisherWatcher)
        ensures
            r.directory_spec() == watch_directory_spec(
                match parent {
                    Some(directory) => Some(directory@),
                    None => None,
                },
            ),
            r.name_spec() == name@,
    {
        let mut here: Vec<u8> = Vec::new();
        here.push(46);
        let directory = match parent {
            Some(directory) => if directory.len() > 0 {
                directory
            } else {
                here
            },
            None => here,
        };
        PublisherWatcher { directory, name }
    }

    /// The directory that is watched.
    pub fn directory(&self) -> (r: &Vec<u8>)
        ensures
            r@ == self.directory_spec(),
    {
        &self.directory
    }

    /// The name that is waited for.
    pub fn name(&self) -> (r: &Vec<u8>)
        ensures
            r@ == self.name_spec(),
    {
        &self.name
    }

    /// Judges one notice from the watch.
    pub fn notice(&self, event: &WatchEvent) -> (r: Notice)
        ensures
            r == notice_spec(
                match event.file_name {
                    Some(name) => Some(name@),
                    None => None,
                },
                event.op,
                self.name_spec(),
            ),
    {
        match (&event.file_name, event.op) {
            (Some(name), Some(bits)) => if bytes_equal(name.as_slice(), self.name.as_slice())
                && includes_rename(bits) {
                Notice::Completed
            } else {
                Notice::Unrelated
            },
            _ => Notice::Malformed,
        }
    }

    /// Makes a frame of what was read from the watched file: the content with
    /// a newline appended where it ends in none; content with a newline
    /// before its last byte is refused.
    pub fn snapshot(contents: Vec<u8>) -> (r: Result<Frame, ProtocolViolation>)
        ensures
            match r {
                Ok(frame) => seal_spec(contents@) == Ok::<Seq<u8>, ProtocolViolation>(frame@),
                Err(violation) => seal_spec(contents@) == Err::<Seq<u8>, ProtocolViolation>(
                    violation,
                ),
            },
    {
        Frame::seal(contents)
    }
}

} // verus!
