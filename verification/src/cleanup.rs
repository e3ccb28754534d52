//! Removal of the target file on start-up and before quitting.
//!
//! The file is removed at most once, whichever of the ways out of the process
//! gets there first; the flag that records it is shared with the writer, which
//! holds the same lock while it stages and renames.

use crate::error::Error;
use vstd::prelude::*;

verus! {

/// How an attempt to remove a file ended.
#[derive(Clone, Copy, Debug, PartialEq, Eq, Structural)]
pub enum Removal {
    /// The file was there and is gone.
    Removed,
    /// There was no such file.
    NotFound,
    /// The file system refused.
    Failed,
}

/// Decides, under the lock that guards `deleted`, whether the target file is
/// still to be removed before the process quits, and records that it has been
/// seen to. Returns `true` where the caller has to remove the file now.
pub fn delete_file_on_quit(deleted: &mut bool) -> (remove: bool)
    ensures
        remove == !*old(deleted),
        *final(deleted),
{
    if *deleted {
        return false;
    }
    *deleted = true;
    true
}

/// Judges an attempt to remove the target file: a file that was not there
/// counts as removed.
pub fn remove_file_if_present(outcome: Removal) -> (r: Result<(), Error>)
    ensures
        r == (if outcome == Removal::Failed {
            Err::<(), Error>(Error::Io)
        } else {
            Ok::<(), Error>(())
        }),
{
    match outcome {
        Removal::Removed => Ok(()),
        Removal::NotFound => Ok(()),
        Removal::Failed => Err(Error::Io),
    }
}

} // verus!
