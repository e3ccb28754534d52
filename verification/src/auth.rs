//! Deciding whether a new connection may stay.
//!
//! The first frame of a connection is its handshake. A handshake that shows a
//! known token binds the connection to that token's file; any other is turned
//! away without an answer.

use crate::error::Error;
use crate::handshake::has_magic;
use crate::handshake::parse_spec;
use crate::handshake::starts_with_magic;
use crate::handshake::Handshake;
use crate::handshake::Role;
use crate::registry::path_of;
use crate::registry::TokenRegistry;
use vstd::prelude::*;
use vstd::slice::slice_to_vec;

verus! {

/// What a connection that was let in is bound to.
#[derive(Debug, PartialEq, Eq)]
pub struct Grant {
    /// The role that the peer announced.
    pub role: Role,
    /// The file that the peer's token is bound to.
    pub path: Vec<u8>,
}

/// Who is let in: a line that is a handshake and shows a token of the table
/// passes, with the role it announces and the file of its token.
pub open spec fn authenticate_spec(bindings: Seq<(Seq<u8>, Seq<u8>)>, line: Seq<u8>) -> Option<
    (Role, Seq<u8>),
> {
    match parse_spec(line) {
        None => None,
        Some((role, token)) => match path_of(bindings, token) {
            None => None,
            Some(path) => Some((role, path)),
        },
    }
}

/// Judges the handshake line of a new connection, given without its
/// terminator, against the table.
pub fn authenticate(registry: &TokenRegistry, line: &[u8]) -> (r: Result<Grant, Error>)
    ensures
        match r {
            Ok(grant) => authenticate_spec(registry@, line@) == Some((grant.role, grant.path@)),
            Err(error) => error == Error::Auth && authenticate_spec(registry@, line@) is None,
        },
{
    match Handshake::parse(line) {
        None => Err(Error::Auth),
        Some(handshake) => match registry.lookup(handshake.token.as_slice()) {
            None => Err(Error::Auth),
            Some(path) => Ok(Grant { role: handshake.role, path: slice_to_vec(path.as_slice()) }),
        },
    }
}

/// Judges the first line of a stream that comes from a local collaborator: it
/// passes where it starts with the magic of the role that is expected. No
/// token is asked for.
pub fn authenticate_local(line: &[u8], expected: Role) -> (r: Result<(), Error>)
    ensures
        r == (if starts_with_magic(line@, expected) {
            Ok::<(), Error>(())
        } else {
            Err::<(), Error>(Error::Auth)
        }),
{
    if has_magic(line, expected) {
        Ok(())
    } else {
        Err(Error::Auth)
    }
}

} // verus!
