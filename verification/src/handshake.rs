//! The first frame of a connection: a role and a token.
//!
//! On the wire a handshake is the role's four-byte magic, a space and the
//! token, closed by a newline. With an empty token the space may be left out.

use crate::error::ProtocolViolation;
use crate::frame::seal_spec;
use crate::frame::Frame;
use vstd::prelude::*;
use vstd::slice::slice_subrange;
use vstd::slice::slice_to_vec;

verus! {

/// The byte between the magic and the token.
pub const SPACE: u8 = 32;

/// What the side that sends the handshake is going to do.
#[derive(Clone, Copy, Debug, PartialEq, Eq, Structural)]
pub enum Role {
    /// It will push content frames (`twc1`).
    Push,
    /// It expects to receive content frames (`twc2`).
    Receive,
}

/// The four bytes that announce a role: `twc1` or `twc2`.
pub open spec fn magic(role: Role) -> Seq<u8> {
    match role {
        Role::Push => seq![116u8, 119u8, 99u8, 49u8],
        Role::Receive => seq![116u8, 119u8, 99u8, 50u8],
    }
}

/// `line` starts with the magic of `role`.
pub open spec fn starts_with_magic(line: Seq<u8>, role: Role) -> bool {
    line.len() >= 4 && line.take(4) == magic(role)
}

/// The handshake line, without its terminator, that announces `role` and
/// carries `token`.
pub open spec fn handshake_payload(role: Role, token: Seq<u8>) -> Seq<u8> {
    if token.len() == 0 {
        magic(role)
    } else {
        magic(role).push(SPACE) + token
    }
}

/// What a handshake line, without its terminator, says: the role that its
/// first four bytes announce, and as token what follows the space behind them;
/// the empty token where the line ends with the magic. Anything else is no
/// handshake.
pub open spec fn parse_spec(line: Seq<u8>) -> Option<(Role, Seq<u8>)> {
    let role = if starts_with_magic(line, Role::Push) {
        Some(Role::Push)
    } else if starts_with_magic(line, Role::Receive) {
        Some(Role::Receive)
    } else {
        None
    };
    match role {
        None => None,
        Some(role) => if line.len() == 4 {
            Some((role, Seq::empty()))
        } else if line[4] == SPACE {
            Some((role, line.skip(5)))
        } else {
            None
        },
    }
}

/// Parsing undoes writing: the line written for a role and a token says that
/// role and that token.
pub proof fn lemma_parse_inverts_payload(role: Role, token: Seq<u8>)
    ensures
        parse_spec(handshake_payload(role, token)) == Some((role, token)),
{
    let line = handshake_payload(role, token);
    assert(line.take(4) =~= magic(role));
    if token.len() > 0 {
        assert(line.skip(5) =~= token);
    }
}

impl Role {
    /// The four bytes that announce the role.
    pub fn magic(self) -> (r: Vec<u8>)
        ensures
            r@ == magic(self),
    {
        let mut bytes: Vec<u8> = Vec::new();
        bytes.push(116);
        bytes.push(119);
        bytes.push(99);
        match self {
            Role::Push => bytes.push(49),
            Role::Receive => bytes.push(50),
        }
        bytes
    }
}

/// Tells whether `line` starts with the magic of `role`. This is all that is
/// asked of the first line of a stream that comes from a local collaborator.
pub fn has_magic(line: &[u8], role: Role) -> (r: bool)
    ensures
        r == starts_with_magic(line@, role),
{
    if line.len() < 4 {
        return false;
    }
    let last: u8 = match role {
        Role::Push => 49,
        Role::Receive => 50,
    };
    let found = line[0] == 116 && line[1] == 119 && line[2] == 99 && line[3] == last;
    proof {
        let head = line@.take(4);
        if found {
            assert(head =~= magic(role));
        } else {
            assert(head[0] == line@[0] && head[1] == line@[1] && head[2] == line@[2] && head[3]
                == line@[3]);
        }
    }
    found
}

/// A handshake: the role that a peer announces and the token that it shows.
#[derive(Debug, PartialEq, Eq)]
pub struct Handshake {
    pub role: Role,
    pub token: Vec<u8>,
}

impl Handshake {
    /// Reads a handshake line, given without its terminator.
    pub fn parse(line: &[u8]) -> (r: Option<Handshake>)
        ensures
            match r {
                Some(handshake) => parse_spec(line@) == Some((handshake.role, handshake.token@)),
                None => parse_spec(line@) is None,
            },
    {
        let role = if has_magic(line, Role::Push) {
            Role::Push
        } else if has_magic(line, Role::Receive) {
            Role::Receive
        } else {
            return None;
        };
        let len = line.len();
        if len == 4 {
            Some(Handshake { role, token: Vec::new() })
        } else if line[4] == SPACE {
            let token = slice_to_vec(slice_subrange(line, 5, len));
            Some(Handshake { role, token })
        } else {
            None
        }
    }

    /// The handshake line without its terminator.
    pub fn payload(&self) -> (r: Vec<u8>)
        ensures
            r@ == handshake_payload(self.role, self.token@),
    {
        let mut line = self.role.magic();
        if self.token.len() > 0 {
            line.push(SPACE);
            line.extend_from_slice(self.token.as_slice());
        }
        line
    }

    /// The handshake as the first frame of a connection. A token that holds a
    /// newline cannot be sent.
    pub fn encode(&self) -> (r: Result<Frame, ProtocolViolation>)
        ensures
            match r {
                Ok(frame) => seal_spec(handshake_payload(self.role, self.token@)) == Ok::<
                    Seq<u8>,
                    ProtocolViolation,
                >(frame@),
                Err(violation) => seal_spec(handshake_payload(self.role, self.token@)) == Err::<
                    Seq<u8>,
                    ProtocolViolation,
                >(violation),
            },
    {
        Frame::seal(self.payload())
    }
}

} // verus!
