//! Newline-delimited frames.
//!
//! A frame is one complete snapshot of the replicated file: a byte string
//! closed by exactly one newline, with no newline before it.

use crate::error::ProtocolViolation;
use memchr::memchr;
use vstd::prelude::*;

verus! {

/// `memchr::memchr` returns the index of the first occurrence of `needle` in
/// `haystack`, or `None` where `haystack` does not hold it.
pub assume_specification[ memchr::memchr ](needle: u8, haystack: &[u8]) -> (r: Option<usize>)
    ensures
        match r {
            Some(at) => {
                &&& at < haystack@.len()
                &&& haystack@[at as int] == needle
                &&& forall|i: int| 0 <= i < at ==> haystack@[i] != needle
            },
            None => forall|i: int| 0 <= i < haystack@.len() ==> haystack@[i] != needle,
        },
;

/// The byte that terminates every frame.
pub const NEWLINE: u8 = 10;

/// No byte of `bytes` is a newline.
pub open spec fn newline_free(bytes: Seq<u8>) -> bool {
    forall|i: int| 0 <= i < bytes.len() ==> bytes[i] != NEWLINE
}

/// `bytes` ends in a newline and holds no other.
pub open spec fn is_frame(bytes: Seq<u8>) -> bool {
    &&& bytes.len() >= 1
    &&& bytes.last() == NEWLINE
    &&& newline_free(bytes.drop_last())
}

/// `at` is the index of the first newline of `bytes`.
pub open spec fn is_first_newline(bytes: Seq<u8>, at: int) -> bool {
    &&& 0 <= at < bytes.len()
    &&& bytes[at] == NEWLINE
    &&& newline_free(bytes.take(at))
}

/// The index of the first newline of `bytes`, if it holds one.
pub open spec fn first_newline(bytes: Seq<u8>) -> Option<int> {
    if newline_free(bytes) {
        None
    } else {
        Some(choose|at: int| is_first_newline(bytes, at))
    }
}

/// What sealing makes of a payload: the payload itself where its only newline
/// is its last byte, the payload with a newline appended where it holds none,
/// and a violation that names the first newline otherwise.
pub open spec fn seal_spec(payload: Seq<u8>) -> Result<Seq<u8>, ProtocolViolation> {
    match first_newline(payload) {
        None => Ok(payload.push(NEWLINE)),
        Some(at) => if at + 1 == payload.len() {
            Ok(payload)
        } else {
            Err(ProtocolViolation::InteriorNewline { at: at as usize })
        },
    }
}

/// The stream that carries `payloads` in order, each closed by a newline.
pub open spec fn join(payloads: Seq<Seq<u8>>) -> Seq<u8>
    decreases payloads.len(),
{
    if payloads.len() == 0 {
        Seq::empty()
    } else {
        join(payloads.drop_last()) + payloads.last().push(NEWLINE)
    }
}

/// `payload` holds a newline before its last byte.
pub open spec fn has_interior_newline(payload: Seq<u8>) -> bool {
    exists|i: int| 0 <= i < payload.len() - 1 && payload[i] == NEWLINE
}

/// Every one of `payloads` is free of newlines.
pub open spec fn all_newline_free(payloads: Seq<Seq<u8>>) -> bool {
    forall|i: int| 0 <= i < payloads.len() ==> newline_free(#[trigger] payloads[i])
}

/// A byte string has at most one first newline.
pub proof fn lemma_first_newline_unique(bytes: Seq<u8>, a: int, b: int)
    requires
        is_first_newline(bytes, a),
        is_first_newline(bytes, b),
    ensures
        a == b,
{
    if a < b {
        assert(bytes.take(b)[a] == bytes[a]);
    } else if b < a {
        assert(bytes.take(a)[b] == bytes[b]);
    }
}

/// `first_newline` returns the first newline where there is one, and `None`
/// exactly for newline-free input.
pub proof fn lemma_first_newline(bytes: Seq<u8>)
    ensures
        first_newline(bytes) matches Some(at) ==> is_first_newline(bytes, at),
        first_newline(bytes) is None <==> newline_free(bytes),
        forall|at: int| is_first_newline(bytes, at) ==> first_newline(bytes) == Some(at),
{
    if !newline_free(bytes) {
        assert(bytes.take(bytes.len() as int) == bytes);
        lemma_has_first_newline(bytes, bytes.len() as int);
        let at = choose|at: int| is_first_newline(bytes, at);
        assert forall|other: int| is_first_newline(bytes, other) implies first_newline(bytes)
            == Some(other) by {
            lemma_first_newline_unique(bytes, at, other);
        }
    } else {
        assert forall|at: int| !is_first_newline(bytes, at) by {}
    }
}

/// A prefix that holds a newline holds a first one.
proof fn lemma_has_first_newline(bytes: Seq<u8>, upto: int)
    requires
        0 <= upto <= bytes.len(),
        !newline_free(bytes.take(upto)),
    ensures
        exists|at: int| is_first_newline(bytes, at),
    decreases upto,
{
    if upto > 0 {
        if newline_free(bytes.take(upto - 1)) {
            let prefix = bytes.take(upto);
            let i = choose|i: int| 0 <= i < prefix.len() && prefix[i] == NEWLINE;
            if i < upto - 1 {
                assert(bytes.take(upto - 1)[i] == NEWLINE);
            }
            assert(is_first_newline(bytes, upto - 1));
        } else {
            lemma_has_first_newline(bytes, upto - 1);
        }
    }
}

/// Sealing makes frames and nothing else. A payload is refused exactly where
/// it holds a newline before its last byte, and the violation names the first
/// one. Any other payload becomes a frame: itself where it ends in a newline,
/// and itself with a newline appended where it does not.
pub proof fn lemma_seal(payload: Seq<u8>)
    ensures
        seal_spec(payload) is Err <==> has_interior_newline(payload),
        seal_spec(payload) matches Err(violation) ==> {
            &&& violation matches ProtocolViolation::InteriorNewline { at }
            &&& payload.len() <= usize::MAX ==> is_first_newline(payload, at as int) && at + 1
                < payload.len()
        },
        seal_spec(payload) matches Ok(frame) ==> {
            &&& is_frame(frame)
            &&& frame == if payload.len() > 0 && payload.last() == NEWLINE {
                payload
            } else {
                payload.push(NEWLINE)
            }
        },
{
    lemma_first_newline(payload);
    match first_newline(payload) {
        None => {
            assert(payload.push(NEWLINE).drop_last() == payload);
        },
        Some(at) => {
            if at + 1 == payload.len() {
                assert(payload.drop_last() == payload.take(at));
                assert forall|i: int| 0 <= i < payload.len() - 1 implies payload[i]
                    != NEWLINE by {
                    assert(payload.take(at)[i] == payload[i]);
                }
            }
        },
    }
}

/// Sealing a frame changes nothing.
pub proof fn lemma_seal_keeps_frames(frame: Seq<u8>)
    requires
        is_frame(frame),
    ensures
        seal_spec(frame) == Ok::<Seq<u8>, ProtocolViolation>(frame),
{
    let at = frame.len() - 1;
    assert(frame.take(at) == frame.drop_last());
    assert(is_first_newline(frame, at));
    lemma_first_newline(frame);
}

/// Finds the first newline of `bytes`.
pub fn find_newline(bytes: &[u8]) -> (r: Option<usize>)
    ensures
        match r {
            Some(at) => is_first_newline(bytes@, at as int) && first_newline(bytes@) == Some(
                at as int,
            ),
            None => newline_free(bytes@) && first_newline(bytes@) is None,
        },
{
    let found = memchr(NEWLINE, bytes);
    proof {
        lemma_first_newline(bytes@);
        if let Some(at) = found {
            assert(is_first_newline(bytes@, at as int));
        }
    }
    found
}

/// One complete snapshot, ready for the wire: every value of this type ends in
/// a newline and holds no other.
#[derive(Debug, PartialEq, Eq)]
pub struct Frame {
    bytes: Vec<u8>,
}

impl View for Frame {
    type V = Seq<u8>;

    closed spec fn view(&self) -> Seq<u8> {
        self.bytes@
    }
}

impl Frame {
    #[verifier::type_invariant]
    spec fn well_formed(&self) -> bool {
        is_frame(self.bytes@)
    }

    /// Turns a payload into a frame: appends the terminator where it is
    /// missing, and rejects a payload with a newline before its last byte.
    pub fn seal(payload: Vec<u8>) -> (r: Result<Frame, ProtocolViolation>)
        ensures
            match r {
                Ok(frame) => seal_spec(payload@) == Ok::<Seq<u8>, ProtocolViolation>(frame@),
                Err(violation) => seal_spec(payload@) == Err::<Seq<u8>, ProtocolViolation>(
                    violation,
                ),
            },
            r matches Ok(frame) ==> is_frame(frame@),
    {
        let mut bytes = payload;
        let len = bytes.len();
        match find_newline(bytes.as_slice()) {
            Some(at) => {
                if at + 1 != len {
                    return Err(ProtocolViolation::InteriorNewline { at });
                }
                assert(bytes@.drop_last() == bytes@.take(at as int));
            },
            None => {
                bytes.push(NEWLINE);
                assert(bytes@.drop_last() == payload@);
            },
        }
        Ok(Frame { bytes })
    }

    /// The bytes of the frame, terminator included.
    pub fn as_bytes(&self) -> (r: &[u8])
        ensures
            r@ == self@,
            is_frame(r@),
    {
        proof {
            use_type_invariant(self);
        }
        self.bytes.as_slice()
    }

    /// The bytes of the frame, terminator included.
    pub fn into_bytes(self) -> (r: Vec<u8>)
        ensures
            r@ == self@,
            is_frame(r@),
    {
        proof {
            use_type_invariant(&self);
        }
        self.bytes
    }

    /// The bytes of the frame without its terminator.
    pub fn payload(&self) -> (r: Vec<u8>)
        ensures
            r@ == self@.drop_last(),
            newline_free(r@),
    {
        proof {
            use_type_invariant(self);
        }
        let mut bytes = self.bytes.clone();
        bytes.pop();
        bytes
    }

    /// A copy of the frame.
    pub fn duplicate(&self) -> (r: Frame)
        ensures
            r@ == self@,
            is_frame(r@),
    {
        proof {
            use_type_invariant(self);
        }
        Frame { bytes: self.bytes.clone() }
    }
}

/// What one read from a buffered stream gives.
#[derive(Debug, PartialEq, Eq)]
pub enum FrameRead {
    /// The next frame, without its terminator.
    Frame(Vec<u8>),
    /// No complete frame is buffered yet, and the stream goes on.
    Pending,
    /// The stream ended exactly at a frame boundary.
    EndOfStream,
}

/// The bytes of one direction of a connection that have arrived but have not
/// been read as frames yet.
#[derive(Debug)]
pub struct FrameBuffer {
    pending: Vec<u8>,
}

impl View for FrameBuffer {
    type V = Seq<u8>;

    closed spec fn view(&self) -> Seq<u8> {
        self.pending@
    }
}

impl FrameBuffer {
    /// An empty buffer.
    pub fn new() -> (r: FrameBuffer)
        ensures
            r@ == Seq::<u8>::empty(),
    {
        FrameBuffer { pending: Vec::new() }
    }

    /// Appends bytes that have arrived.
    pub fn push(&mut self, bytes: &[u8])
        ensures
            final(self)@ == old(self)@ + bytes@,
    {
        self.pending.extend_from_slice(bytes);
    }

    /// Reads the next frame. Up to and including the first buffered newline is
    /// taken out and returned without the newline. Where no newline is
    /// buffered nothing is taken out: the read is pending while the stream
    /// goes on; once it has ended, an empty buffer is the end of the stream and
    /// a non-empty one a truncated frame.
    pub fn read_frame(&mut self, at_end: bool) -> (r: Result<FrameRead, ProtocolViolation>)
        ensures
            match first_newline(old(self)@) {
                Some(at) => {
                    &&& r matches Ok(FrameRead::Frame(payload))
                    &&& payload@ == old(self)@.take(at)
                    &&& newline_free(payload@)
                    &&& final(self)@ == old(self)@.skip(at + 1)
                },
                None => {
                    &&& final(self)@ == old(self)@
                    &&& !at_end ==> (r matches Ok(FrameRead::Pending))
                    &&& at_end && old(self)@.len() == 0 ==> (r matches Ok(FrameRead::EndOfStream))
                    &&& at_end && old(self)@.len() > 0 ==> r == Err::<
                        FrameRead,
                        ProtocolViolation,
                    >(ProtocolViolation::TruncatedFrame)
                },
            },
    {
        let buffered = self.pending.len();
        match find_newline(self.pending.as_slice()) {
            Some(at) => {
                let mut rest = self.pending.split_off(at + 1);
                self.pending.pop();
                core::mem::swap(&mut self.pending, &mut rest);
                assert(rest@ == old(self)@.take(at as int));
                assert(self.pending@ == old(self)@.skip(at + 1));
                Ok(FrameRead::Frame(rest))
            },
            None => {
                if !at_end {
                    Ok(FrameRead::Pending)
                } else if buffered == 0 {
                    Ok(FrameRead::EndOfStream)
                } else {
                    Err(ProtocolViolation::TruncatedFrame)
                }
            },
        }
    }
}

/// Reading undoes writing: where a newline-free payload is written with its
/// terminator in front of whatever follows, the first newline of the stream is
/// that terminator, what stands before it is the payload, and what stands
/// behind it is what followed.
pub proof fn lemma_read_inverts_write(payload: Seq<u8>, rest: Seq<u8>)
    requires
        newline_free(payload),
    ensures
        first_newline(payload.push(NEWLINE) + rest) == Some(payload.len() as int),
        (payload.push(NEWLINE) + rest).take(payload.len() as int) == payload,
        (payload.push(NEWLINE) + rest).skip(payload.len() as int + 1) == rest,
{
    let stream = payload.push(NEWLINE) + rest;
    let at = payload.len() as int;
    assert(stream.take(at) == payload);
    assert(stream.skip(at + 1) == rest);
    assert(is_first_newline(stream, at));
    lemma_first_newline(stream);
}

/// An empty run of payloads makes the empty stream; any other makes a stream
/// that ends in a newline, and without that newline it is the stream of all
/// payloads but the last, followed by the last payload.
proof fn lemma_join_ends_in_newline(payloads: Seq<Seq<u8>>)
    ensures
        payloads.len() == 0 ==> join(payloads).len() == 0,
        payloads.len() > 0 ==> {
            &&& join(payloads).len() > 0
            &&& join(payloads).last() == NEWLINE
            &&& join(payloads).drop_last() == join(payloads.drop_last()) + payloads.last()
        },
{
    if payloads.len() > 0 {
        let head = join(payloads.drop_last());
        let tail = payloads.last().push(NEWLINE);
        assert(join(payloads) == head + tail);
        assert((head + tail).len() == head.len() + payloads.last().len() + 1);
        assert((head + tail).last() == tail.last());
        assert((head + tail).drop_last() =~= head + payloads.last());
    }
}

/// A stream can be cut into payloads in one way only: where two runs of
/// newline-free payloads, each followed by a newline-free rest, make the same
/// stream, they are the same payloads and the same rest. So whoever reads a
/// stream gets the payloads that were written to it, no more and no fewer.
#[verifier::spinoff_prover]
pub proof fn lemma_join_is_unique(a: Seq<Seq<u8>>, p: Seq<u8>, b: Seq<Seq<u8>>, q: Seq<u8>)
    requires
        all_newline_free(a),
        all_newline_free(b),
        newline_free(p),
        newline_free(q),
        join(a) + p == join(b) + q,
    ensures
        a == b,
        p == q,
    decreases a.len(),
{
    let left = join(a);
    let right = join(b);
    let stream = left + p;
    let other = right + q;
    assert(stream == other);
    assert(stream.len() == left.len() + p.len());
    assert(other.len() == right.len() + q.len());
    lemma_join_ends_in_newline(a);
    lemma_join_ends_in_newline(b);
    if left.len() < right.len() {
        // The newline that ends `right` would lie in `p`.
        let at = right.len() - 1;
        assert(right[at] == NEWLINE);
        assert(other[at] == right[at]);
        assert(left.len() <= at < stream.len());
        assert(stream[at] == p[at - left.len()]);
        assert(p[at - left.len()] != NEWLINE);
        assert(false);
    } else if right.len() < left.len() {
        // The newline that ends `left` would lie in `q`.
        let at = left.len() - 1;
        assert(left[at] == NEWLINE);
        assert(stream[at] == left[at]);
        assert(right.len() <= at < other.len());
        assert(other[at] == q[at - right.len()]);
        assert(q[at - right.len()] != NEWLINE);
        assert(false);
    } else {
        let cut = left.len() as int;
        assert(stream.take(cut) =~= left);
        assert(other.take(cut) =~= right);
        assert(left == right);
        assert(stream.skip(cut) =~= p);
        assert(other.skip(cut) =~= q);
        assert(p == q);
        if a.len() == 0 {
            assert(b.len() == 0);
            assert(a =~= b);
        } else {
            assert(b.len() > 0);
            assert(join(a.drop_last()) + a.last() == join(b.drop_last()) + b.last());
            assert(all_newline_free(a.drop_last())) by {
                assert forall|i: int| 0 <= i < a.drop_last().len() implies newline_free(
                    #[trigger] a.drop_last()[i],
                ) by {
                    assert(a.drop_last()[i] == a[i]);
                }
            }
            assert(all_newline_free(b.drop_last())) by {
                assert forall|i: int| 0 <= i < b.drop_last().len() implies newline_free(
                    #[trigger] b.drop_last()[i],
                ) by {
                    assert(b.drop_last()[i] == b[i]);
                }
            }
            assert(newline_free(a.last()));
            assert(newline_free(b.last()));
            lemma_join_is_unique(a.drop_last(), a.last(), b.drop_last(), b.last());
            assert(a =~= a.drop_last().push(a.last()));
            assert(b =~= b.drop_last().push(b.last()));
        }
    }
}

} // verus!
