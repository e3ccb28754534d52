//! The two ends of one direction of a connection.
//!
//! Everything that travels in one direction, the handshake and every frame
//! after it, passes through a single zstd stream. The sender hands the
//! compressor whole frames and flushes after each, so that the frame can be
//! decoded as soon as its bytes arrive. The receiver hands the decompressor
//! whatever has arrived and cuts what comes out into frames again.
//!
//! What zstd makes of a writer and the bytes written to it is not spelt out
//! here; it has names. The contracts of both ends say, over those names, in
//! which order the compression is called, with what, and what becomes of each
//! outcome.

use crate::error::Error;
use crate::error::ProtocolViolation;
use crate::frame::all_newline_free;
use crate::frame::first_newline;
use crate::frame::is_frame;
use crate::frame::join;
use crate::frame::lemma_first_newline;
use crate::frame::lemma_join_is_unique;
use crate::frame::newline_free;
use crate::frame::seal_spec;
use crate::frame::Frame;
use crate::frame::FrameBuffer;
use crate::frame::FrameRead;
use crate::frame::NEWLINE;
use vstd::prelude::*;

verus! {

/// `std::io::Error`, as the calls into zstd report it. It is handed on as
/// the cause of a [`CodecError`] and never looked into.
#[verifier::external_type_specification]
#[verifier::external_body]
pub struct ExIoError(std::io::Error);

/// `zstd::stream::raw::Encoder`, a compression context. Nothing is known of
/// what is inside.
#[verifier::external_type_specification]
#[verifier::external_body]
pub struct ExRawEncoder<'a>(zstd::stream::raw::Encoder<'a>);

/// `zstd::stream::raw::Decoder`, a decompression context. Nothing is known of
/// what is inside.
#[verifier::external_type_specification]
#[verifier::external_body]
pub struct ExRawDecoder<'a>(zstd::stream::raw::Decoder<'a>);

/// `zstd::stream::zio::Writer`, which runs what is written to it through an
/// encoder or a decoder and passes the outcome on to the writer behind it.
/// Nothing is known of what is inside.
#[verifier::external_type_specification]
#[verifier::external_body]
#[verifier::reject_recursive_types(W)]
#[verifier::reject_recursive_types(D)]
pub struct ExZioWriter<W, D>(zstd::stream::zio::Writer<W, D>);

/// The writer that compresses into a vector.
pub type Compressing = zstd::stream::zio::Writer<Vec<u8>, zstd::stream::raw::Encoder<'static>>;

/// The writer that decompresses into a vector.
pub type Decompressing = zstd::stream::zio::Writer<Vec<u8>, zstd::stream::raw::Decoder<'static>>;

/// The compression context that `zstd::stream::raw::Encoder::new` makes for a
/// level.
pub uninterp spec fn encoder_at(level: i32) -> zstd::stream::raw::Encoder<'static>;

/// The compressing writer that `zstd::stream::zio::Writer::new` makes around
/// an empty vector and an encoder.
pub uninterp spec fn compress_around(encoder: zstd::stream::raw::Encoder<'static>) -> Compressing;

/// What `std::io::Write::write_all` makes of a compressing writer and the
/// bytes written to it: the writer afterwards, and whether the call
/// succeeded.
pub uninterp spec fn compress_written(writer: Compressing, bytes: Seq<u8>) -> (Compressing, bool);

/// What `std::io::Write::flush` makes of a compressing writer: the writer
/// afterwards, and whether the call succeeded.
pub uninterp spec fn compress_flushed(writer: Compressing) -> (Compressing, bool);

/// What `zstd::stream::zio::Writer::finish` makes of a compressing writer:
/// the writer afterwards, and whether the call succeeded.
pub uninterp spec fn compress_finished(writer: Compressing) -> (Compressing, bool);

/// What the vector behind a compressing writer holds.
pub uninterp spec fn compress_held(writer: Compressing) -> Seq<u8>;

/// The compressing writer with the vector behind it holding `bytes` instead.
pub uninterp spec fn compress_holding(writer: Compressing, bytes: Seq<u8>) -> Compressing;

/// What `std::io::Write::write_all` makes of a decompressing writer and the
/// bytes written to it: the writer afterwards, and whether the call
/// succeeded.
pub uninterp spec fn decompress_written(writer: Decompressing, bytes: Seq<u8>) -> (
    Decompressing,
    bool,
);

/// What `std::io::Write::flush` makes of a decompressing writer: the writer
/// afterwards, and whether the call succeeded.
pub uninterp spec fn decompress_flushed(writer: Decompressing) -> (Decompressing, bool);

/// What the vector behind a decompressing writer holds.
pub uninterp spec fn decompress_held(writer: Decompressing) -> Seq<u8>;

/// The decompressing writer with the vector behind it holding `bytes`
/// instead.
pub uninterp spec fn decompress_holding(writer: Decompressing, bytes: Seq<u8>) -> Decompressing;

/// `zstd::stream::raw::Encoder::new`: a compression context at `level`. It
/// never fails: a level out of range is clamped, not refused, and no
/// dictionary is loaded. The context is the one that bears the level's name.
#[verifier::external_body]
fn raw_encoder(level: i32) -> (r: Result<zstd::stream::raw::Encoder<'static>, std::io::Error>)
    ensures
        r is Ok,
        r matches Ok(encoder) ==> encoder == encoder_at(level),
{
    zstd::stream::raw::Encoder::new(level)
}

/// `zstd::stream::zio::Writer::new`, around an empty vector that collects
/// what the encoder puts out: the writer is the one that bears the encoder's
/// name, and the vector behind it is empty.
#[verifier::external_body]
fn encoder_writer(encoder: zstd::stream::raw::Encoder<'static>) -> (r: Compressing)
    ensures
        r == compress_around(encoder),
        compress_held(r) == Seq::<u8>::empty(),
{
    zstd::stream::zio::Writer::new(Vec::new(), encoder)
}

/// `std::io::Write::write_all` on the compressing writer. The writer
/// afterwards and the success of the call are those that bear its name.
#[verifier::external_body]
fn encoder_write_all(writer: &mut Compressing, bytes: &[u8]) -> (r: Result<(), std::io::Error>)
    ensures
        (*final(writer), r is Ok) == compress_written(*old(writer), bytes@),
{
    std::io::Write::write_all(writer, bytes)
}

/// `std::io::Write::flush` on the compressing writer. The writer afterwards
/// and the success of the call are those that bear its name.
#[verifier::external_body]
fn encoder_flush(writer: &mut Compressing) -> (r: Result<(), std::io::Error>)
    ensures
        (*final(writer), r is Ok) == compress_flushed(*old(writer)),
{
    std::io::Write::flush(writer)
}

/// `zstd::stream::zio::Writer::writer_mut` on the compressing writer: the
/// vector that collects what the encoder puts out. It is handed out as it is,
/// and whatever it is left holding is what the writer has behind it
/// afterwards; nothing else of the writer changes.
#[verifier::external_body]
fn encoder_output<'a>(writer: &'a mut Compressing) -> (r: &'a mut Vec<u8>)
    ensures
        r@ == compress_held(*old(writer)),
        *final(writer) == compress_holding(*old(writer), final(r)@),
{
    writer.writer_mut()
}

/// `zstd::stream::zio::Writer::finish` on the compressing writer, which ends
/// the compressed stream. The writer afterwards and the success of the call
/// are those that bear its name.
#[verifier::external_body]
fn encoder_finish(writer: &mut Compressing) -> (r: Result<(), std::io::Error>)
    ensures
        (*final(writer), r is Ok) == compress_finished(*old(writer)),
{
    writer.finish()
}

/// `zstd::stream::raw::Decoder::new`: a decompression context. It never
/// fails: initialising the context cannot, and no dictionary is loaded.
#[verifier::external_body]
fn raw_decoder() -> (r: Result<zstd::stream::raw::Decoder<'static>, std::io::Error>)
    ensures
        r is Ok,
{
    zstd::stream::raw::Decoder::new()
}

/// `zstd::stream::zio::Writer::new`, around an empty vector that collects
/// what the decoder puts out: the vector behind the new writer is empty.
#[verifier::external_body]
fn decoder_writer(decoder: zstd::stream::raw::Decoder<'static>) -> (r: Decompressing)
    ensures
        decompress_held(r) == Seq::<u8>::empty(),
{
    zstd::stream::zio::Writer::new(Vec::new(), decoder)
}

/// `std::io::Write::write_all` on the decompressing writer. The writer
/// afterwards and the success of the call are those that bear its name.
#[verifier::external_body]
fn decoder_write_all(writer: &mut Decompressing, bytes: &[u8]) -> (r: Result<(), std::io::Error>)
    ensures
        (*final(writer), r is Ok) == decompress_written(*old(writer), bytes@),
{
    std::io::Write::write_all(writer, bytes)
}

/// `std::io::Write::flush` on the decompressing writer. The writer afterwards
/// and the success of the call are those that bear its name.
#[verifier::external_body]
fn decoder_flush(writer: &mut Decompressing) -> (r: Result<(), std::io::Error>)
    ensures
        (*final(writer), r is Ok) == decompress_flushed(*old(writer)),
{
    std::io::Write::flush(writer)
}

/// `zstd::stream::zio::Writer::writer_mut` on the decompressing writer: the
/// vector that collects what the decoder puts out. It is handed out as it is,
/// and whatever it is left holding is what the writer has behind it
/// afterwards; nothing else of the writer changes.
#[verifier::external_body]
fn decoder_output<'a>(writer: &'a mut Decompressing) -> (r: &'a mut Vec<u8>)
    ensures
        r@ == decompress_held(*old(writer)),
        *final(writer) == decompress_holding(*old(writer), final(r)@),
{
    writer.writer_mut()
}

/// Why an end of the codec could not do what was asked.
#[derive(Debug)]
pub enum CodecError {
    /// An earlier call into the compression failed. Nothing was attempted.
    Broken,
    /// The payload is no frame. Nothing reached the compression.
    Protocol(ProtocolViolation),
    /// The compression failed, for this cause.
    Outside(std::io::Error),
}

impl CodecError {
    /// The kind of failure that this is to a session.
    pub open spec fn kind_spec(&self) -> Error {
        match *self {
            CodecError::Protocol(violation) => Error::Protocol(violation),
            _ => Error::Io,
        }
    }

    /// The kind of failure that this is to a session: a payload that is no
    /// frame is a violation of the protocol, anything else a failure of
    /// input and output.
    pub fn kind(&self) -> (r: Error)
        ensures
            r == self.kind_spec(),
    {
        match self {
            CodecError::Protocol(violation) => Error::Protocol(*violation),
            _ => Error::Io,
        }
    }
}

/// The compressing writer that a sender starts with at `level`.
pub open spec fn compressing_at(level: i32) -> Compressing {
    compress_around(encoder_at(level))
}

/// What sending makes of a compressing writer and a frame: the frame is
/// written, then the writer is flushed, then the vector behind it is emptied.
/// Where both calls succeed, what the vector held goes on the wire. Where one
/// fails, nothing does, and the writer is left as that call left it.
pub open spec fn after_send(stream: Compressing, frame: Seq<u8>) -> (
    Compressing,
    Option<Seq<u8>>,
) {
    let (written, wrote) = compress_written(stream, frame);
    if !wrote {
        (written, None)
    } else {
        let (flushed, ok) = compress_flushed(written);
        if !ok {
            (flushed, None)
        } else {
            (compress_holding(flushed, Seq::empty()), Some(compress_held(flushed)))
        }
    }
}

/// What ending the stream makes of a compressing writer: it is finished, and
/// where that succeeds, what the vector behind it holds goes on the wire.
pub open spec fn after_finish(stream: Compressing) -> Option<Seq<u8>> {
    let (ended, ok) = compress_finished(stream);
    if ok {
        Some(compress_held(ended))
    } else {
        None
    }
}

/// What feeding makes of a decompressing writer and bytes from the wire: the
/// bytes are written, then the writer is flushed, then the vector behind it
/// is emptied. Where both calls succeed, what the vector held is what was
/// decoded. Where one fails, nothing is, and the writer is left as that call
/// left it.
pub open spec fn after_feed(stream: Decompressing, wire: Seq<u8>) -> (
    Decompressing,
    Option<Seq<u8>>,
) {
    let (written, wrote) = decompress_written(stream, wire);
    if !wrote {
        (written, None)
    } else {
        let (flushed, ok) = decompress_flushed(written);
        if !ok {
            (flushed, None)
        } else {
            (decompress_holding(flushed, Seq::empty()), Some(decompress_held(flushed)))
        }
    }
}

/// The sending end: frames go in, bytes for the wire come out.
pub struct Sender {
    writer: Compressing,
    broken: bool,
    sent: Ghost<Seq<Seq<u8>>>,
}

impl Sender {
    /// The compressing writer as it stands.
    pub closed spec fn stream(&self) -> Compressing {
        self.writer
    }

    /// The payloads of the frames that have been sent, in order.
    pub closed spec fn sent(&self) -> Seq<Seq<u8>> {
        self.sent@
    }

    /// All that has been sent before it was compressed: the payloads sent,
    /// each with its newline.
    pub open spec fn plain(&self) -> Seq<u8> {
        join(self.sent())
    }

    /// The compressor has failed; nothing more can be sent.
    pub closed spec fn broken(&self) -> bool {
        self.broken
    }

    /// A sending end that compresses at `level`; 0 stands for the
    /// compressor's default, and a level out of range for the nearest one in
    /// range. This always succeeds. Nothing has been sent, and nothing is
    /// waiting behind the compressor.
    pub fn new(level: i32) -> (r: Result<Sender, CodecError>)
        ensures
            r is Ok,
            r matches Ok(sender) ==> {
                &&& sender.stream() == compressing_at(level)
                &&& compress_held(sender.stream()) == Seq::<u8>::empty()
                &&& sender.sent() == Seq::<Seq<u8>>::empty()
                &&& !sender.broken()
            },
    {
        match raw_encoder(level) {
            Ok(encoder) => Ok(
                Sender {
                    writer: encoder_writer(encoder),
                    broken: false,
                    sent: Ghost(Seq::empty()),
                },
            ),
            Err(cause) => Err(CodecError::Outside(cause)),
        }
    }

    /// Compresses one frame and returns the bytes to put on the wire for it,
    /// as [`after_send`] says: the frame is written to the compressor, the
    /// compressor is flushed, and all that has come out of it is returned, so
    /// that the peer can decode the frame from these bytes. The send succeeds
    /// exactly where the write and the flush do. After a failure the sender
    /// is broken and refuses every further frame without touching the
    /// compressor.
    pub fn send(&mut self, frame: &Frame) -> (r: Result<Vec<u8>, CodecError>)
        ensures
            is_frame(frame@),
            old(self).broken() ==> {
                &&& r matches Err(CodecError::Broken)
                &&& final(self).broken()
                &&& final(self).stream() == old(self).stream()
                &&& final(self).sent() == old(self).sent()
            },
            !old(self).broken() ==> {
                &&& final(self).stream() == after_send(old(self).stream(), frame@).0
                &&& match after_send(old(self).stream(), frame@).1 {
                    Some(wire) => {
                        &&& r matches Ok(bytes)
                        &&& bytes@ == wire
                        &&& !final(self).broken()
                        &&& final(self).sent() == old(self).sent().push(frame@.drop_last())
                        &&& final(self).plain() == old(self).plain() + frame@
                    },
                    None => {
                        &&& r matches Err(CodecError::Outside(_))
                        &&& final(self).broken()
                        &&& final(self).sent() == old(self).sent()
                    },
                }
            },
    {
        let bytes = frame.as_bytes();
        if self.broken {
            return Err(CodecError::Broken);
        }
        if let Err(cause) = encoder_write_all(&mut self.writer, bytes) {
            self.broken = true;
            return Err(CodecError::Outside(cause));
        }
        if let Err(cause) = encoder_flush(&mut self.writer) {
            self.broken = true;
            return Err(CodecError::Outside(cause));
        }
        let mut wire: Vec<u8> = Vec::new();
        core::mem::swap(encoder_output(&mut self.writer), &mut wire);
        proof {
            let grown = self.sent@.push(frame@.drop_last());
            assert(grown.drop_last() =~= self.sent@);
            assert(frame@ =~= frame@.drop_last().push(NEWLINE));
            self.sent@ = grown;
        }
        Ok(wire)
    }

    /// Makes a frame of `payload` and sends it: a newline is appended where
    /// the payload ends in none. A payload with a newline before its last
    /// byte is refused, and nothing of it reaches the compressor; the sender
    /// stays as it was. Any other payload is sent as [`Sender::send`] sends
    /// its frame.
    pub fn write_frame(&mut self, payload: Vec<u8>) -> (r: Result<Vec<u8>, CodecError>)
        ensures
            match seal_spec(payload@) {
                Err(violation) => {
                    &&& r matches Err(CodecError::Protocol(refused))
                    &&& refused == violation
                    &&& final(self).stream() == old(self).stream()
                    &&& final(self).sent() == old(self).sent()
                    &&& final(self).broken() == old(self).broken()
                },
                Ok(frame) => {
                    &&& old(self).broken() ==> {
                        &&& r matches Err(CodecError::Broken)
                        &&& final(self).broken()
                        &&& final(self).stream() == old(self).stream()
                        &&& final(self).sent() == old(self).sent()
                    }
                    &&& !old(self).broken() ==> {
                        &&& final(self).stream() == after_send(old(self).stream(), frame).0
                        &&& match after_send(old(self).stream(), frame).1 {
                            Some(wire) => {
                                &&& r matches Ok(bytes)
                                &&& bytes@ == wire
                                &&& !final(self).broken()
                                &&& final(self).sent() == old(self).sent().push(frame.drop_last())
                                &&& final(self).plain() == old(self).plain() + frame
                            },
                            None => {
                                &&& r matches Err(CodecError::Outside(_))
                                &&& final(self).broken()
                                &&& final(self).sent() == old(self).sent()
                            },
                        }
                    }
                },
            },
    {
        match Frame::seal(payload) {
            Ok(frame) => self.send(&frame),
            Err(violation) => Err(CodecError::Protocol(violation)),
        }
    }

    /// Ends the compressed stream and returns the bytes that close it on the
    /// wire, as [`after_finish`] says. A broken sender cannot end its stream.
    pub fn finish(self) -> (r: Result<Vec<u8>, CodecError>)
        ensures
            self.broken() ==> (r matches Err(CodecError::Broken)),
            !self.broken() ==> match after_finish(self.stream()) {
                Some(wire) => r matches Ok(bytes) && bytes@ == wire,
                None => (r matches Err(CodecError::Outside(_))),
            },
    {
        let mut sender = self;
        if sender.broken {
            return Err(CodecError::Broken);
        }
        if let Err(cause) = encoder_finish(&mut sender.writer) {
            return Err(CodecError::Outside(cause));
        }
        let mut wire: Vec<u8> = Vec::new();
        core::mem::swap(encoder_output(&mut sender.writer), &mut wire);
        Ok(wire)
    }
}

/// The receiving end: bytes from the wire go in, frames come out.
pub struct Receiver {
    writer: Decompressing,
    buffer: FrameBuffer,
    broken: bool,
    delivered: Ghost<Seq<Seq<u8>>>,
}

impl Receiver {
    /// The decompressing writer as it stands.
    pub closed spec fn stream(&self) -> Decompressing {
        self.writer
    }

    /// The payloads that have been read as frames so far, in order.
    pub closed spec fn delivered(&self) -> Seq<Seq<u8>> {
        self.delivered@
    }

    /// What has been decoded but not read as a frame yet.
    pub closed spec fn pending(&self) -> Seq<u8> {
        self.buffer@
    }

    /// All that the decompressor has put out so far: the payloads delivered,
    /// each with its newline, and what is pending behind them.
    pub open spec fn decoded(&self) -> Seq<u8> {
        join(self.delivered()) + self.pending()
    }

    /// The decompressor has failed; nothing more can be fed.
    pub closed spec fn broken(&self) -> bool {
        self.broken
    }

    /// A receiving end that has seen nothing yet. This always succeeds.
    pub fn new() -> (r: Result<Receiver, CodecError>)
        ensures
            r is Ok,
            r matches Ok(receiver) ==> {
                &&& decompress_held(receiver.stream()) == Seq::<u8>::empty()
                &&& receiver.delivered() == Seq::<Seq<u8>>::empty()
                &&& receiver.pending() == Seq::<u8>::empty()
                &&& !receiver.broken()
            },
    {
        match raw_decoder() {
            Ok(decoder) => {
                Ok(
                    Receiver {
                        writer: decoder_writer(decoder),
                        buffer: FrameBuffer::new(),
                        broken: false,
                        delivered: Ghost(Seq::empty()),
                    },
                )
            },
            Err(cause) => Err(CodecError::Outside(cause)),
        }
    }

    /// Hands bytes that arrived from the wire to the decompressor, as
    /// [`after_feed`] says, and appends what it puts out to what is pending.
    /// The feed succeeds exactly where the write and the flush do. After a
    /// failure the receiver is broken and refuses every further byte without
    /// touching the decompressor; what was decoded before can still be read.
    pub fn feed(&mut self, wire: &[u8]) -> (r: Result<(), CodecError>)
        ensures
            final(self).delivered() == old(self).delivered(),
            old(self).broken() ==> {
                &&& r matches Err(CodecError::Broken)
                &&& final(self).broken()
                &&& final(self).stream() == old(self).stream()
                &&& final(self).pending() == old(self).pending()
            },
            !old(self).broken() ==> {
                &&& final(self).stream() == after_feed(old(self).stream(), wire@).0
                &&& match after_feed(old(self).stream(), wire@).1 {
                    Some(plain) => {
                        &&& r is Ok
                        &&& !final(self).broken()
                        &&& final(self).pending() == old(self).pending() + plain
                        &&& final(self).decoded() == old(self).decoded() + plain
                    },
                    None => {
                        &&& r matches Err(CodecError::Outside(_))
                        &&& final(self).broken()
                        &&& final(self).pending() == old(self).pending()
                    },
                }
            },
    {
        if self.broken {
            return Err(CodecError::Broken);
        }
        if let Err(cause) = decoder_write_all(&mut self.writer, wire) {
            self.broken = true;
            return Err(CodecError::Outside(cause));
        }
        if let Err(cause) = decoder_flush(&mut self.writer) {
            self.broken = true;
            return Err(CodecError::Outside(cause));
        }
        let mut plain: Vec<u8> = Vec::new();
        core::mem::swap(decoder_output(&mut self.writer), &mut plain);
        self.buffer.push(plain.as_slice());
        assert(self.decoded() =~= old(self).decoded() + plain@);
        Ok(())
    }

    /// Reads the next frame from what has been decoded, as
    /// [`FrameBuffer::read_frame`] does; `at_end` says that the wire has
    /// ended and nothing more will be fed. The decompressor is not touched.
    pub fn read_frame(&mut self, at_end: bool) -> (r: Result<FrameRead, ProtocolViolation>)
        ensures
            final(self).stream() == old(self).stream(),
            final(self).decoded() == old(self).decoded(),
            final(self).broken() == old(self).broken(),
            match first_newline(old(self).pending()) {
                Some(at) => {
                    &&& r matches Ok(FrameRead::Frame(payload))
                    &&& payload@ == old(self).pending().take(at)
                    &&& newline_free(payload@)
                    &&& final(self).pending() == old(self).pending().skip(at + 1)
                    &&& final(self).delivered() == old(self).delivered().push(payload@)
                },
                None => {
                    &&& final(self).pending() == old(self).pending()
                    &&& final(self).delivered() == old(self).delivered()
                    &&& !at_end ==> (r matches Ok(FrameRead::Pending))
                    &&& at_end && old(self).pending().len() == 0 ==> (r matches Ok(
                        FrameRead::EndOfStream,
                    ))
                    &&& at_end && old(self).pending().len() > 0 ==> r == Err::<
                        FrameRead,
                        ProtocolViolation,
                    >(ProtocolViolation::TruncatedFrame)
                },
            },
    {
        let read = self.buffer.read_frame(at_end);
        proof {
            if let Ok(FrameRead::Frame(payload)) = &read {
                let before = old(self).buffer@;
                let at = first_newline(before).unwrap();
                lemma_first_newline(before);
                let grown = self.delivered@.push(payload@);
                assert(grown.drop_last() =~= self.delivered@);
                assert(before =~= payload@.push(NEWLINE) + before.skip(at + 1));
                self.delivered@ = grown;
            }
        }
        read
    }
}

/// What is sent is what is delivered, as far as the compression keeps its
/// word. Take a sender and a receiver whose decompressor has put out exactly
/// what the sender's compressor took in, and let the receiver have read every
/// frame that is complete. Then the payloads delivered are the payloads sent,
/// in the same order, and nothing is pending. That the decompressor gives back
/// what the compressor took in is the compression's own promise; it is not
/// proved here.
pub proof fn lemma_sent_is_delivered(sender: Sender, receiver: Receiver)
    requires
        all_newline_free(sender.sent()),
        all_newline_free(receiver.delivered()),
        newline_free(receiver.pending()),
        receiver.decoded() == sender.plain(),
    ensures
        receiver.delivered() == sender.sent(),
        receiver.pending() == Seq::<u8>::empty(),
{
    lemma_join_is_unique(
        receiver.delivered(),
        receiver.pending(),
        sender.sent(),
        Seq::<u8>::empty(),
    );
}

} // verus!
