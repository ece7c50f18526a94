//! Reassembly of messages from a stream that delivers bytes in chunks.
//!
//! A read of the underlying stream may bring nothing, part of a message, one
//! message, or more than one. The reader keeps what has arrived and hands out
//! one checked message at a time; what follows a message stays buffered for
//! the next call.

use crate::checksum::{spec_checksum4, spec_verify, verify};
use crate::endian::put_bytes;
use crate::envelope::{
    decode_envelope_header, lemma_envelope_integrity, spec_command_field, spec_decode_header,
    spec_encode_envelope, spec_envelope_error, spec_field_name, spec_no_nul, spec_nul_only_at_end,
    EnvelopeHeader, EnvelopeView, HeaderView, MessageEnvelope, HEADER_LEN, MAGIC_LEN,
};
use crate::error::{DecodingError, TransportError};
use vstd::prelude::*;
use vstd::slice::slice_subrange;

verus! {

/// What the front of a buffer holds.
pub enum Frame {
    /// Not yet a whole message.
    Incomplete,
    /// Bytes that no message starts with, or a payload that fails its checksum.
    Broken(TransportError),
    /// A whole message that passed its checksum, and the bytes after it.
    Whole(EnvelopeView, Seq<u8>),
}

/// What the front of `buf` holds on the network with the given magic. The
/// header is judged as soon as its 24 bytes are there; the payload is checked
/// against the checksum once all of it is there.
pub open spec fn spec_frame(buf: Seq<u8>, magic: Seq<u8>) -> Frame {
    match spec_decode_header(buf, magic) {
        Err(DecodingError::Truncated) => Frame::Incomplete,
        Err(DecodingError::BadMagic) => Frame::Broken(TransportError::BadMagic),
        Err(_) => Frame::Broken(TransportError::BadCommand),
        Ok(h) => {
            let end = HEADER_LEN + h.length;
            if buf.len() < end {
                Frame::Incomplete
            } else if !spec_verify(buf.subrange(HEADER_LEN as int, end), h.checksum) {
                Frame::Broken(TransportError::ChecksumMismatch)
            } else {
                Frame::Whole(
                    EnvelopeView { header: h, payload: buf.subrange(HEADER_LEN as int, end) },
                    buf.subrange(end, buf.len() as int),
                )
            }
        },
    }
}

/// How reading a message from a sequence of chunks ends.
pub enum ReadOutcome {
    /// A message, and the bytes left in the buffer after it.
    Message(EnvelopeView, Seq<u8>),
    /// The stream broke or ended.
    Failed(TransportError),
    /// Every chunk was taken and the message is not complete; the buffer is given.
    Pending(Seq<u8>),
}

/// Reading one message: hand out what the buffer holds, or else take the next
/// chunk and look again. An empty chunk is the end of the stream.
pub open spec fn spec_read(buf: Seq<u8>, chunks: Seq<Seq<u8>>, magic: Seq<u8>) -> ReadOutcome
    decreases chunks.len(),
{
    match spec_frame(buf, magic) {
        Frame::Whole(envelope, rest) => ReadOutcome::Message(envelope, rest),
        Frame::Broken(e) => ReadOutcome::Failed(e),
        Frame::Incomplete => if chunks.len() == 0 {
            ReadOutcome::Pending(buf)
        } else if chunks[0].len() == 0 {
            ReadOutcome::Failed(TransportError::ConnectionClosed)
        } else {
            spec_read(buf + chunks[0], chunks.drop_first(), magic)
        },
    }
}

/// How many chunks reading one message takes: those up to the one that
/// completes the message, or up to an empty one, which ends the stream.
pub open spec fn spec_taken(buf: Seq<u8>, chunks: Seq<Seq<u8>>, magic: Seq<u8>) -> nat
    decreases chunks.len(),
{
    if spec_frame(buf, magic) is Incomplete && chunks.len() > 0 {
        if chunks[0].len() == 0 {
            1
        } else {
            1 + spec_taken(buf + chunks[0], chunks.drop_first(), magic)
        }
    } else {
        0
    }
}

/// The chunks as sequences of bytes.
pub open spec fn spec_chunks(chunks: Seq<Vec<u8>>) -> Seq<Seq<u8>> {
    Seq::new(chunks.len(), |i: int| chunks[i]@)
}

/// Whether no chunk is empty.
pub open spec fn spec_no_empty_chunk(chunks: Seq<Seq<u8>>) -> bool {
    forall|i: int| 0 <= i < chunks.len() ==> (#[trigger] chunks[i]).len() > 0
}

/// Bytes that arrive later do not change what was decided: a whole message
/// stays that message, with the new bytes after it; a broken front stays
/// broken in the same way.
pub proof fn lemma_frame_stable(buf: Seq<u8>, more: Seq<u8>, magic: Seq<u8>)
    ensures
        spec_frame(buf, magic) matches Frame::Whole(envelope, rest) ==> spec_frame(
            buf + more,
            magic,
        ) == Frame::Whole(envelope, rest + more),
        spec_frame(buf, magic) matches Frame::Broken(e) ==> spec_frame(buf + more, magic)
            == Frame::Broken(e),
{
    let all = buf + more;
    if buf.len() >= HEADER_LEN {
        assert(all.subrange(0, 4) =~= buf.subrange(0, 4));
        assert(all.subrange(4, 16) =~= buf.subrange(4, 16));
        assert(all.subrange(16, 20) =~= buf.subrange(16, 20));
        assert(all.subrange(20, 24) =~= buf.subrange(20, 24));
        assert(spec_decode_header(all, magic) == spec_decode_header(buf, magic));
        if let Ok(h) = spec_decode_header(buf, magic) {
            let end = HEADER_LEN + h.length;
            if buf.len() >= end {
                assert(all.subrange(HEADER_LEN as int, end) =~= buf.subrange(
                    HEADER_LEN as int,
                    end,
                ));
                assert(all.subrange(end, all.len() as int) =~= buf.subrange(end, buf.len() as int)
                    + more);
            }
        }
    }
}

/// A buffer that starts with the header of another network is broken as
/// `BadMagic`, whatever its command, length, checksum and payload are.
pub proof fn lemma_foreign_magic_breaks_frame(buf: Seq<u8>, magic: Seq<u8>)
    requires
        buf.len() >= HEADER_LEN,
        buf.subrange(0, 4) != magic,
    ensures
        spec_frame(buf, magic) == Frame::Broken(TransportError::BadMagic),
        forall|chunks: Seq<Seq<u8>>| #[trigger]
            spec_read(buf, chunks, magic) == ReadOutcome::Failed(TransportError::BadMagic),
{
}

/// An envelope that was built, alone in the buffer, is handed out whole
/// with its command and payload, and nothing is left behind it.
pub proof fn lemma_built_envelope_frames(magic: Seq<u8>, name: Seq<char>, payload: Seq<u8>)
    requires
        magic.len() == MAGIC_LEN,
        spec_envelope_error(name, payload) is None,
        spec_nul_only_at_end(name),
    ensures
        spec_frame(spec_encode_envelope(magic, name, payload), magic) == Frame::Whole(
            EnvelopeView {
                header: HeaderView {
                    magic: magic,
                    command: spec_field_name(spec_command_field(name)),
                    length: payload.len() as u32,
                    checksum: spec_checksum4(payload),
                },
                payload: payload,
            },
            Seq::<u8>::empty(),
        ),
        spec_no_nul(name) ==> spec_field_name(spec_command_field(name)) == name,
{
    let b = spec_encode_envelope(magic, name, payload);
    lemma_envelope_integrity(magic, name, payload);
    assert(b.subrange(HEADER_LEN + payload.len(), b.len() as int) =~= Seq::<u8>::empty());
}

/// However a stream is cut into chunks, the reader hands out the message
/// that the bytes hold when taken together, and so the same message as when
/// they arrive in one piece. If the message is the last thing the chunks
/// hold, nothing is left in the buffer.
pub proof fn lemma_chunked_read(buf: Seq<u8>, chunks: Seq<Seq<u8>>, magic: Seq<u8>)
    requires
        spec_no_empty_chunk(chunks),
        spec_frame(buf + chunks.flatten(), magic) is Whole,
    ensures
        spec_read(buf, chunks, magic) is Message,
        spec_read(buf, chunks, magic)->Message_0 == spec_frame(
            buf + chunks.flatten(),
            magic,
        )->Whole_0,
        spec_read(buf, chunks, magic)->Message_1.len() <= spec_frame(
            buf + chunks.flatten(),
            magic,
        )->Whole_1.len(),
        spec_read(buf, seq![chunks.flatten()], magic) is Message,
        spec_read(buf, seq![chunks.flatten()], magic)->Message_0 == spec_read(
            buf,
            chunks,
            magic,
        )->Message_0,
    decreases chunks.len(),
{
    let all = chunks.flatten();
    lemma_frame_stable(buf, all, magic);
    if chunks.len() == 0 {
        assert(buf + all =~= buf);
    } else {
        let first = chunks[0];
        let later = chunks.drop_first();
        assert(buf + all =~= (buf + first) + later.flatten());
        if spec_frame(buf, magic) is Incomplete {
            assert(spec_no_empty_chunk(later)) by {
                assert forall|i: int| 0 <= i < later.len() implies (#[trigger] later[i]).len()
                    > 0 by {
                    assert(later[i] == chunks[i + 1]);
                }
            }
            lemma_chunked_read(buf + first, later, magic);
        }
    }
    // The same bytes in one piece.
    let whole = seq![all];
    assert(whole.drop_first() =~= Seq::<Seq<u8>>::empty());
    if spec_frame(buf, magic) is Incomplete {
        assert(all.len() > 0) by {
            if all.len() == 0 {
                assert(buf + all =~= buf);
            }
        }
        assert(spec_read(buf + all, whole.drop_first(), magic) == ReadOutcome::Message(
            spec_frame(buf + all, magic)->Whole_0,
            spec_frame(buf + all, magic)->Whole_1,
        ));
    }
}

/// The buffer of one session's incoming bytes.
pub struct TransportReader {
    magic: [u8; 4],
    buffer: Vec<u8>,
}

impl TransportReader {
    /// The bytes that have arrived and were not handed out.
    pub closed spec fn buffered(&self) -> Seq<u8> {
        self.buffer@
    }

    /// The magic of the network that the reader accepts messages of.
    pub closed spec fn network_magic(&self) -> Seq<u8> {
        self.magic@
    }

    /// A reader with an empty buffer.
    pub fn new(network_magic: [u8; 4]) -> (reader: TransportReader)
        ensures
            reader.buffered() == Seq::<u8>::empty(),
            reader.network_magic() == network_magic@,
    {
        TransportReader { magic: network_magic, buffer: Vec::new() }
    }

    /// Number of buffered bytes.
    pub fn buffered_len(&self) -> (n: usize)
        ensures
            n == self.buffered().len(),
    {
        self.buffer.len()
    }

    /// Takes what one read of the stream delivered. A read of no bytes is the
    /// end of the stream: `ConnectionClosed`, and the buffer stays as it was.
    pub fn feed(&mut self, chunk: &[u8]) -> (r: Result<(), TransportError>)
        ensures
            final(self).network_magic() == old(self).network_magic(),
            chunk@.len() == 0 ==> r == Err::<(), TransportError>(TransportError::ConnectionClosed)
                && final(self).buffered() == old(self).buffered(),
            chunk@.len() > 0 ==> r == Ok::<(), TransportError>(()) && final(self).buffered() == old(
                self,
            ).buffered() + chunk@,
    {
        if chunk.len() == 0 {
            return Err(TransportError::ConnectionClosed);
        }
        put_bytes(&mut self.buffer, chunk);
        Ok(())
    }

    /// Takes note that the deadline passed during a read: what was read of
    /// an unfinished message is dropped, and the read has failed as `Timeout`.
    pub fn expire(&mut self) -> (e: TransportError)
        ensures
            e == TransportError::Timeout,
            final(self).network_magic() == old(self).network_magic(),
            final(self).buffered() == Seq::<u8>::empty(),
    {
        self.buffer.clear();
        TransportError::Timeout
    }

    /// Hands out the message at the front of the buffer, if it is whole:
    /// `Ok(None)` while bytes are missing, an error if the front of the buffer
    /// is broken. Only a message that is handed out leaves the buffer.
    pub fn next_message(&mut self) -> (r: Result<Option<MessageEnvelope>, TransportError>)
        ensures
            final(self).network_magic() == old(self).network_magic(),
            match spec_frame(old(self).buffered(), old(self).network_magic()) {
                Frame::Incomplete => r == Ok::<Option<MessageEnvelope>, TransportError>(None)
                    && final(self).buffered() == old(self).buffered(),
                Frame::Broken(e) => r == Err::<Option<MessageEnvelope>, TransportError>(e)
                    && final(self).buffered() == old(self).buffered(),
                Frame::Whole(envelope, rest) => r matches Ok(Some(m)) && m@ == envelope
                    && m.wf() && final(self).buffered() == rest,
            },
    {
        let header: EnvelopeHeader = match decode_envelope_header(
            self.buffer.as_slice(),
            self.magic,
        ) {
            Ok(h) => h,
            Err(DecodingError::Truncated) => {
                return Ok(None);
            },
            Err(DecodingError::BadMagic) => {
                return Err(TransportError::BadMagic);
            },
            Err(_) => {
                return Err(TransportError::BadCommand);
            },
        };
        let length: usize = header.length as usize;
        if self.buffer.len() - HEADER_LEN < length {
            return Ok(None);
        }
        let end: usize = HEADER_LEN + length;
        if !verify(slice_subrange(self.buffer.as_slice(), HEADER_LEN, end), header.checksum) {
            return Err(TransportError::ChecksumMismatch);
        }
        let rest: Vec<u8> = self.buffer.split_off(end);
        let payload: Vec<u8> = self.buffer.split_off(HEADER_LEN);
        self.buffer = rest;
        proof {
            let buf = old(self).buffered();
            assert(payload@ =~= buf.subrange(HEADER_LEN as int, end as int));
        }
        Ok(Some(MessageEnvelope { header, payload }))
    }

    /// Reads one message from chunks that the stream delivered, in order,
    /// and says how many of them were taken. Chunks after the one that
    /// completes the message are not touched; what follows the message in
    /// its last chunk stays buffered.
    pub fn read_from(&mut self, chunks: &Vec<Vec<u8>>) -> (r: (
        Result<Option<MessageEnvelope>, TransportError>,
        usize,
    ))
        ensures
            final(self).network_magic() == old(self).network_magic(),
            r.1 == spec_taken(
                old(self).buffered(),
                spec_chunks(chunks@),
                old(self).network_magic(),
            ),
            match spec_read(old(self).buffered(), spec_chunks(chunks@), old(self).network_magic()) {
                ReadOutcome::Message(envelope, rest) => r.0 matches Ok(Some(m)) && m@ == envelope
                    && m.wf() && final(self).buffered() == rest,
                ReadOutcome::Failed(e) => r.0 == Err::<Option<MessageEnvelope>, TransportError>(e),
                ReadOutcome::Pending(buf) => r.0 == Ok::<Option<MessageEnvelope>, TransportError>(
                    None,
                ) && final(self).buffered() == buf,
            },
    {
        let ghost all = spec_chunks(chunks@);
        let ghost magic = self.network_magic();
        let ghost start = self.buffered();
        let mut i: usize = 0;
        assert(all.skip(0) =~= all);
        loop
            invariant
                i <= chunks@.len(),
                all == spec_chunks(chunks@),
                start == old(self).buffered(),
                magic == old(self).network_magic(),
                self.network_magic() == magic,
                spec_read(start, all, magic) == spec_read(self.buffered(), all.skip(i as int), magic),
                spec_taken(start, all, magic) == i + spec_taken(
                    self.buffered(),
                    all.skip(i as int),
                    magic,
                ),
            decreases chunks@.len() - i,
        {
            match self.next_message() {
                Ok(Some(m)) => {
                    return (Ok(Some(m)), i);
                },
                Ok(None) => {},
                Err(e) => {
                    return (Err(e), i);
                },
            }
            if i == chunks.len() {
                return (Ok(None), i);
            }
            proof {
                assert(all.skip(i as int)[0] == chunks@[i as int]@);
                assert(all.skip(i as int).drop_first() =~= all.skip(i + 1));
            }
            match self.feed(chunks[i].as_slice()) {
                Ok(()) => {},
                Err(e) => {
                    return (Err(e), i + 1);
                },
            }
            i += 1;
        }
    }
}

} // verus!
