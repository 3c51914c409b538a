//! The peer wire protocol: messages, and the frames that carry them.
//!
//! A frame is a four-octet length, most significant first, and a payload of that length.
//! An empty payload is a keep-alive; any other starts with the octet that tells the kind
//! of the message.
use crate::io_error::{IoError, IoErrorKind};
use crate::octets::{
    buffer_advance, buffer_copy_to_bytes, buffer_put_slice, buffer_put_u32, buffer_put_u8,
    buffer_reserve, buffer_slice, bytes_from, bytes_slice, read_u32,
};
#[allow(unused_imports)]
use crate::octets::{
    be32, buffer_contents, bytes_contents, digits_are_read, u32_at, u32_reads_back, u32_writes_back,
};
use bytes::{Bytes, BytesMut};
use vstd::prelude::*;

verus! {

/// A message of the peer wire protocol.
#[derive(Debug, PartialEq)]
pub enum PwpMessage {
    KeepAlive,
    Choke,
    Unchoke,
    Interested,
    NotInterested,
    Have(u32),
    Bitfield(Bytes),
    Request { index: u32, begin: u32, length: u32 },
    Piece { index: u32, begin: u32, block: Bytes },
    Cancel { index: u32, begin: u32, length: u32 },
}

impl Clone for PwpMessage {
    fn clone(&self) -> (copy: Self)
        ensures
            copy@ == self@,
    {
        match self {
            PwpMessage::KeepAlive => PwpMessage::KeepAlive,
            PwpMessage::Choke => PwpMessage::Choke,
            PwpMessage::Unchoke => PwpMessage::Unchoke,
            PwpMessage::Interested => PwpMessage::Interested,
            PwpMessage::NotInterested => PwpMessage::NotInterested,
            PwpMessage::Have(index) => PwpMessage::Have(*index),
            PwpMessage::Bitfield(bits) => PwpMessage::Bitfield(bits.clone()),
            PwpMessage::Request { index, begin, length } => PwpMessage::Request {
                index: *index,
                begin: *begin,
                length: *length,
            },
            PwpMessage::Piece { index, begin, block } => PwpMessage::Piece {
                index: *index,
                begin: *begin,
                block: block.clone(),
            },
            PwpMessage::Cancel { index, begin, length } => PwpMessage::Cancel {
                index: *index,
                begin: *begin,
                length: *length,
            },
        }
    }
}

/// What a [`PwpMessage`] says, with byte strings in place of buffers.
#[verifier::ext_equal]
pub enum Wire {
    KeepAlive,
    Choke,
    Unchoke,
    Interested,
    NotInterested,
    Have(u32),
    Bitfield(Seq<u8>),
    Request { index: u32, begin: u32, length: u32 },
    Piece { index: u32, begin: u32, block: Seq<u8> },
    Cancel { index: u32, begin: u32, length: u32 },
}

impl View for PwpMessage {
    type V = Wire;

    open spec fn view(&self) -> Wire {
        match *self {
            PwpMessage::KeepAlive => Wire::KeepAlive,
            PwpMessage::Choke => Wire::Choke,
            PwpMessage::Unchoke => Wire::Unchoke,
            PwpMessage::Interested => Wire::Interested,
            PwpMessage::NotInterested => Wire::NotInterested,
            PwpMessage::Have(index) => Wire::Have(index),
            PwpMessage::Bitfield(bits) => Wire::Bitfield(bytes_contents(bits)),
            PwpMessage::Request { index, begin, length } => Wire::Request { index, begin, length },
            PwpMessage::Piece { index, begin, block } => Wire::Piece {
                index,
                begin,
                block: bytes_contents(block),
            },
            PwpMessage::Cancel { index, begin, length } => Wire::Cancel { index, begin, length },
        }
    }
}

/// What is wrong with a frame that holds no message.
#[derive(Debug, Clone, Copy, PartialEq, Eq, Structural)]
pub enum CodecError {
    InvalidHaveSize,
    InvalidRequestSize,
    InvalidPieceSize,
    InvalidCancelSize,
    UnknownMessageId,
}

impl CodecError {
    /// The error in words.
    pub open spec fn words(self) -> Seq<char> {
        match self {
            CodecError::InvalidHaveSize => "Invalid Have size"@,
            CodecError::InvalidRequestSize => "Invalid Request size"@,
            CodecError::InvalidPieceSize => "Invalid Piece size"@,
            CodecError::InvalidCancelSize => "Invalid Cancel size"@,
            CodecError::UnknownMessageId => "Unknown message ID"@,
        }
    }

    /// The error in words.
    pub fn message(&self) -> (text: &'static str)
        ensures
            text@ == self.words(),
    {
        match self {
            CodecError::InvalidHaveSize => "Invalid Have size",
            CodecError::InvalidRequestSize => "Invalid Request size",
            CodecError::InvalidPieceSize => "Invalid Piece size",
            CodecError::InvalidCancelSize => "Invalid Cancel size",
            CodecError::UnknownMessageId => "Unknown message ID",
        }
    }

    /// The error as one of input: data that is invalid, in the same words.
    pub fn io_error(self) -> (error: IoError)
        ensures
            error@ == (IoErrorKind::InvalidData, self.words()),
    {
        IoError::new(IoErrorKind::InvalidData, self.message())
    }
}

impl Wire {
    /// The payload of the frame that carries the message.
    pub open spec fn payload(self) -> Seq<u8> {
        match self {
            Wire::KeepAlive => Seq::empty(),
            Wire::Choke => seq![0u8],
            Wire::Unchoke => seq![1u8],
            Wire::Interested => seq![2u8],
            Wire::NotInterested => seq![3u8],
            Wire::Have(index) => seq![4u8] + be32(index),
            Wire::Bitfield(bits) => seq![5u8] + bits,
            Wire::Request { index, begin, length } => seq![6u8] + be32(index) + be32(begin) + be32(
                length,
            ),
            Wire::Piece { index, begin, block } => seq![7u8] + be32(index) + be32(begin) + block,
            Wire::Cancel { index, begin, length } => seq![8u8] + be32(index) + be32(begin) + be32(
                length,
            ),
        }
    }

    /// The frame that carries the message. The length field counts modulo two to the 32nd.
    pub open spec fn frame(self) -> Seq<u8> {
        framed(self.payload())
    }

    /// The message that a non-empty payload holds, or what is wrong with it.
    pub open spec fn of_payload(payload: Seq<u8>) -> Result<Wire, CodecError> {
        if payload[0] == 0 {
            Ok(Wire::Choke)
        } else if payload[0] == 1 {
            Ok(Wire::Unchoke)
        } else if payload[0] == 2 {
            Ok(Wire::Interested)
        } else if payload[0] == 3 {
            Ok(Wire::NotInterested)
        } else if payload[0] == 4 {
            if payload.len() == 5 {
                Ok(Wire::Have(u32_at(payload, 1)))
            } else {
                Err(CodecError::InvalidHaveSize)
            }
        } else if payload[0] == 5 {
            Ok(Wire::Bitfield(payload.skip(1)))
        } else if payload[0] == 6 {
            if payload.len() == 13 {
                Ok(
                    Wire::Request {
                        index: u32_at(payload, 1),
                        begin: u32_at(payload, 5),
                        length: u32_at(payload, 9),
                    },
                )
            } else {
                Err(CodecError::InvalidRequestSize)
            }
        } else if payload[0] == 7 {
            if payload.len() >= 9 {
                Ok(
                    Wire::Piece {
                        index: u32_at(payload, 1),
                        begin: u32_at(payload, 5),
                        block: payload.skip(9),
                    },
                )
            } else {
                Err(CodecError::InvalidPieceSize)
            }
        } else if payload[0] == 8 {
            if payload.len() == 13 {
                Ok(
                    Wire::Cancel {
                        index: u32_at(payload, 1),
                        begin: u32_at(payload, 5),
                        length: u32_at(payload, 9),
                    },
                )
            } else {
                Err(CodecError::InvalidCancelSize)
            }
        } else {
            Err(CodecError::UnknownMessageId)
        }
    }
}

/// What stands at the front of a byte stream.
#[verifier::ext_equal]
pub enum Front {
    /// Less than one frame.
    Incomplete,
    /// A frame that holds a message, and the length of the frame.
    Message(Wire, int),
    /// A frame that holds none.
    Invalid(CodecError),
}

/// What stands at the front of `stream`.
pub open spec fn front(stream: Seq<u8>) -> Front {
    if stream.len() < 4 {
        Front::Incomplete
    } else {
        let end = 4 + u32_at(stream, 0);
        if end == 4 {
            Front::Message(Wire::KeepAlive, 4)
        } else if stream.len() < end {
            Front::Incomplete
        } else {
            match Wire::of_payload(stream.subrange(4, end)) {
                Ok(message) => Front::Message(message, end),
                Err(error) => Front::Invalid(error),
            }
        }
    }
}

/// Takes messages out of a byte stream and writes them into one.
pub struct PwpCodec;

impl PwpCodec {
    /// Takes the message at the front of `src` out of it. While less than one frame is
    /// there, nothing is taken and there is no message. Of a frame that holds no message
    /// the length field is taken, and nothing more; it is invalid data, in the words of what
    /// is wrong with it.
    pub fn decode(&mut self, src: &mut BytesMut) -> (result: Result<Option<PwpMessage>, IoError>)
        ensures
            match front(buffer_contents(*old(src))) {
                Front::Incomplete => result == Ok::<Option<PwpMessage>, IoError>(None)
                    && buffer_contents(*final(src)) == buffer_contents(*old(src)),
                Front::Message(message, length) => (result matches Ok(Some(taken)) && taken@
                    == message) && buffer_contents(*final(src)) == buffer_contents(*old(src)).skip(
                    length,
                ),
                Front::Invalid(error) => (result matches Err(found) && found@ == (
                    IoErrorKind::InvalidData,
                    error.words(),
                )) && buffer_contents(*final(src)) == buffer_contents(*old(src)).skip(4),
            },
    {
        let ghost stream = buffer_contents(*src);
        let available = buffer_slice(src).len();
        if available < 4 {
            return Ok(None);
        }
        let length = read_u32(buffer_slice(src), 0) as usize;
        if length == 0 {
            buffer_advance(src, 4);
            return Ok(Some(PwpMessage::KeepAlive));
        }
        if available - 4 < length {
            let missing: usize = length - (available - 4);
            if available <= isize::MAX as usize && missing <= isize::MAX as usize - available {
                buffer_reserve(src, missing);
            }
            return Ok(None);
        }
        let ghost payload = stream.subrange(4, 4 + length);
        buffer_advance(src, 4);
        let ghost rest = buffer_contents(*src);
        proof {
            assert(rest.take(length as int) =~= payload);
            assert(rest.skip(length as int) =~= stream.skip(4 + length));
            assert(forall|i: int| 0 <= i < length ==> payload[i] == rest[i]);
        }
        let id = buffer_slice(src)[0];
        let message = match id {
            0 => PwpMessage::Choke,
            1 => PwpMessage::Unchoke,
            2 => PwpMessage::Interested,
            3 => PwpMessage::NotInterested,
            4 => {
                if length != 5 {
                    return Err(CodecError::InvalidHaveSize.io_error());
                }
                PwpMessage::Have(read_u32(buffer_slice(src), 1))
            },
            5 => {
                let data = buffer_copy_to_bytes(src, length);
                PwpMessage::Bitfield(bytes_from(&data, 1))
            },
            6 => {
                if length != 13 {
                    return Err(CodecError::InvalidRequestSize.io_error());
                }
                PwpMessage::Request {
                    index: read_u32(buffer_slice(src), 1),
                    begin: read_u32(buffer_slice(src), 5),
                    length: read_u32(buffer_slice(src), 9),
                }
            },
            7 => {
                if length < 9 {
                    return Err(CodecError::InvalidPieceSize.io_error());
                }
                let index = read_u32(buffer_slice(src), 1);
                let begin = read_u32(buffer_slice(src), 5);
                let data = buffer_copy_to_bytes(src, length);
                PwpMessage::Piece { index, begin, block: bytes_from(&data, 9) }
            },
            8 => {
                if length != 13 {
                    return Err(CodecError::InvalidCancelSize.io_error());
                }
                PwpMessage::Cancel {
                    index: read_u32(buffer_slice(src), 1),
                    begin: read_u32(buffer_slice(src), 5),
                    length: read_u32(buffer_slice(src), 9),
                }
            },
            _ => return Err(CodecError::UnknownMessageId.io_error()),
        };
        if id != 5 && id != 7 {
            buffer_advance(src, length);
        }
        Ok(Some(message))
    }

    /// Appends the frame that carries `item` to `dst`. It never fails. The result must not
    /// outgrow what one allocation can hold.
    pub fn encode(&mut self, item: PwpMessage, dst: &mut BytesMut) -> (result: Result<(), IoError>)
        requires
            buffer_contents(*old(dst)).len() + item@.frame().len() <= isize::MAX,
        ensures
            result == Ok::<(), IoError>(()),
            buffer_contents(*final(dst)) == buffer_contents(*old(dst)) + item@.frame(),
    {
        match &item {
            PwpMessage::KeepAlive => {
                buffer_put_u32(dst, 0);
                proof {
                    empty_frame();
                }
            },
            PwpMessage::Choke => put_kind(dst, 0),
            PwpMessage::Unchoke => put_kind(dst, 1),
            PwpMessage::Interested => put_kind(dst, 2),
            PwpMessage::NotInterested => put_kind(dst, 3),
            PwpMessage::Have(index) => put_have(dst, *index),
            PwpMessage::Bitfield(data) => put_bitfield(dst, bytes_slice(data)),
            PwpMessage::Request { index, begin, length } => put_triple(
                dst,
                6,
                *index,
                *begin,
                *length,
            ),
            PwpMessage::Piece { index, begin, block } => put_piece(
                dst,
                *index,
                *begin,
                bytes_slice(block),
            ),
            PwpMessage::Cancel { index, begin, length } => put_triple(
                dst,
                8,
                *index,
                *begin,
                *length,
            ),
        }
        Ok(())
    }
}

/// A payload with its length in front. The length counts modulo two to the 32nd.
pub open spec fn framed(payload: Seq<u8>) -> Seq<u8> {
    be32((payload.len() % 0x1_0000_0000) as u32) + payload
}

/// An empty payload is framed by four zeros.
proof fn empty_frame()
    ensures
        framed(Seq::empty()) == be32(0),
{
    assert(framed(Seq::empty()) =~= be32(0));
}

/// What is appended piece by piece is appended as a whole.
proof fn appended(front: Seq<u8>, length: Seq<u8>, kind: u8, fields: Seq<u8>)
    ensures
        (front + length).push(kind) + fields == front + (length + (seq![kind] + fields)),
        (front + length).push(kind) == front + (length + seq![kind]),
{
    assert((front + length).push(kind) + fields =~= front + (length + (seq![kind] + fields)));
    assert((front + length).push(kind) =~= front + (length + seq![kind]));
}

/// Three fields that are appended one by one are appended as a whole.
proof fn fields_join(front: Seq<u8>, kind: u8, one: Seq<u8>, two: Seq<u8>, three: Seq<u8>)
    ensures
        front + one + two + three == front + (one + two + three),
        seq![kind] + (one + two + three) == seq![kind] + one + two + three,
{
    assert(front + one + two + three =~= front + (one + two + three));
    assert(seq![kind] + (one + two + three) =~= seq![kind] + one + two + three);
}

/// Appends the frame of a message that is told by its kind alone.
fn put_kind(dst: &mut BytesMut, kind: u8)
    requires
        buffer_contents(*old(dst)).len() + 5 <= isize::MAX,
    ensures
        buffer_contents(*final(dst)) == buffer_contents(*old(dst)) + framed(seq![kind]),
{
    proof {
        appended(buffer_contents(*dst), be32(1), kind, Seq::empty());
    }
    buffer_put_u32(dst, 1);
    buffer_put_u8(dst, kind);
}

/// Appends the frame of a message that tells one piece.
fn put_have(dst: &mut BytesMut, index: u32)
    requires
        buffer_contents(*old(dst)).len() + 9 <= isize::MAX,
    ensures
        buffer_contents(*final(dst)) == buffer_contents(*old(dst)) + framed(
            seq![4u8] + be32(index),
        ),
{
    proof {
        appended(buffer_contents(*dst), be32(5), 4, be32(index));
        assert((seq![4u8] + be32(index)).len() == 5);
    }
    buffer_put_u32(dst, 5);
    buffer_put_u8(dst, 4);
    buffer_put_u32(dst, index);
}

/// Appends the frame of a message that tells which part of a piece it is about.
fn put_triple(dst: &mut BytesMut, kind: u8, index: u32, begin: u32, length: u32)
    requires
        buffer_contents(*old(dst)).len() + 17 <= isize::MAX,
    ensures
        buffer_contents(*final(dst)) == buffer_contents(*old(dst)) + framed(
            seq![kind] + be32(index) + be32(begin) + be32(length),
        ),
{
    let ghost front = (buffer_contents(*dst) + be32(13)).push(kind);
    proof {
        let fields = be32(index) + be32(begin) + be32(length);
        appended(buffer_contents(*dst), be32(13), kind, fields);
        fields_join(front, kind, be32(index), be32(begin), be32(length));
        assert((seq![kind] + fields).len() == 13);
    }
    buffer_put_u32(dst, 13);
    buffer_put_u8(dst, kind);
    buffer_put_u32(dst, index);
    buffer_put_u32(dst, begin);
    buffer_put_u32(dst, length);
}

/// Appends the frame of a message that tells which pieces are there.
fn put_bitfield(dst: &mut BytesMut, bits: &[u8])
    requires
        buffer_contents(*old(dst)).len() + 5 + bits@.len() <= isize::MAX,
    ensures
        buffer_contents(*final(dst)) == buffer_contents(*old(dst)) + framed(seq![5u8] + bits@),
{
    let length = (bits.len() + 1) as u32;
    proof {
        truncated_length(bits@.len() + 1);
        appended(buffer_contents(*dst), be32(length), 5, bits@);
    }
    buffer_put_u32(dst, length);
    buffer_put_u8(dst, 5);
    buffer_put_slice(dst, bits);
}

/// Appends the frame of a message that carries a block.
fn put_piece(dst: &mut BytesMut, index: u32, begin: u32, block: &[u8])
    requires
        buffer_contents(*old(dst)).len() + 13 + block@.len() <= isize::MAX,
    ensures
        buffer_contents(*final(dst)) == buffer_contents(*old(dst)) + framed(
            seq![7u8] + be32(index) + be32(begin) + block@,
        ),
{
    let length = (block.len() + 9) as u32;
    let ghost front = (buffer_contents(*dst) + be32(length)).push(7);
    proof {
        truncated_length(block@.len() + 9);
        let fields = be32(index) + be32(begin) + block@;
        appended(buffer_contents(*dst), be32(length), 7, fields);
        fields_join(front, 7, be32(index), be32(begin), block@);
        assert((seq![7u8] + fields).len() == block@.len() + 9);
    }
    buffer_put_u32(dst, length);
    buffer_put_u8(dst, 7);
    buffer_put_u32(dst, index);
    buffer_put_u32(dst, begin);
    buffer_put_slice(dst, block);
}

/// A length that is cut to 32 bits is the length modulo two to the 32nd.
proof fn truncated_length(length: nat)
    requires
        length <= usize::MAX,
    ensures
        (length as usize) as u32 == (length % 0x1_0000_0000) as u32,
{
    let n = length as u64;
    assert(n as u32 == n % 0x1_0000_0000) by (bit_vector);
}

/// Three integers behind the octet that tells the kind are read back from a payload.
proof fn triple_is_read_back(kind: u8, index: u32, begin: u32, length: u32)
    ensures
        ({
            let payload = seq![kind] + be32(index) + be32(begin) + be32(length);
            &&& payload.len() == 13
            &&& payload[0] == kind
            &&& u32_at(payload, 1) == index
            &&& u32_at(payload, 5) == begin
            &&& u32_at(payload, 9) == length
        }),
{
    let payload = seq![kind] + be32(index) + be32(begin) + be32(length);
    assert(payload.subrange(1, 5) =~= be32(index));
    u32_reads_back(payload, 1, index);
    assert(payload.subrange(5, 9) =~= be32(begin));
    u32_reads_back(payload, 5, begin);
    assert(payload.subrange(9, 13) =~= be32(length));
    u32_reads_back(payload, 9, length);
}

/// The payload of a message other than a keep-alive holds that message.
pub proof fn payload_is_read_back(message: Wire)
    requires
        message !is KeepAlive,
    ensures
        Wire::of_payload(message.payload()) == Ok::<Wire, CodecError>(message),
{
    let payload = message.payload();
    match message {
        Wire::Have(index) => {
            assert(payload.subrange(1, 5) =~= be32(index));
            u32_reads_back(payload, 1, index);
        },
        Wire::Bitfield(bits) => {
            assert(payload.skip(1) =~= bits);
        },
        Wire::Request { index, begin, length } => {
            triple_is_read_back(6, index, begin, length);
        },
        Wire::Cancel { index, begin, length } => {
            triple_is_read_back(8, index, begin, length);
        },
        Wire::Piece { index, begin, block } => {
            assert(payload.subrange(1, 5) =~= be32(index));
            u32_reads_back(payload, 1, index);
            assert(payload.subrange(5, 9) =~= be32(begin));
            u32_reads_back(payload, 5, begin);
            assert(payload.skip(9) =~= block);
        },
        _ => {},
    }
}

/// The length field and the payload of a frame are read back from a stream.
proof fn framing_is_read_back(payload: Seq<u8>, rest: Seq<u8>)
    requires
        payload.len() < 0x1_0000_0000,
    ensures
        ({
            let stream = be32((payload.len() % 0x1_0000_0000) as u32) + payload + rest;
            &&& stream.len() == 4 + payload.len() + rest.len()
            &&& u32_at(stream, 0) == payload.len()
            &&& stream.subrange(4, 4 + payload.len() as int) == payload
        }),
{
    let stream = be32(payload.len() as u32) + payload + rest;
    assert(stream.subrange(0, 4) =~= be32(payload.len() as u32));
    u32_reads_back(stream, 0, payload.len() as u32);
    assert(stream.subrange(4, 4 + payload.len() as int) =~= payload);
}

/// A stream that starts with the frame of a message gives that message, whatever follows.
/// The payload must be short enough for its length field.
pub proof fn frame_is_read_back(message: Wire, rest: Seq<u8>)
    requires
        message.payload().len() < 0x1_0000_0000,
    ensures
        front(message.frame() + rest) == Front::Message(message, message.frame().len() as int),
{
    framing_is_read_back(message.payload(), rest);
    if message !is KeepAlive {
        payload_is_read_back(message);
    }
}

/// Once a frame is there, octets that arrive behind it do not change what it gives.
pub proof fn later_octets_change_nothing(stream: Seq<u8>, later: Seq<u8>)
    requires
        front(stream) !is Incomplete,
    ensures
        front(stream + later) == front(stream),
{
    let whole = stream + later;
    assert(u32_at(whole, 0) == u32_at(stream, 0));
    let end = 4 + u32_at(stream, 0);
    if end > 4 {
        assert(whole.subrange(4, end) =~= stream.subrange(4, end));
    }
}

/// While the last octet of a frame is missing, there is no message.
pub proof fn cut_frame_is_incomplete(message: Wire, cut: int)
    requires
        message.payload().len() < 0x1_0000_0000,
        0 <= cut < message.frame().len(),
    ensures
        front(message.frame().take(cut)) is Incomplete,
{
    let frame = message.frame();
    framing_is_read_back(message.payload(), Seq::empty());
    assert(frame + Seq::empty() =~= frame);
    if cut >= 4 {
        assert(u32_at(frame.take(cut), 0) == u32_at(frame, 0));
    }
}

/// A frame that holds a message is the frame of that message, unless it announces choke,
/// unchoke, interested or not interested and holds more octets than that takes.
pub proof fn message_is_written_back(stream: Seq<u8>, message: Wire, length: int)
    requires
        front(stream) == Front::Message(message, length),
        length <= 5 || stream[4] >= 4,
    ensures
        message.frame() == stream.take(length),
{
    let payload = stream.subrange(4, length);
    framing_is_written_back(stream, length);
    if length > 4 {
        assert(payload[0] == stream[4]);
        same_payload(payload, message);
    } else {
        assert(payload =~= Seq::empty());
    }
}

/// The length field and the payload of a frame are those that were read from it.
proof fn framing_is_written_back(stream: Seq<u8>, length: int)
    requires
        4 <= length <= stream.len(),
        u32_at(stream, 0) == length - 4,
    ensures
        be32(((length - 4) % 0x1_0000_0000) as u32) + stream.subrange(4, length) == stream.take(
            length,
        ),
{
    u32_writes_back(stream, 0);
    assert(stream.subrange(0, 4) + stream.subrange(4, length) =~= stream.take(length));
}

/// The payload that a message was read from is the payload of the message.
proof fn same_payload(payload: Seq<u8>, message: Wire)
    requires
        payload.len() == 1 || payload.len() >= 1 && payload[0] >= 4,
        Wire::of_payload(payload) == Ok::<Wire, CodecError>(message),
    ensures
        message.payload() == payload,
{
    match message {
        Wire::Have(index) => {
            u32_writes_back(payload, 1);
        },
        Wire::Request { index, begin, length } | Wire::Cancel { index, begin, length } => {
            u32_writes_back(payload, 1);
            u32_writes_back(payload, 5);
            u32_writes_back(payload, 9);
        },
        Wire::Piece { index, begin, block } => {
            u32_writes_back(payload, 1);
            u32_writes_back(payload, 5);
        },
        _ => {},
    }
    assert(message.payload() =~= payload);
}

/// The frames of several messages, one behind the other.
pub open spec fn frames(messages: Seq<Wire>) -> Seq<u8>
    decreases messages.len(),
{
    if messages.len() == 0 {
        Seq::empty()
    } else {
        messages[0].frame() + frames(messages.drop_first())
    }
}

/// The messages that are taken out of a stream one by one, up to the first frame that is
/// incomplete or holds none.
pub open spec fn messages_in(stream: Seq<u8>) -> Seq<Wire>
    decreases stream.len(),
{
    match front(stream) {
        Front::Message(message, length) => if length <= stream.len() {
            seq![message] + messages_in(stream.skip(length))
        } else {
            Seq::empty()
        },
        _ => Seq::empty(),
    }
}

/// What stands behind the first of three byte strings is the other two.
proof fn first_comes_off(first: Seq<u8>, second: Seq<u8>, third: Seq<u8>)
    ensures
        (first + second) + third == first + (second + third),
        (first + (second + third)).skip(first.len() as int) == second + third,
{
    assert((first + second) + third =~= first + (second + third));
    assert((first + (second + third)).skip(first.len() as int) =~= second + third);
}

/// Messages that were written one behind the other are taken out again, all of them and
/// in their order, also where the frame that follows has only partly arrived.
pub proof fn stream_is_read_back(messages: Seq<Wire>, tail: Seq<u8>)
    requires
        forall|i: int|
            0 <= i < messages.len() ==> (#[trigger] messages[i]).payload().len() < 0x1_0000_0000,
        front(tail) is Incomplete,
    ensures
        messages_in(frames(messages) + tail) == messages,
    decreases messages.len(),
{
    if messages.len() == 0 {
        assert(frames(messages) + tail =~= tail);
        assert(messages_in(tail) =~= messages);
    } else {
        let others = messages.drop_first();
        let rest = frames(others) + tail;
        let stream = frames(messages) + tail;
        first_comes_off(messages[0].frame(), frames(others), tail);
        frame_is_read_back(messages[0], rest);
        assert forall|i: int| 0 <= i < others.len() implies (#[trigger] others[i]).payload().len()
            < 0x1_0000_0000 by {
            assert(others[i] == messages[i + 1]);
        }
        stream_is_read_back(others, tail);
        assert(messages_in(stream) =~= messages);
    }
}

/// What is left of a stream once the messages that can be taken out of it are taken out.
pub open spec fn left_in(stream: Seq<u8>) -> Seq<u8>
    decreases stream.len(),
{
    match front(stream) {
        Front::Message(message, length) => if length <= stream.len() {
            left_in(stream.skip(length))
        } else {
            stream
        },
        _ => stream,
    }
}

/// It does not matter where a stream is cut as it arrives: to take messages out of its first
/// part, and then out of what is left with the second part behind it, gives the messages of
/// the whole stream, in their order, and leaves the same.
pub proof fn stream_may_be_cut_anywhere(first: Seq<u8>, second: Seq<u8>)
    ensures
        messages_in(first + second) == messages_in(first) + messages_in(left_in(first) + second),
        left_in(first + second) == left_in(left_in(first) + second),
    decreases first.len(),
{
    match front(first) {
        Front::Message(message, length) => {
            later_octets_change_nothing(first, second);
            let rest = first.skip(length);
            assert((first + second).skip(length) =~= rest + second);
            stream_may_be_cut_anywhere(rest, second);
            assert(messages_in(first) =~= seq![message] + messages_in(rest));
            assert(messages_in(first + second) =~= messages_in(first) + messages_in(
                left_in(first) + second,
            ));
        },
        _ => {
            assert(messages_in(first + second) =~= messages_in(first) + messages_in(
                left_in(first) + second,
            ));
        },
    }
}

/// How each message is laid out in its payload: an octet for the kind, then its fields in
/// this order, integers in four octets, most significant first, and byte strings as they are.
pub proof fn payloads_are_laid_out(message: Wire)
    ensures
        ({
            let p = message.payload();
            match message {
                Wire::KeepAlive => p.len() == 0,
                Wire::Choke => p.len() == 1 && p[0] == 0,
                Wire::Unchoke => p.len() == 1 && p[0] == 1,
                Wire::Interested => p.len() == 1 && p[0] == 2,
                Wire::NotInterested => p.len() == 1 && p[0] == 3,
                Wire::Have(index) => {
                    &&& p.len() == 5
                    &&& p[0] == 4
                    &&& index == p[1] * 0x100_0000 + p[2] * 0x1_0000 + p[3] * 0x100 + p[4]
                },
                Wire::Bitfield(bits) => {
                    &&& p.len() == 1 + bits.len()
                    &&& p[0] == 5
                    &&& forall|i: int| 0 <= i < bits.len() ==> p[1 + i] == #[trigger] bits[i]
                },
                Wire::Request { index, begin, length } => {
                    &&& p.len() == 13
                    &&& p[0] == 6
                    &&& index == p[1] * 0x100_0000 + p[2] * 0x1_0000 + p[3] * 0x100 + p[4]
                    &&& begin == p[5] * 0x100_0000 + p[6] * 0x1_0000 + p[7] * 0x100 + p[8]
                    &&& length == p[9] * 0x100_0000 + p[10] * 0x1_0000 + p[11] * 0x100 + p[12]
                },
                Wire::Piece { index, begin, block } => {
                    &&& p.len() == 9 + block.len()
                    &&& p[0] == 7
                    &&& index == p[1] * 0x100_0000 + p[2] * 0x1_0000 + p[3] * 0x100 + p[4]
                    &&& begin == p[5] * 0x100_0000 + p[6] * 0x1_0000 + p[7] * 0x100 + p[8]
                    &&& forall|i: int| 0 <= i < block.len() ==> p[9 + i] == #[trigger] block[i]
                },
                Wire::Cancel { index, begin, length } => {
                    &&& p.len() == 13
                    &&& p[0] == 8
                    &&& index == p[1] * 0x100_0000 + p[2] * 0x1_0000 + p[3] * 0x100 + p[4]
                    &&& begin == p[5] * 0x100_0000 + p[6] * 0x1_0000 + p[7] * 0x100 + p[8]
                    &&& length == p[9] * 0x100_0000 + p[10] * 0x1_0000 + p[11] * 0x100 + p[12]
                },
            }
        }),
{
    let p = message.payload();
    digits_are_read(p, 1);
    digits_are_read(p, 5);
    digits_are_read(p, 9);
    match message {
        Wire::Have(index) => {
            assert(p.subrange(1, 5) =~= be32(index));
            u32_reads_back(p, 1, index);
        },
        Wire::Request { index, begin, length } => {
            triple_is_read_back(6u8, index, begin, length);
        },
        Wire::Cancel { index, begin, length } => {
            triple_is_read_back(8u8, index, begin, length);
        },
        Wire::Piece { index, begin, block } => {
            assert(p.subrange(1, 5) =~= be32(index));
            u32_reads_back(p, 1, index);
            assert(p.subrange(5, 9) =~= be32(begin));
            u32_reads_back(p, 5, begin);
        },
        _ => {},
    }
}

/// What a payload is read as, or what is found wrong with it: its first octet tells the kind,
/// its length is that of the kind, and each field is taken from its place. The four kinds
/// without fields may be followed by anything.
pub proof fn payloads_are_read_by_layout(payload: Seq<u8>)
    requires
        payload.len() > 0,
    ensures
        ({
            let p = payload;
            match Wire::of_payload(payload) {
                Ok(Wire::KeepAlive) => false,
                Ok(Wire::Choke) => p[0] == 0,
                Ok(Wire::Unchoke) => p[0] == 1,
                Ok(Wire::Interested) => p[0] == 2,
                Ok(Wire::NotInterested) => p[0] == 3,
                Ok(Wire::Have(index)) => {
                    &&& p[0] == 4
                    &&& p.len() == 5
                    &&& index == p[1] * 0x100_0000 + p[2] * 0x1_0000 + p[3] * 0x100 + p[4]
                },
                Ok(Wire::Bitfield(bits)) => {
                    &&& p[0] == 5
                    &&& bits.len() == p.len() - 1
                    &&& forall|i: int| 0 <= i < bits.len() ==> #[trigger] bits[i] == p[1 + i]
                },
                Ok(Wire::Request { index, begin, length }) => {
                    &&& p[0] == 6
                    &&& p.len() == 13
                    &&& index == p[1] * 0x100_0000 + p[2] * 0x1_0000 + p[3] * 0x100 + p[4]
                    &&& begin == p[5] * 0x100_0000 + p[6] * 0x1_0000 + p[7] * 0x100 + p[8]
                    &&& length == p[9] * 0x100_0000 + p[10] * 0x1_0000 + p[11] * 0x100 + p[12]
                },
                Ok(Wire::Piece { index, begin, block }) => {
                    &&& p[0] == 7
                    &&& p.len() >= 9
                    &&& index == p[1] * 0x100_0000 + p[2] * 0x1_0000 + p[3] * 0x100 + p[4]
                    &&& begin == p[5] * 0x100_0000 + p[6] * 0x1_0000 + p[7] * 0x100 + p[8]
                    &&& block.len() == p.len() - 9
                    &&& forall|i: int| 0 <= i < block.len() ==> #[trigger] block[i] == p[9 + i]
                },
                Ok(Wire::Cancel { index, begin, length }) => {
                    &&& p[0] == 8
                    &&& p.len() == 13
                    &&& index == p[1] * 0x100_0000 + p[2] * 0x1_0000 + p[3] * 0x100 + p[4]
                    &&& begin == p[5] * 0x100_0000 + p[6] * 0x1_0000 + p[7] * 0x100 + p[8]
                    &&& length == p[9] * 0x100_0000 + p[10] * 0x1_0000 + p[11] * 0x100 + p[12]
                },
                Err(CodecError::InvalidHaveSize) => p[0] == 4 && p.len() != 5,
                Err(CodecError::InvalidRequestSize) => p[0] == 6 && p.len() != 13,
                Err(CodecError::InvalidPieceSize) => p[0] == 7 && p.len() < 9,
                Err(CodecError::InvalidCancelSize) => p[0] == 8 && p.len() != 13,
                Err(CodecError::UnknownMessageId) => p[0] > 8,
            }
        }),
{
}

/// A frame is the length of its payload in four octets, most significant first, and behind
/// them the payload. The length counts modulo two to the 32nd.
pub proof fn frames_are_laid_out(message: Wire)
    ensures
        ({
            let f = message.frame();
            let payload = message.payload();
            &&& f.len() == 4 + payload.len()
            &&& f[0] * 0x100_0000 + f[1] * 0x1_0000 + f[2] * 0x100 + f[3] == payload.len()
                % 0x1_0000_0000
            &&& forall|i: int| 0 <= i < payload.len() ==> f[4 + i] == #[trigger] payload[i]
        }),
{
    let f = message.frame();
    let length = (message.payload().len() % 0x1_0000_0000) as u32;
    digits_are_read(f, 0);
    assert(f.subrange(0, 4) =~= be32(length));
    u32_reads_back(f, 0, length);
}

/// The first four octets of a stream tell where its first frame ends. Up to there it is
/// incomplete; a length of zero is a keep-alive; otherwise the payload decides.
pub proof fn length_field_tells_the_frame(stream: Seq<u8>)
    ensures
        ({
            let n = stream[0] * 0x100_0000 + stream[1] * 0x1_0000 + stream[2] * 0x100 + stream[3];
            match front(stream) {
                Front::Incomplete => stream.len() < 4 || (n > 0 && stream.len() < 4 + n),
                Front::Message(message, length) => {
                    &&& stream.len() >= 4 + n
                    &&& length == 4 + n
                    &&& n == 0 ==> message == Wire::KeepAlive
                    &&& n > 0 ==> Wire::of_payload(stream.subrange(4, 4 + n)) == Ok::<
                        Wire,
                        CodecError,
                    >(message)
                },
                Front::Invalid(error) => {
                    &&& stream.len() >= 4 + n
                    &&& n > 0
                    &&& Wire::of_payload(stream.subrange(4, 4 + n)) == Err::<Wire, CodecError>(
                        error,
                    )
                },
            }
        }),
{
    digits_are_read(stream, 0);
}

/// What each error says.
pub proof fn codec_errors_have_their_words(error: CodecError)
    ensures
        error is InvalidHaveSize ==> error.words() == "Invalid Have size"@,
        error is InvalidRequestSize ==> error.words() == "Invalid Request size"@,
        error is InvalidPieceSize ==> error.words() == "Invalid Piece size"@,
        error is InvalidCancelSize ==> error.words() == "Invalid Cancel size"@,
        error is UnknownMessageId ==> error.words() == "Unknown message ID"@,
{
}

/// A message is seen as what it is: its kind, and each of its fields in its place.
pub proof fn messages_are_seen_whole(message: PwpMessage)
    ensures
        match message@ {
            Wire::KeepAlive => message == PwpMessage::KeepAlive,
            Wire::Choke => message == PwpMessage::Choke,
            Wire::Unchoke => message == PwpMessage::Unchoke,
            Wire::Interested => message == PwpMessage::Interested,
            Wire::NotInterested => message == PwpMessage::NotInterested,
            Wire::Have(index) => message == PwpMessage::Have(index),
            Wire::Bitfield(bits) => message matches PwpMessage::Bitfield(held) && bytes_contents(
                held,
            ) == bits,
            Wire::Request { index, begin, length } => message == PwpMessage::Request {
                index,
                begin,
                length,
            },
            Wire::Piece { index, begin, block } => message matches PwpMessage::Piece {
                index: i,
                begin: b,
                block: held,
            } && i == index && b == begin && bytes_contents(held) == block,
            Wire::Cancel { index, begin, length } => message == PwpMessage::Cancel {
                index,
                begin,
                length,
            },
        },
{
}

} // verus!
