use vstd::prelude::*;

pub mod bytestreamreader;
pub mod message_id;
pub mod message_kind;
pub mod rgb8;

use crate::messages::bytestreamreader::{
    le_bytes, le_value, lemma_le_bytes_len, lemma_le_round_trip, lemma_pow256_small, push_le,
    ByteStreamReader, MessageDeserializer,
};
use crate::messages::message_kind::{
    lemma_kind_round_trip, spec_decode_kind, spec_encode_kind, MessageKind, MessageKindView,
};

verus! {

/// Why a datagram was thrown away whole: its bytes ran out before the
/// layout's declared length, its kind id is outside the closed set, or its
/// color count exceeds the strip.
#[derive(Debug, Clone, Copy, PartialEq, Eq, Structural)]
pub enum DecodeError {
    Truncated,
    UnknownKind,
    TooManyLeds,
}

pub type DeserializationResult<T> = Result<T, DecodeError>;

/// When a command was issued, as the sender counts time; only the order
/// matters to the receiver.
#[derive(Debug, Clone, Copy, PartialEq, Eq, Structural, Hash)]
pub struct Timestamp(u64);

impl View for Timestamp {
    type V = u64;

    closed spec fn view(&self) -> u64 {
        self.0
    }
}

impl Timestamp {
    pub fn new(timestamp: u64) -> (r: Self)
        ensures
            r@ == timestamp,
    {
        Timestamp(timestamp)
    }

    pub fn get(&self) -> (r: u64)
        ensures
            r == self@,
    {
        self.0
    }
}

impl From<u64> for Timestamp {
    fn from(timestamp: u64) -> (r: Self)
        ensures
            r@ == timestamp,
    {
        Timestamp(timestamp)
    }
}

impl vstd::std_specs::convert::FromSpecImpl<u64> for Timestamp {
    open spec fn obeys_from_spec() -> bool {
        true
    }

    closed spec fn from_spec(timestamp: u64) -> Self {
        Timestamp(timestamp)
    }
}

/// The mathematical shape of a whole command: when it was issued, and its
/// payload.
pub struct MessageView {
    pub timestamp: u64,
    pub kind: MessageKindView,
}

impl MessageView {
    pub open spec fn wf(self) -> bool {
        self.kind.wf()
    }
}

/// A whole command as the wire carries it: a timestamp, then a payload.
#[derive(Debug, PartialEq, Eq)]
pub struct ControllerMessage {
    pub timestamp: Timestamp,
    pub kind: MessageKind,
}

impl View for ControllerMessage {
    type V = MessageView;

    open spec fn view(&self) -> MessageView {
        MessageView { timestamp: self.timestamp@, kind: self.kind@ }
    }
}

/// What a whole datagram's bytes hold: an 8-byte little-endian timestamp,
/// then the payload; trailing bytes are ignored.
pub open spec fn spec_decode(buf: Seq<u8>) -> Result<MessageView, DecodeError> {
    if buf.len() < 8 {
        Err(DecodeError::Truncated)
    } else {
        match spec_decode_kind(buf.skip(8)) {
            Ok(k) => Ok(MessageView { timestamp: le_value(buf.take(8)) as u64, kind: k }),
            Err(e) => Err(e),
        }
    }
}

/// The structural inverse of `spec_decode` on well-formed messages.
pub open spec fn spec_encode(m: MessageView) -> Seq<u8> {
    le_bytes(m.timestamp as nat, 8) + spec_encode_kind(m.kind)
}

impl MessageDeserializer for ControllerMessage {
    type Result = DeserializationResult<Self>;

    fn deserialize_from(reader: &mut ByteStreamReader) -> (r: Self::Result)
        ensures
            final(reader).wf(),
            final(reader).bytes() == old(reader).bytes(),
            match spec_decode(old(reader).rest()) {
                Ok(m) => r matches Ok(msg) && msg@ == m,
                Err(e) => r == Err::<ControllerMessage, DecodeError>(e),
            },
    {
        let ghost buf = old(reader).rest();
        if reader.remaining_len() < 8 {
            return Err(DecodeError::Truncated);
        }
        let ts = reader.u64();
        proof {
            assert(buf.take(8) =~= old(reader).bytes().subrange(
                old(reader).position(),
                old(reader).position() + 8,
            ));
            crate::messages::bytestreamreader::lemma_le_value_bound(buf.take(8));
            lemma_pow256_small();
            assert(reader.rest() =~= buf.skip(8));
        }
        let timestamp = Timestamp::new(ts);
        let kind = match MessageKind::deserialize_from(reader) {
            Ok(k) => k,
            Err(e) => {
                return Err(e);
            },
        };
        Ok(ControllerMessage { timestamp, kind })
    }
}

impl ControllerMessage {
    /// Serializes this command as the wire format lays it out; `spec_decode`
    /// undoes it.
    pub fn encode(&self) -> (r: Vec<u8>)
        ensures
            r@ == spec_encode(self@),
    {
        let mut out: Vec<u8> = Vec::new();
        push_le(&mut out, self.timestamp.get(), 8);
        self.kind.encode_to(&mut out);
        proof {
            assert(out@ =~= spec_encode(self@));
        }
        out
    }
}

/// Encoding then decoding a well-formed command reproduces it exactly: the
/// timestamp, the kind, and for a color frame the whole ordered color run.
pub proof fn lemma_encode_decode(m: MessageView)
    requires
        m.wf(),
    ensures
        spec_decode(spec_encode(m)) == Ok::<MessageView, DecodeError>(m),
{
    let head = le_bytes(m.timestamp as nat, 8);
    let body = spec_encode_kind(m.kind);
    let enc = head + body;
    lemma_le_bytes_len(m.timestamp as nat, 8);
    lemma_pow256_small();
    assert(enc.take(8) =~= head);
    lemma_le_round_trip(m.timestamp as nat, 8);
    assert(enc.skip(8) =~= body);
    lemma_kind_round_trip(m.kind);
}

} // verus!
