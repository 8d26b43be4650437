use vstd::prelude::*;
use crate::messages::bytestreamreader::{
    le_bytes, le_value, lemma_le_bytes_len, lemma_le_round_trip, lemma_le_value_bound,
    lemma_pow256_small, ByteStreamReader, MessageDeserializer,
};
use crate::messages::message_id::MessageId;
use crate::messages::rgb8::{ColorFrame, Rgb8};
use crate::messages::{DecodeError, DeserializationResult};
use crate::MAX_LEDS;

verus! {

/// A command's payload, one variant per kind; the set is closed.
#[derive(Debug, PartialEq, Eq)]
pub enum MessageKind {
    Empty,
    KeepAlive { duration_ms: u32 },
    LedState { strip_id: u8, led_values: ColorFrame },
}

/// The mathematical shape of a payload: as `MessageKind`, with the color
/// run as a sequence.
pub enum MessageKindView {
    Empty,
    KeepAlive { duration_ms: u32 },
    LedState { strip_id: u8, led_values: Seq<Rgb8> },
}

impl View for MessageKind {
    type V = MessageKindView;

    open spec fn view(&self) -> MessageKindView {
        match self {
            MessageKind::Empty => MessageKindView::Empty,
            MessageKind::KeepAlive { duration_ms } => MessageKindView::KeepAlive {
                duration_ms: *duration_ms,
            },
            MessageKind::LedState { strip_id, led_values } => MessageKindView::LedState {
                strip_id: *strip_id,
                led_values: led_values@,
            },
        }
    }
}

impl MessageKind {
    /// The kind that the staleness filter keys this payload under.
    pub open spec fn spec_id(self) -> MessageId {
        match self {
            MessageKind::Empty => MessageId::Empty,
            MessageKind::KeepAlive { .. } => MessageId::KeepAlive,
            MessageKind::LedState { .. } => MessageId::LedState,
        }
    }
}

impl MessageKindView {
    pub open spec fn spec_id(self) -> MessageId {
        match self {
            MessageKindView::Empty => MessageId::Empty,
            MessageKindView::KeepAlive { .. } => MessageId::KeepAlive,
            MessageKindView::LedState { .. } => MessageId::LedState,
        }
    }

    /// A payload the codec can produce: the color run fits the strip, and
    /// the strip id is the fixed one the decoder assigns (the wire carries
    /// none).
    pub open spec fn wf(self) -> bool {
        match self {
            MessageKindView::LedState { strip_id, led_values } => strip_id == 0
                && led_values.len() <= MAX_LEDS,
            _ => true,
        }
    }
}

/// The bytes of a color run: three channel bytes per color, red first.
pub open spec fn color_bytes(s: Seq<Rgb8>) -> Seq<u8>
    decreases s.len(),
{
    if s.len() == 0 {
        Seq::empty()
    } else {
        seq![s[0].r, s[0].g, s[0].b] + color_bytes(s.drop_first())
    }
}

pub proof fn lemma_color_bytes_len(s: Seq<Rgb8>)
    ensures
        color_bytes(s).len() == 3 * s.len(),
    decreases s.len(),
{
    if s.len() > 0 {
        lemma_color_bytes_len(s.drop_first());
    }
}

/// Each color's channels stand at their own offset in the run's bytes.
pub proof fn lemma_color_bytes_index(s: Seq<Rgb8>, i: int)
    requires
        0 <= i < s.len(),
    ensures
        color_bytes(s)[3 * i] == s[i].r,
        color_bytes(s)[3 * i + 1] == s[i].g,
        color_bytes(s)[3 * i + 2] == s[i].b,
    decreases i,
{
    lemma_color_bytes_len(s.drop_first());
    if i > 0 {
        lemma_color_bytes_index(s.drop_first(), i - 1);
    }
}

/// What a payload's bytes hold, after the timestamp: a 2-byte kind code,
/// then the kind's own fields.
pub open spec fn spec_decode_kind(buf: Seq<u8>) -> Result<MessageKindView, DecodeError> {
    if buf.len() < 2 {
        Err(DecodeError::Truncated)
    } else {
        let code = le_value(buf.take(2)) as u16;
        match MessageId::spec_from_code(code) {
            None => Err(DecodeError::UnknownKind),
            Some(MessageId::Empty) => Ok(MessageKindView::Empty),
            Some(MessageId::KeepAlive) => if buf.len() < 6 {
                Err(DecodeError::Truncated)
            } else {
                Ok(MessageKindView::KeepAlive { duration_ms: le_value(buf.subrange(2, 6)) as u32 })
            },
            Some(MessageId::LedState) => if buf.len() < 4 {
                Err(DecodeError::Truncated)
            } else {
                let n = le_value(buf.subrange(2, 4)) as int;
                if n > MAX_LEDS {
                    Err(DecodeError::TooManyLeds)
                } else if buf.len() < 4 + 3 * n {
                    Err(DecodeError::Truncated)
                } else {
                    Ok(MessageKindView::LedState {
                        strip_id: 0,
                        led_values: Seq::new(n as nat, |i: int| Rgb8 {
                            r: buf[4 + 3 * i],
                            g: buf[4 + 3 * i + 1],
                            b: buf[4 + 3 * i + 2],
                        }),
                    })
                }
            },
        }
    }
}

/// The structural inverse of `spec_decode_kind` on well-formed payloads.
pub open spec fn spec_encode_kind(k: MessageKindView) -> Seq<u8> {
    match k {
        MessageKindView::Empty => le_bytes(MessageId::Empty.spec_code() as nat, 2),
        MessageKindView::KeepAlive { duration_ms } => le_bytes(
            MessageId::KeepAlive.spec_code() as nat,
            2,
        ) + le_bytes(duration_ms as nat, 4),
        MessageKindView::LedState { strip_id, led_values } => le_bytes(
            MessageId::LedState.spec_code() as nat,
            2,
        ) + le_bytes(led_values.len(), 2) + color_bytes(led_values),
    }
}

/// Decoding undoes encoding for every well-formed payload, whatever its
/// kind; in particular a color run of any length up to `MAX_LEDS` comes
/// back in its exact order.
pub proof fn lemma_kind_round_trip(k: MessageKindView)
    requires
        k.wf(),
    ensures
        spec_decode_kind(spec_encode_kind(k)) == Ok::<MessageKindView, DecodeError>(k),
{
    lemma_pow256_small();
    match k {
        MessageKindView::Empty => {
            let enc = le_bytes(0, 2);
            lemma_le_bytes_len(0, 2);
            assert(enc.take(2) =~= enc);
            lemma_le_round_trip(0, 2);
        },
        MessageKindView::KeepAlive { duration_ms } => {
            let head = le_bytes(1, 2);
            let body = le_bytes(duration_ms as nat, 4);
            let enc = head + body;
            lemma_le_bytes_len(1, 2);
            lemma_le_bytes_len(duration_ms as nat, 4);
            assert(enc.take(2) =~= head);
            lemma_le_round_trip(1, 2);
            assert(enc.subrange(2, 6) =~= body);
            lemma_le_round_trip(duration_ms as nat, 4);
        },
        MessageKindView::LedState { strip_id, led_values } => {
            let head = le_bytes(2, 2);
            let count = le_bytes(led_values.len(), 2);
            let body = color_bytes(led_values);
            let enc = head + count + body;
            lemma_le_bytes_len(2, 2);
            lemma_le_bytes_len(led_values.len(), 2);
            lemma_color_bytes_len(led_values);
            assert(enc.take(2) =~= head);
            lemma_le_round_trip(2, 2);
            assert(enc.subrange(2, 4) =~= count);
            lemma_le_round_trip(led_values.len(), 2);
            let n = le_value(enc.subrange(2, 4)) as int;
            assert(n == led_values.len());
            let decoded = Seq::new(n as nat, |i: int| Rgb8 {
                r: enc[4 + 3 * i],
                g: enc[4 + 3 * i + 1],
                b: enc[4 + 3 * i + 2],
            });
            assert forall|i: int| 0 <= i < n implies decoded[i] == led_values[i] by {
                lemma_color_bytes_index(led_values, i);
                assert(enc[4 + 3 * i] == body[3 * i]);
                assert(enc[4 + 3 * i + 1] == body[3 * i + 1]);
                assert(enc[4 + 3 * i + 2] == body[3 * i + 2]);
            }
            assert(decoded =~= led_values);
        },
    }
}

impl MessageDeserializer for MessageKind {
    type Result = DeserializationResult<Self>;

    #[verifier::loop_isolation(false)]
    fn deserialize_from(reader: &mut ByteStreamReader) -> (r: Self::Result)
        ensures
            final(reader).wf(),
            final(reader).bytes() == old(reader).bytes(),
            match spec_decode_kind(old(reader).rest()) {
                Ok(k) => r matches Ok(m) && m@ == k,
                Err(e) => r == Err::<MessageKind, DecodeError>(e),
            },
    {
        let ghost buf = old(reader).rest();
        let ghost bytes0 = old(reader).bytes();
        let ghost p0 = old(reader).position();

        if reader.remaining_len() < 2 {
            return Err(DecodeError::Truncated);
        }
        let kind = reader.u16();
        proof {
            assert(buf.take(2) =~= bytes0.subrange(p0, p0 + 2));
            lemma_le_value_bound(buf.take(2));
            lemma_pow256_small();
            assert(kind == le_value(buf.take(2)) as u16);
        }
        let msg_id = match MessageId::try_from(kind) {
            Ok(id) => id,
            Err(_) => {
                return Err(DecodeError::UnknownKind);
            },
        };

        match msg_id {
            MessageId::Empty => Ok(MessageKind::Empty),
            MessageId::KeepAlive => {
                if reader.remaining_len() < 4 {
                    return Err(DecodeError::Truncated);
                }
                let keepalive_for = reader.u32();
                proof {
                    assert(buf.subrange(2, 6) =~= bytes0.subrange(p0 + 2, p0 + 6));
                    lemma_le_value_bound(buf.subrange(2, 6));
                    lemma_pow256_small();
                }
                Ok(MessageKind::KeepAlive { duration_ms: keepalive_for })
            },
            MessageId::LedState => {
                // The wire format carries no strip id: every decoded frame
                // gets the fixed id, and the field waits on a protocol
                // revision that actually transmits one.
                let id: u8 = 0;
                if reader.remaining_len() < 2 {
                    return Err(DecodeError::Truncated);
                }
                let led_values_cnt = reader.u16();
                proof {
                    assert(buf.subrange(2, 4) =~= bytes0.subrange(p0 + 2, p0 + 4));
                    lemma_le_value_bound(buf.subrange(2, 4));
                    lemma_pow256_small();
                }
                if led_values_cnt as usize > MAX_LEDS {
                    return Err(DecodeError::TooManyLeds);
                }
                let cnt = led_values_cnt as usize;
                if reader.remaining_len() < 3 * cnt {
                    return Err(DecodeError::Truncated);
                }
                let ghost n = le_value(buf.subrange(2, 4)) as int;
                let ghost expected = Seq::new(n as nat, |i: int| Rgb8 {
                    r: buf[4 + 3 * i],
                    g: buf[4 + 3 * i + 1],
                    b: buf[4 + 3 * i + 2],
                });

                let mut led_values = ColorFrame::new();
                let mut i: usize = 0;
                while i < cnt
                    invariant
                        i <= cnt,
                        reader.wf(),
                        reader.bytes() == bytes0,
                        reader.position() == p0 + 4 + 3 * i,
                        led_values@.len() == i,
                        forall|j: int| 0 <= j < i ==> led_values@[j] == expected[j],
                    decreases cnt - i,
                {
                    let c = Rgb8::read_from_bsr(reader);
                    proof {
                        assert(bytes0[p0 + 4 + 3 * i] == buf[4 + 3 * i]);
                        assert(bytes0[p0 + 4 + 3 * i + 1] == buf[4 + 3 * i + 1]);
                        assert(bytes0[p0 + 4 + 3 * i + 2] == buf[4 + 3 * i + 2]);
                        assert(c == expected[i as int]);
                    }
                    led_values.push(c);
                    i = i + 1;
                }
                proof {
                    assert(led_values@ =~= expected);
                }
                Ok(MessageKind::LedState { strip_id: id, led_values })
            },
        }
    }
}

impl MessageKind {
    /// Appends this payload's wire bytes: the kind code, then the fields.
    #[verifier::loop_isolation(false)]
    pub fn encode_to(&self, out: &mut Vec<u8>)
        ensures
            final(out)@ == old(out)@ + spec_encode_kind(self@),
    {
        match self {
            MessageKind::Empty => {
                crate::messages::bytestreamreader::push_le(out, 0, 2);
            },
            MessageKind::KeepAlive { duration_ms } => {
                crate::messages::bytestreamreader::push_le(out, 1, 2);
                crate::messages::bytestreamreader::push_le(out, *duration_ms as u64, 4);
                proof {
                    assert(out@ =~= old(out)@ + spec_encode_kind(self@));
                }
            },
            MessageKind::LedState { strip_id: _, led_values } => {
                crate::messages::bytestreamreader::push_le(out, 2, 2);
                crate::messages::bytestreamreader::push_le(out, led_values.len() as u64, 2);
                let ghost colors = led_values@;
                let ghost base = out@;
                let n = led_values.len();
                proof {
                    assert(colors.skip(0) =~= colors);
                }
                let mut i: usize = 0;
                while i < n
                    invariant
                        i <= n,
                        n == colors.len(),
                        led_values@ == colors,
                        out@ + color_bytes(colors.skip(i as int)) =~= base + color_bytes(colors),
                    decreases n - i,
                {
                    let c = led_values.get(i);
                    out.push(c.r);
                    out.push(c.g);
                    out.push(c.b);
                    proof {
                        let rest = colors.skip(i as int);
                        assert(rest.len() != 0);
                        assert(rest[0] == colors[i as int]);
                        assert(rest.drop_first() =~= colors.skip(i as int + 1));
                        assert(color_bytes(rest) == seq![rest[0].r, rest[0].g, rest[0].b]
                            + color_bytes(rest.drop_first()));
                        assert(out@ + color_bytes(colors.skip(i as int + 1)) =~= base
                            + color_bytes(colors));
                    }
                    i = i + 1;
                }
                proof {
                    assert(colors.skip(n as int) =~= Seq::<Rgb8>::empty());
                    assert(out@ + color_bytes(colors.skip(n as int)) =~= out@);
                    assert(out@ =~= old(out)@ + spec_encode_kind(self@));
                }
            },
        }
    }
}

} // verus!
