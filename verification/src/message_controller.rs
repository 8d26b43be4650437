use vstd::prelude::*;
use vstd::set_lib::lemma_len_subset;
use crate::atomic_channel::AtomicChannel;
use crate::messages::bytestreamreader::{ByteStreamReader, MessageDeserializer};
use crate::messages::message_id::MessageId;
use crate::messages::message_kind::{MessageKind, MessageKindView};
use crate::messages::rgb8::ColorFrame;
use crate::messages::{spec_decode, ControllerMessage, DecodeError};
use crate::timestamp_map::{kind_timestamps, map_get, map_insert, map_new};

verus! {

/// Why a datagram had no effect: its bytes did not decode, or its
/// timestamp is not newer than the last accepted one of its kind.
#[derive(Debug, Clone, Copy, PartialEq, Eq, Structural)]
pub enum HandleError {
    Decode(DecodeError),
    Stale,
}

/// Whether a command of the kind with wire code `code` and timestamp `ts`
/// passes the staleness filter: a kind's first timestamp always does,
/// later ones only when strictly newer than the stored one.
pub open spec fn spec_accepts(m: Map<u16, u64>, code: u16, ts: u64) -> bool {
    !m.dom().contains(code) || m[code] < ts
}

/// The stored timestamps after such a command: the kind's entry advances
/// exactly when the command is accepted.
pub open spec fn spec_apply(m: Map<u16, u64>, code: u16, ts: u64) -> Map<u16, u64> {
    if spec_accepts(m, code, ts) {
        m.insert(code, ts)
    } else {
        m
    }
}

/// The wire codes that can ever be stored: one per command kind.
pub open spec fn spec_kind_codes() -> Set<u16> {
    Set::empty().insert(MessageId::Empty.spec_code()).insert(
        MessageId::KeepAlive.spec_code(),
    ).insert(MessageId::LedState.spec_code())
}

/// Drops stale and duplicate commands, then routes the accepted ones:
/// keepalives to the keepalive slot, color frames to the frame slot.
pub struct MessageController {
    timestamp_map: heapless::FnvIndexMap<u16, u64, 64>,
}

impl MessageController {
    /// The last accepted timestamp of each kind, keyed by wire code.
    pub closed spec fn timestamps(self) -> Map<u16, u64> {
        kind_timestamps(self.timestamp_map)
    }

    /// Only kind codes are ever stored, so the map, with room for 64
    /// entries, never fills.
    pub closed spec fn wf(self) -> bool {
        &&& self.timestamps().dom().finite()
        &&& self.timestamps().dom().subset_of(spec_kind_codes())
    }

    pub fn new() -> (r: Self)
        ensures
            r.wf(),
            r.timestamps() == Map::<u16, u64>::empty(),
    {
        MessageController { timestamp_map: map_new() }
    }

    /// The filter's single step: looks the kind up, accepts a first or
    /// strictly newer timestamp and stores it, rejects the rest.
    fn update_message_timestamp(&mut self, message_id: MessageId, timestamp: u64) -> (is_new: bool)
        requires
            old(self).wf(),
        ensures
            final(self).wf(),
            is_new == spec_accepts(old(self).timestamps(), message_id.spec_code(), timestamp),
            final(self).timestamps() == spec_apply(
                old(self).timestamps(),
                message_id.spec_code(),
                timestamp,
            ),
    {
        let code = message_id.code();
        proof {
            lemma_len_subset(self.timestamps().dom(), spec_kind_codes());
            assert(spec_kind_codes().len() <= 3) by {
                assert(spec_kind_codes() =~= Set::empty().insert(0u16).insert(1u16).insert(2u16));
            }
        }
        let is_new_value = match map_get(&self.timestamp_map, code) {
            Some(stored) => {
                if stored < timestamp {
                    let _ = map_insert(&mut self.timestamp_map, code, timestamp);
                    true
                } else {
                    false
                }
            },
            None => {
                let _ = map_insert(&mut self.timestamp_map, code, timestamp);
                true
            },
        };
        is_new_value
    }

    /// Handles one raw datagram: decodes it, drops it whole on a decode
    /// failure or a stale timestamp, and otherwise dispatches its payload
    /// by kind. An accepted keepalive leaves its duration in the keepalive
    /// slot; an accepted color frame leaves its colors in the frame slot;
    /// an accepted empty command leaves both slots alone.
    pub fn handle_msg_lumen(
        &mut self,
        buf: &[u8],
        led_channel: &mut AtomicChannel<ColorFrame>,
        keep_alive_channel: &mut AtomicChannel<u32>,
    ) -> (r: Result<(), HandleError>)
        requires
            old(self).wf(),
        ensures
            final(self).wf(),
            ({
                let led0 = old(led_channel).pending();
                let ka0 = old(keep_alive_channel).pending();
                let led1 = final(led_channel).pending();
                let ka1 = final(keep_alive_channel).pending();
                match spec_decode(buf@) {
                    Err(e) => {
                        &&& r == Err::<(), HandleError>(HandleError::Decode(e))
                        &&& final(self).timestamps() == old(self).timestamps()
                        &&& led1 == led0
                        &&& ka1 == ka0
                    },
                    Ok(m) => {
                        let code = m.kind.spec_id().spec_code();
                        let accepted = spec_accepts(old(self).timestamps(), code, m.timestamp);
                        &&& final(self).timestamps() == spec_apply(
                            old(self).timestamps(),
                            code,
                            m.timestamp,
                        )
                        &&& !accepted ==> r == Err::<(), HandleError>(HandleError::Stale)
                            && led1 == led0 && ka1 == ka0
                        &&& accepted ==> r == Ok::<(), HandleError>(()) && match m.kind {
                            MessageKindView::Empty => led1 == led0 && ka1 == ka0,
                            MessageKindView::KeepAlive { duration_ms } => ka1 == Some(duration_ms)
                                && led1 == led0,
                            MessageKindView::LedState { strip_id, led_values } => (led1
                                matches Some(f) && f@ == led_values) && ka1 == ka0,
                        }
                    },
                }
            }),
    {
        let mut reader = ByteStreamReader::new(buf);
        proof {
            assert(reader.rest() =~= buf@);
        }
        let decoded = ControllerMessage::deserialize_from(&mut reader);

        let msg = match decoded {
            Ok(m) => m,
            Err(e) => {
                return Err(HandleError::Decode(e));
            },
        };

        let ControllerMessage { timestamp, kind } = msg;
        let message_id = MessageId::from(&kind);
        proof {
            assert(kind.spec_id() == kind@.spec_id());
        }

        let is_new_value = self.update_message_timestamp(message_id, timestamp.get());
        if !is_new_value {
            return Err(HandleError::Stale);
        }

        match kind {
            MessageKind::Empty => Ok(()),
            MessageKind::KeepAlive { duration_ms } => {
                keep_alive_channel.send(duration_ms);
                Ok(())
            },
            MessageKind::LedState { strip_id: _, led_values } => {
                led_channel.send(led_values);
                Ok(())
            },
        }
    }
}

/// Two commands of one kind in timestamp order: the first is accepted, and
/// the second, strictly newer, is accepted over it; the stored timestamp
/// is then the second's, whose effect is the one that stands.
pub proof fn lemma_newer_supersedes(m0: Map<u16, u64>, code: u16, ts_a: u64, ts_b: u64)
    requires
        ts_a < ts_b,
        spec_accepts(m0, code, ts_a),
    ensures
        spec_accepts(spec_apply(m0, code, ts_a), code, ts_b),
        spec_apply(spec_apply(m0, code, ts_a), code, ts_b)[code] == ts_b,
{
}

/// The same two commands in the reversed order: once the newer timestamp
/// is stored, the older command is rejected and the stored state does not
/// move.
pub proof fn lemma_stale_rejected(m0: Map<u16, u64>, code: u16, ts_a: u64, ts_b: u64)
    requires
        ts_a <= ts_b,
        spec_accepts(m0, code, ts_b),
    ensures
        !spec_accepts(spec_apply(m0, code, ts_b), code, ts_a),
        spec_apply(spec_apply(m0, code, ts_b), code, ts_a) == spec_apply(m0, code, ts_b),
{
}

/// The filter keeps one counter per kind: a command of one kind neither
/// blocks nor unblocks commands of any other kind.
pub proof fn lemma_kind_independence(
    m0: Map<u16, u64>,
    code_a: u16,
    ts_a: u64,
    code_b: u16,
    ts_b: u64,
)
    requires
        code_a != code_b,
    ensures
        spec_accepts(spec_apply(m0, code_a, ts_a), code_b, ts_b) == spec_accepts(m0, code_b, ts_b),
{
}

} // verus!
