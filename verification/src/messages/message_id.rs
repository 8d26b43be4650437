use vstd::prelude::*;
use crate::messages::message_kind::MessageKind;

verus! {

/// The identity of a command variant, independent of its payload; the key
/// of the per-kind staleness filter.
#[derive(Debug, Clone, Copy, PartialEq, Eq, Structural, Hash)]
pub enum MessageId {
    Empty,
    KeepAlive,
    LedState,
}

impl MessageId {
    /// The wire code of this kind.
    pub open spec fn spec_code(self) -> u16 {
        match self {
            MessageId::Empty => 0,
            MessageId::KeepAlive => 1,
            MessageId::LedState => 2,
        }
    }

    /// Which kind a wire code names, if any: the set of codes is closed.
    pub open spec fn spec_from_code(code: u16) -> Option<MessageId> {
        if code == 0 {
            Some(MessageId::Empty)
        } else if code == 1 {
            Some(MessageId::KeepAlive)
        } else if code == 2 {
            Some(MessageId::LedState)
        } else {
            None
        }
    }

    pub fn code(self) -> (r: u16)
        ensures
            r == self.spec_code(),
    {
        match self {
            MessageId::Empty => 0,
            MessageId::KeepAlive => 1,
            MessageId::LedState => 2,
        }
    }

    /// Accepts exactly the three known wire codes.
    pub fn try_from(value: u16) -> (r: Result<MessageId, ()>)
        ensures
            match MessageId::spec_from_code(value) {
                Some(id) => r == Ok::<MessageId, ()>(id),
                None => r == Err::<MessageId, ()>(()),
            },
    {
        if value == 0 {
            Ok(MessageId::Empty)
        } else if value == 1 {
            Ok(MessageId::KeepAlive)
        } else if value == 2 {
            Ok(MessageId::LedState)
        } else {
            Err(())
        }
    }

    /// The kind of a command, read off its variant.
    pub fn from(value: &MessageKind) -> (r: MessageId)
        ensures
            r == value.spec_id(),
    {
        match value {
            MessageKind::Empty => MessageId::Empty,
            MessageKind::KeepAlive { .. } => MessageId::KeepAlive,
            MessageKind::LedState { .. } => MessageId::LedState,
        }
    }
}

} // verus!
