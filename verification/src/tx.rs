//! The way out: a message's values become a raw frame for the adapter of the
//! message's bus.

use crate::codec::{encode_fields, encode_fields_spec, fields_bit_width, CodecError};
use crate::frame::{CanFrame, FrameType};
use crate::schema::{fields_width, Message, MessageId};
use vstd::prelude::*;

verus! {

#[derive(Clone, Copy, Debug, PartialEq, Eq, Structural)]
pub enum TxError {
    /// No adapter serves the bus of the message.
    NoAdapter,
    Codec(CodecError),
}

/// The number of payload bytes that hold `bits` bits.
pub open spec fn bytes_for(bits: nat) -> nat {
    (bits + 7) / 8
}

/// The raw frame that carries `values` as `message`: the message's
/// identifier, no remote request, as many bytes as the fields take, and the
/// values encoded as the fields from bit 0 on.
pub open spec fn encode_message_spec(message: &Message, values: Seq<FrameType>) -> Result<
    CanFrame,
    CodecError,
> {
    let total = fields_width(message.fields@, message.fields@.len());
    if total > 64 {
        Err(CodecError::LayoutTooWide)
    } else {
        match encode_fields_spec(message.fields@, values, 0) {
            Err(e) => Err(e),
            Ok(word) => Ok(
                CanFrame {
                    id: match message.id {
                        MessageId::StandardId(id) => id,
                        MessageId::ExtendedId(id) => id,
                    },
                    ide: message.id is ExtendedId,
                    rtr: false,
                    dlc: bytes_for(total) as u8,
                    data: word,
                },
            ),
        }
    }
}

pub fn encode_message(message: &Message, values: &Vec<FrameType>) -> (r: Result<
    CanFrame,
    CodecError,
>)
    ensures
        r == encode_message_spec(message, values@),
{
    let Some(total) = fields_bit_width(&message.fields) else {
        return Err(CodecError::LayoutTooWide);
    };
    let word: u64 = match encode_fields(&message.fields, values, 0) {
        Err(e) => {
            return Err(e);
        },
        Ok(word) => word,
    };
    let (id, ide) = match message.id {
        MessageId::StandardId(id) => (id, false),
        MessageId::ExtendedId(id) => (id, true),
    };
    let bytes: u64 = (total + 7) / 8;
    Ok(CanFrame { id, ide, rtr: false, dlc: bytes as u8, data: word })
}

/// The sending side: the adapters are numbered from 0, by the buses that
/// they serve.
#[derive(Clone, Copy, Debug, PartialEq, Eq, Structural)]
pub struct TxCom {
    pub adapters: usize,
}

impl TxCom {
    pub fn create(adapters: usize) -> (tx: Self)
        ensures
            tx.adapters == adapters,
    {
        Self { adapters }
    }

    /// The adapter to send on, and the frame to send, for `values` of
    /// `message`.
    pub fn route(&self, message: &Message, values: &Vec<FrameType>) -> (r: Result<
        (usize, CanFrame),
        TxError,
    >)
        ensures
            r == (if message.bus >= self.adapters {
                Err::<(usize, CanFrame), TxError>(TxError::NoAdapter)
            } else {
                match encode_message_spec(message, values@) {
                    Err(e) => Err(TxError::Codec(e)),
                    Ok(frame) => Ok((message.bus, frame)),
                }
            }),
    {
        if message.bus >= self.adapters {
            return Err(TxError::NoAdapter);
        }
        match encode_message(message, values) {
            Err(e) => Err(TxError::Codec(e)),
            Ok(frame) => Ok((message.bus, frame)),
        }
    }
}

} // verus!
