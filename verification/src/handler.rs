//! The handlers of received frames, one for each purpose of a message.

use crate::codec::{
    fields_decodable, fields_decode_to, frame_decodes_to, frame_of_message, CodecError, Frame,
    TypeFrameParser,
};
use crate::frame::{CanFrame, FrameType};
use crate::network::{stream_applied, EntryValue, NetworkObject};
use crate::schema::{fields_width, Message};
use vstd::prelude::*;

verus! {

/// A value with the time at which it was seen on the bus, counted from the
/// start of the session.
#[derive(Debug)]
pub struct Timestamped<T> {
    pub timestamp: u64,
    pub value: T,
}

impl<T> Timestamped<T> {
    pub fn new(timestamp: u64, value: T) -> (stamped: Self)
        ensures
            stamped.timestamp == timestamp,
            stamped.value == value,
    {
        Self { timestamp, value }
    }

    pub fn timestamp(&self) -> (timestamp: u64)
        ensures
            timestamp == self.timestamp,
    {
        self.timestamp
    }

    pub fn value(&self) -> (value: &T)
        ensures
            *value == self.value,
    {
        &self.value
    }
}

#[derive(Clone, Copy, Debug, PartialEq, Eq, Structural)]
pub enum Error {
    /// The frame is of the message and could not be decoded.
    Codec(CodecError),
    InvalidStreamFormat,
    InvalidGetResponseFormat,
    InvalidSetResponseFormat,
    InvalidCommandMessageFormat,
}

/// What a handler of `message` answers to a frame: the decoded frame under
/// the time of the raw frame; `rejection` for a frame that is not of the
/// message; the codec's error for one that cannot be decoded.
pub open spec fn handled_as(
    message: &Message,
    can_frame: &Timestamped<CanFrame>,
    rejection: Error,
    r: Result<Timestamped<Frame>, Error>,
) -> bool {
    if !frame_of_message(message, &can_frame.value) {
        r == Err::<Timestamped<Frame>, Error>(rejection)
    } else if fields_width(message.fields@, message.fields@.len()) > 64 {
        r == Err::<Timestamped<Frame>, Error>(Error::Codec(CodecError::LayoutTooWide))
    } else if !fields_decodable(message.fields@, can_frame.value.data, 0) {
        r == Err::<Timestamped<Frame>, Error>(Error::Codec(CodecError::EnumValueOutOfRange))
    } else {
        match r {
            Ok(stamped) => stamped.timestamp == can_frame.timestamp && match stamped.value {
                Frame::TypeFrame(decoded) => frame_decodes_to(message, &can_frame.value, &decoded),
                Frame::UndefinedFrame(_) => false,
            },
            Err(_) => false,
        }
    }
}

/// Tells what a parser made of a frame: a decoded frame is passed on under
/// `timestamp`, anything else is answered with `rejection`.
pub fn accept_decoded(parsed: Result<Frame, CodecError>, timestamp: u64, rejection: Error) -> (r:
    Result<Timestamped<Frame>, Error>)
    ensures
        match parsed {
            Ok(Frame::TypeFrame(decoded)) => r == Ok::<Timestamped<Frame>, Error>(
                Timestamped { timestamp, value: Frame::TypeFrame(decoded) },
            ),
            Ok(Frame::UndefinedFrame(_)) => r == Err::<Timestamped<Frame>, Error>(rejection),
            Err(e) => r == Err::<Timestamped<Frame>, Error>(Error::Codec(e)),
        },
{
    match parsed {
        Ok(Frame::TypeFrame(decoded)) => Ok(
            Timestamped { timestamp, value: Frame::TypeFrame(decoded) },
        ),
        Ok(Frame::UndefinedFrame(_)) => Err(rejection),
        Err(e) => Err(Error::Codec(e)),
    }
}

/// Maps each field of a stream message to an object entry of the arena.
pub struct StreamFrameHandler {
    pub parser: TypeFrameParser,
    pub mapping: Vec<usize>,
}

impl StreamFrameHandler {
    /// A handler that decodes and maps no field to any entry.
    pub fn create(parser: TypeFrameParser) -> (handler: Self)
        ensures
            handler.parser == parser,
            handler.mapping@ == Seq::<usize>::empty(),
    {
        Self { parser, mapping: Vec::new() }
    }

    pub fn create_mapped(parser: TypeFrameParser, mapping: Vec<usize>) -> (handler: Self)
        ensures
            handler == (StreamFrameHandler { parser, mapping }),
    {
        Self { parser, mapping }
    }

    pub fn handle(&self, can_frame: &Timestamped<CanFrame>) -> (r: Result<
        Timestamped<Frame>,
        Error,
    >)
        ensures
            handled_as(&self.parser.message, can_frame, Error::InvalidStreamFormat, r),
    {
        accept_decoded(
            self.parser.parse(&can_frame.value),
            can_frame.timestamp,
            Error::InvalidStreamFormat,
        )
    }
}

/// How the values of the model stand after a stream handler met a frame:
/// where it decoded the frame, the decoded fields are written to the entries
/// of its mapping under the frame's time; where it did not, nothing changed.
pub open spec fn stream_effect(
    handler: &StreamFrameHandler,
    can_frame: &Timestamped<CanFrame>,
    decoded: bool,
    before: Seq<Option<EntryValue>>,
    after: Seq<Option<EntryValue>>,
) -> bool {
    if decoded {
        exists|fields: Seq<FrameType>|
            #![trigger stream_applied(before, handler.mapping@, fields, can_frame.timestamp, 0)]
            fields_decode_to(handler.parser.message.fields@, can_frame.value.data, 0, fields)
                && after == stream_applied(
                before,
                handler.mapping@,
                fields,
                can_frame.timestamp,
                0,
            )
    } else {
        after == before
    }
}

impl StreamFrameHandler {
    /// Decodes a frame and writes each of its fields to the object entry
    /// that the mapping gives it. No other entry changes, and a frame that
    /// is not decoded changes none.
    pub fn apply(&self, network: &mut NetworkObject, can_frame: &Timestamped<CanFrame>) -> (r:
        Result<Timestamped<Frame>, Error>)
        ensures
            handled_as(&self.parser.message, can_frame, Error::InvalidStreamFormat, r),
            final(network).well_formed() == old(network).well_formed(),
            final(network).baudrate == old(network).baudrate,
            final(network).nodes == old(network).nodes,
            final(network).entries == old(network).entries,
            final(network).values@.len() == old(network).values@.len(),
            stream_effect(
                self,
                can_frame,
                r.is_ok(),
                old(network).values@,
                final(network).values@,
            ),
            forall|id: int|
                0 <= id < old(network).values@.len() && !self.mapping@.contains(id as usize)
                    ==> final(network).values@[id] == #[trigger] old(network).values@[id],
    {
        let answer = self.handle(can_frame);
        if answer.is_ok() {
            // The model keeps values of its own: the frame is decoded once
            // more for it.
            match self.parser.parse(&can_frame.value) {
                Ok(Frame::TypeFrame(decoded)) => {
                    let ghost fields = decoded.value@;
                    network.apply_stream(&self.mapping, decoded.into_value(), can_frame.timestamp);
                    assert(network.values@ == stream_applied(
                        old(network).values@,
                        self.mapping@,
                        fields,
                        can_frame.timestamp,
                        0,
                    ));
                },
                _ => {},
            }
        }
        answer
    }
}

pub struct GetRespFrameHandler {
    pub parser: TypeFrameParser,
}

impl GetRespFrameHandler {
    pub fn create(parser: TypeFrameParser) -> (handler: Self)
        ensures
            handler.parser == parser,
    {
        Self { parser }
    }

    pub fn handle(&self, can_frame: &Timestamped<CanFrame>) -> (r: Result<
        Timestamped<Frame>,
        Error,
    >)
        ensures
            handled_as(&self.parser.message, can_frame, Error::InvalidGetResponseFormat, r),
    {
        accept_decoded(
            self.parser.parse(&can_frame.value),
            can_frame.timestamp,
            Error::InvalidGetResponseFormat,
        )
    }
}

pub struct SetRespFrameHandler {
    pub parser: TypeFrameParser,
}

impl SetRespFrameHandler {
    pub fn create(parser: TypeFrameParser) -> (handler: Self)
        ensures
            handler.parser == parser,
    {
        Self { parser }
    }

    pub fn handle(&self, can_frame: &Timestamped<CanFrame>) -> (r: Result<
        Timestamped<Frame>,
        Error,
    >)
        ensures
            handled_as(&self.parser.message, can_frame, Error::InvalidSetResponseFormat, r),
    {
        accept_decoded(
            self.parser.parse(&can_frame.value),
            can_frame.timestamp,
            Error::InvalidSetResponseFormat,
        )
    }
}

pub struct CommandRespFrameHandler {
    pub parser: TypeFrameParser,
}

impl CommandRespFrameHandler {
    pub fn create(parser: TypeFrameParser) -> (handler: Self)
        ensures
            handler.parser == parser,
    {
        Self { parser }
    }

    pub fn handle(&self, can_frame: &Timestamped<CanFrame>) -> (r: Result<
        Timestamped<Frame>,
        Error,
    >)
        ensures
            handled_as(&self.parser.message, can_frame, Error::InvalidCommandMessageFormat, r),
    {
        accept_decoded(
            self.parser.parse(&can_frame.value),
            can_frame.timestamp,
            Error::InvalidCommandMessageFormat,
        )
    }
}

/// The closed set of handlers.
pub enum MessageHandler {
    StreamFrameHandler(StreamFrameHandler),
    GetRespFrameHandler(GetRespFrameHandler),
    SetRespFrameHandler(SetRespFrameHandler),
    CommandRespFrameHandler(CommandRespFrameHandler),
}

impl MessageHandler {
    /// The parser of the handler, whatever its kind.
    pub open spec fn parser_spec(&self) -> TypeFrameParser {
        match self {
            MessageHandler::StreamFrameHandler(h) => h.parser,
            MessageHandler::GetRespFrameHandler(h) => h.parser,
            MessageHandler::SetRespFrameHandler(h) => h.parser,
            MessageHandler::CommandRespFrameHandler(h) => h.parser,
        }
    }

    /// What the handler answers to a frame that is not of its message.
    pub open spec fn rejection(&self) -> Error {
        match self {
            MessageHandler::StreamFrameHandler(_) => Error::InvalidStreamFormat,
            MessageHandler::GetRespFrameHandler(_) => Error::InvalidGetResponseFormat,
            MessageHandler::SetRespFrameHandler(_) => Error::InvalidSetResponseFormat,
            MessageHandler::CommandRespFrameHandler(_) => Error::InvalidCommandMessageFormat,
        }
    }

    pub fn handle(&self, can_frame: &Timestamped<CanFrame>) -> (r: Result<
        Timestamped<Frame>,
        Error,
    >)
        ensures
            handled_as(&self.parser_spec().message, can_frame, self.rejection(), r),
    {
        match self {
            MessageHandler::StreamFrameHandler(h) => h.handle(can_frame),
            MessageHandler::GetRespFrameHandler(h) => h.handle(can_frame),
            MessageHandler::SetRespFrameHandler(h) => h.handle(can_frame),
            MessageHandler::CommandRespFrameHandler(h) => h.handle(can_frame),
        }
    }
}

} // verus!
