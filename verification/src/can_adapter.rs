//! What an adapter decides between its transport and its queues. The
//! transport and the queues themselves belong to the program that owns the
//! adapter.

use crate::frame::CanFrame;
use crate::handler::Timestamped;
use vstd::prelude::*;
use vstd::string::*;

verus! {

/// The depth of each of the three queues of an adapter.
pub const QUEUE_DEPTH: usize = 16;

#[derive(Debug)]
pub enum CanError {
    /// The transport failed to read; the number is the code that it gave.
    Io(u64),
    /// A queue was closed under its reader.
    Disconnect(String),
}

/// Where the inbound loop puts what it read.
#[derive(Debug)]
pub enum Inbound {
    Frame(Timestamped<CanFrame>),
    Error(Timestamped<CanError>),
}

/// What the inbound loop does with one read: a frame goes to the frame
/// queue, an error to the error queue, each under the time of the read.
pub fn route_inbound(read: Result<CanFrame, CanError>, now: u64) -> (r: Inbound)
    ensures
        match read {
            Ok(frame) => r == Inbound::Frame(Timestamped { timestamp: now, value: frame }),
            Err(error) => r == Inbound::Error(Timestamped { timestamp: now, value: error }),
        },
{
    match read {
        Ok(frame) => Inbound::Frame(Timestamped { timestamp: now, value: frame }),
        Err(error) => Inbound::Error(Timestamped { timestamp: now, value: error }),
    }
}

/// What `receive` answers: the next frame of the queue, or a disconnect
/// under the time of the call where the queue is closed.
pub fn received(next: Option<Timestamped<CanFrame>>, now: u64) -> (r: Result<
    Timestamped<CanFrame>,
    Timestamped<CanError>,
>)
    ensures
        match next {
            Some(frame) => r == Ok::<Timestamped<CanFrame>, Timestamped<CanError>>(frame),
            None => r is Err && r->Err_0.timestamp == now && match r->Err_0.value {
                CanError::Disconnect(text) => text@ == "can receive thread closed rx channel"@,
                CanError::Io(_) => false,
            },
        },
{
    match next {
        Some(frame) => Ok(frame),
        None => Err(
            Timestamped {
                timestamp: now,
                value: CanError::Disconnect(
                    String::from_str("can receive thread closed rx channel"),
                ),
            },
        ),
    }
}

/// What `receive_err` answers: the next error of the queue, or a disconnect
/// under the time of the call where the queue is closed.
pub fn received_error(next: Option<Timestamped<CanError>>, now: u64) -> (r: Timestamped<CanError>)
    ensures
        match next {
            Some(error) => r == error,
            None => r.timestamp == now && match r.value {
                CanError::Disconnect(text) => text@ == "can receive thread closed rx channel"@,
                CanError::Io(_) => false,
            },
        },
{
    match next {
        Some(error) => error,
        None => Timestamped {
            timestamp: now,
            value: CanError::Disconnect(String::from_str("can receive thread closed rx channel")),
        },
    }
}

} // verus!
