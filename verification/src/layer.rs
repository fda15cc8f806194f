//! The layer as a whole: the model of the network, the table of handlers,
//! the sending side, the trace of what was received and the state of the
//! link.

use crate::codec::Frame;
use crate::frame::CanFrame;
use crate::handler::{handled_as, Error, Timestamped};
use crate::network::{NetworkObject, NodeObject};
use crate::rx::{
    entry_settled, fold_key_spec, last_refused, mapping_error, may_write, model_after, receive,
    LookupError,
    RxCom,
};
use crate::schema::Message;
use crate::tx::TxCom;
use vstd::prelude::*;

verus! {

#[derive(Clone, Copy, Debug, PartialEq, Eq, Structural)]
pub enum ConnectionStatus {
    CanDisconnected,
    CanConnected,
}

pub struct ConnectionObject {
    pub status: ConnectionStatus,
}

impl ConnectionObject {
    pub fn new(status: ConnectionStatus) -> (connection: Self)
        ensures
            connection.status == status,
    {
        Self { status }
    }

    pub fn set_status(&mut self, status: ConnectionStatus)
        ensures
            final(self).status == status,
    {
        self.status = status;
    }

    pub fn status(&self) -> (status: ConnectionStatus)
        ensures
            status == self.status,
    {
        self.status
    }
}

/// The answers to the frames that had a handler, in the order in which the
/// frames were received.
pub struct TraceObject {
    pub answers: Vec<Result<Timestamped<Frame>, Error>>,
}

impl TraceObject {
    pub fn create() -> (trace: Self)
        ensures
            trace.answers@.len() == 0,
    {
        Self { answers: Vec::new() }
    }

    pub fn push(&mut self, answer: Result<Timestamped<Frame>, Error>)
        ensures
            final(self).answers@ == old(self).answers@.push(answer),
    {
        self.answers.push(answer);
    }
}

pub struct CNL {
    pub trace: TraceObject,
    pub rx: RxCom,
    pub tx: TxCom,
    pub network: NetworkObject,
    pub connection_object: ConnectionObject,
}

impl CNL {
    /// The layer over a model of the network and the messages of its
    /// configuration, connected through `adapters` adapters. Every field of
    /// every stream message must name an object entry of the model.
    pub fn create(messages: Vec<Message>, network: NetworkObject, adapters: usize) -> (r: Result<
        Self,
        LookupError,
    >)
        ensures
            r.is_ok() <==> forall|i: int|
                0 <= i < messages@.len() ==> mapping_error(
                    &(#[trigger] messages@[i]),
                    &network,
                ).is_none(),
            match r {
                Ok(cnl) => {
                    &&& cnl.network == network
                    &&& cnl.trace.answers@.len() == 0
                    &&& cnl.tx.adapters == adapters
                    &&& cnl.rx.can_receivers@.len() == adapters
                    &&& forall|i: int|
                        0 <= i < adapters ==> (#[trigger] cnl.rx.can_receivers@[i]).adapter == i
                    &&& cnl.connection_object.status == ConnectionStatus::CanConnected
                    &&& forall|key: u32| #[trigger]
                        entry_settled(cnl.rx.lookup.0@, messages@, &network, key, 0)
                },
                Err(e) => exists|i: int| #[trigger] last_refused(messages@, &network, i, e),
            },
    {
        let mut connection_object = ConnectionObject::new(ConnectionStatus::CanDisconnected);
        let rx = match RxCom::create(messages, &network, adapters) {
            Ok(rx) => rx,
            Err(e) => {
                return Err(e);
            },
        };
        connection_object.set_status(ConnectionStatus::CanConnected);
        Ok(
            CNL {
                trace: TraceObject::create(),
                rx,
                tx: TxCom::create(adapters),
                network,
                connection_object,
            },
        )
    }

    pub fn trace(&self) -> (trace: &TraceObject)
        ensures
            *trace == self.trace,
    {
        &self.trace
    }

    pub fn nodes(&self) -> (nodes: &Vec<NodeObject>)
        ensures
            *nodes == self.network.nodes,
    {
        self.network.nodes()
    }

    pub fn connection_object(&self) -> (connection: &ConnectionObject)
        ensures
            *connection == self.connection_object,
    {
        &self.connection_object
    }

    /// Receives one frame: the handler of its key decodes it, a stream is
    /// applied to the model, and the answer is added to the trace. A frame
    /// without a handler changes nothing. Whether the frame had a handler is
    /// returned.
    pub fn on_frame(&mut self, can_frame: &Timestamped<CanFrame>) -> (handled: bool)
        ensures
            final(self).rx == old(self).rx,
            final(self).tx == old(self).tx,
            final(self).connection_object == old(self).connection_object,
            final(self).network.nodes == old(self).network.nodes,
            final(self).network.entries == old(self).network.entries,
            final(self).network.baudrate == old(self).network.baudrate,
            final(self).network.values@.len() == old(self).network.values@.len(),
            ({
                let key = fold_key_spec(can_frame.value.id, can_frame.value.ide);
                let table = old(self).rx.lookup.0@;
                &&& handled == table.contains_key(key)
                &&& !handled ==> final(self).trace == old(self).trace
                    && final(self).network.values@ == old(self).network.values@
                &&& handled ==> {
                    &&& final(self).trace.answers@.len() == old(self).trace.answers@.len() + 1
                    &&& final(self).trace.answers@.drop_last() == old(self).trace.answers@
                    &&& handled_as(
                        &table[key].parser_spec().message,
                        can_frame,
                        table[key].rejection(),
                        final(self).trace.answers@.last(),
                    )
                    &&& model_after(
                        &table[key],
                        can_frame,
                        &final(self).trace.answers@.last(),
                        old(self).network.values@,
                        final(self).network.values@,
                    )
                    &&& forall|id: int|
                        0 <= id < old(self).network.values@.len() && !may_write(
                            &table[key],
                            id as usize,
                        ) ==> final(self).network.values@[id]
                            == #[trigger] old(self).network.values@[id]
                }
            }),
    {
        match receive(&self.rx.lookup, &mut self.network, can_frame) {
            None => false,
            Some(answer) => {
                self.trace.push(answer);
                assert(self.trace.answers@.drop_last() =~= old(self).trace.answers@);
                true
            },
        }
    }
}

} // verus!
