//! Finding the handler of a received frame by its identifier, and applying
//! the frame to the model of the network.

use crate::codec::{Frame, TypeFrameParser};
use crate::frame::CanFrame;
use crate::handler::{
    handled_as, stream_effect, CommandRespFrameHandler, Error, GetRespFrameHandler,
    MessageHandler, SetRespFrameHandler, StreamFrameHandler, Timestamped,
};
use crate::network::{find_entry, find_node, EntryValue, NetworkObject};
use crate::schema::{EntryRef, Message, MessageId, MessageUsage};
use std::collections::HashMap;
use vstd::prelude::*;

verus! {

/// An identifier and its extended flag as one key: the identifier itself for
/// a standard one, the identifier with the top bit set for an extended one.
pub open spec fn fold_key_spec(id: u32, extended: bool) -> u32 {
    if extended {
        id | 0x8000_0000u32
    } else {
        id
    }
}

pub fn fold_key(id: u32, extended: bool) -> (key: u32)
    ensures
        key == fold_key_spec(id, extended),
{
    if extended {
        id | 0x8000_0000u32
    } else {
        id
    }
}

/// The key of a message's identifier.
pub open spec fn message_key(id: MessageId) -> u32 {
    match id {
        MessageId::StandardId(id) => fold_key_spec(id, false),
        MessageId::ExtendedId(id) => fold_key_spec(id, true),
    }
}

pub fn key_of(id: &MessageId) -> (key: u32)
    ensures
        key == message_key(*id),
{
    match id {
        MessageId::StandardId(id) => fold_key(*id, false),
        MessageId::ExtendedId(id) => fold_key(*id, true),
    }
}

/// A standard identifier and an extended identifier never share a key, also
/// where they are the same number.
pub proof fn lemma_fold_separates_spaces(standard: u32, extended: u32)
    requires
        standard < 0x800,
        extended < 0x2000_0000,
    ensures
        fold_key_spec(standard, false) != fold_key_spec(extended, true),
{
    assert(standard < 0x800u32 ==> standard != (extended | 0x8000_0000u32)) by (bit_vector);
}

/// Below the top bit, the key tells the identifier and the flag.
pub proof fn lemma_fold_is_injective(a: u32, a_extended: bool, b: u32, b_extended: bool)
    requires
        a < 0x8000_0000,
        b < 0x8000_0000,
        fold_key_spec(a, a_extended) == fold_key_spec(b, b_extended),
    ensures
        a == b,
        a_extended == b_extended,
{
    assert(a < 0x8000_0000u32 && b < 0x8000_0000u32 ==> a != (b | 0x8000_0000u32) && b != (a
        | 0x8000_0000u32) && ((a | 0x8000_0000u32) == (b | 0x8000_0000u32) ==> a == b))
        by (bit_vector);
}

/// Two well-formed frames with one key have one identifier, in one
/// identifier space.
pub proof fn lemma_key_tells_frames_apart(a: CanFrame, b: CanFrame)
    requires
        a.well_formed(),
        b.well_formed(),
        fold_key_spec(a.id, a.ide) == fold_key_spec(b.id, b.ide),
    ensures
        a.id == b.id,
        a.ide == b.ide,
{
    lemma_fold_is_injective(a.id, a.ide, b.id, b.ide);
}

#[derive(Clone, Copy, Debug, PartialEq, Eq, Structural)]
pub enum LookupError {
    /// A field of a stream message is mapped to no object entry.
    UnmappedStreamField,
    UnknownNode,
    UnknownObjectEntry,
}

/// The place in the arena of the object entry that a stream field names.
pub open spec fn resolve_spec(network: &NetworkObject, target: &Option<EntryRef>) -> Result<
    usize,
    LookupError,
> {
    match target {
        None => Err(LookupError::UnmappedStreamField),
        Some(named) => match find_node(network.nodes@, named.node@, 0) {
            None => Err(LookupError::UnknownNode),
            Some(node) => match find_entry(
                network.entries@,
                network.nodes@[node].object_entries@,
                named.entry@,
                0,
            ) {
                None => Err(LookupError::UnknownObjectEntry),
                Some(id) => Ok(id),
            },
        },
    }
}

/// The places of the first `n` targets, or what keeps the first of them that
/// cannot be found from being found.
pub open spec fn resolve_mapping_spec(
    network: &NetworkObject,
    targets: Seq<Option<EntryRef>>,
    n: nat,
) -> Result<Seq<usize>, LookupError>
    decreases n,
{
    if n == 0 || n > targets.len() {
        Ok(Seq::empty())
    } else {
        match resolve_mapping_spec(network, targets, (n - 1) as nat) {
            Err(e) => Err(e),
            Ok(ids) => match resolve_spec(network, &targets[n - 1]) {
                Err(e) => Err(e),
                Ok(id) => Ok(ids.push(id)),
            },
        }
    }
}

pub proof fn lemma_mapping_error_stays(
    network: &NetworkObject,
    targets: Seq<Option<EntryRef>>,
    n: nat,
    m: nat,
)
    requires
        n <= m <= targets.len(),
        resolve_mapping_spec(network, targets, n).is_err(),
    ensures
        resolve_mapping_spec(network, targets, m) == resolve_mapping_spec(network, targets, n),
    decreases m,
{
    if n < m {
        lemma_mapping_error_stays(network, targets, n, (m - 1) as nat);
    }
}

pub fn resolve(network: &NetworkObject, target: &Option<EntryRef>) -> (r: Result<
    usize,
    LookupError,
>)
    ensures
        r == resolve_spec(network, target),
{
    match target {
        None => Err(LookupError::UnmappedStreamField),
        Some(named) => match network.find_node_index(&named.node) {
            None => Err(LookupError::UnknownNode),
            Some(node) => match network.find_entry_id(node, &named.entry) {
                None => Err(LookupError::UnknownObjectEntry),
                Some(id) => Ok(id),
            },
        },
    }
}

pub fn resolve_mapping(network: &NetworkObject, targets: &Vec<Option<EntryRef>>) -> (r: Result<
    Vec<usize>,
    LookupError,
>)
    ensures
        match r {
            Ok(ids) => resolve_mapping_spec(network, targets@, targets@.len()) == Ok::<
                Seq<usize>,
                LookupError,
            >(ids@),
            Err(e) => resolve_mapping_spec(network, targets@, targets@.len()) == Err::<
                Seq<usize>,
                LookupError,
            >(e),
        },
{
    let mut ids: Vec<usize> = Vec::new();
    let mut i: usize = 0;
    while i < targets.len()
        invariant
            i <= targets@.len(),
            resolve_mapping_spec(network, targets@, i as nat) == Ok::<Seq<usize>, LookupError>(
                ids@,
            ),
        decreases targets@.len() - i,
    {
        match resolve(network, &targets[i]) {
            Ok(id) => {
                ids.push(id);
            },
            Err(e) => {
                proof {
                    lemma_mapping_error_stays(
                        network,
                        targets@,
                        (i + 1) as nat,
                        targets@.len(),
                    );
                }
                return Err(e);
            },
        }
        i += 1;
    }
    Ok(ids)
}

/// Messages of these purposes have a handler; requests, heartbeats and
/// external messages have none.
pub open spec fn has_handler(usage: &MessageUsage) -> bool {
    match usage {
        MessageUsage::Stream(_) => true,
        MessageUsage::GetResp => true,
        MessageUsage::SetResp => true,
        MessageUsage::CommandResp => true,
        _ => false,
    }
}

/// What keeps a message from getting its handler, if anything does.
pub open spec fn mapping_error(message: &Message, network: &NetworkObject) -> Option<LookupError> {
    match message.usage {
        MessageUsage::Stream(targets) => match resolve_mapping_spec(
            network,
            targets@,
            targets@.len(),
        ) {
            Err(e) => Some(e),
            Ok(_) => None,
        },
        _ => None,
    }
}

/// `handler` is the handler of `message`: of the kind of the message's
/// purpose, with the message in its parser and, for a stream, the places of
/// the entries that the fields are mapped to.
pub open spec fn serves(handler: &MessageHandler, message: &Message, network: &NetworkObject) -> bool {
    match message.usage {
        MessageUsage::Stream(targets) => match handler {
            MessageHandler::StreamFrameHandler(h) => h.parser.message == *message
                && resolve_mapping_spec(network, targets@, targets@.len()) == Ok::<
                Seq<usize>,
                LookupError,
            >(h.mapping@),
            _ => false,
        },
        MessageUsage::GetResp => match handler {
            MessageHandler::GetRespFrameHandler(h) => h.parser.message == *message,
            _ => false,
        },
        MessageUsage::SetResp => match handler {
            MessageHandler::SetRespFrameHandler(h) => h.parser.message == *message,
            _ => false,
        },
        MessageUsage::CommandResp => match handler {
            MessageHandler::CommandRespFrameHandler(h) => h.parser.message == *message,
            _ => false,
        },
        _ => false,
    }
}

/// The last of the first `n` messages that has a handler and the key `key`.
pub open spec fn last_handled(messages: Seq<Message>, key: u32, n: nat) -> Option<int>
    decreases n,
{
    if n == 0 || n > messages.len() {
        None
    } else if has_handler(&messages[n - 1].usage) && message_key(messages[n - 1].id) == key {
        Some(n - 1)
    } else {
        last_handled(messages, key, (n - 1) as nat)
    }
}

pub proof fn lemma_last_handled(messages: Seq<Message>, key: u32, n: nat)
    requires
        n <= messages.len(),
    ensures
        match last_handled(messages, key, n) {
            Some(i) => {
                &&& 0 <= i < n
                &&& has_handler(&messages[i].usage)
                &&& message_key(messages[i].id) == key
                &&& forall|j: int|
                    i < j < n ==> !(has_handler(&(#[trigger] messages[j]).usage) && message_key(
                        messages[j].id,
                    ) == key)
            },
            None => forall|j: int|
                0 <= j < n ==> !(has_handler(&(#[trigger] messages[j]).usage) && message_key(
                    messages[j].id,
                ) == key),
        },
    decreases n,
{
    if n > 0 {
        lemma_last_handled(messages, key, (n - 1) as nat);
    }
}

/// The table holds for `key` what the messages from `from` on ask for: the
/// handler of the last message with that key that has one.
pub open spec fn entry_settled(
    table: Map<u32, MessageHandler>,
    messages: Seq<Message>,
    network: &NetworkObject,
    key: u32,
    from: int,
) -> bool {
    match last_handled(messages, key, messages.len()) {
        Some(i) => if i >= from {
            table.contains_key(key) && serves(&table[key], &messages[i], network)
        } else {
            !table.contains_key(key)
        },
        None => !table.contains_key(key),
    }
}

/// Message `i` is the last that cannot get its handler, and `e` is what
/// keeps it from getting one.
pub open spec fn last_refused(
    messages: Seq<Message>,
    network: &NetworkObject,
    i: int,
    e: LookupError,
) -> bool {
    &&& 0 <= i < messages.len()
    &&& mapping_error(&messages[i], network) == Some(e)
    &&& forall|j: int|
        i < j < messages.len() ==> mapping_error(&(#[trigger] messages[j]), network).is_none()
}

#[derive(Clone, Copy, PartialEq, Eq, Structural)]
enum Role {
    Stream,
    GetResp,
    SetResp,
    CommandResp,
}

fn make_handler(message: Message, mapping: Vec<usize>) -> (handler: MessageHandler)
    requires
        has_handler(&message.usage),
    ensures
        handler.parser_spec().message == message,
        match message.usage {
            MessageUsage::Stream(_) => handler matches MessageHandler::StreamFrameHandler(h)
                && h.mapping == mapping,
            MessageUsage::GetResp => handler is GetRespFrameHandler,
            MessageUsage::SetResp => handler is SetRespFrameHandler,
            _ => handler is CommandRespFrameHandler,
        },
{
    let role = match &message.usage {
        MessageUsage::Stream(_) => Role::Stream,
        MessageUsage::GetResp => Role::GetResp,
        MessageUsage::SetResp => Role::SetResp,
        _ => Role::CommandResp,
    };
    let parser = TypeFrameParser::new(message);
    match role {
        Role::Stream => MessageHandler::StreamFrameHandler(
            StreamFrameHandler::create_mapped(parser, mapping),
        ),
        Role::GetResp => MessageHandler::GetRespFrameHandler(GetRespFrameHandler::create(parser)),
        Role::SetResp => MessageHandler::SetRespFrameHandler(SetRespFrameHandler::create(parser)),
        Role::CommandResp => MessageHandler::CommandRespFrameHandler(
            CommandRespFrameHandler::create(parser),
        ),
    }
}

/// The handlers of all messages, by key.
pub struct HandlerLookup(pub HashMap<u32, MessageHandler>);

impl HandlerLookup {
    /// Builds the table from the messages of the network. Every field of
    /// every stream message must name an object entry of the model.
    #[verifier::loop_isolation(false)]
    pub fn create(messages: Vec<Message>, network: &NetworkObject) -> (r: Result<
        Self,
        LookupError,
    >)
        ensures
            r.is_ok() <==> forall|i: int|
                0 <= i < messages@.len() ==> mapping_error(
                    &(#[trigger] messages@[i]),
                    network,
                ).is_none(),
            match r {
                Ok(lookup) => forall|key: u32| #[trigger]
                    entry_settled(lookup.0@, messages@, network, key, 0),
                Err(e) => exists|i: int| #[trigger] last_refused(messages@, network, i, e),
            },
    {
        broadcast use vstd::std_specs::hash::group_hash_axioms;

        // The messages are taken from the end, so the handler that a key
        // gets first is that of the last message with the key.
        let ghost all = messages@;
        let mut rest = messages;
        let mut table: HashMap<u32, MessageHandler> = HashMap::new();
        let mut i: usize = rest.len();
        assert forall|key: u32| #[trigger] entry_settled(table@, all, network, key, i as int) by {
            lemma_last_handled(all, key, all.len());
        }
        while i > 0
            invariant
                i == rest@.len(),
                i <= all.len(),
                rest@ == all.subrange(0, i as int),
                forall|j: int|
                    i <= j < all.len() ==> mapping_error(&(#[trigger] all[j]), network).is_none(),
                forall|key: u32| #[trigger] entry_settled(table@, all, network, key, i as int),
            decreases i,
        {
            let message = rest.pop().unwrap();
            i = i - 1;
            assert(message == all[i as int]);
            let key = key_of(&message.id);
            let handled = match &message.usage {
                MessageUsage::Stream(_) => true,
                MessageUsage::GetResp => true,
                MessageUsage::SetResp => true,
                MessageUsage::CommandResp => true,
                _ => false,
            };
            let mapping = match &message.usage {
                MessageUsage::Stream(targets) => match resolve_mapping(network, targets) {
                    Ok(ids) => ids,
                    Err(e) => {
                        assert(last_refused(all, network, i as int, e));
                        return Err(e);
                    },
                },
                _ => Vec::new(),
            };
            let ghost before = table@;
            if handled && !table.contains_key(&key) {
                let handler = make_handler(message, mapping);
                table.insert(key, handler);
                assert(serves(&table@[key], &all[i as int], network));
            }
            assert forall|k: u32| #[trigger] entry_settled(table@, all, network, k, i as int) by {
                lemma_last_handled(all, k, all.len());
                assert(entry_settled(before, all, network, k, i + 1));
            }
        }
        Ok(HandlerLookup(table))
    }

    pub fn get_handler(&self, key: u32) -> (handler: Option<&MessageHandler>)
        ensures
            match handler {
                Some(h) => self.0@.contains_key(key) && *h == self.0@[key],
                None => !self.0@.contains_key(key),
            },
    {
        broadcast use vstd::std_specs::hash::group_hash_axioms;

        self.0.get(&key)
    }
}

/// How the values of the model stand after `handler` answered `answer` to
/// the frame: a stream has had its effect, and no other handler changes
/// anything.
pub open spec fn model_after(
    handler: &MessageHandler,
    can_frame: &Timestamped<CanFrame>,
    answer: &Result<Timestamped<Frame>, Error>,
    before: Seq<Option<EntryValue>>,
    after: Seq<Option<EntryValue>>,
) -> bool {
    match handler {
        MessageHandler::StreamFrameHandler(h) => stream_effect(
            h,
            can_frame,
            answer.is_ok(),
            before,
            after,
        ),
        _ => after == before,
    }
}

/// The entries that a handler may write: those of a stream's mapping.
pub open spec fn may_write(handler: &MessageHandler, id: usize) -> bool {
    match handler {
        MessageHandler::StreamFrameHandler(h) => h.mapping@.contains(id),
        _ => false,
    }
}

/// Receives one frame: finds the handler by the frame's key, lets it decode
/// the frame, and applies a stream to the model. A frame without a handler
/// is ignored.
pub fn receive(
    lookup: &HandlerLookup,
    network: &mut NetworkObject,
    can_frame: &Timestamped<CanFrame>,
) -> (r: Option<Result<Timestamped<Frame>, Error>>)
    ensures
        final(network).baudrate == old(network).baudrate,
        final(network).nodes == old(network).nodes,
        final(network).entries == old(network).entries,
        final(network).values@.len() == old(network).values@.len(),
        ({
            let key = fold_key_spec(can_frame.value.id, can_frame.value.ide);
            match r {
                None => !lookup.0@.contains_key(key) && final(network).values@ == old(
                    network,
                ).values@,
                Some(answer) => {
                    &&& lookup.0@.contains_key(key)
                    &&& handled_as(
                        &lookup.0@[key].parser_spec().message,
                        can_frame,
                        lookup.0@[key].rejection(),
                        answer,
                    )
                    &&& model_after(
                        &lookup.0@[key],
                        can_frame,
                        &answer,
                        old(network).values@,
                        final(network).values@,
                    )
                    &&& forall|id: int|
                        0 <= id < old(network).values@.len() && !may_write(
                            &lookup.0@[key],
                            id as usize,
                        ) ==> final(network).values@[id] == #[trigger] old(network).values@[id]
                },
            }
        }),
{
    let key = fold_key(can_frame.value.id, can_frame.value.ide);
    match lookup.get_handler(key) {
        None => None,
        Some(handler) => match handler {
            MessageHandler::StreamFrameHandler(h) => Some(h.apply(network, can_frame)),
            _ => Some(handler.handle(can_frame)),
        },
    }
}

/// The receiving end of one adapter.
#[derive(Clone, Copy, Debug, PartialEq, Eq, Structural)]
pub struct CanReceiver {
    pub adapter: usize,
}

/// The receiving side: one receiver for each adapter, and the table of
/// handlers that they share.
pub struct RxCom {
    pub can_receivers: Vec<CanReceiver>,
    pub lookup: HandlerLookup,
}

impl RxCom {
    /// One receiver for each of the `adapters` adapters, over the table of
    /// the messages' handlers.
    pub fn create(messages: Vec<Message>, network: &NetworkObject, adapters: usize) -> (r: Result<
        Self,
        LookupError,
    >)
        ensures
            r.is_ok() <==> forall|i: int|
                0 <= i < messages@.len() ==> mapping_error(
                    &(#[trigger] messages@[i]),
                    network,
                ).is_none(),
            match r {
                Ok(rx) => {
                    &&& rx.can_receivers@.len() == adapters
                    &&& forall|i: int|
                        0 <= i < adapters ==> (#[trigger] rx.can_receivers@[i]).adapter == i
                    &&& forall|key: u32| #[trigger]
                        entry_settled(rx.lookup.0@, messages@, network, key, 0)
                },
                Err(e) => exists|i: int| #[trigger] last_refused(messages@, network, i, e),
            },
    {
        let lookup = match HandlerLookup::create(messages, network) {
            Ok(lookup) => lookup,
            Err(e) => {
                return Err(e);
            },
        };
        let mut can_receivers: Vec<CanReceiver> = Vec::new();
        let mut i: usize = 0;
        while i < adapters
            invariant
                i <= adapters,
                can_receivers@.len() == i,
                forall|j: int| 0 <= j < i ==> (#[trigger] can_receivers@[j]).adapter == j,
            decreases adapters - i,
        {
            can_receivers.push(CanReceiver { adapter: i });
            i += 1;
        }
        Ok(RxCom { can_receivers, lookup })
    }
}

} // verus!
