use cnl::layer::{ConnectionStatus, CNL};
use cnl::codec::{CodecError, Frame, TypeFrameParser};
use cnl::frame::{CanFrame, FrameType, TypeValue};
use cnl::handler::{
    accept_decoded, CommandRespFrameHandler, Error, GetRespFrameHandler, MessageHandler,
    SetRespFrameHandler, StreamFrameHandler, Timestamped,
};
use cnl::network::{
    nodes_in_arena, CommandObject, NetworkError, NetworkObject, NodeObject, ObjectEntryObject,
};
use cnl::rx::{
    fold_key, key_of, receive, resolve, resolve_mapping, HandlerLookup, LookupError, RxCom,
};
use cnl::schema::{Attribute, EntryRef, EnumEntry, Message, MessageId, MessageUsage, Type};

fn attr(name: &str, ty: Type) -> Attribute {
    Attribute { name: name.to_string(), ty }
}

fn flag() -> Type {
    Type::Enum {
        name: "flag".to_string(),
        size: 1,
        entries: vec![EnumEntry { name: "ON".to_string(), value: 1 }],
    }
}

fn message(id: MessageId, usage: MessageUsage, fields: Vec<Attribute>) -> Message {
    Message { id, bus: 0, name: "m".to_string(), description: None, usage, fields }
}

fn target(node: &str, entry: &str) -> Option<EntryRef> {
    Some(EntryRef { node: node.to_string(), entry: entry.to_string() })
}

fn object_entry(name: &str, node: usize) -> ObjectEntryObject {
    ObjectEntryObject {
        name: name.to_string(),
        description: None,
        id: 0,
        unit: None,
        ty: Type::Unsigned { size: 8 },
        node,
    }
}

fn network() -> NetworkObject {
    NetworkObject::new(
        1_000_000,
        vec![
            NodeObject {
                name: "motor".to_string(),
                description: None,
                id: 1,
                object_entries: vec![0, 1],
                commands: vec![CommandObject { name: "stop".to_string(), description: None }],
            },
            NodeObject {
                name: "sensor".to_string(),
                description: None,
                id: 2,
                object_entries: vec![2, 3],
                commands: vec![],
            },
        ],
        vec![
            object_entry("speed", 0),
            object_entry("torque", 0),
            object_entry("speed", 1),
            object_entry("temp", 1),
        ],
    )
    .unwrap()
}

fn stream(id: u32) -> Message {
    message(
        MessageId::StandardId(id),
        MessageUsage::Stream(vec![target("motor", "torque"), target("sensor", "temp")]),
        vec![attr("a", Type::Unsigned { size: 8 }), attr("b", Type::Unsigned { size: 8 })],
    )
}

fn stamped(timestamp: u64, id: u32, ide: bool, data: u64) -> Timestamped<CanFrame> {
    Timestamped::new(timestamp, CanFrame { id, ide, rtr: false, dlc: 8, data })
}

fn unsigned_at(network: &NetworkObject, id: usize) -> Option<(u64, u64)> {
    network.value_of(id).map(|held| match &held.value {
        TypeValue::Unsigned(v) => (held.timestamp, *v),
        other => panic!("{:?}", other),
    })
}

#[test]
fn fold_keeps_standard_and_sets_top_bit_for_extended() {
    assert_eq!(fold_key(0x123, false), 0x123);
    assert_eq!(fold_key(0x123, true), 0x8000_0123);
    assert_eq!(fold_key(0, true), 0x8000_0000);
    assert_eq!(fold_key(0x1fff_ffff, true), 0x9fff_ffff);
    assert_eq!(key_of(&MessageId::StandardId(0x7ff)), 0x7ff);
    assert_eq!(key_of(&MessageId::ExtendedId(0x7ff)), 0x8000_07ff);
}

#[test]
fn equal_numbers_of_the_two_spaces_get_different_keys() {
    for id in [0u32, 1, 0x123, 0x7ff] {
        assert_ne!(fold_key(id, false), fold_key(id, true));
    }
    for standard in [0u32, 0x7ff] {
        for extended in [0u32, 0x7ff, 0x1fff_ffff] {
            assert_ne!(fold_key(standard, false), fold_key(extended, true));
        }
    }
}

#[test]
fn handlers_keep_the_time_of_the_frame() {
    let parser = || {
        TypeFrameParser::new(message(
            MessageId::StandardId(7),
            MessageUsage::SetResp,
            vec![attr("a", Type::Unsigned { size: 8 })],
        ))
    };
    let frame = stamped(4242, 7, false, 0x55);
    let answer = SetRespFrameHandler::create(parser()).handle(&frame).unwrap();
    assert_eq!(answer.timestamp(), 4242);
    assert!(matches!(answer.value(), Frame::TypeFrame(d) if d.data() == 0x55));
    assert_eq!(GetRespFrameHandler::create(parser()).handle(&frame).unwrap().timestamp, 4242);
    assert_eq!(CommandRespFrameHandler::create(parser()).handle(&frame).unwrap().timestamp, 4242);
    assert_eq!(StreamFrameHandler::create(parser()).handle(&frame).unwrap().timestamp, 4242);
}

#[test]
fn handlers_reject_what_is_not_decoded() {
    let parser = || {
        TypeFrameParser::new(message(
            MessageId::StandardId(7),
            MessageUsage::SetResp,
            vec![attr("a", flag())],
        ))
    };
    let other = stamped(1, 8, false, 1);
    assert!(matches!(
        SetRespFrameHandler::create(parser()).handle(&other),
        Err(Error::InvalidSetResponseFormat)
    ));
    assert!(matches!(
        CommandRespFrameHandler::create(parser()).handle(&other),
        Err(Error::InvalidCommandMessageFormat)
    ));
    assert!(matches!(
        GetRespFrameHandler::create(parser()).handle(&other),
        Err(Error::InvalidGetResponseFormat)
    ));
    assert!(matches!(
        StreamFrameHandler::create(parser()).handle(&other),
        Err(Error::InvalidStreamFormat)
    ));
    let malformed = stamped(1, 7, false, 0);
    assert!(matches!(
        SetRespFrameHandler::create(parser()).handle(&malformed),
        Err(Error::Codec(CodecError::EnumValueOutOfRange))
    ));
    assert!(matches!(
        MessageHandler::CommandRespFrameHandler(CommandRespFrameHandler::create(parser()))
            .handle(&malformed),
        Err(Error::Codec(CodecError::EnumValueOutOfRange))
    ));
}

#[test]
fn accept_decoded_tells_the_three_outcomes() {
    let raw = CanFrame { id: 1, ide: false, rtr: false, dlc: 0, data: 0 };
    assert!(matches!(
        accept_decoded(Ok(Frame::UndefinedFrame(raw)), 5, Error::InvalidSetResponseFormat),
        Err(Error::InvalidSetResponseFormat)
    ));
    assert!(matches!(
        accept_decoded(Err(CodecError::LayoutTooWide), 5, Error::InvalidSetResponseFormat),
        Err(Error::Codec(CodecError::LayoutTooWide))
    ));
}

#[test]
fn names_are_resolved_to_places() {
    let network = network();
    assert_eq!(resolve(&network, &target("motor", "speed")), Ok(0));
    assert_eq!(resolve(&network, &target("sensor", "speed")), Ok(2));
    assert_eq!(resolve(&network, &target("sensor", "temp")), Ok(3));
    assert_eq!(resolve(&network, &None), Err(LookupError::UnmappedStreamField));
    assert_eq!(resolve(&network, &target("pump", "speed")), Err(LookupError::UnknownNode));
    assert_eq!(resolve(&network, &target("motor", "temp")), Err(LookupError::UnknownObjectEntry));
    assert_eq!(
        resolve_mapping(&network, &vec![target("sensor", "temp"), target("motor", "speed")]),
        Ok(vec![3, 0])
    );
    assert_eq!(
        resolve_mapping(&network, &vec![target("sensor", "temp"), None, target("x", "y")]),
        Err(LookupError::UnmappedStreamField)
    );
}

#[test]
fn lookup_has_entries_for_handled_roles_only() {
    let network = network();
    let field = || vec![attr("a", Type::Unsigned { size: 8 })];
    let messages = vec![
        stream(1),
        message(MessageId::StandardId(2), MessageUsage::GetResp, field()),
        message(MessageId::StandardId(3), MessageUsage::SetResp, field()),
        message(MessageId::StandardId(4), MessageUsage::CommandResp, field()),
        message(MessageId::StandardId(5), MessageUsage::GetReq, field()),
        message(MessageId::StandardId(6), MessageUsage::SetReq, field()),
        message(MessageId::StandardId(7), MessageUsage::Heartbeat, field()),
        message(MessageId::StandardId(8), MessageUsage::External, field()),
        message(MessageId::StandardId(9), MessageUsage::CommandReq, field()),
        message(MessageId::ExtendedId(2), MessageUsage::SetResp, field()),
    ];
    let lookup = HandlerLookup::create(messages, &network).unwrap();
    assert!(matches!(
        lookup.get_handler(1),
        Some(MessageHandler::StreamFrameHandler(h)) if h.mapping == vec![1, 3]
    ));
    assert!(matches!(lookup.get_handler(2), Some(MessageHandler::GetRespFrameHandler(_))));
    assert!(matches!(lookup.get_handler(3), Some(MessageHandler::SetRespFrameHandler(_))));
    assert!(matches!(lookup.get_handler(4), Some(MessageHandler::CommandRespFrameHandler(_))));
    for key in 5..=9 {
        assert!(lookup.get_handler(key).is_none());
    }
    assert!(matches!(
        lookup.get_handler(0x8000_0002),
        Some(MessageHandler::SetRespFrameHandler(_))
    ));
    assert!(lookup.get_handler(0x8000_0003).is_none());
}

#[test]
fn the_last_message_of_a_key_wins() {
    let network = network();
    let field = || vec![attr("a", Type::Unsigned { size: 8 })];
    let messages = vec![
        message(MessageId::StandardId(2), MessageUsage::GetResp, field()),
        message(MessageId::StandardId(2), MessageUsage::SetResp, field()),
        message(MessageId::StandardId(2), MessageUsage::Heartbeat, field()),
    ];
    let lookup = HandlerLookup::create(messages, &network).unwrap();
    assert!(matches!(lookup.get_handler(2), Some(MessageHandler::SetRespFrameHandler(_))));
}

#[test]
fn lookup_refuses_a_stream_that_names_nothing() {
    let network = network();
    let unmapped = message(
        MessageId::StandardId(1),
        MessageUsage::Stream(vec![None]),
        vec![attr("a", Type::Unsigned { size: 8 })],
    );
    assert!(matches!(
        HandlerLookup::create(vec![unmapped], &network),
        Err(LookupError::UnmappedStreamField)
    ));
    let no_node = message(MessageId::StandardId(1), MessageUsage::Stream(vec![target("x", "y")]), vec![]);
    assert!(matches!(
        HandlerLookup::create(vec![stream(3), no_node], &network),
        Err(LookupError::UnknownNode)
    ));
    let no_entry =
        message(MessageId::StandardId(1), MessageUsage::Stream(vec![target("motor", "y")]), vec![]);
    assert!(matches!(
        RxCom::create(vec![no_entry], &network, 1),
        Err(LookupError::UnknownObjectEntry)
    ));
}

#[test]
fn a_stream_updates_its_mapping_and_nothing_else() {
    let mut network = network();
    network.set_value(0, TypeValue::Unsigned(11), 1);
    network.set_value(1, TypeValue::Unsigned(22), 1);
    network.set_value(9, TypeValue::Unsigned(99), 1);
    let lookup = HandlerLookup::create(vec![stream(0x10)], &network).unwrap();
    let answer = receive(&lookup, &mut network, &stamped(77, 0x10, false, 0xbbaa));
    let answer = answer.unwrap().unwrap();
    assert_eq!(answer.timestamp, 77);
    assert_eq!(unsigned_at(&network, 0), Some((1, 11)));
    assert_eq!(unsigned_at(&network, 1), Some((77, 0xaa)));
    assert_eq!(unsigned_at(&network, 2), None);
    assert_eq!(unsigned_at(&network, 3), Some((77, 0xbb)));
    assert_eq!(network.values.len(), 4);
}

#[test]
fn an_unmatched_frame_is_ignored() {
    let mut network = network();
    let lookup = HandlerLookup::create(vec![stream(0x10)], &network).unwrap();
    assert!(receive(&lookup, &mut network, &stamped(1, 0x11, false, 0xbbaa)).is_none());
    assert!(receive(&lookup, &mut network, &stamped(1, 0x10, true, 0xbbaa)).is_none());
    assert!(network.values.iter().all(|v| v.is_none()));
}

#[test]
fn a_bad_frame_changes_nothing_and_the_next_is_handled() {
    let mut network = network();
    let bad = message(
        MessageId::StandardId(0x10),
        MessageUsage::Stream(vec![target("motor", "speed"), target("motor", "torque")]),
        vec![attr("a", Type::Unsigned { size: 8 }), attr("f", flag())],
    );
    let lookup = HandlerLookup::create(vec![bad], &network).unwrap();
    let answer = receive(&lookup, &mut network, &stamped(1, 0x10, false, 0x0aa));
    assert!(matches!(answer, Some(Err(Error::Codec(CodecError::EnumValueOutOfRange)))));
    assert!(network.values.iter().all(|v| v.is_none()));
    let answer = receive(&lookup, &mut network, &stamped(2, 0x10, false, 0x1aa));
    assert!(matches!(answer, Some(Ok(_))));
    assert_eq!(unsigned_at(&network, 0), Some((2, 0xaa)));
}

#[test]
fn the_earlier_field_stays_where_two_share_an_entry() {
    let mut network = network();
    let fields = vec![
        FrameType::new("a".to_string(), TypeValue::Unsigned(1)),
        FrameType::new("b".to_string(), TypeValue::Unsigned(2)),
        FrameType::new("c".to_string(), TypeValue::Unsigned(3)),
        FrameType::new("d".to_string(), TypeValue::Unsigned(4)),
    ];
    network.apply_stream(&vec![2, 2, 17], fields, 5);
    assert_eq!(unsigned_at(&network, 2), Some((5, 1)));
    assert_eq!(unsigned_at(&network, 0), None);
    assert_eq!(network.values.len(), 4);
}

#[test]
fn the_layer_traces_what_it_handles() {
    let mut cnl = CNL::create(vec![stream(0x10)], network(), 2).unwrap();
    assert_eq!(cnl.connection_object().status(), ConnectionStatus::CanConnected);
    assert_eq!(cnl.nodes().len(), 2);
    assert_eq!(cnl.rx.can_receivers.len(), 2);
    assert_eq!(cnl.rx.can_receivers[1].adapter, 1);
    assert!(cnl.trace().answers.is_empty());
    assert!(!cnl.on_frame(&stamped(1, 0x11, false, 0)));
    assert!(cnl.trace().answers.is_empty());
    assert!(cnl.on_frame(&stamped(9, 0x10, false, 0x0102)));
    assert_eq!(cnl.trace().answers.len(), 1);
    assert!(matches!(&cnl.trace().answers[0], Ok(t) if t.timestamp == 9));
    assert_eq!(unsigned_at(&cnl.network, 1), Some((9, 2)));
}

#[test]
fn the_error_of_the_last_refused_message_is_reported() {
    let network = network();
    let no_node = || {
        message(MessageId::StandardId(1), MessageUsage::Stream(vec![target("x", "y")]), vec![])
    };
    let unmapped = || message(MessageId::StandardId(2), MessageUsage::Stream(vec![None]), vec![]);
    assert!(matches!(
        HandlerLookup::create(vec![no_node(), unmapped(), stream(3)], &network),
        Err(LookupError::UnmappedStreamField)
    ));
    assert!(matches!(
        HandlerLookup::create(vec![unmapped(), no_node()], &network),
        Err(LookupError::UnknownNode)
    ));
}

#[test]
fn a_seventeenth_frame_waits_for_room() {
    let (tx, mut rx) = tokio::sync::mpsc::channel::<CanFrame>(cnl::can_adapter::QUEUE_DEPTH);
    for n in 0..16 {
        let frame = CanFrame { id: n, ide: false, rtr: false, dlc: 0, data: 0 };
        assert!(tx.try_send(frame).is_ok());
    }
    let late = CanFrame { id: 16, ide: false, rtr: false, dlc: 0, data: 0 };
    assert!(matches!(
        tx.try_send(late),
        Err(tokio::sync::mpsc::error::TrySendError::Full(f)) if f == late
    ));
    assert_eq!(rx.try_recv().map(|f| f.id), Ok(0));
    assert!(tx.try_send(late).is_ok());
    assert!(tx.try_send(late).is_err());
}

#[test]
fn a_new_network_has_a_place_for_each_value() {
    let network = network();
    assert_eq!(network.baudrate(), 1_000_000);
    assert_eq!(network.values.len(), network.entries.len());
    assert!(network.values.iter().all(|v| v.is_none()));
    assert!(network.value_of(0).is_none());
    assert!(network.value_of(4).is_none());
    assert_eq!(network.find_node_index(&"sensor".to_string()), Some(1));
    assert_eq!(network.find_node_index(&"pump".to_string()), None);
    assert_eq!(network.find_entry_id(1, &"speed".to_string()), Some(2));
    assert_eq!(network.find_entry_id(1, &"torque".to_string()), None);
    assert_eq!(network.find_entry_id(2, &"speed".to_string()), None);
}

#[test]
fn frames_have_bounded_identifiers_and_lengths() {
    let frame = CanFrame { id: 0x7ff, ide: false, rtr: false, dlc: 8, data: 0 };
    assert!(frame.is_well_formed());
    assert!(!CanFrame { id: 0x800, ..frame }.is_well_formed());
    assert!(CanFrame { id: 0x1fff_ffff, ide: true, ..frame }.is_well_formed());
    assert!(!CanFrame { id: 0x2000_0000, ide: true, ..frame }.is_well_formed());
    assert!(!CanFrame { dlc: 9, ..frame }.is_well_formed());
}

#[test]
fn a_stream_handler_writes_what_it_decodes() {
    let mut network = network();
    let handler = StreamFrameHandler::create_mapped(TypeFrameParser::new(stream(0x10)), vec![3, 0]);
    let answer = handler.apply(&mut network, &stamped(8, 0x10, false, 0x0201)).unwrap();
    assert_eq!(answer.timestamp(), 8);
    assert_eq!(unsigned_at(&network, 3), Some((8, 1)));
    assert_eq!(unsigned_at(&network, 0), Some((8, 2)));
    assert_eq!(unsigned_at(&network, 1), None);
    assert_eq!(unsigned_at(&network, 2), None);
    assert!(matches!(
        handler.apply(&mut network, &stamped(9, 0x11, false, 0x0403)),
        Err(Error::InvalidStreamFormat)
    ));
    assert_eq!(unsigned_at(&network, 3), Some((8, 1)));
    assert_eq!(unsigned_at(&network, 0), Some((8, 2)));
    let unmapped = StreamFrameHandler::create(TypeFrameParser::new(stream(0x10)));
    assert!(unmapped.apply(&mut network, &stamped(10, 0x10, false, 0x0605)).is_ok());
    assert_eq!(unsigned_at(&network, 3), Some((8, 1)));
}

#[test]
fn an_entry_outside_the_arena_is_refused() {
    let node = |owned: Vec<usize>| NodeObject {
        name: "motor".to_string(),
        description: None,
        id: 1,
        object_entries: owned,
        commands: vec![],
    };
    assert!(nodes_in_arena(&vec![node(vec![0, 1]), node(vec![])], 2));
    assert!(!nodes_in_arena(&vec![node(vec![0]), node(vec![1, 2])], 2));
    assert!(nodes_in_arena(&vec![], 0));
    assert!(matches!(
        NetworkObject::new(1, vec![node(vec![0, 1])], vec![object_entry("speed", 0)]),
        Err(NetworkError::EntryOutsideArena)
    ));
    let mut network =
        NetworkObject::new(1, vec![node(vec![0])], vec![object_entry("speed", 0)]).unwrap();
    assert!(network.is_well_formed());
    network.nodes[0].object_entries.push(1);
    assert!(!network.is_well_formed());
    network.nodes[0].object_entries.pop();
    network.values.push(None);
    assert!(!network.is_well_formed());
}

#[test]
fn the_receivers_are_numbered_by_their_adapters() {
    let cnl = CNL::create(vec![], network(), 3).unwrap();
    let numbers: Vec<usize> = cnl.rx.can_receivers.iter().map(|r| r.adapter).collect();
    assert_eq!(numbers, vec![0, 1, 2]);
}
