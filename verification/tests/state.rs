use cnl::can_adapter::{received, received_error, route_inbound, CanError, Inbound, QUEUE_DEPTH};
use cnl::codec::CodecError;
use cnl::frame::{CanFrame, CompositeTypeValue, FrameType, RealValue, TypeFrame, TypeValue};
use cnl::handler::Timestamped;
use cnl::information::{
    command_information, network_information, node_information, object_entry_information,
    ObjectEntryType, QueryError,
};
use cnl::network::{CommandObject, NetworkObject, NodeObject, ObjectEntryObject};
use cnl::schema::{Attribute, EnumEntry, Message, MessageId, MessageUsage, Type};
use cnl::startup::{
    NetworkConfig, NetworkConnectionCreateInfo, NetworkDescription, Phase, StartupError,
    StartupState,
};
use cnl::tx::{encode_message, TxCom, TxError};
use cnl::wire::{flatten_value, AttributeValue, FlattenError};

fn config() -> NetworkConfig {
    NetworkConfig { baudrate: 500_000, buses: vec![], messages: vec![] }
}

fn tcp(timebase: u64) -> NetworkConnectionCreateInfo {
    NetworkConnectionCreateInfo::Tcp(NetworkDescription { address: "10.0.0.1:80".to_string(), timebase })
}

#[test]
fn a_new_state_holds_nothing() {
    let state = StartupState::new();
    assert_eq!(state.phase(), Phase::Unconfigured);
    assert!(state.network_configuration().is_none());
    assert!(state.connections.is_empty());
    assert!(state.established_connection.0.is_empty());
    assert!(state.established_connection.1.is_none());
}

#[test]
fn the_phases_follow_one_another() {
    let mut state = StartupState::new();
    state.set_network_config(config());
    assert_eq!(state.phase(), Phase::Configured);
    state.set_connections(vec![tcp(5)]);
    assert_eq!(state.phase(), Phase::CandidatesEnumerated);
    assert_eq!(state.try_connect(0, Some(vec![0]), 9), Ok(()));
    assert_eq!(state.phase(), Phase::Established);
}

#[test]
fn the_latest_configuration_and_candidates_are_held() {
    let mut state = StartupState::new();
    state.set_network_config(config());
    state.set_network_config(NetworkConfig { baudrate: 125_000, buses: vec![], messages: vec![] });
    assert_eq!(state.network_configuration().map(|c| c.baudrate), Some(125_000));
    state.set_connections(vec![tcp(1), tcp(2)]);
    state.set_connections(vec![NetworkConnectionCreateInfo::SocketCan]);
    assert_eq!(state.connections.len(), 1);
    assert!(matches!(state.select_connection(0), Ok(NetworkConnectionCreateInfo::SocketCan)));
}

#[test]
fn an_index_outside_the_candidates_changes_nothing() {
    let mut state = StartupState::new();
    state.set_network_config(config());
    state.set_connections(vec![tcp(100), NetworkConnectionCreateInfo::SocketCan]);
    assert_eq!(state.try_connect(0, Some(vec![4, 5]), 7), Ok(()));
    assert_eq!(state.try_connect(2, Some(vec![9]), 8), Err(StartupError::InvalidConnectionIndex));
    assert!(matches!(state.select_connection(2), Err(StartupError::InvalidConnectionIndex)));
    assert_eq!(state.established_connection, (vec![4, 5], Some(100)));
    assert_eq!(state.connections.len(), 2);
    assert_eq!(state.try_connect(1, Some(vec![6]), 9), Ok(()));
    assert_eq!(state.established_connection, (vec![6], Some(9)));
}

#[test]
fn a_failed_attempt_keeps_the_working_connection() {
    let mut state = StartupState::new();
    state.set_network_config(config());
    state.set_connections(vec![tcp(100)]);
    assert_eq!(state.try_connect(0, Some(vec![1]), 7), Ok(()));
    assert_eq!(state.try_connect(0, None, 8), Err(StartupError::ConnectionFailed));
    assert_eq!(state.established_connection, (vec![1], Some(100)));
}

#[test]
fn connecting_needs_a_configuration() {
    let mut state = StartupState::new();
    state.set_connections(vec![tcp(100)]);
    assert_eq!(state.try_connect(0, Some(vec![1]), 7), Err(StartupError::NoNetworkConfiguration));
    assert!(matches!(state.select_connection(0), Err(StartupError::NoNetworkConfiguration)));
    assert_eq!(state.try_connect(1, Some(vec![1]), 7), Err(StartupError::InvalidConnectionIndex));
    assert_eq!(state.established_connection, (vec![], None));
}

#[test]
fn setup_completes_only_with_configuration_and_connection() {
    let mut state = StartupState::new();
    assert_eq!(
        state.complete_setup().err().map(|e| e.message()),
        Some("Failed to complete setup. No network configuration avaiable".to_owned())
    );
    assert!(matches!(
        state.complete_setup(),
        Err(StartupError::SetupWithoutNetworkConfiguration)
    ));
    state.set_connections(vec![tcp(100)]);
    assert!(matches!(
        state.complete_setup(),
        Err(StartupError::SetupWithoutNetworkConfiguration)
    ));
    state.set_network_config(config());
    assert!(matches!(state.complete_setup(), Err(StartupError::NoEstablishedConnection)));
    assert_eq!(state.phase(), Phase::CandidatesEnumerated);
    assert_eq!(state.established_connection, (vec![], None));
    assert_eq!(state.try_connect(0, Some(vec![3]), 7), Ok(()));
    let parts = state.complete_setup().unwrap();
    assert_eq!(parts.adapters, &vec![3]);
    assert_eq!(parts.timebase, 100);
    assert_eq!(parts.network_config.baudrate, 500_000);
}

#[test]
fn startup_errors_in_words() {
    assert_eq!(
        StartupError::InvalidConnectionIndex.message(),
        "Fatal Error invalid connection index"
    );
    assert_eq!(
        StartupError::NoNetworkConfiguration.message(),
        "Failed to establish connection to server. No network configuration avaiable"
    );
    assert_eq!(StartupError::ConnectionFailed.message(), "Failed to establish connection to server");
    assert_eq!(
        StartupError::SetupWithoutNetworkConfiguration.message(),
        "Failed to complete setup. No network configuration avaiable"
    );
    assert_eq!(
        StartupError::NoEstablishedConnection.message(),
        "Failed to complete setup. No established connection avaiable"
    );
}

fn network() -> NetworkObject {
    let position = Type::Struct {
        name: "position".to_string(),
        attribs: vec![
            Attribute { name: "x".to_string(), ty: Type::Signed { size: 16 } },
            Attribute {
                name: "mode".to_string(),
                ty: Type::Enum {
                    name: "mode".to_string(),
                    size: 2,
                    entries: vec![
                        EnumEntry { name: "A".to_string(), value: 0 },
                        EnumEntry { name: "B".to_string(), value: 1 },
                    ],
                },
            },
            Attribute {
                name: "gain".to_string(),
                ty: Type::Decimal { size: 8, scale: 0, offset: 0 },
            },
        ],
    };
    NetworkObject {
        baudrate: 1_000_000,
        nodes: vec![
            NodeObject {
                name: "motor".to_string(),
                description: Some("drives".to_string()),
                id: 3,
                object_entries: vec![0, 1, 7],
                commands: vec![
                    CommandObject { name: "stop".to_string(), description: Some("halts".to_string()) },
                    CommandObject { name: "go".to_string(), description: None },
                ],
            },
            NodeObject {
                name: "sensor".to_string(),
                description: None,
                id: 4,
                object_entries: vec![],
                commands: vec![],
            },
        ],
        entries: vec![
            ObjectEntryObject {
                name: "position".to_string(),
                description: Some("where".to_string()),
                id: 0x1_0005,
                unit: Some("m".to_string()),
                ty: position,
                node: 0,
            },
            ObjectEntryObject {
                name: "count".to_string(),
                description: None,
                id: 6,
                unit: None,
                ty: Type::Array { len: 2, ty: Box::new(Type::Unsigned { size: 8 }) },
                node: 0,
            },
        ],
        values: vec![None, None],
    }
}

#[test]
fn summary_lists_the_nodes() {
    let information = network_information(&network());
    assert_eq!(information.baudrate, 1_000_000);
    assert_eq!(information.node_names, vec!["motor", "sensor"]);
}

#[test]
fn a_well_formed_network_leaves_no_entry_out() {
    let mut network = network();
    assert!(!network.is_well_formed());
    network.nodes[0].object_entries = vec![1, 0];
    assert!(network.is_well_formed());
    let information = node_information(&network, "motor".to_string()).unwrap();
    assert_eq!(information.object_entries, vec!["count", "position"]);
}

#[test]
fn node_detail_lists_entries_and_commands() {
    let information = node_information(&network(), "motor".to_string()).unwrap();
    assert_eq!(information.name, "motor");
    assert_eq!(information.description.as_deref(), Some("drives"));
    assert_eq!(information.id, 3);
    assert_eq!(information.object_entries, vec!["position", "count"]);
    assert_eq!(information.commands, vec!["stop", "go"]);
    assert!(matches!(
        node_information(&network(), "pump".to_string()),
        Err(QueryError::UnknownNode)
    ));
}

#[test]
fn object_entry_detail_describes_the_type() {
    let information =
        object_entry_information(&network(), "motor".to_string(), "position".to_string()).unwrap();
    assert_eq!(information.name, "position");
    assert_eq!(information.description.as_deref(), Some("where"));
    assert_eq!(information.id, 5);
    assert_eq!(information.unit.as_deref(), Some("m"));
    match information.ty {
        ObjectEntryType::Composite { name, attributes } => {
            assert_eq!(name, "position");
            assert_eq!(attributes.len(), 3);
            assert_eq!(attributes[0].0, "x");
            assert!(matches!(*attributes[0].1, ObjectEntryType::Int));
            assert_eq!(attributes[1].0, "mode");
            assert!(
                matches!(&*attributes[1].1, ObjectEntryType::Enum { entries } if *entries == vec!["A", "B"])
            );
            assert!(matches!(*attributes[2].1, ObjectEntryType::Real));
        },
        _ => panic!("not a composite"),
    }
    let information =
        object_entry_information(&network(), "motor".to_string(), "count".to_string()).unwrap();
    assert!(matches!(
        information.ty,
        ObjectEntryType::Array { len: 2, ty } if matches!(*ty, ObjectEntryType::Uint)
    ));
    assert!(matches!(
        object_entry_information(&network(), "pump".to_string(), "count".to_string()),
        Err(QueryError::UnknownNode)
    ));
    assert!(matches!(
        object_entry_information(&network(), "sensor".to_string(), "count".to_string()),
        Err(QueryError::UnknownObjectEntry)
    ));
}

#[test]
fn command_detail_finds_the_command() {
    let information =
        command_information(&network(), "motor".to_string(), "stop".to_string()).unwrap();
    assert_eq!(information.name, "stop");
    assert_eq!(information.description.as_deref(), Some("halts"));
    assert!(matches!(
        command_information(&network(), "motor".to_string(), "fly".to_string()),
        Err(QueryError::UnknownCommand)
    ));
    assert!(matches!(
        command_information(&network(), "pump".to_string(), "stop".to_string()),
        Err(QueryError::UnknownNode)
    ));
}

#[test]
fn query_errors_say_what_was_not_found() {
    assert_eq!(QueryError::UnknownNode.message("pump", ""), "node with name 'pump' doesn't exist");
    assert_eq!(
        QueryError::UnknownObjectEntry.message("motor", "temp"),
        "node 'motor' doesn't have a object entry with name 'temp'"
    );
    assert_eq!(
        QueryError::UnknownCommand.message("motor", "fly"),
        "node 'motor' doesn't have a command with name 'fly'"
    );
}

fn nested_frame() -> TypeFrame {
    let inner = CompositeTypeValue::new(
        vec![
            FrameType::new("x".to_string(), TypeValue::Signed(-3)),
            FrameType::new(
                "mode".to_string(),
                TypeValue::Enum("mode".to_string(), "B".to_string()),
            ),
        ],
        "inner".to_string(),
    );
    let outer = CompositeTypeValue::new(
        vec![
            FrameType::new("inner".to_string(), TypeValue::Composite(inner)),
            FrameType::new(
                "gain".to_string(),
                TypeValue::Real(RealValue { raw: 7, scale: 1, offset: 2 }),
            ),
        ],
        "outer".to_string(),
    );
    TypeFrame::new(
        1,
        false,
        false,
        8,
        vec![
            FrameType::new("count".to_string(), TypeValue::Unsigned(9)),
            FrameType::new("pos".to_string(), TypeValue::Composite(outer)),
        ],
        "m".to_string(),
        None,
        0,
    )
}

#[test]
fn nested_composites_flatten_to_dotted_paths() {
    let attributes = nested_frame().attributes().unwrap();
    let names: Vec<&str> = attributes.iter().map(|a| a.name.as_str()).collect();
    assert_eq!(names, vec!["count", "pos.inner.x", "pos.inner.mode", "pos.gain"]);
    assert!(matches!(attributes[0].value, AttributeValue::Unsigned(9)));
    assert!(matches!(attributes[1].value, AttributeValue::Signed(-3)));
    assert!(matches!(&attributes[2].value, AttributeValue::Symbol(s) if s == "B"));
    assert!(matches!(
        attributes[3].value,
        AttributeValue::Real(RealValue { raw: 7, scale: 1, offset: 2 })
    ));
}

#[test]
fn roots_and_arrays_have_no_flat_form() {
    let root = FrameType::new("r".to_string(), TypeValue::Root(vec![]));
    assert!(matches!(flatten_value("", &root), Err(FlattenError::NestedRoot)));
    let array = FrameType::new(
        "a".to_string(),
        TypeValue::Array(cnl::frame::ArrayTypeValue::new(vec![])),
    );
    assert!(matches!(flatten_value("p.", &array), Err(FlattenError::Array)));
    let leaf = FrameType::new("v".to_string(), TypeValue::Unsigned(1));
    assert_eq!(flatten_value("p.", &leaf).unwrap()[0].name, "p.v");
}

fn outgoing(id: MessageId, bus: usize) -> Message {
    Message {
        id,
        bus,
        name: "set".to_string(),
        description: None,
        usage: MessageUsage::SetReq,
        fields: vec![
            Attribute { name: "a".to_string(), ty: Type::Unsigned { size: 8 } },
            Attribute { name: "b".to_string(), ty: Type::Unsigned { size: 4 } },
        ],
    }
}

fn values(a: u64, b: u64) -> Vec<FrameType> {
    vec![
        FrameType::new("a".to_string(), TypeValue::Unsigned(a)),
        FrameType::new("b".to_string(), TypeValue::Unsigned(b)),
    ]
}

#[test]
fn outgoing_values_become_a_frame_of_the_message() {
    let frame = encode_message(&outgoing(MessageId::ExtendedId(0x1234), 0), &values(0xab, 0xc));
    assert_eq!(frame, Ok(CanFrame { id: 0x1234, ide: true, rtr: false, dlc: 2, data: 0xcab }));
    let frame = encode_message(&outgoing(MessageId::StandardId(0x12), 0), &values(1, 0));
    assert_eq!(frame, Ok(CanFrame { id: 0x12, ide: false, rtr: false, dlc: 2, data: 1 }));
    assert_eq!(
        encode_message(&outgoing(MessageId::StandardId(0x12), 0), &values(1, 16)),
        Err(CodecError::ValueOutOfRange)
    );
}

#[test]
fn outgoing_frames_go_to_the_adapter_of_the_bus() {
    let tx = TxCom::create(2);
    let routed = tx.route(&outgoing(MessageId::StandardId(0x12), 1), &values(1, 2));
    assert_eq!(
        routed,
        Ok((1, CanFrame { id: 0x12, ide: false, rtr: false, dlc: 2, data: 0x201 }))
    );
    assert_eq!(
        tx.route(&outgoing(MessageId::StandardId(0x12), 2), &values(1, 2)),
        Err(TxError::NoAdapter)
    );
    assert_eq!(
        tx.route(&outgoing(MessageId::StandardId(0x12), 0), &values(256, 2)),
        Err(TxError::Codec(CodecError::ValueOutOfRange))
    );
}

#[test]
fn the_inbound_loop_parts_frames_from_errors() {
    assert_eq!(QUEUE_DEPTH, 16);
    let frame = CanFrame { id: 1, ide: false, rtr: false, dlc: 1, data: 2 };
    assert!(matches!(
        route_inbound(Ok(frame), 10),
        Inbound::Frame(Timestamped { timestamp: 10, value }) if value == frame
    ));
    assert!(matches!(
        route_inbound(Err(CanError::Io(5)), 11),
        Inbound::Error(Timestamped { timestamp: 11, value: CanError::Io(5) })
    ));
}

#[test]
fn a_closed_queue_reads_as_a_disconnect_every_time() {
    let frame = CanFrame { id: 1, ide: false, rtr: false, dlc: 1, data: 2 };
    assert!(matches!(
        received(Some(Timestamped::new(3, frame)), 9),
        Ok(Timestamped { timestamp: 3, value }) if value == frame
    ));
    for now in [9u64, 10] {
        assert!(matches!(
            received(None, now),
            Err(Timestamped { timestamp, value: CanError::Disconnect(text) })
                if timestamp == now && text == "can receive thread closed rx channel"
        ));
        assert!(matches!(
            received_error(None, now),
            Timestamped { timestamp, value: CanError::Disconnect(text) }
                if timestamp == now && text == "can receive thread closed rx channel"
        ));
    }
    assert!(matches!(
        received_error(Some(Timestamped::new(3, CanError::Io(7))), 9),
        Timestamped { timestamp: 3, value: CanError::Io(7) }
    ));
}

#[test]
fn a_layout_over_64_bits_is_not_encoded() {
    let mut wide = outgoing(MessageId::StandardId(1), 0);
    wide.fields.push(Attribute { name: "c".to_string(), ty: Type::Unsigned { size: 53 } });
    let mut three = values(1, 2);
    three.push(FrameType::new("c".to_string(), TypeValue::Unsigned(3)));
    assert_eq!(encode_message(&wide, &three), Err(CodecError::LayoutTooWide));
    let decoded = TypeFrame::new(1, false, false, 8, three, "set".to_string(), None, 0);
    assert_eq!(cnl::codec::encode_frame(&wide, &decoded), Err(CodecError::LayoutTooWide));
    wide.fields[2] = Attribute { name: "c".to_string(), ty: Type::Unsigned { size: 52 } };
    assert_eq!(
        cnl::codec::encode_frame(&wide, &decoded),
        Ok(CanFrame { id: 1, ide: false, rtr: false, dlc: 8, data: 0x3201 })
    );
}
