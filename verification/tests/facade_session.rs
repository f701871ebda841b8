use haste_introspect::entity::{Entity, EntityLi};
use haste_introspect::facade::{EntityList, IntrospectError, WrappedParser};
use haste_introspect::fieldvalue::FieldValue;
use haste_introspect::schema::{FieldPath, FlattenedSerializer, SchemaArena, SchemaNode};
use haste_introspect::stringtable::{StringTable, StringTableItem, StringTables};

fn node(name: &str, ty: &str, children: Vec<usize>, dynamic: bool) -> SchemaNode {
    SchemaNode {
        var_name: name.to_string(),
        var_type: ty.to_string(),
        children,
        is_dynamic_array: dynamic,
    }
}

fn demo_arena() -> SchemaArena {
    SchemaArena {
        nodes: vec![
            node("m_Health", "int", vec![], false),
            node("m_Items", "CNetworkUtlVectorBase< CItem >", vec![2], true),
            node("item", "CItem", vec![3], false),
            node("m_Id", "int", vec![], false),
        ],
    }
}

fn demo_serializers() -> Vec<FlattenedSerializer> {
    vec![FlattenedSerializer { serializer_name: "CDemoEntity".to_string(), fields: vec![0, 1] }]
}

fn field(segments: Vec<u8>, value: FieldValue) -> (FieldPath, FieldValue) {
    (FieldPath { segments }, value)
}

fn demo_session() -> WrappedParser {
    let entities = vec![
        Entity {
            index: 3,
            serializer: 0,
            fields: vec![
                field(vec![0], FieldValue::I64(100)),
                field(vec![1, 0, 0], FieldValue::I64(7)),
            ],
        },
        Entity { index: 9, serializer: 0, fields: vec![] },
    ];
    let baselines = vec![Entity {
        index: 3,
        serializer: 0,
        fields: vec![field(vec![0], FieldValue::I64(0))],
    }];
    let tables = StringTables {
        tables: vec![StringTable {
            name: "userinfo".to_string(),
            items: vec![StringTableItem {
                string: Some(b"alice".to_vec()),
                user_data: Some(vec![1, 2]),
            }],
        }],
    };
    WrappedParser::from_state(
        demo_arena(),
        demo_serializers(),
        5,
        Some(1000),
        false,
        Some(EntityList { entities, baselines }),
        Some(tables),
    )
    .unwrap()
}

#[test]
fn construction_validates_each_layer_in_turn() {
    let bad_arena = SchemaArena { nodes: vec![node("a", "int", vec![7], false)] };
    let r = WrappedParser::from_state(bad_arena, vec![], 0, None, false, None, None);
    assert_eq!(r.err(), Some(IntrospectError::MalformedSchema));

    let bad_ser =
        vec![FlattenedSerializer { serializer_name: "s".to_string(), fields: vec![99] }];
    let r = WrappedParser::from_state(demo_arena(), bad_ser, 0, None, false, None, None);
    assert_eq!(r.err(), Some(IntrospectError::MalformedSerializer));

    let bad_entity = Entity {
        index: 1,
        serializer: 0,
        fields: vec![field(vec![0, 0], FieldValue::Bool(true))],
    };
    let r = WrappedParser::from_state(
        demo_arena(),
        demo_serializers(),
        0,
        None,
        false,
        Some(EntityList { entities: vec![bad_entity], baselines: vec![] }),
        None,
    );
    assert_eq!(r.err(), Some(IntrospectError::MalformedEntity));

    assert_eq!(IntrospectError::MalformedSchema.message(), "schema arena is malformed");
}

#[test]
fn run_to_tick_at_current_tick_is_a_successful_no_op() {
    let mut session = demo_session();
    assert_eq!(session.tick(), 5);
    assert!(session.run_to_tick(5).is_ok());
    assert_eq!(session.tick(), 5);
    assert!(session.list_entities().is_some());
}

#[test]
fn run_to_tick_moves_forward_and_rejects_unreachable_targets() {
    let mut session = demo_session();
    assert!(session.run_to_tick(42).is_ok());
    assert_eq!(session.tick(), 42);
    // Backwards on a non-seekable stream fails and leaves the cursor put.
    assert_eq!(session.run_to_tick(10).unwrap_err(), IntrospectError::UnreachableTick);
    assert_eq!(session.tick(), 42);
    // Past the known end fails; the cursor can still move afterwards.
    assert_eq!(session.run_to_tick(1001).unwrap_err(), IntrospectError::UnreachableTick);
    assert_eq!(session.run_to_tick(1000).map(|_| session.tick()), Ok(1000));
    // Negative ticks are never reachable.
    assert_eq!(session.run_to_tick(-1).unwrap_err(), IntrospectError::UnreachableTick);
}

#[test]
fn run_to_tick_seeks_backward_only_on_seekable_streams() {
    let mut session = demo_session();
    session.seekable = true;
    assert!(session.run_to_tick(1).is_ok());
    assert_eq!(session.tick(), 1);
}

#[test]
fn total_ticks_reports_the_known_length_or_fails() {
    let mut session = demo_session();
    assert_eq!(session.total_ticks(), Ok(1000));
    session.total_tick_count = None;
    assert_eq!(session.total_ticks().unwrap_err(), IntrospectError::UnknownTotalTicks);
}

#[test]
fn entity_listings_pair_indices_with_serializer_names() {
    let session = demo_session();
    let live = session.list_entities().unwrap();
    assert_eq!(
        live,
        vec![
            EntityLi { index: 3, name: "CDemoEntity".to_string() },
            EntityLi { index: 9, name: "CDemoEntity".to_string() },
        ]
    );
    let base = session.list_baseline_entities().unwrap();
    assert_eq!(base, vec![EntityLi { index: 3, name: "CDemoEntity".to_string() }]);
}

#[test]
fn listings_are_absent_before_any_entity_data() {
    let session =
        WrappedParser::from_state(demo_arena(), demo_serializers(), 0, None, false, None, None)
            .unwrap();
    assert!(session.list_entities().is_none());
    assert!(session.list_baseline_entities().is_none());
    assert!(session.list_entity_fields(3).is_none());
    assert!(session.list_string_tables().is_none());
    assert!(session.list_string_table_items("userinfo".to_string()).is_none());
}

#[test]
fn entity_field_records_resolve_paths_values_and_kinds() {
    let session = demo_session();
    let records = session.list_entity_fields(3).unwrap();
    assert_eq!(records.len(), 2);
    assert_eq!(records[0].path, vec![0]);
    assert_eq!(records[0].named_path, vec!["m_Health".to_string()]);
    assert_eq!(records[0].value, "100");
    assert_eq!(records[0].encoded_as, "int");
    assert_eq!(records[0].decoded_as, "I64");
    assert_eq!(records[1].path, vec![1, 0, 0]);
    assert_eq!(
        records[1].named_path,
        vec!["m_Items".to_string(), "0".to_string(), "m_Id".to_string()]
    );
    assert_eq!(records[1].value, "7");
    assert_eq!(records[1].encoded_as, "int");
    assert_eq!(records[1].decoded_as, "I64");
}

#[test]
fn unknown_entity_is_absent_while_fieldless_entity_is_empty() {
    let session = demo_session();
    assert!(session.list_entity_fields(99).is_none());
    let empty = session.list_entity_fields(9).unwrap();
    assert!(empty.is_empty());
    assert!(session.list_baseline_entity_fields(9).is_none());
    assert_eq!(session.list_baseline_entity_fields(3).unwrap().len(), 1);
}

#[test]
fn snapshots_of_an_unmodified_entity_are_identical() {
    let session = demo_session();
    let first = session.list_entity_fields(3).unwrap();
    let second = session.list_entity_fields(3).unwrap();
    assert_eq!(first, second);
}

#[test]
fn string_table_queries_list_names_and_snapshot_items() {
    let session = demo_session();
    let tables = session.list_string_tables().unwrap();
    assert_eq!(tables.len(), 1);
    assert_eq!(tables[0].name, "userinfo");
    let items = session.list_string_table_items("userinfo".to_string()).unwrap();
    assert_eq!(items.len(), 1);
    assert_eq!(items[0].string, Some(b"alice".to_vec()));
    assert_eq!(items[0].user_data, Some(vec![1, 2]));
    assert!(session.list_string_table_items("nope".to_string()).is_none());
}

#[test]
fn duplicate_entity_indices_resolve_to_the_first() {
    let entities = vec![
        Entity { index: 4, serializer: 0, fields: vec![field(vec![0], FieldValue::I64(1))] },
        Entity { index: 4, serializer: 0, fields: vec![field(vec![0], FieldValue::I64(2))] },
    ];
    let session = WrappedParser::from_state(
        demo_arena(),
        demo_serializers(),
        0,
        None,
        false,
        Some(EntityList { entities, baselines: vec![] }),
        None,
    )
    .unwrap();
    let records = session.list_entity_fields(4).unwrap();
    assert_eq!(records[0].value, "1");
}

#[test]
fn non_integer_field_values_flow_through_records() {
    let entities = vec![Entity {
        index: 1,
        serializer: 0,
        fields: vec![field(vec![0], FieldValue::Str("bot_quota".to_string()))],
    }];
    let session = WrappedParser::from_state(
        demo_arena(),
        demo_serializers(),
        0,
        None,
        false,
        Some(EntityList { entities, baselines: vec![] }),
        None,
    )
    .unwrap();
    let records = session.list_entity_fields(1).unwrap();
    assert_eq!(records[0].value, "bot_quota");
    assert_eq!(records[0].decoded_as, "String");
    assert_eq!(records[0].encoded_as, "int");
}
