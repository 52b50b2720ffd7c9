use arroyo_planner::codec::decode_exec_node;
use arroyo_planner::codec::encode_exec_node;
use arroyo_planner::codec::find_field;
use arroyo_planner::codec::materialize;
use arroyo_planner::codec::ArroyoMemExec;
use arroyo_planner::codec::ArroyoPhysicalExtensionCodec;
use arroyo_planner::codec::DecodedPlan;
use arroyo_planner::codec::DecodingContext;
use arroyo_planner::codec::ExecNode;
use arroyo_planner::codec::ExtensionPlan;
use arroyo_planner::codec::LockedSlot;
use arroyo_planner::codec::UNNESTED_COL;
use arroyo_planner::error::ErrorKind;
use arroyo_planner::wire::decode_key;
use arroyo_planner::wire::decode_varint;
use arroyo_planner::wire::encode_varint;
use arroyo_planner::wire::WireType;
use arrow_schema::DataType;
use arrow_schema::Field;
use arrow_schema::Schema;
use arrow_schema::TimeUnit;

fn schema_json(names: &[&str]) -> String {
    let fields: Vec<Field> = names
        .iter()
        .map(|name| Field::new(*name, DataType::Timestamp(TimeUnit::Nanosecond, None), false))
        .collect();
    serde_json::to_string(&Schema::new(fields)).unwrap()
}

fn mem_exec(table_name: &str, schema: &str) -> ExecNode {
    ExecNode::MemExec { table_name: table_name.to_string(), schema: schema.to_string() }
}

fn encoded(node: &ExecNode) -> Vec<u8> {
    let mut buf = Vec::new();
    encode_exec_node(node, &mut buf);
    buf
}

fn codec(context: DecodingContext) -> ArroyoPhysicalExtensionCodec {
    ArroyoPhysicalExtensionCodec { context }
}

fn same_node(a: &ExecNode, b: &ExecNode) -> bool {
    match (a, b) {
        (
            ExecNode::MemExec { table_name: t1, schema: s1 },
            ExecNode::MemExec { table_name: t2, schema: s2 },
        ) => t1 == t2 && s1 == s2,
        (ExecNode::UnnestExec { schema: s1 }, ExecNode::UnnestExec { schema: s2 }) => s1 == s2,
        _ => false,
    }
}

#[test]
fn varints_are_written_as_prost_writes_them() {
    for value in [0u64, 1, 127, 128, 300, 16_383, 16_384, 1 << 35, u64::MAX - 1, u64::MAX] {
        let mut ours = vec![0xee];
        encode_varint(value, &mut ours);
        let mut theirs = vec![0xee];
        prost::encoding::encode_varint(value, &mut theirs);
        assert_eq!(ours, theirs);
    }
}

#[test]
fn varint_of_300_is_two_bytes() {
    let mut buf = Vec::new();
    encode_varint(300, &mut buf);
    assert_eq!(buf, vec![0xac, 0x02]);
}

#[test]
fn varints_are_read_as_prost_reads_them() {
    let samples: Vec<Vec<u8>> = vec![
        vec![],
        vec![0x00],
        vec![0x7f, 0x01],
        vec![0x80],
        vec![0x80, 0x00],
        vec![0xac, 0x02, 0xff],
        vec![0xff, 0xff, 0xff, 0xff, 0xff, 0xff, 0xff, 0xff, 0xff, 0x01],
        vec![0xff, 0xff, 0xff, 0xff, 0xff, 0xff, 0xff, 0xff, 0xff, 0x02],
        vec![0x80, 0x80, 0x80, 0x80, 0x80, 0x80, 0x80, 0x80, 0x80, 0x80, 0x01],
        vec![0xff, 0xff, 0xff, 0xff, 0xff, 0xff, 0xff, 0xff, 0xff],
    ];
    for bytes in samples {
        let ours = decode_varint(&bytes, 0, bytes.len());
        let mut rest: &[u8] = &bytes;
        let theirs = prost::encoding::decode_varint(&mut rest).ok();
        match (ours, theirs) {
            (Some((value, next)), Some(expected)) => {
                assert_eq!(value, expected);
                assert_eq!(next, bytes.len() - rest.len());
            }
            (None, None) => {}
            (ours, theirs) => panic!("{:?}: {:?} against {:?}", bytes, ours, theirs),
        }
    }
}

#[test]
fn varint_reading_stops_at_the_given_end() {
    let bytes = vec![0x80, 0x01];
    assert_eq!(decode_varint(&bytes, 0, 1), None);
    assert_eq!(decode_varint(&bytes, 0, 2), Some((128, 2)));
    assert_eq!(decode_varint(&bytes, 1, 2), Some((1, 2)));
}

#[test]
fn keys_are_read_as_prost_reads_them() {
    let samples: Vec<Vec<u8>> = vec![
        vec![0x0a],
        vec![0x12],
        vec![0x00],
        vec![0x07],
        vec![0x0e],
        vec![0x1b],
        vec![0x1c],
        vec![0xf8, 0xff, 0xff, 0xff, 0x0f],
        vec![0xf8, 0xff, 0xff, 0xff, 0x1f],
    ];
    for bytes in samples {
        let ours = decode_key(&bytes, 0, bytes.len());
        let mut rest: &[u8] = &bytes;
        let theirs = prost::encoding::decode_key(&mut rest).ok();
        match (ours, theirs) {
            (Some((tag, wire_type, next)), Some((expected_tag, expected_type))) => {
                assert_eq!(tag, expected_tag);
                assert_eq!(format!("{:?}", wire_type), format!("{:?}", expected_type));
                assert_eq!(next, bytes.len() - rest.len());
            }
            (None, None) => {}
            (ours, theirs) => panic!("{:?}: {:?} against {:?}", bytes, ours, theirs),
        }
    }
    assert_eq!(decode_key(&[0x0a], 0, 1), Some((1, WireType::LengthDelimited, 1)));
}

#[test]
fn a_placeholder_is_written_as_prost_writes_it() {
    let schema = schema_json(&["a", "_timestamp"]);
    let mut body = Vec::new();
    prost::encoding::string::encode(1, &"partial".to_string(), &mut body);
    prost::encoding::string::encode(2, &schema, &mut body);
    let mut expected = Vec::new();
    prost::encoding::encode_key(1, prost::encoding::WireType::LengthDelimited, &mut expected);
    prost::encoding::encode_varint(body.len() as u64, &mut expected);
    expected.extend_from_slice(&body);
    assert_eq!(encoded(&mem_exec("partial", &schema)), expected);
}

#[test]
fn an_unnest_is_written_as_prost_writes_it() {
    let schema = schema_json(&["__unnested"]);
    let mut body = Vec::new();
    prost::encoding::string::encode(1, &schema, &mut body);
    let mut expected = Vec::new();
    prost::encoding::encode_key(2, prost::encoding::WireType::LengthDelimited, &mut expected);
    prost::encoding::encode_varint(body.len() as u64, &mut expected);
    expected.extend_from_slice(&body);
    assert_eq!(encoded(&ExecNode::UnnestExec { schema }), expected);
}

#[test]
fn the_bytes_of_a_small_placeholder() {
    assert_eq!(
        encoded(&mem_exec("ab", "{}")),
        vec![0x0a, 0x08, 0x0a, 0x02, b'a', b'b', 0x12, 0x02, b'{', b'}']
    );
}

#[test]
fn empty_texts_are_not_written() {
    assert_eq!(encoded(&mem_exec("", "")), vec![0x0a, 0x00]);
    assert_eq!(encoded(&mem_exec("", "s")), vec![0x0a, 0x03, 0x12, 0x01, b's']);
    assert_eq!(encoded(&ExecNode::UnnestExec { schema: String::new() }), vec![0x12, 0x00]);
}

#[test]
fn encoding_appends_to_what_the_buffer_holds() {
    let mut buf = vec![1, 2, 3];
    encode_exec_node(&mem_exec("", ""), &mut buf);
    assert_eq!(buf, vec![1, 2, 3, 0x0a, 0x00]);
}

#[test]
fn what_is_written_is_read_back() {
    let long = "x".repeat(300);
    let nodes = vec![
        mem_exec("partial", &schema_json(&["a", "b"])),
        mem_exec("", ""),
        mem_exec("left", ""),
        mem_exec("", "only a schema"),
        mem_exec("täble", &long),
        ExecNode::UnnestExec { schema: schema_json(&["__unnested"]) },
        ExecNode::UnnestExec { schema: String::new() },
    ];
    for node in nodes {
        let bytes = encoded(&node);
        let back = decode_exec_node(&bytes).unwrap().unwrap();
        assert!(same_node(&back, &node), "{:?} came back as {:?}", node, back);
    }
}

#[test]
fn no_bytes_hold_no_node() {
    assert!(matches!(decode_exec_node(&[]), Some(None)));
}

#[test]
fn fields_that_nobody_knows_are_skipped() {
    let mut bytes = Vec::new();
    // field 9, a varint
    bytes.extend_from_slice(&[0x48, 0x96, 0x01]);
    bytes.extend_from_slice(&encoded(&mem_exec("t", "s")));
    // field 10, 32 bits; field 11, 64 bits; field 12, length-delimited
    bytes.extend_from_slice(&[0x55, 1, 2, 3, 4]);
    bytes.extend_from_slice(&[0x59, 1, 2, 3, 4, 5, 6, 7, 8]);
    bytes.extend_from_slice(&[0x62, 0x02, 0xff, 0xfe]);
    // field 13, a group that holds a varint field and a group of its own
    bytes.extend_from_slice(&[0x6b, 0x08, 0x01, 0x13, 0x14, 0x6c]);
    let node = decode_exec_node(&bytes).unwrap().unwrap();
    assert!(same_node(&node, &mem_exec("t", "s")));
}

#[test]
fn a_group_must_end_with_its_own_tag() {
    assert!(decode_exec_node(&[0x6b, 0x74]).is_none());
    assert!(decode_exec_node(&[0x6b]).is_none());
    assert!(decode_exec_node(&[0x6c]).is_none());
    assert!(matches!(decode_exec_node(&[0x6b, 0x6c]), Some(None)));
}

#[test]
fn the_node_that_comes_last_stays() {
    let mut bytes = encoded(&mem_exec("t", "s"));
    bytes.extend_from_slice(&encoded(&ExecNode::UnnestExec { schema: "u".to_string() }));
    let node = decode_exec_node(&bytes).unwrap().unwrap();
    assert!(same_node(&node, &ExecNode::UnnestExec { schema: "u".to_string() }));
}

#[test]
fn a_node_of_the_same_kind_is_merged() {
    let mut bytes = encoded(&mem_exec("t", ""));
    bytes.extend_from_slice(&encoded(&mem_exec("", "s")));
    let node = decode_exec_node(&bytes).unwrap().unwrap();
    assert!(same_node(&node, &mem_exec("t", "s")));
    let mut bytes = encoded(&mem_exec("t", "s"));
    bytes.extend_from_slice(&encoded(&mem_exec("u", "")));
    let node = decode_exec_node(&bytes).unwrap().unwrap();
    assert!(same_node(&node, &mem_exec("u", "s")));
}

#[test]
fn broken_envelopes_are_refused() {
    let broken: Vec<Vec<u8>> = vec![
        vec![0x0a],
        vec![0x0a, 0x05, 0x0a],
        vec![0x08, 0x01],
        vec![0x0a, 0x02, 0x0a, 0x05],
        vec![0x0a, 0x03, 0x0a, 0x01, 0xff],
        vec![0x0a, 0x02, 0x08, 0x01],
        vec![0x00],
        vec![0x0f],
        vec![0x0a, 0x01, 0x80],
    ];
    for bytes in broken {
        assert!(decode_exec_node(&bytes).is_none(), "{:?}", bytes);
        let error = codec(DecodingContext::Planning).try_decode(&bytes, 0).unwrap_err();
        assert_eq!(error.kind, ErrorKind::Internal);
        assert_eq!(error.message, "couldn't deserialize: invalid wire format");
    }
}

#[test]
fn decoding_an_empty_envelope_fails() {
    let error = codec(DecodingContext::Planning).try_decode(&[], 0).unwrap_err();
    assert_eq!(error.kind, ErrorKind::Internal);
    assert_eq!(error.message, "exec node is empty");
}

#[test]
fn decoding_without_a_context_fails() {
    let bytes = encoded(&mem_exec("partial", &schema_json(&["a"])));
    let error = ArroyoPhysicalExtensionCodec::default().try_decode(&bytes, 0).unwrap_err();
    assert_eq!(error.kind, ErrorKind::Internal);
    assert_eq!(error.message, "need context");
}

#[test]
fn decoding_for_planning_gives_the_placeholder_back() {
    let schema = schema_json(&["a", "_timestamp"]);
    let bytes = encoded(&mem_exec("partial", &schema));
    match codec(DecodingContext::Planning).try_decode(&bytes, 0).unwrap() {
        DecodedPlan::MemExec(exec) => {
            assert_eq!(exec.table_name, "partial");
            assert_eq!(exec.schema, schema);
        }
        other => panic!("{:?}", other),
    }
}

#[test]
fn each_context_picks_its_reader() {
    let schema = schema_json(&["a"]);
    let bytes = encoded(&mem_exec("memory", &schema));
    match codec(DecodingContext::SingleLockedBatch).try_decode(&bytes, 0).unwrap() {
        DecodedPlan::RwLockRecordBatchReader { schema: found, slot } => {
            assert_eq!(found, schema);
            assert_eq!(slot, LockedSlot::Single);
        }
        other => panic!("{:?}", other),
    }
    match codec(DecodingContext::UnboundedBatchStream).try_decode(&bytes, 0).unwrap() {
        DecodedPlan::UnboundedRecordBatchReader { schema: found } => assert_eq!(found, schema),
        other => panic!("{:?}", other),
    }
    match codec(DecodingContext::LockedBatchVec).try_decode(&bytes, 0).unwrap() {
        DecodedPlan::RecordBatchVecReader { schema: found } => assert_eq!(found, schema),
        other => panic!("{:?}", other),
    }
}

#[test]
fn a_join_pair_goes_by_the_table_name() {
    let schema = schema_json(&["a"]);
    for (name, expected) in [("left", LockedSlot::Left), ("right", LockedSlot::Right)] {
        let bytes = encoded(&mem_exec(name, &schema));
        match codec(DecodingContext::LockedJoinPair).try_decode(&bytes, 0).unwrap() {
            DecodedPlan::RwLockRecordBatchReader { slot, .. } => assert_eq!(slot, expected),
            other => panic!("{:?}", other),
        }
    }
    let bytes = encoded(&mem_exec("Left", &schema));
    let error = codec(DecodingContext::LockedJoinPair).try_decode(&bytes, 0).unwrap_err();
    assert_eq!(error.kind, ErrorKind::Internal);
    assert_eq!(error.message, "unknown table name Left");
}

#[test]
fn a_schema_that_is_no_schema_is_refused_before_the_context_is_looked_at() {
    let bytes = encoded(&mem_exec("partial", "{\"fields\": 3}"));
    let error = ArroyoPhysicalExtensionCodec::default().try_decode(&bytes, 0).unwrap_err();
    assert_eq!(error.kind, ErrorKind::Internal);
    assert!(error.message.starts_with("invalid schema in exec codec: "), "{}", error.message);
    assert!(error.message.len() > "invalid schema in exec codec: ".len());
}

#[test]
fn an_unnest_finds_its_column() {
    let schema = schema_json(&["a", UNNESTED_COL, "b", UNNESTED_COL]);
    let bytes = encoded(&ExecNode::UnnestExec { schema: schema.clone() });
    // an unnest needs no context
    match ArroyoPhysicalExtensionCodec::default().try_decode(&bytes, 1).unwrap() {
        DecodedPlan::UnnestExec { schema: found, column } => {
            assert_eq!(found, schema);
            assert_eq!(column, 1);
        }
        other => panic!("{:?}", other),
    }
}

#[test]
fn an_unnest_without_its_column_or_without_input_is_refused() {
    let bytes = encoded(&ExecNode::UnnestExec { schema: schema_json(&["a", "b"]) });
    let error = codec(DecodingContext::Planning).try_decode(&bytes, 1).unwrap_err();
    assert_eq!(error.kind, ErrorKind::Internal);
    assert_eq!(error.message, "unnest node schema does not contain __unnested col");
    let bytes = encoded(&ExecNode::UnnestExec { schema: schema_json(&[UNNESTED_COL]) });
    let error = codec(DecodingContext::Planning).try_decode(&bytes, 0).unwrap_err();
    assert_eq!(error.kind, ErrorKind::Internal);
    assert_eq!(error.message, "no input for unnest node");
}

#[test]
fn materialize_goes_by_the_outcome_it_is_given() {
    let node = mem_exec("left", "ignored");
    let error = materialize(DecodingContext::Planning, node, Err("bad".to_string()), 0).unwrap_err();
    assert_eq!(error.message, "invalid schema in exec codec: bad");
    let node = ExecNode::UnnestExec { schema: "s".to_string() };
    let names = vec!["x".to_string(), UNNESTED_COL.to_string()];
    match materialize(DecodingContext::NoContext, node, Ok(names), 2).unwrap() {
        DecodedPlan::UnnestExec { column, .. } => assert_eq!(column, 1),
        other => panic!("{:?}", other),
    }
}

#[test]
fn find_field_gives_the_first_position() {
    let names = vec!["a".to_string(), "b".to_string(), "a".to_string()];
    assert_eq!(find_field(&names, "a"), Some(0));
    assert_eq!(find_field(&names, "b"), Some(1));
    assert_eq!(find_field(&names, "c"), None);
    assert_eq!(find_field(&Vec::new(), "a"), None);
}

#[test]
fn the_two_extensions_can_be_encoded_and_nothing_else() {
    let codec = ArroyoPhysicalExtensionCodec::default();
    let mut buf = Vec::new();
    let exec = ArroyoMemExec { table_name: "t".to_string(), schema: "s".to_string() };
    codec.try_encode(&ExtensionPlan::MemExec(exec), &mut buf).unwrap();
    assert_eq!(buf, encoded(&mem_exec("t", "s")));
    let mut buf = Vec::new();
    codec.try_encode(&ExtensionPlan::Unnest { schema: "s".to_string() }, &mut buf).unwrap();
    assert_eq!(buf, encoded(&ExecNode::UnnestExec { schema: "s".to_string() }));
    let mut buf = vec![7];
    let other = ExtensionPlan::Other { description: "FilterExec".to_string() };
    let error = codec.try_encode(&other, &mut buf).unwrap_err();
    assert_eq!(error.kind, ErrorKind::Internal);
    assert_eq!(error.message, "cannot serialize FilterExec");
    assert_eq!(buf, vec![7]);
}

#[test]
fn encode_then_decode_for_planning_round_trips() {
    let codec = codec(DecodingContext::Planning);
    let schema = schema_json(&["window", "count", "_timestamp"]);
    let exec = ArroyoMemExec { table_name: "partial".to_string(), schema: schema.clone() };
    let mut buf = Vec::new();
    codec.try_encode(&ExtensionPlan::MemExec(exec), &mut buf).unwrap();
    match codec.try_decode(&buf, 0).unwrap() {
        DecodedPlan::MemExec(back) => {
            assert_eq!(back.table_name, "partial");
            assert_eq!(back.schema, schema);
            let parsed: Schema = serde_json::from_str(&back.schema).unwrap();
            assert_eq!(parsed.fields().len(), 3);
        }
        other => panic!("{:?}", other),
    }
}
