use board_sync::codec::{
    decode_batch, decode_element_changes, encode_batch, encode_element_changes, operation_from_json,
    payload_text, CodecError, ElementChangesData,
};
use board_sync::json::Json;
use board_sync::model::{
    DDSBoardChangeData, InsertNodeOperation, Operation, PlaitElement, RemoveNodeOperation,
    SetNodeOperation,
};

fn s(t: &str) -> String {
    t.to_string()
}

fn element(id: &str) -> PlaitElement {
    PlaitElement {
        id: s(id),
        element_type: s("geometry"),
        shape: Some(s("rectangle")),
        points: Some(Json::Array(vec![
            Json::Array(vec![Json::UInt(10), Json::Int(-20)]),
            Json::Array(vec![Json::Float(s("1.5")), Json::UInt(4)]),
        ])),
        children: None,
        text: None,
        fill: Some(s("#ffffff")),
        stroke: None,
        extra: vec![(s("angle"), Json::UInt(0)), (s("locked"), Json::Bool(true))],
    }
}

fn object(entries: Vec<(&str, Json)>) -> Json {
    Json::Object(entries.into_iter().map(|(k, v)| (s(k), v)).collect())
}

fn entry<'a>(j: &'a Json, key: &str) -> Option<&'a Json> {
    match j {
        Json::Object(m) => m.iter().find(|(k, _)| k == key).map(|(_, v)| v),
        _ => None,
    }
}

#[test]
fn round_trip_every_operation_kind() {
    let mut parent = element("parent");
    parent.children = Some(vec![element("child-1"), element("child-2")]);
    let batch = DDSBoardChangeData {
        operations: vec![
            Operation::Insert(InsertNodeOperation { path: vec![0, 2], node: parent }),
            Operation::Remove(RemoveNodeOperation { path: vec![1], node: element("gone") }),
            Operation::SetNode(SetNodeOperation {
                path: vec![0],
                node: None,
                properties: Some(vec![(s("color"), Json::Str(s("#ff0000")))]),
                new_properties: Some(vec![(s("color"), Json::Str(s("#00ff00")))]),
            }),
            Operation::SetNode(SetNodeOperation {
                path: vec![3],
                node: Some(element("replacement")),
                properties: None,
                new_properties: None,
            }),
            Operation::Generic(object(vec![
                ("type", Json::Str(s("move_node"))),
                ("path", Json::Array(vec![Json::UInt(0)])),
                ("newPath", Json::Array(vec![Json::UInt(1)])),
            ])),
        ],
        timestamp: s("2024-05-01T10:00:00+00:00"),
        source_id: s("origin-a"),
        children: Some(vec![element("root")]),
        viewport: Some(object(vec![("zoom", Json::UInt(1))])),
    };
    let wire = encode_batch(&batch);
    let back = decode_batch(&wire).unwrap();
    assert_eq!(back, batch);
}

#[test]
fn round_trip_diff_only_batch() {
    let batch = DDSBoardChangeData {
        operations: vec![],
        timestamp: s("2024-05-01T10:00:00Z"),
        source_id: s("origin-b"),
        children: None,
        viewport: None,
    };
    let wire = encode_batch(&batch);
    assert!(entry(&wire, "children").is_none());
    assert!(entry(&wire, "viewport").is_none());
    assert_eq!(decode_batch(&wire).unwrap(), batch);
}

#[test]
fn wire_form_names_the_operation_type() {
    let op = Operation::Insert(InsertNodeOperation { path: vec![4], node: element("e") });
    let wire = op.to_json();
    assert_eq!(entry(&wire, "type"), Some(&Json::Str(s("insert_node"))));
    assert_eq!(entry(&wire, "path"), Some(&Json::Array(vec![Json::UInt(4)])));
    let node = entry(&wire, "node").unwrap();
    assert_eq!(entry(node, "id"), Some(&Json::Str(s("e"))));
    assert_eq!(entry(node, "type"), Some(&Json::Str(s("geometry"))));
    assert_eq!(entry(node, "angle"), Some(&Json::UInt(0)));
    assert_eq!(entry(node, "text"), None);
    assert_eq!(entry(node, "stroke"), None);
}

#[test]
fn unknown_operation_shape_is_kept() {
    let raw = object(vec![
        ("type", Json::Str(s("split_node"))),
        ("path", Json::Array(vec![Json::UInt(2)])),
        ("position", Json::UInt(5)),
    ]);
    match operation_from_json(&raw) {
        Operation::Generic(j) => assert_eq!(j, raw),
        other => panic!("unexpected {:?}", other),
    }
}

#[test]
fn insert_without_node_is_kept_unchanged() {
    let raw = object(vec![
        ("type", Json::Str(s("insert_node"))),
        ("path", Json::Array(vec![Json::UInt(0)])),
    ]);
    assert_eq!(operation_from_json(&raw), Operation::Generic(raw.deep_clone()));
}

#[test]
fn set_node_decodes_partial_update() {
    let raw = object(vec![
        ("type", Json::Str(s("set_node"))),
        ("path", Json::Array(vec![Json::UInt(0), Json::UInt(1)])),
        ("properties", object(vec![("color", Json::Str(s("#ff0000")))])),
        ("newProperties", Json::Null),
    ]);
    let expected = Operation::SetNode(SetNodeOperation {
        path: vec![0, 1],
        node: None,
        properties: Some(vec![(s("color"), Json::Str(s("#ff0000")))]),
        new_properties: None,
    });
    assert_eq!(operation_from_json(&raw), expected);
}

#[test]
fn negative_path_index_is_not_a_path() {
    let raw = object(vec![
        ("type", Json::Str(s("remove_node"))),
        ("path", Json::Array(vec![Json::Int(-1)])),
        ("node", encode_node("x")),
    ]);
    assert!(matches!(operation_from_json(&raw), Operation::Generic(_)));
}

fn encode_node(id: &str) -> Json {
    element(id).to_json()
}

#[test]
fn missing_timestamp_is_malformed() {
    let raw = object(vec![
        ("operations", Json::Array(vec![])),
        ("source_id", Json::Str(s("a"))),
    ]);
    assert_eq!(decode_batch(&raw), Err(CodecError::MalformedPayload));
}

#[test]
fn operations_of_wrong_shape_are_malformed() {
    let raw = object(vec![
        ("operations", Json::Str(s("none"))),
        ("timestamp", Json::Str(s("2024-05-01T10:00:00Z"))),
        ("source_id", Json::Str(s("a"))),
    ]);
    assert_eq!(decode_batch(&raw), Err(CodecError::MalformedPayload));
    assert_eq!(decode_batch(&Json::Array(vec![])), Err(CodecError::MalformedPayload));
}

#[test]
fn child_without_id_is_malformed() {
    let raw = object(vec![
        ("operations", Json::Array(vec![])),
        ("timestamp", Json::Str(s("2024-05-01T10:00:00Z"))),
        ("source_id", Json::Str(s("a"))),
        ("children", Json::Array(vec![object(vec![("type", Json::Str(s("geometry")))])])),
    ]);
    assert_eq!(decode_batch(&raw), Err(CodecError::MalformedPayload));
}

#[test]
fn invalid_utf8_is_invalid_encoding() {
    assert_eq!(payload_text(vec![0x7b, 0xff, 0xfe]), Err(CodecError::InvalidEncoding));
    assert_eq!(payload_text(vec![0xed, 0xa0, 0x80]), Err(CodecError::InvalidEncoding));
}

#[test]
fn valid_utf8_is_its_text() {
    assert_eq!(payload_text("{\"a\":\"é\"}".as_bytes().to_vec()), Ok(s("{\"a\":\"é\"}")));
}

#[test]
fn element_changes_round_trip() {
    let c = ElementChangesData {
        added: vec![object(vec![("id", Json::Str(s("circle-001"))), ("radius", Json::UInt(25))])],
        removed: vec![],
        modified: vec![Json::Str(s("rect-001"))],
        timestamp: s("2024-05-01T10:00:00Z"),
    };
    let wire = encode_element_changes(&c);
    assert_eq!(entry(&wire, "removed"), Some(&Json::Array(vec![])));
    assert_eq!(decode_element_changes(&wire), Ok(c));
}

#[test]
fn element_changes_without_modified_is_malformed() {
    let raw = object(vec![
        ("added", Json::Array(vec![])),
        ("removed", Json::Array(vec![])),
        ("timestamp", Json::Str(s("2024-05-01T10:00:00Z"))),
    ]);
    assert_eq!(decode_element_changes(&raw), Err(CodecError::MalformedPayload));
}
