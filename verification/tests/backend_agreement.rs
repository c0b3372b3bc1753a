use std::collections::BTreeMap;
use std::collections::HashMap;

use ordered_json::{
    render_converted, to_ordered_string, to_value, write_converted, write_ordered, Node,
    SerializationError,
};

#[test]
fn conversion_builds_the_backend_value() {
    let node = Node::Mapping(vec![
        ("n".to_string(), Node::Null),
        ("t".to_string(), Node::Bool(true)),
        ("i".to_string(), Node::Integer(-5)),
        ("u".to_string(), Node::Integer(u64::MAX as i128)),
        ("s".to_string(), Node::Text("hi".to_string())),
        (
            "a".to_string(),
            Node::Sequence(vec![Node::Integer(2), Node::Text("x".to_string())]),
        ),
        ("o".to_string(), Node::Mapping(vec![("k".to_string(), Node::Bool(false))])),
    ]);
    let mut inner = serde_json::Map::new();
    inner.insert("k".to_string(), serde_json::Value::Bool(false));
    let mut expected = serde_json::Map::new();
    expected.insert("n".to_string(), serde_json::Value::Null);
    expected.insert("t".to_string(), serde_json::Value::Bool(true));
    expected.insert("i".to_string(), serde_json::Value::from(-5i64));
    expected.insert("u".to_string(), serde_json::Value::from(u64::MAX));
    expected.insert("s".to_string(), serde_json::Value::from("hi"));
    expected.insert(
        "a".to_string(),
        serde_json::Value::Array(vec![serde_json::Value::from(2u64), serde_json::Value::from("x")]),
    );
    expected.insert("o".to_string(), serde_json::Value::Object(inner));
    assert_eq!(to_value(&node).unwrap(), serde_json::Value::Object(expected));
}

#[test]
fn conversion_keeps_one_value_per_key() {
    let node = Node::Mapping(vec![
        ("a".to_string(), Node::Integer(1)),
        ("a".to_string(), Node::Integer(2)),
    ]);
    let value = to_value(&node).unwrap();
    let object = value.as_object().unwrap();
    assert_eq!(object.len(), 1);
    assert_eq!(object.get("a"), Some(&serde_json::Value::from(2u64)));
}

#[test]
fn conversion_walks_keys_in_ascending_order() {
    let node = Node::Mapping(vec![
        ("Z".to_string(), Node::Integer(26)),
        ("A".to_string(), Node::Integer(1)),
        ("C".to_string(), Node::Integer(3)),
    ]);
    let value = to_value(&node).unwrap();
    let keys: Vec<String> = value.as_object().unwrap().keys().cloned().collect();
    assert_eq!(keys, vec!["A".to_string(), "C".to_string(), "Z".to_string()]);
}

#[test]
fn agrees_with_the_backend_on_a_hash_map() {
    let pairs = [("A", 1), ("C", 3), ("B", 2), ("Z", 26), ("Y", 25)];
    let map = HashMap::from(pairs);
    let expected = serde_json::to_value(&map).unwrap().to_string();
    let entries = pairs
        .iter()
        .map(|(key, n)| (key.to_string(), Node::Integer(*n as i128)))
        .collect();
    assert_eq!(to_ordered_string(&Node::Mapping(entries)).unwrap(), expected);
}

#[test]
fn agrees_with_the_backend_on_nested_data() {
    let mut inner = BTreeMap::new();
    inner.insert("y".to_string(), vec![3i64, 1, 2]);
    inner.insert("x".to_string(), vec![]);
    let mut outer = HashMap::new();
    outer.insert("second".to_string(), inner.clone());
    outer.insert("first".to_string(), inner);
    let expected = serde_json::to_value(&outer).unwrap().to_string();

    let numbers = |ns: &[i128]| Node::Sequence(ns.iter().map(|n| Node::Integer(*n)).collect());
    let inner_node = || {
        Node::Mapping(vec![
            ("y".to_string(), numbers(&[3, 1, 2])),
            ("x".to_string(), numbers(&[])),
        ])
    };
    let node = Node::Mapping(vec![
        ("second".to_string(), inner_node()),
        ("first".to_string(), inner_node()),
    ]);
    assert_eq!(to_ordered_string(&node).unwrap(), expected);
    let mut sink = Vec::new();
    write_ordered(&node, &mut sink).unwrap();
    assert_eq!(sink, expected.into_bytes());
}

#[test]
fn backend_rejects_the_same_integers() {
    let too_big = u64::MAX as i128 + 1;
    let backend = serde_json::to_value(too_big).unwrap_err();
    let ours = to_value(&Node::Integer(too_big)).unwrap_err();
    assert_eq!(ours.to_string(), backend.to_string());
    assert!(serde_json::to_value(u64::MAX as i128).is_ok());
    assert!(to_value(&Node::Integer(u64::MAX as i128)).is_ok());
}

#[test]
fn propagate_keeps_a_success() {
    let outcome: Result<u8, serde_json::Error> = Ok(7);
    assert_eq!(SerializationError::propagate(outcome).unwrap(), 7);
}

#[test]
fn propagate_wraps_a_failure_unchanged() {
    let failure = serde_json::to_value(i128::MAX).unwrap_err();
    let message = failure.to_string();
    let outcome: Result<(), serde_json::Error> = Err(failure);
    let error = SerializationError::propagate(outcome).unwrap_err();
    assert_eq!(error.cause.to_string(), message);
}

#[test]
fn error_is_made_from_the_backend_failure() {
    let failure = serde_json::to_value(i128::MIN).unwrap_err();
    let error = SerializationError::from(failure);
    assert_eq!(error.cause.to_string(), "number out of range");
    assert!(error.cause.is_syntax());
}

#[test]
fn converted_document_renders_compactly() {
    let mut object = serde_json::Map::new();
    object.insert("b".to_string(), serde_json::Value::from(vec![1u64, 2u64]));
    object.insert("a".to_string(), serde_json::Value::Null);
    let converted = Ok(serde_json::Value::Object(object));
    assert_eq!(render_converted(converted).unwrap(), "{\"a\":null,\"b\":[1,2]}");
}

#[test]
fn converted_float_renders() {
    assert_eq!(render_converted(serde_json::to_value(1.5f64)).unwrap(), "1.5");
    assert_eq!(render_converted(serde_json::to_value(-0.25f64)).unwrap(), "-0.25");
    let mut sink = Vec::new();
    write_converted(serde_json::to_value(vec![2.5f64, -0.5f64]), &mut sink).unwrap();
    assert_eq!(sink, b"[2.5,-0.5]".to_vec());
}

#[test]
fn failed_conversion_is_handed_on_by_render() {
    let mut keyed_by_list: HashMap<Vec<u8>, u8> = HashMap::new();
    keyed_by_list.insert(vec![1, 2], 3);
    let converted = serde_json::to_value(&keyed_by_list);
    let error = render_converted(converted).unwrap_err();
    assert_eq!(error.cause.to_string(), "key must be a string");
}

#[test]
fn failed_conversion_is_handed_on_by_write() {
    let mut keyed_by_list: HashMap<Vec<u8>, u8> = HashMap::new();
    keyed_by_list.insert(vec![1, 2], 3);
    let mut sink: Vec<u8> = b"kept".to_vec();
    let error = write_converted(serde_json::to_value(&keyed_by_list), &mut sink).unwrap_err();
    assert_eq!(error.cause.to_string(), "key must be a string");
    assert_eq!(sink, b"kept".to_vec());
}

#[test]
fn converted_document_is_written_after_what_the_sink_held() {
    let mut sink: Vec<u8> = b"> ".to_vec();
    let map = BTreeMap::from([("k", "v")]);
    write_converted(serde_json::to_value(&map), &mut sink).unwrap();
    assert_eq!(sink, b"> {\"k\":\"v\"}".to_vec());
}

#[test]
fn string_and_stream_agree_on_a_converted_document() {
    let map = HashMap::from([("caf\u{e9}", vec!["x", "y"]), ("bar", vec![])]);
    let text = render_converted(serde_json::to_value(&map)).unwrap();
    let mut sink = Vec::new();
    write_converted(serde_json::to_value(&map), &mut sink).unwrap();
    assert_eq!(String::from_utf8(sink).unwrap(), text);
    assert_eq!(text, "{\"bar\":[],\"caf\u{e9}\":[\"x\",\"y\"]}");
}
