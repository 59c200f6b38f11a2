use y2hcl::decimal::i64_text;
use y2hcl::flatten::{
    flatten, handle_all_root_value_types, handle_root_bool_value_type,
    handle_root_mapping_value_type_recursively, handle_root_number_value_type,
    handle_root_sequence_value_type_recursively, handle_root_string_value_type,
};
use y2hcl::node::{FlattenError, Node};

fn text(s: &str) -> Node {
    Node::Str(s.to_string())
}

fn mapping(pairs: Vec<(&str, Node)>) -> Node {
    Node::Mapping(pairs.into_iter().map(|(k, v)| (text(k), v)).collect())
}

fn root_pairs(doc: &Node) -> &Vec<(Node, Node)> {
    match doc {
        Node::Mapping(pairs) => pairs,
        _ => panic!("root is not a mapping"),
    }
}

fn key_str(key: &Node) -> &str {
    match key {
        Node::Str(s) => s.as_str(),
        _ => panic!("key is not a string"),
    }
}

#[test]
fn parse_bool_value_from_yaml() {
    let mut keys_result: Vec<String> = Vec::new();
    let mut values_result: Vec<String> = Vec::new();

    // enable_ssl: true
    let yaml_input = mapping(vec![("enable_ssl", Node::Bool(true))]);

    for (key, value) in root_pairs(&yaml_input) {
        let new_key = key_str(key);
        handle_root_bool_value_type(new_key, value, &mut keys_result, &mut values_result);
    }

    let expected_keys_result = ["enable_ssl"];
    let expected_values_result = ["true"];
    assert_eq!(keys_result, expected_keys_result);
    assert_eq!(values_result, expected_values_result);
}

#[test]
fn parse_string_value_from_yaml() {
    let mut keys_result: Vec<String> = Vec::new();
    let mut values_result: Vec<String> = Vec::new();

    // protocol_type: http
    let yaml_input = mapping(vec![("protocol_type", text("http"))]);

    for (key, value) in root_pairs(&yaml_input) {
        let new_key = key_str(key);
        handle_root_string_value_type(new_key, value, &mut keys_result, &mut values_result);
    }

    let expected_keys_result = ["protocol_type"];
    let expected_values_result = ["http"];
    assert_eq!(keys_result, expected_keys_result);
    assert_eq!(values_result, expected_values_result);
}

#[test]
fn parse_i64_value_from_yaml() {
    let mut keys_result: Vec<String> = Vec::new();
    let mut values_result: Vec<String> = Vec::new();

    // port: 8080
    let yaml_input = mapping(vec![("port", Node::Integer(8080))]);

    for (key, value) in root_pairs(&yaml_input) {
        let new_key = key_str(key);
        handle_root_number_value_type(new_key, value, &mut keys_result, &mut values_result);
    }

    assert_eq!(values_result[0].parse::<i64>().unwrap(), 8080);

    let expected_keys_result = ["port"];
    let expected_values_result = ["8080"];
    assert_eq!(keys_result, expected_keys_result);
    assert_eq!(values_result, expected_values_result);
}

#[test]
fn parse_f64_value_from_yaml() {
    let mut keys_result: Vec<String> = Vec::new();
    let mut values_result: Vec<String> = Vec::new();

    // some_price: 200.44
    let yaml_input = mapping(vec![("some_price", Node::Float(200.44f64.to_string()))]);

    for (key, value) in root_pairs(&yaml_input) {
        let new_key = key_str(key);
        handle_root_number_value_type(new_key, value, &mut keys_result, &mut values_result);
    }

    assert_eq!(values_result[0].parse::<f64>().unwrap(), 200.44);

    let expected_keys_result = ["some_price"];
    let expected_values_result = ["200.44"];
    assert_eq!(keys_result, expected_keys_result);
    assert_eq!(values_result, expected_values_result);
}

#[test]
fn parse_sequance_value_from_yaml() {
    let mut keys_result: Vec<String> = Vec::new();
    let mut values_result: Vec<String> = Vec::new();

    // imagePullSecrets:
    //   - name: docker-pull-secret
    let yaml_input = mapping(vec![(
        "imagePullSecrets",
        Node::Sequence(vec![mapping(vec![("name", text("docker-pull-secret"))])]),
    )]);

    for (key, value) in root_pairs(&yaml_input) {
        let new_key = key_str(key);
        handle_root_sequence_value_type_recursively(
            new_key,
            value,
            &mut keys_result,
            &mut values_result,
        )
        .unwrap();
    }

    let expected_keys_result = ["imagePullSecrets.name"];
    let expected_values_result = ["docker-pull-secret"];
    assert_eq!(keys_result, expected_keys_result);
    assert_eq!(values_result, expected_values_result);
}

#[test]
fn parse_mapping_value_from_yaml() {
    let mut keys_result: Vec<String> = Vec::new();
    let mut values_result: Vec<String> = Vec::new();

    // cleanup_job:
    //   imagePullSecrets:
    //     - name: docker-pull-secret
    let yaml_input = mapping(vec![(
        "cleanup_job",
        mapping(vec![(
            "imagePullSecrets",
            Node::Sequence(vec![mapping(vec![("name", text("docker-pull-secret"))])]),
        )]),
    )]);

    for (key, value) in root_pairs(&yaml_input) {
        let new_key = key_str(key);
        handle_root_mapping_value_type_recursively(
            new_key,
            value,
            &mut keys_result,
            &mut values_result,
        )
        .unwrap();
    }

    let expected_keys_result = ["cleanup_job.imagePullSecrets.name"];
    let expected_values_result = ["docker-pull-secret"];
    assert_eq!(keys_result, expected_keys_result);
    assert_eq!(values_result, expected_values_result);
}

#[test]
fn flatten_single_bool_entry() {
    let (keys, values) = flatten(&mapping(vec![("k", Node::Bool(true))])).unwrap();
    assert_eq!(keys, ["k"]);
    assert_eq!(values, ["true"]);
    let (keys, values) = flatten(&mapping(vec![("k", Node::Bool(false))])).unwrap();
    assert_eq!(keys, ["k"]);
    assert_eq!(values, ["false"]);
}

#[test]
fn flatten_single_string_entry() {
    let (keys, values) = flatten(&mapping(vec![("k", text("http"))])).unwrap();
    assert_eq!(keys, ["k"]);
    assert_eq!(values, ["http"]);
}

#[test]
fn flatten_integer_and_float_entries() {
    let (keys, values) = flatten(&mapping(vec![
        ("k", Node::Integer(8080)),
        ("p", Node::Float(200.44f64.to_string())),
    ]))
    .unwrap();
    assert_eq!(keys, ["k", "p"]);
    assert_eq!(values, ["8080", "200.44"]);
}

#[test]
fn integer_text_is_plain_decimal() {
    assert_eq!(i64_text(0), "0");
    assert_eq!(i64_text(7), "7");
    assert_eq!(i64_text(1234567), "1234567");
    assert_eq!(i64_text(-42), "-42");
    assert_eq!(i64_text(i64::MAX), i64::MAX.to_string());
    assert_eq!(i64_text(i64::MIN), "-9223372036854775808");
}

#[test]
fn flatten_sequence_of_mappings_has_no_index_segment() {
    let doc = mapping(vec![(
        "imagePullSecrets",
        Node::Sequence(vec![mapping(vec![("name", text("docker-pull-secret"))])]),
    )]);
    let (keys, values) = flatten(&doc).unwrap();
    assert_eq!(keys, ["imagePullSecrets.name"]);
    assert_eq!(values, ["docker-pull-secret"]);
}

#[test]
fn flatten_nested_mapping_joins_keys_with_dots() {
    let doc = mapping(vec![(
        "cleanup_job",
        mapping(vec![(
            "imagePullSecrets",
            Node::Sequence(vec![mapping(vec![("name", text("docker-pull-secret"))])]),
        )]),
    )]);
    let (keys, values) = flatten(&doc).unwrap();
    assert_eq!(keys, ["cleanup_job.imagePullSecrets.name"]);
    assert_eq!(values, ["docker-pull-secret"]);
}

#[test]
fn flatten_repeats_keys_of_sequence_elements() {
    let doc = mapping(vec![(
        "imagePullSecrets",
        Node::Sequence(vec![
            mapping(vec![("name", text("first"))]),
            mapping(vec![("name", text("second"))]),
        ]),
    )]);
    let (keys, values) = flatten(&doc).unwrap();
    assert_eq!(keys, ["imagePullSecrets.name", "imagePullSecrets.name"]);
    assert_eq!(values, ["first", "second"]);
}

#[test]
fn flatten_skips_scalars_in_sequences_and_unsupported_leaves() {
    let doc = mapping(vec![
        ("list", Node::Sequence(vec![Node::Integer(1), text("x"), Node::Bool(true)])),
        ("nothing", Node::Unsupported),
        ("deep", Node::Sequence(vec![Node::Sequence(vec![mapping(vec![("a", Node::Integer(-3))])])])),
        ("after", text("kept")),
    ]);
    let (keys, values) = flatten(&doc).unwrap();
    assert_eq!(keys, ["deep.a", "after"]);
    assert_eq!(values, ["-3", "kept"]);
}

#[test]
fn flatten_keeps_document_order() {
    let doc = mapping(vec![
        ("b", mapping(vec![("y", Node::Integer(2)), ("x", Node::Bool(false))])),
        ("a", text("1")),
    ]);
    let (keys, values) = flatten(&doc).unwrap();
    assert_eq!(keys, ["b.y", "b.x", "a"]);
    assert_eq!(values, ["2", "false", "1"]);
}

#[test]
fn flatten_rejects_root_that_is_not_a_mapping() {
    assert_eq!(flatten(&text("just a scalar")), Err(FlattenError::RootNotMapping));
    assert_eq!(flatten(&Node::Integer(3)), Err(FlattenError::RootNotMapping));
    assert_eq!(
        flatten(&Node::Sequence(vec![mapping(vec![("a", Node::Integer(1))])])),
        Err(FlattenError::RootNotMapping)
    );
}

#[test]
fn flatten_empty_root_mapping_gives_nothing() {
    let (keys, values) = flatten(&Node::Mapping(Vec::new())).unwrap();
    assert!(keys.is_empty());
    assert!(values.is_empty());
}

#[test]
fn flatten_rejects_non_string_keys() {
    let root = Node::Mapping(vec![(Node::Integer(1), text("v"))]);
    assert_eq!(flatten(&root), Err(FlattenError::NonStringKey));
    let nested = mapping(vec![
        ("ok", text("v")),
        ("inner", Node::Mapping(vec![(Node::Bool(true), text("v"))])),
    ]);
    assert_eq!(flatten(&nested), Err(FlattenError::NonStringKey));
    let in_sequence = mapping(vec![(
        "list",
        Node::Sequence(vec![Node::Mapping(vec![(Node::Unsupported, text("v"))])]),
    )]);
    assert_eq!(flatten(&in_sequence), Err(FlattenError::NonStringKey));
}

#[test]
fn root_entry_handler_needs_a_string_key() {
    let mut keys: Vec<String> = Vec::new();
    let mut values: Vec<String> = Vec::new();
    let r = handle_all_root_value_types(&Node::Integer(5), &text("v"), &mut keys, &mut values);
    assert_eq!(r, Err(FlattenError::NonStringKey));
    let r = handle_all_root_value_types(&text("k"), &Node::Integer(5), &mut keys, &mut values);
    assert_eq!(r, Ok(()));
    assert_eq!(keys, ["k"]);
    assert_eq!(values, ["5"]);
}
