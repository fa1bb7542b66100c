use openapi_snapshot::cli::OutputProfile;
use openapi_snapshot::output::{
    build_documents, plan_writes, serialize_json, temp_file_name, WritePlan,
};
use openapi_snapshot::{
    build_output, build_outputs, parse_json, reduce_openapi, AppError, Config, Json,
    OutputPayloads, ReduceKey,
};
use std::path::PathBuf;

fn doc(text: &str) -> Json {
    parse_json(text.as_bytes()).unwrap()
}

fn config() -> Config {
    Config {
        url: "http://localhost:3000/api-docs/openapi.json".to_string(),
        url_from_default: true,
        out: Some(PathBuf::from("openapi.min.json")),
        outline_out: None,
        reduce: Vec::new(),
        profile: OutputProfile::Full,
        minify: false,
        timeout_ms: 10_000,
        headers: Vec::new(),
        stdout: false,
    }
}

#[test]
fn lib_reduce_openapi_keeps_only_requested_keys() {
    let input = doc(r#"{"paths": {"x": 1}, "components": {"y": 2}, "extra": {"z": 3}}"#);
    let output = reduce_openapi(input, &[ReduceKey::Components]).unwrap();
    assert!(output.get("paths").is_none());
    assert!(output.get("components").is_some());
    assert!(output.get("extra").is_none());
}

#[test]
fn lib_reduce_openapi_missing_key_is_error() {
    let input = doc(r#"{"paths": {"x": 1}}"#);
    let err = reduce_openapi(input, &[ReduceKey::Components]).unwrap_err();
    assert!(matches!(err, AppError::Reduce(_)));
}

#[test]
fn output_reduce_openapi_keeps_only_requested_keys() {
    let input = doc(r#"{"paths": {"x": 1}, "components": {"y": 2}, "extra": {"z": 3}}"#);
    let output = reduce_openapi(input, &[ReduceKey::Components]).unwrap();
    assert!(output.get("paths").is_none());
    assert!(output.get("components").is_some());
    assert!(output.get("extra").is_none());
}

#[test]
fn output_reduce_openapi_missing_key_is_error() {
    let input = doc(r#"{"paths": {"x": 1}}"#);
    let err = reduce_openapi(input, &[ReduceKey::Components]).unwrap_err();
    assert!(matches!(err, AppError::Reduce(_)));
}

#[test]
fn reduce_openapi_requires_object() {
    let input = doc(r#"["not an object"]"#);
    let err = reduce_openapi(input, &[ReduceKey::Components]).unwrap_err();
    assert!(matches!(err, AppError::Reduce(_)));
}

#[test]
fn reduce_error_messages() {
    let err = reduce_openapi(doc("[1]"), &[ReduceKey::Paths]).unwrap_err();
    assert_eq!(err.message(), "OpenAPI document must be a JSON object");
    let err = reduce_openapi(doc(r#"{"paths":{}}"#), &[ReduceKey::Components]).unwrap_err();
    assert_eq!(err.message(), "missing top-level key: components");
    let err = reduce_openapi(
        doc(r#"{"info":{}}"#),
        &[ReduceKey::Paths, ReduceKey::Components],
    )
    .unwrap_err();
    assert_eq!(err.message(), "missing top-level key: paths");
    let err = reduce_openapi(doc(r#"{"paths":{}}"#), &[]).unwrap_err();
    assert!(matches!(err, AppError::Reduce(_)));
    assert_eq!(err.message(), "reduce list cannot be empty");
}

#[test]
fn reduce_keeps_the_order_of_the_keys() {
    let input = doc(r#"{"paths":{"a":1},"info":{},"components":{"b":[2,3.5,-4]}}"#);
    let output =
        reduce_openapi(input.clone(), &[ReduceKey::Components, ReduceKey::Paths]).unwrap();
    assert_eq!(
        serialize_json(&output, true).unwrap(),
        r#"{"components":{"b":[2,3.5,-4]},"paths":{"a":1}}"#
    );
    let output = reduce_openapi(input, &[ReduceKey::Paths, ReduceKey::Components]).unwrap();
    assert_eq!(
        serialize_json(&output, true).unwrap(),
        r#"{"paths":{"a":1},"components":{"b":[2,3.5,-4]}}"#
    );
}

#[test]
fn reduce_is_idempotent() {
    let keys = [ReduceKey::Components, ReduceKey::Paths];
    let input = doc(r#"{"paths":{"a":1},"info":{},"components":{"b":null}}"#);
    let once = reduce_openapi(input, &keys).unwrap();
    let twice = reduce_openapi(once.clone(), &keys).unwrap();
    assert_eq!(once, twice);
}

#[test]
fn reduce_takes_a_repeated_key_once() {
    let input = doc(r#"{"paths":{"a":1},"components":{}}"#);
    let output = reduce_openapi(
        input,
        &[ReduceKey::Paths, ReduceKey::Components, ReduceKey::Paths],
    )
    .unwrap();
    assert_eq!(output, doc(r#"{"paths":{"a":1},"components":{}}"#));
}

#[test]
fn parse_json_wraps_the_decoder_message() {
    let err = parse_json(b"not-json").unwrap_err();
    assert!(matches!(err, AppError::Json(_)));
    assert_eq!(err.exit_code(), 2);
    let message = err.message();
    assert!(message.starts_with("invalid JSON: "));
    assert!(message.len() > "invalid JSON: ".len());
}

#[test]
fn parse_json_reads_every_kind_of_value() {
    let value = doc(r#"{"n":null,"t":true,"s":"text","a":[1,"x"],"o":{"k":false}}"#);
    assert_eq!(value.get("n"), Some(&Json::Null));
    assert_eq!(value.get("t").unwrap().as_bool(), Some(true));
    assert_eq!(value.get("s").unwrap().as_str(), Some("text"));
    let items = value.get("a").unwrap().as_array().unwrap();
    assert_eq!(items.len(), 2);
    assert_eq!(items[0], Json::Number(serde_json::Number::from(1u64)));
    assert_eq!(items[1], Json::Str("x".to_string()));
    assert_eq!(value.get("o").unwrap().get("k"), Some(&Json::Bool(false)));
    assert_eq!(value.get("missing"), None);
    assert_eq!(value.get("s").unwrap().get("k"), None);
    let keys: Vec<&str> =
        value.as_object().unwrap().iter().map(|member| member.0.as_str()).collect();
    assert_eq!(keys, vec!["n", "t", "s", "a", "o"]);
}

#[test]
fn serialize_json_is_compact_or_indented() {
    let value = doc(r#"{"b":[1,2],"a":{"c":"d"}}"#);
    assert_eq!(serialize_json(&value, true).unwrap(), r#"{"b":[1,2],"a":{"c":"d"}}"#);
    assert_eq!(
        serialize_json(&value, false).unwrap(),
        "{\n  \"b\": [\n    1,\n    2\n  ],\n  \"a\": {\n    \"c\": \"d\"\n  }\n}"
    );
}

#[test]
fn json_clone_is_deep() {
    let value = doc(r#"{"b":[1,{"x":[true,null]}],"a":{"c":"d"}}"#);
    assert_eq!(value.clone(), value);
}

#[test]
fn writes_pretty_output_by_default() {
    let body = r#"{"openapi":"3.0.3","paths":{"/health":{}},"components":{}}"#;
    let contents = build_output(&config(), body.as_bytes()).unwrap();
    assert!(contents.contains('\n'));
    let parsed = doc(&contents);
    assert!(parsed.get("paths").is_some());
}

#[test]
fn reduces_output_to_paths_and_components() {
    let body = r#"{"openapi":"3.0.3","paths":{"/health":{}},"components":{"schemas":{}},"info":{"title":"x"}}"#;
    let mut cfg = config();
    cfg.reduce = vec![ReduceKey::Paths, ReduceKey::Components];
    let contents = build_output(&cfg, body.as_bytes()).unwrap();
    let parsed = doc(&contents);
    assert!(parsed.get("paths").is_some());
    assert!(parsed.get("components").is_some());
    assert!(parsed.get("info").is_none());
}

#[test]
fn reduce_over_full_profile_has_exactly_the_keys_in_order() {
    let body = r#"{"openapi":"3.0.3","paths":{"/health":{}},"components":{}}"#;
    let mut cfg = config();
    cfg.minify = true;
    cfg.reduce = vec![ReduceKey::Paths, ReduceKey::Components];
    let outputs = build_outputs(&cfg, body.as_bytes()).unwrap();
    assert_eq!(outputs.primary, r#"{"paths":{"/health":{}},"components":{}}"#);
    assert_eq!(outputs.outline, None);
    let parsed = doc(&outputs.primary);
    let keys: Vec<&str> =
        parsed.as_object().unwrap().iter().map(|member| member.0.as_str()).collect();
    assert_eq!(keys, vec!["paths", "components"]);
}

#[test]
fn outline_profile_outputs_paths_and_schemas_only() {
    let body = r##"{"openapi":"3.0.3","info":{"title":"x"},"paths":{"/health":{"get":{"responses":{"200":{"content":{"application/json":{"schema":{"$ref":"#/components/schemas/HealthResponse"}}}}}}}},"components":{"schemas":{"HealthResponse":{"type":"object","properties":{"status":{"type":"string"}},"required":["status"]}}}}"##;
    let mut cfg = config();
    cfg.profile = OutputProfile::Outline;
    let contents = build_output(&cfg, body.as_bytes()).unwrap();
    let parsed = doc(&contents);
    assert!(parsed.get("paths").is_some());
    assert!(parsed.get("schemas").is_some());
    assert!(parsed.get("components").is_none());
    assert!(parsed.get("info").is_none());
}

#[test]
fn invalid_json_returns_exit_code_2() {
    let err = build_outputs(&config(), b"not-json").unwrap_err();
    assert_eq!(err.exit_code(), 2);
}

#[test]
fn reduce_missing_key_returns_exit_code_3() {
    let mut cfg = config();
    cfg.reduce = vec![ReduceKey::Components];
    let err = build_outputs(&cfg, br#"{"openapi":"3.0.3","paths":{}}"#).unwrap_err();
    assert_eq!(err.exit_code(), 3);
    assert!(matches!(err, AppError::Reduce(_)));
    assert!(err.message().contains("components"));
}

#[test]
fn minify_true_writes_single_line() {
    let mut cfg = config();
    cfg.minify = true;
    let contents = build_output(&cfg, br#"{"openapi":"3.0.3","paths":{}}"#).unwrap();
    assert!(!contents.contains('\n'));
}

#[test]
fn both_payloads_come_from_one_document() {
    let body = r#"{"openapi":"3.0.3","paths":{"/health":{}},"components":{"schemas":{"A":{"type":"string"}}},"info":{}}"#;
    let mut cfg = config();
    cfg.minify = true;
    cfg.reduce = vec![ReduceKey::Paths];
    cfg.outline_out = Some(PathBuf::from("outline.json"));
    let outputs = build_outputs(&cfg, body.as_bytes()).unwrap();
    assert_eq!(outputs.primary, r#"{"paths":{"/health":{}}}"#);
    assert_eq!(
        outputs.outline.unwrap(),
        r#"{"paths":{"/health":{}},"schemas":{"A":{"type":"string"}}}"#
    );
}

#[test]
fn outline_failure_leaves_no_partial_output() {
    let mut cfg = config();
    cfg.outline_out = Some(PathBuf::from("outline.json"));
    let err = build_outputs(&cfg, br#"{"openapi":"3.0.3"}"#).unwrap_err();
    assert!(matches!(err, AppError::Outline(_)));
    assert_eq!(err.message(), "OpenAPI document missing paths");
    cfg.outline_out = None;
    assert!(build_outputs(&cfg, br#"{"openapi":"3.0.3"}"#).is_ok());
}

#[test]
fn documents_follow_the_profile() {
    let input = doc(r#"{"paths":{},"x":1}"#);
    let docs = build_documents(&config(), &input).unwrap();
    assert_eq!(docs.primary, input);
    assert!(docs.outline.is_none());
    let mut cfg = config();
    cfg.profile = OutputProfile::Outline;
    let docs = build_documents(&cfg, &input).unwrap();
    assert_eq!(docs.primary, doc(r#"{"paths":{},"schemas":{}}"#));
    assert!(docs.outline.is_none());
}

#[test]
fn plan_goes_to_stdout_or_to_files() {
    let outputs = OutputPayloads { primary: "p".to_string(), outline: Some("o".to_string()) };
    let mut cfg = config();
    cfg.outline_out = Some(PathBuf::from("outline.json"));
    match plan_writes(&cfg, &outputs).unwrap() {
        WritePlan::Files(files) => assert_eq!(
            files,
            vec![
                (PathBuf::from("openapi.min.json"), "p".to_string()),
                (PathBuf::from("outline.json"), "o".to_string()),
            ]
        ),
        WritePlan::Stdout(_) => panic!("files expected"),
    }
    cfg.outline_out = None;
    match plan_writes(&cfg, &outputs).unwrap() {
        WritePlan::Files(files) => {
            assert_eq!(files, vec![(PathBuf::from("openapi.min.json"), "p".to_string())])
        }
        WritePlan::Stdout(_) => panic!("files expected"),
    }
    cfg.stdout = true;
    match plan_writes(&cfg, &outputs).unwrap() {
        WritePlan::Stdout(text) => assert_eq!(text, "p"),
        WritePlan::Files(_) => panic!("stdout expected"),
    }
    cfg.stdout = false;
    cfg.out = None;
    let err = plan_writes(&cfg, &outputs).unwrap_err();
    assert!(matches!(err, AppError::Usage(_)));
    assert_eq!(err.message(), "--out is required unless --stdout is set.");
}

#[test]
fn temp_file_is_named_after_destination_and_time() {
    assert_eq!(
        temp_file_name("openapi.min.json", 1_700_000_000_123),
        ".openapi.min.json.1700000000123.tmp"
    );
    assert_eq!(temp_file_name("openapi_snapshot", 0), ".openapi_snapshot.0.tmp");
}

#[test]
fn stdout_writes_output_without_file() {
    let mut cfg = config();
    cfg.stdout = true;
    cfg.out = None;
    let outputs = build_outputs(&cfg, br#"{"openapi":"3.0.3","paths":{}}"#).unwrap();
    match plan_writes(&cfg, &outputs).unwrap() {
        WritePlan::Stdout(text) => assert!(text.contains("openapi")),
        WritePlan::Files(_) => panic!("stdout expected"),
    }
}

#[test]
fn decoding_and_encoding_keep_the_document() {
    let text = r#"{"z":[1,-2,3.5,1e100,18446744073709551615,0.0],"a":{"b":"é\n\"q\"","":null},"m":[[],{}],"t":true}"#;
    let value = doc(text);
    let compact = serialize_json(&value, true).unwrap();
    assert_eq!(doc(&compact), value);
    let pretty = serialize_json(&value, false).unwrap();
    assert_eq!(doc(&pretty), value);
    assert_eq!(
        compact,
        "{\"z\":[1,-2,3.5,1e+100,18446744073709551615,0.0],\"a\":{\"b\":\"\u{e9}\\n\\\"q\\\"\",\"\":null},\"m\":[[],{}],\"t\":true}"
    );
}

#[test]
fn a_name_that_comes_twice_is_decoded_once() {
    let value = doc(r#"{"a":1,"b":2,"a":3}"#);
    assert_eq!(value.as_object().unwrap().len(), 2);
    assert_eq!(serialize_json(&value, true).unwrap(), r#"{"a":3,"b":2}"#);
}
