use openapi_snapshot::errors::AppError;
use openapi_snapshot::fetch::parse_json;
use openapi_snapshot::json::Json;
use openapi_snapshot::outline::{
    is_http_method, outline_openapi, outline_query_param, outline_query_params,
    outline_request_body, outline_responses, schema_ref_or_type, select_content_schema,
    simplify_schema_definition,
};

fn doc(text: &str) -> Json {
    parse_json(text.as_bytes()).unwrap()
}

fn text(s: &str) -> Json {
    Json::Str(s.to_string())
}

fn outline_error(r: Result<Json, AppError>) -> String {
    let err = r.unwrap_err();
    assert!(matches!(err, AppError::Outline(_)));
    assert_eq!(err.exit_code(), 3);
    err.message()
}

#[test]
fn outline_openapi_creates_minimal_shape() {
    let input = doc(
        r##"{
            "openapi": "3.0.3",
            "paths": {
                "/health": {
                    "get": {
                        "responses": {
                            "200": {
                                "description": "OK",
                                "content": {
                                    "application/json": {
                                        "schema": { "$ref": "#/components/schemas/HealthResponse" }
                                    }
                                }
                            }
                        }
                    }
                }
            },
            "components": {
                "schemas": {
                    "HealthResponse": {
                        "type": "object",
                        "required": ["status"],
                        "properties": {
                            "status": { "type": "string" }
                        }
                    }
                }
            }
        }"##,
    );

    let output = outline_openapi(&input).unwrap();
    let responses = output
        .get("paths")
        .unwrap()
        .get("/health")
        .unwrap()
        .get("get")
        .unwrap()
        .get("responses")
        .unwrap()
        .get("200")
        .unwrap()
        .as_str()
        .unwrap();
    assert_eq!(responses, "#/components/schemas/HealthResponse");

    let status = output
        .get("schemas")
        .unwrap()
        .get("HealthResponse")
        .unwrap()
        .get("properties")
        .unwrap()
        .get("status")
        .unwrap()
        .as_str()
        .unwrap();
    assert_eq!(status, "string");
}

#[test]
fn outline_of_the_whole_document_is_exact() {
    let input = doc(
        r##"{"openapi":"3.0.3","info":{"title":"x"},"paths":{"/pets":{"summary":"s","get":{"parameters":[{"name":"limit","in":"query","schema":{"type":"integer"}}],"responses":{"200":{"content":{"application/json":{"schema":{"type":"array","items":{"$ref":"#/components/schemas/Pet"}}}}}}},"post":{"requestBody":{"content":{"text/plain":{},"application/xml":{"schema":{"$ref":"#/components/schemas/Pet"}}}},"responses":{"201":{"$ref":"#/components/responses/Created"}}}}},"components":{"schemas":{"Pet":{"required":["id"],"properties":{"id":{"type":"integer"},"tag":{"oneOf":[{"type":"string"},{"$ref":"#/components/schemas/Tag"}]}}},"Tag":{"type":"string"},"Alias":{"$ref":"#/components/schemas/Pet"}}}}"##,
    );
    let expected = doc(
        r##"{"paths":{"/pets":{"get":{"query":[{"name":"limit","required":false,"schema":"integer"}],"request":null,"responses":{"200":{"type":"array","items":"#/components/schemas/Pet"}}},"post":{"query":[],"request":"#/components/schemas/Pet","responses":{"201":"#/components/responses/Created"}}}},"schemas":{"Pet":{"type":"object","required":["id"],"properties":{"id":"integer","tag":{"oneOf":["string","#/components/schemas/Tag"]}}},"Tag":{"type":"string"},"Alias":{"$ref":"#/components/schemas/Pet"}}}"##,
    );
    assert_eq!(outline_openapi(&input).unwrap(), expected);
}

#[test]
fn outline_needs_an_object_with_paths() {
    assert_eq!(
        outline_error(outline_openapi(&doc("[1]"))),
        "OpenAPI document must be a JSON object"
    );
    assert_eq!(
        outline_error(outline_openapi(&doc(r#"{"openapi":"3.0.3"}"#))),
        "OpenAPI document missing paths"
    );
    assert_eq!(
        outline_error(outline_openapi(&doc(r#"{"paths":[]}"#))),
        "OpenAPI document missing paths"
    );
}

#[test]
fn outline_without_components_has_an_empty_catalogue() {
    let output = outline_openapi(&doc(r#"{"paths":{"/health":{}}}"#)).unwrap();
    assert_eq!(output, doc(r#"{"paths":{"/health":{}},"schemas":{}}"#));
}

#[test]
fn outline_names_the_offending_path_and_operation() {
    assert_eq!(
        outline_error(outline_openapi(&doc(r#"{"paths":{"/a":{},"/b":7}}"#))),
        "path item must be an object: /b"
    );
    assert_eq!(
        outline_error(outline_openapi(&doc(r#"{"paths":{"/a":{"put":"x"}}}"#))),
        "operation must be an object: /a put"
    );
}

#[test]
fn outline_passes_over_keys_that_name_no_method() {
    let output =
        outline_openapi(&doc(r#"{"paths":{"/a":{"parameters":7,"x-note":"n","GET":1}}}"#)).unwrap();
    assert_eq!(output, doc(r#"{"paths":{"/a":{}},"schemas":{}}"#));
}

#[test]
fn reference_schema_projects_to_its_target_everywhere() {
    let schema = doc(r##"{"$ref":"#/components/schemas/Foo"}"##);
    assert_eq!(schema_ref_or_type(&schema).unwrap(), text("#/components/schemas/Foo"));

    let op = doc(
        r##"{"parameters":[{"name":"q","in":"query","schema":{"$ref":"#/components/schemas/Foo"}}],"requestBody":{"content":{"application/json":{"schema":{"$ref":"#/components/schemas/Foo"}}}},"responses":{"200":{"content":{"application/json":{"schema":{"$ref":"#/components/schemas/Foo"}}}}}}"##,
    );
    assert_eq!(
        outline_query_params(&op).unwrap(),
        doc(r##"[{"name":"q","required":false,"schema":"#/components/schemas/Foo"}]"##)
    );
    assert_eq!(outline_request_body(&op).unwrap(), text("#/components/schemas/Foo"));
    assert_eq!(
        outline_responses(&op).unwrap(),
        doc(r##"{"200":"#/components/schemas/Foo"}"##)
    );
}

#[test]
fn header_parameter_is_an_error() {
    let op = doc(
        r#"{"parameters":[{"name":"q","in":"query","schema":{"type":"string"}},{"name":"X-Trace","in":"header","schema":{"type":"string"}}],"responses":{}}"#,
    );
    assert_eq!(outline_error(outline_query_params(&op)), "non-query parameter");
    let whole = doc(
        r#"{"paths":{"/a":{"get":{"parameters":[{"name":"X-Trace","in":"header","schema":{"type":"string"}}],"responses":{}}}}}"#,
    );
    assert_eq!(outline_error(outline_openapi(&whole)), "non-query parameter");
}

#[test]
fn array_schema_without_items_is_an_error() {
    let schema = doc(r#"{"type":"array"}"#);
    assert_eq!(outline_error(schema_ref_or_type(&schema)), "array schema missing items");
    assert_eq!(outline_error(simplify_schema_definition(&schema)), "array schema missing items");
    let whole = doc(r#"{"paths":{},"components":{"schemas":{"List":{"type":"array"}}}}"#);
    assert_eq!(outline_error(outline_openapi(&whole)), "array schema missing items");
}

#[test]
fn query_parameter_rules() {
    assert_eq!(
        outline_query_param(&doc(r##"{"$ref":"#/components/parameters/Limit"}"##)).unwrap(),
        doc(r##"{"$ref":"#/components/parameters/Limit"}"##)
    );
    assert_eq!(
        outline_query_param(&doc(
            r#"{"name":"limit","in":"query","required":true,"schema":{"type":"integer"}}"#
        ))
        .unwrap(),
        doc(r#"{"name":"limit","required":true,"schema":"integer"}"#)
    );
    assert_eq!(
        outline_query_param(&doc(
            r#"{"name":"limit","in":"query","required":"yes","schema":{"type":"integer"}}"#
        ))
        .unwrap(),
        doc(r#"{"name":"limit","required":false,"schema":"integer"}"#)
    );
    assert_eq!(outline_error(outline_query_param(&doc("7"))), "parameter must be an object");
    assert_eq!(
        outline_error(outline_query_param(&doc(r#"{"name":"limit"}"#))),
        "non-query parameter"
    );
    assert_eq!(
        outline_error(outline_query_param(&doc(r#"{"in":"query","name":""}"#))),
        "query parameter missing name"
    );
    assert_eq!(
        outline_error(outline_query_param(&doc(r#"{"in":"query","name":"limit"}"#))),
        "query parameter missing schema"
    );
    assert_eq!(
        outline_error(outline_query_param(&doc(
            r#"{"in":"query","name":"limit","schema":{"type":"array"}}"#
        ))),
        "array schema missing items"
    );
}

#[test]
fn query_without_parameters_is_empty() {
    assert_eq!(outline_query_params(&doc("{}")).unwrap(), doc("[]"));
    assert_eq!(outline_query_params(&doc(r#"{"parameters":{}}"#)).unwrap(), doc("[]"));
}

#[test]
fn request_body_rules() {
    assert_eq!(outline_request_body(&doc("{}")).unwrap(), Json::Null);
    assert_eq!(
        outline_request_body(&doc(r##"{"requestBody":{"$ref":"#/components/requestBodies/B"}}"##))
            .unwrap(),
        text("#/components/requestBodies/B")
    );
    assert_eq!(
        outline_error(outline_request_body(&doc(r#"{"requestBody":{"content":[]}}"#))),
        "request body content must be an object"
    );
    assert_eq!(
        outline_error(outline_request_body(&doc(r#"{"requestBody":{}}"#))),
        "request body content must be an object"
    );
    assert_eq!(
        outline_error(outline_request_body(&doc(
            r#"{"requestBody":{"content":{"text/plain":{}}}}"#
        ))),
        "request body missing schema"
    );
}

#[test]
fn content_schema_prefers_json() {
    let content = doc(
        r#"{"text/plain":{"schema":{"type":"string"}},"application/json":{"schema":{"type":"integer"}}}"#,
    );
    let picked = select_content_schema(content.as_object().unwrap()).unwrap();
    assert_eq!(picked, &doc(r#"{"type":"integer"}"#));

    let fallback = doc(
        r#"{"application/json":{},"text/plain":{"schema":{"type":"string"}},"text/csv":{"schema":{"type":"boolean"}}}"#,
    );
    let picked = select_content_schema(fallback.as_object().unwrap()).unwrap();
    assert_eq!(picked, &doc(r#"{"type":"string"}"#));

    let none = doc(r#"{"text/plain":{}}"#);
    assert!(select_content_schema(none.as_object().unwrap()).is_none());
}

#[test]
fn responses_rules() {
    assert_eq!(outline_error(outline_responses(&doc("{}"))), "operation missing responses");
    assert_eq!(
        outline_error(outline_responses(&doc(r#"{"responses":{"204":{"description":"gone"}}}"#))),
        "response content must be an object: 204"
    );
    assert_eq!(
        outline_error(outline_responses(&doc(
            r#"{"responses":{"200":{"content":{"text/plain":{}}}}}"#
        ))),
        "response missing schema: 200"
    );
    assert_eq!(
        outline_responses(&doc(
            r##"{"responses":{"200":{"content":{"application/json":{"schema":{"type":"string"}}}},"404":{"$ref":"#/components/responses/NotFound"}}}"##
        ))
        .unwrap(),
        doc(r##"{"200":"string","404":"#/components/responses/NotFound"}"##)
    );
}

#[test]
fn schema_projection_rules() {
    assert_eq!(schema_ref_or_type(&doc(r#"{"type":"string"}"#)).unwrap(), text("string"));
    assert_eq!(
        schema_ref_or_type(&doc(r#"{"type":"array","items":{"type":"integer"}}"#)).unwrap(),
        doc(r#"{"type":"array","items":"integer"}"#)
    );
    assert_eq!(
        schema_ref_or_type(&doc(r##"{"allOf":[{"$ref":"#/a"},{"type":"object"}]}"##)).unwrap(),
        doc(r##"{"allOf":["#/a",{"type":"object"}]}"##)
    );
    assert_eq!(
        schema_ref_or_type(&doc(r##"{"anyOf":[{"type":"string"}]}"##)).unwrap(),
        doc(r##"{"anyOf":["string"]}"##)
    );
    assert_eq!(
        schema_ref_or_type(&doc(
            r#"{"properties":{"id":{"type":"integer"}},"required":["id"],"description":"d"}"#
        ))
        .unwrap(),
        doc(r#"{"type":"object","required":["id"],"properties":{"id":"integer"}}"#)
    );
    assert_eq!(outline_error(schema_ref_or_type(&doc("true"))), "schema missing type");
    assert_eq!(
        outline_error(schema_ref_or_type(&doc(r#"{"type":"object","required":["a",1]}"#))),
        "schema required must be an array of strings"
    );
    assert_eq!(
        outline_error(schema_ref_or_type(&doc(r#"{"type":"object","required":"a"}"#))),
        "schema required must be an array of strings"
    );
    assert_eq!(
        outline_error(schema_ref_or_type(&doc(r#"{"type":"object","properties":[]}"#))),
        "schema properties must be an object"
    );
    assert_eq!(
        outline_error(schema_ref_or_type(&doc(r#"{"oneOf":[{"type":"string"},3]}"#))),
        "schema missing type"
    );
}

#[test]
fn named_schemas_keep_their_structure() {
    assert_eq!(
        simplify_schema_definition(&doc(r##"{"$ref":"#/components/schemas/Pet"}"##)).unwrap(),
        doc(r##"{"$ref":"#/components/schemas/Pet"}"##)
    );
    assert_eq!(
        simplify_schema_definition(&doc(r#"{"type":"string","format":"date"}"#)).unwrap(),
        doc(r#"{"type":"string"}"#)
    );
    assert_eq!(
        simplify_schema_definition(&doc(r#"{"description":"bare"}"#)).unwrap(),
        doc(r#"{"type":"object"}"#)
    );
    assert_eq!(outline_error(simplify_schema_definition(&doc("null"))), "schema missing type");
}

#[test]
fn http_methods_are_the_eight_lowercase_names() {
    for method in ["get", "post", "put", "patch", "delete", "options", "head", "trace"] {
        assert!(is_http_method(method));
    }
    assert!(!is_http_method("GET"));
    assert!(!is_http_method("parameters"));
    assert!(!is_http_method(""));
}

#[test]
fn accessors_tell_the_kinds_apart() {
    let value = doc(r#"{"s":"x","b":true,"a":[1],"o":{"k":null}}"#);
    assert_eq!(value.get_str("s"), Some("x"));
    assert_eq!(value.get_str("b"), None);
    assert_eq!(value.get_str("missing"), None);
    assert_eq!(value.get_array("a").unwrap().len(), 1);
    assert!(value.get_array("o").is_none());
    assert_eq!(value.get_object("o").unwrap().len(), 1);
    assert!(value.get_object("a").is_none());
    assert_eq!(value.get("b").unwrap().as_bool(), Some(true));
    assert_eq!(value.get("s").unwrap().as_bool(), None);
    assert!(value.as_array().is_none());
    assert!(value.as_str().is_none());
    assert_eq!(Json::string("x"), text("x"));
    assert_eq!(Json::array(vec![Json::Null]), doc("[null]"));
    assert_eq!(Json::object(vec![("k".to_string(), Json::Bool(false))]), doc(r#"{"k":false}"#));
}
