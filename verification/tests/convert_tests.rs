use openapi_mcp::convert::convert_schema;
use openapi_mcp::json::{to_text, JsonValue};
use openapi_mcp::model::{
    Components, Document, MediaType, Operation, ParamLocation, Parameter, ParameterOrRef,
    PathItem, RequestBody, RequestBodyOrRef, Response, ResponseOrRef, Responses, Schema,
    SchemaKind, SchemaOrRef,
};
use openapi_mcp::operation::{
    build_input_schema, convert_to_mcp_tools, ensure_unique_name,
};

fn s(x: &str) -> String {
    x.to_string()
}

fn bare_schema(kind: SchemaKind) -> Schema {
    Schema { kind, description: None, default: None, enum_values: None }
}

fn string_schema() -> SchemaOrRef {
    SchemaOrRef::Item(bare_schema(SchemaKind::StringType { format: None }))
}

fn path_param(name: &str, required: bool) -> ParameterOrRef {
    ParameterOrRef::Item(Parameter {
        location: ParamLocation::Path,
        name: s(name),
        description: None,
        required,
        schema: Some(string_schema()),
    })
}

fn query_param(name: &str, required: bool) -> ParameterOrRef {
    ParameterOrRef::Item(Parameter {
        location: ParamLocation::Query,
        name: s(name),
        description: None,
        required,
        schema: Some(string_schema()),
    })
}

fn empty_doc() -> Document {
    Document { servers: vec![s("https://api.example.com")], paths: vec![], components: None }
}

#[test]
fn self_reference_converts_to_forward_reference() {
    let node_schema = bare_schema(SchemaKind::Object {
        properties: vec![(
            s("next"),
            SchemaOrRef::Reference { reference: s("#/components/schemas/Node") },
        )],
        required: vec![],
        additional_properties: None,
    });
    let doc = Document {
        servers: vec![],
        paths: vec![],
        components: Some(Components {
            schemas: vec![(s("Node"), SchemaOrRef::Item(node_schema))],
            parameters: vec![],
            request_bodies: vec![],
            responses: vec![],
        }),
    };
    let start = SchemaOrRef::Reference { reference: s("#/components/schemas/Node") };
    let (converted, _visited) = convert_schema(&doc, &start, Vec::new(), true);
    assert_eq!(
        to_text(&converted),
        "{\"type\":\"object\",\"properties\":{\"next\":{\"$ref\":\"#/$defs/Node\"}},\"additionalProperties\":true}"
    );
}

#[test]
fn unresolvable_reference_degrades_to_forward_reference() {
    let doc = empty_doc();
    let start = SchemaOrRef::Reference { reference: s("#/components/schemas/Missing") };
    let (converted, _visited) = convert_schema(&doc, &start, Vec::new(), true);
    assert_eq!(to_text(&converted), "{\"$ref\":\"#/$defs/Missing\"}");
}

#[test]
fn reference_is_kept_compact_without_full_resolution() {
    let doc = empty_doc();
    let start = SchemaOrRef::Reference { reference: s("#/components/schemas/Node") };
    let (converted, _visited) = convert_schema(&doc, &start, Vec::new(), false);
    assert_eq!(to_text(&converted), "{\"$ref\":\"#/$defs/Node\"}");
}

#[test]
fn binary_string_schema_becomes_uri_reference() {
    let doc = empty_doc();
    let schema = SchemaOrRef::Item(bare_schema(SchemaKind::StringType {
        format: Some(s("binary")),
    }));
    let (converted, _visited) = convert_schema(&doc, &schema, Vec::new(), false);
    assert_eq!(
        to_text(&converted),
        "{\"type\":\"string\",\"format\":\"uri-reference\",\"description\":\"absolute paths to local files\"}"
    );
}

#[test]
fn required_parameter_is_propagated_and_optional_is_not() {
    let doc = empty_doc();
    let op = Operation {
        operation_id: Some(s("getItem")),
        summary: None,
        description: None,
        parameters: vec![path_param("id", true), query_param("verbose", false)],
        request_body: None,
        responses: None,
    };
    let input = build_input_schema(&doc, &op);
    assert_eq!(
        to_text(&input),
        "{\"type\":\"object\",\"properties\":{\"id\":{\"type\":\"string\"},\"verbose\":{\"type\":\"string\"}},\"required\":[\"id\"]}"
    );
}

#[test]
fn json_body_object_properties_are_merged() {
    let doc = empty_doc();
    let body_schema = bare_schema(SchemaKind::Object {
        properties: vec![(s("name"), string_schema())],
        required: vec![s("name")],
        additional_properties: None,
    });
    let op = Operation {
        operation_id: Some(s("createItem")),
        summary: None,
        description: None,
        parameters: vec![],
        request_body: Some(RequestBodyOrRef::Item(RequestBody {
            content: vec![(
                s("application/json"),
                MediaType { schema: Some(SchemaOrRef::Item(body_schema)) },
            )],
        })),
        responses: None,
    };
    let input = build_input_schema(&doc, &op);
    let text = to_text(&input);
    assert!(text.contains("\"name\":{\"type\":\"string\"}"));
    assert!(text.contains("\"required\":[\"name\"]"));
}

#[test]
fn non_object_json_body_is_nested_under_body() {
    let doc = empty_doc();
    let op = Operation {
        operation_id: Some(s("putBlob")),
        summary: None,
        description: None,
        parameters: vec![],
        request_body: Some(RequestBodyOrRef::Item(RequestBody {
            content: vec![(s("application/json"), MediaType { schema: Some(string_schema()) })],
        })),
        responses: None,
    };
    let input = build_input_schema(&doc, &op);
    let text = to_text(&input);
    assert!(text.contains("\"body\":{\"type\":\"string\"}"));
    assert!(text.contains("\"required\":[\"body\"]"));
}

#[test]
fn long_colliding_names_stay_distinct() {
    let long_a: String = "a".repeat(70);
    let long_b: String = "a".repeat(70);
    let (n1, c1) = ensure_unique_name(&long_a, 0);
    let (n2, _c2) = ensure_unique_name(&long_b, c1);
    assert_ne!(n1, n2);
    assert!(n1.ends_with("-0001"));
    assert!(n2.ends_with("-0002"));
    assert_eq!(n1.chars().count(), 64);
}

#[test]
fn short_names_are_never_rewritten() {
    let (n, c) = ensure_unique_name("shortName", 7);
    assert_eq!(n, "shortName");
    assert_eq!(c, 7);
}

#[test]
fn operation_without_identifier_is_skipped() {
    let op = Operation {
        operation_id: None,
        summary: Some(s("unnamed")),
        description: None,
        parameters: vec![],
        request_body: None,
        responses: None,
    };
    let doc = Document {
        servers: vec![],
        paths: vec![(
            s("/anon"),
            PathItem { get: Some(op), post: None, put: None, delete: None, patch: None },
        )],
        components: None,
    };
    let result = convert_to_mcp_tools(&doc);
    assert_eq!(result.tools.len(), 1);
    assert_eq!(result.tools[0].0, "API");
    assert!(result.tools[0].1.methods.is_empty());
    assert!(result.openapi_lookup.is_empty());
}

#[test]
fn test_openapi_parser() {
    let op = Operation {
        operation_id: Some(s("testOperation")),
        summary: Some(s("Test operation")),
        description: None,
        parameters: vec![],
        request_body: None,
        responses: None,
    };
    let doc = Document {
        servers: vec![s("https://api.example.com")],
        paths: vec![(
            s("/test"),
            PathItem { get: Some(op), post: None, put: None, delete: None, patch: None },
        )],
        components: None,
    };
    let result = convert_to_mcp_tools(&doc);
    assert!(!result.tools.is_empty());
    assert!(!result.openapi_lookup.is_empty());
    assert_eq!(result.openapi_lookup[0].0, "API-testOperation");
    assert_eq!(result.openapi_lookup[0].1.method, "get");
    assert_eq!(result.openapi_lookup[0].1.path, "/test");
    assert_eq!(result.tools[0].1.methods[0].description, "Test operation");
}

#[test]
fn error_responses_are_compiled_into_description() {
    let op = Operation {
        operation_id: Some(s("listThings")),
        summary: Some(s("Lists things")),
        description: None,
        parameters: vec![],
        request_body: None,
        responses: Some(Responses {
            responses: vec![
                (
                    s("200"),
                    ResponseOrRef::Item(Response { description: s("ok"), content: vec![] }),
                ),
                (
                    s("404"),
                    ResponseOrRef::Item(Response { description: s("missing"), content: vec![] }),
                ),
                (
                    s("500"),
                    ResponseOrRef::Item(Response { description: s("broken"), content: vec![] }),
                ),
            ],
        }),
    };
    let doc = empty_doc();
    let method = openapi_mcp::operation::convert_operation_to_mcp_method(&doc, &op).unwrap();
    assert_eq!(
        method.description,
        "Lists things\nError Responses:\n404: missing\n500: broken"
    );
    let ret = method.return_schema.unwrap();
    assert_eq!(to_text(&ret), "{\"type\":\"string\",\"description\":\"ok\"}");
}

#[test]
fn enum_and_default_are_carried_over() {
    let doc = empty_doc();
    let schema = SchemaOrRef::Item(Schema {
        kind: SchemaKind::StringType { format: None },
        description: Some(s("a color")),
        default: Some(JsonValue::Str(s("red"))),
        enum_values: Some(vec![JsonValue::Str(s("red")), JsonValue::Str(s("blue"))]),
    });
    let (converted, _visited) = convert_schema(&doc, &schema, Vec::new(), false);
    assert_eq!(
        to_text(&converted),
        "{\"type\":\"string\",\"description\":\"a color\",\"default\":\"red\",\"enum\":[\"red\",\"blue\"]}"
    );
}
