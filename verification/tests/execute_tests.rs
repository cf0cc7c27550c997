use openapi_mcp::bridge::{
    base_url_of, extract_params_from_arguments, list_tools, prepare_tool_call,
    tool_result_of_outcome, CallError, Content,
};
use openapi_mcp::execute::{
    build_request, content_type_is_json, interpret_response, BodyPlan, FormPartKind,
    HttpClientError, HttpClientResponse, HttpMethod,
};
use openapi_mcp::json::{to_text, JsonValue};
use openapi_mcp::model::{
    Document, MediaType, Operation, ParamLocation, Parameter, ParameterOrRef, PathItem,
    RequestBody, RequestBodyOrRef, Schema, SchemaKind, SchemaOrRef,
};
use openapi_mcp::operation::{convert_to_mcp_tools, OperationInfo};

fn s(x: &str) -> String {
    x.to_string()
}

fn bare_schema(kind: SchemaKind) -> Schema {
    Schema { kind, description: None, default: None, enum_values: None }
}

fn string_schema() -> SchemaOrRef {
    SchemaOrRef::Item(bare_schema(SchemaKind::StringType { format: None }))
}

fn param(location: ParamLocation, name: &str, required: bool) -> ParameterOrRef {
    ParameterOrRef::Item(Parameter {
        location,
        name: s(name),
        description: None,
        required,
        schema: Some(string_schema()),
    })
}

fn doc_for(path: &str, method: &str, op: Operation) -> Document {
    let mut item = PathItem { get: None, post: None, put: None, delete: None, patch: None };
    match method {
        "get" => item.get = Some(op),
        "post" => item.post = Some(op),
        "put" => item.put = Some(op),
        "delete" => item.delete = Some(op),
        _ => item.patch = Some(op),
    }
    Document {
        servers: vec![s("https://api.example.com")],
        paths: vec![(s(path), item)],
        components: None,
    }
}

const BASE: &str = "https://api.example.com";

#[test]
fn no_body_get_substitutes_the_path_parameter() {
    let op = Operation {
        operation_id: Some(s("getItem")),
        summary: None,
        description: None,
        parameters: vec![param(ParamLocation::Path, "id", true)],
        request_body: None,
        responses: None,
    };
    let doc = doc_for("/items/{id}", "get", op);
    let info = OperationInfo { method: s("get"), path: s("/items/{id}") };
    let args = vec![(s("id"), JsonValue::Str(s("7")))];
    let plan = build_request(&doc, &info, &args, BASE).unwrap();
    assert_eq!(plan.method, HttpMethod::Get);
    assert_eq!(plan.url, "https://api.example.com/items/7");
    assert!(matches!(plan.body, BodyPlan::Empty));
}

#[test]
fn path_and_query_parameters_are_placed_and_leave_the_body() {
    let op = Operation {
        operation_id: Some(s("getItem")),
        summary: None,
        description: None,
        parameters: vec![
            param(ParamLocation::Path, "id", true),
            param(ParamLocation::Query, "verbose", false),
        ],
        request_body: None,
        responses: None,
    };
    let doc = doc_for("/items/{id}", "get", op);
    let info = OperationInfo { method: s("get"), path: s("/items/{id}") };
    let args = vec![
        (s("id"), JsonValue::Str(s("42"))),
        (s("verbose"), JsonValue::Str(s("true"))),
    ];
    let plan = build_request(&doc, &info, &args, BASE).unwrap();
    assert_eq!(plan.url, "https://api.example.com/items/42?verbose=true");
    assert!(matches!(plan.body, BodyPlan::Empty));
}

#[test]
fn declared_json_body_post_sends_remaining_arguments_as_json() {
    let body_schema = bare_schema(SchemaKind::Object {
        properties: vec![(s("name"), string_schema())],
        required: vec![s("name")],
        additional_properties: None,
    });
    let op = Operation {
        operation_id: Some(s("createItem")),
        summary: None,
        description: None,
        parameters: vec![],
        request_body: Some(RequestBodyOrRef::Item(RequestBody {
            content: vec![(
                s("application/json"),
                MediaType { schema: Some(SchemaOrRef::Item(body_schema)) },
            )],
        })),
        responses: None,
    };
    let doc = doc_for("/items", "post", op);
    let info = OperationInfo { method: s("post"), path: s("/items") };
    let args = vec![(s("name"), JsonValue::Str(s("widget")))];
    let plan = build_request(&doc, &info, &args, BASE).unwrap();
    assert_eq!(plan.url, "https://api.example.com/items");
    match plan.body {
        BodyPlan::Json(body) => assert_eq!(to_text(&body), "{\"name\":\"widget\"}"),
        _ => panic!("expected a JSON body"),
    }
}

#[test]
fn post_without_declared_body_falls_back_to_the_query_string() {
    let op = Operation {
        operation_id: Some(s("ping")),
        summary: None,
        description: None,
        parameters: vec![],
        request_body: None,
        responses: None,
    };
    let doc = doc_for("/ping", "post", op);
    let info = OperationInfo { method: s("post"), path: s("/ping") };
    let args = vec![(s("note"), JsonValue::Str(s("hi")))];
    let plan = build_request(&doc, &info, &args, BASE).unwrap();
    assert_eq!(plan.url, "https://api.example.com/ping?note=hi");
    assert!(matches!(plan.body, BodyPlan::Empty));
}

#[test]
fn non_integer_numbers_pass_through_request_bodies_unquoted() {
    let body_schema = bare_schema(SchemaKind::Object {
        properties: vec![(s("price"), string_schema())],
        required: vec![],
        additional_properties: None,
    });
    let op = Operation {
        operation_id: Some(s("setPrice")),
        summary: None,
        description: None,
        parameters: vec![],
        request_body: Some(RequestBodyOrRef::Item(RequestBody {
            content: vec![(
                s("application/json"),
                MediaType { schema: Some(SchemaOrRef::Item(body_schema)) },
            )],
        })),
        responses: None,
    };
    let doc = doc_for("/items", "post", op);
    let info = OperationInfo { method: s("post"), path: s("/items") };
    let args = vec![(s("price"), JsonValue::NumText(s("1.5")))];
    let plan = build_request(&doc, &info, &args, BASE).unwrap();
    match plan.body {
        BodyPlan::Json(body) => assert_eq!(to_text(&body), "{\"price\":1.5}"),
        _ => panic!("expected a JSON body"),
    }
}

#[test]
fn query_values_are_percent_encoded() {
    let op = Operation {
        operation_id: Some(s("ping")),
        summary: None,
        description: None,
        parameters: vec![],
        request_body: None,
        responses: None,
    };
    let doc = doc_for("/ping", "post", op);
    let info = OperationInfo { method: s("post"), path: s("/ping") };
    let args = vec![(s("note"), JsonValue::Str(s("hi there")))];
    let plan = build_request(&doc, &info, &args, BASE).unwrap();
    assert_eq!(plan.url, "https://api.example.com/ping?note=hi%20there");
}

#[test]
fn multipart_plan_reads_file_fields_as_paths() {
    let form_schema = bare_schema(SchemaKind::Object {
        properties: vec![
            (
                s("file"),
                SchemaOrRef::Item(bare_schema(SchemaKind::StringType {
                    format: Some(s("binary")),
                })),
            ),
            (s("caption"), string_schema()),
        ],
        required: vec![],
        additional_properties: None,
    });
    let op = Operation {
        operation_id: Some(s("upload")),
        summary: None,
        description: None,
        parameters: vec![],
        request_body: Some(RequestBodyOrRef::Item(RequestBody {
            content: vec![(
                s("multipart/form-data"),
                MediaType { schema: Some(SchemaOrRef::Item(form_schema)) },
            )],
        })),
        responses: None,
    };
    let doc = doc_for("/upload", "post", op);
    let info = OperationInfo { method: s("post"), path: s("/upload") };
    let args = vec![
        (s("file"), JsonValue::Str(s("/tmp/photo.png"))),
        (s("caption"), JsonValue::Str(s("holiday"))),
    ];
    let plan = build_request(&doc, &info, &args, BASE).unwrap();
    match plan.body {
        BodyPlan::Multipart(parts) => {
            assert_eq!(parts.len(), 2);
            assert_eq!(parts[0].name, "file");
            match &parts[0].kind {
                FormPartKind::Files(files) => {
                    assert_eq!(files.len(), 1);
                    assert_eq!(files[0].path, "/tmp/photo.png");
                    assert_eq!(files[0].file_name, "photo.png");
                    assert_eq!(files[0].mime, "image/png");
                },
                _ => panic!("expected a file part"),
            }
            assert_eq!(parts[1].name, "caption");
            match &parts[1].kind {
                FormPartKind::Text(t) => assert_eq!(t, "holiday"),
                _ => panic!("expected a text part"),
            }
        },
        _ => panic!("expected a multipart body"),
    }
}

#[test]
fn awkward_upload_paths_fall_back_to_a_plain_file_name() {
    let form_schema = bare_schema(SchemaKind::Object {
        properties: vec![(
            s("file"),
            SchemaOrRef::Item(bare_schema(SchemaKind::StringType { format: Some(s("binary")) })),
        )],
        required: vec![],
        additional_properties: None,
    });
    let op = Operation {
        operation_id: Some(s("upload")),
        summary: None,
        description: None,
        parameters: vec![],
        request_body: Some(RequestBodyOrRef::Item(RequestBody {
            content: vec![(
                s("multipart/form-data"),
                MediaType { schema: Some(SchemaOrRef::Item(form_schema)) },
            )],
        })),
        responses: None,
    };
    let doc = doc_for("/upload", "post", op);
    let info = OperationInfo { method: s("post"), path: s("/upload") };
    let args = vec![(s("file"), JsonValue::Str(s("/tmp/uploads/..")))];
    let plan = build_request(&doc, &info, &args, BASE).unwrap();
    match plan.body {
        BodyPlan::Multipart(parts) => match &parts[0].kind {
            FormPartKind::Files(files) => assert_eq!(files[0].file_name, "file"),
            _ => panic!("expected a file part"),
        },
        _ => panic!("expected a multipart body"),
    }
}

#[test]
fn badly_shaped_file_field_is_a_file_error() {
    let form_schema = bare_schema(SchemaKind::Object {
        properties: vec![(
            s("file"),
            SchemaOrRef::Item(bare_schema(SchemaKind::StringType { format: Some(s("binary")) })),
        )],
        required: vec![],
        additional_properties: None,
    });
    let op = Operation {
        operation_id: Some(s("upload")),
        summary: None,
        description: None,
        parameters: vec![],
        request_body: Some(RequestBodyOrRef::Item(RequestBody {
            content: vec![(
                s("multipart/form-data"),
                MediaType { schema: Some(SchemaOrRef::Item(form_schema)) },
            )],
        })),
        responses: None,
    };
    let doc = doc_for("/upload", "post", op);
    let info = OperationInfo { method: s("post"), path: s("/upload") };
    let args = vec![(s("file"), JsonValue::Int(3))];
    match build_request(&doc, &info, &args, BASE) {
        Err(HttpClientError::FileError(m)) => {
            assert_eq!(m, "File parameter file must be a string path or array of string paths");
        },
        _ => panic!("expected a file error"),
    }
}

#[test]
fn unsupported_method_is_an_operation_error() {
    let doc = Document { servers: vec![], paths: vec![], components: None };
    let info = OperationInfo { method: s("brew"), path: s("/teapot") };
    match build_request(&doc, &info, &vec![], BASE) {
        Err(HttpClientError::OperationError(m)) => {
            assert_eq!(m, "Unsupported HTTP method: brew");
        },
        _ => panic!("expected an operation error"),
    }
}

#[test]
fn missing_operation_is_an_operation_error() {
    let doc = Document { servers: vec![], paths: vec![], components: None };
    let info = OperationInfo { method: s("get"), path: s("/nowhere") };
    match build_request(&doc, &info, &vec![], BASE) {
        Err(HttpClientError::OperationError(m)) => {
            assert_eq!(m, "Operation not found: get /nowhere");
        },
        _ => panic!("expected an operation error"),
    }
}

#[test]
fn success_response_preserves_payload_status_and_headers() {
    let headers = vec![(s("content-type"), s("application/json"))];
    let body = JsonValue::Obj(vec![(s("ok"), JsonValue::Bool(true))]);
    match interpret_response(200, headers, Some(body)) {
        Ok(HttpClientResponse { data, status, headers }) => {
            assert_eq!(to_text(&data), "{\"ok\":true}");
            assert_eq!(status, 200);
            assert_eq!(headers.len(), 1);
        },
        _ => panic!("expected success"),
    }
}

#[test]
fn unreadable_success_body_is_a_request_error() {
    match interpret_response(204, vec![], None) {
        Err(HttpClientError::RequestError(m)) => {
            assert_eq!(m, "unreadable response body");
        },
        _ => panic!("expected a request error"),
    }
}

#[test]
fn http_failure_keeps_the_upstream_error_body() {
    let body = JsonValue::Obj(vec![(s("error"), JsonValue::Str(s("not found")))]);
    match interpret_response(404, vec![], Some(body)) {
        Err(HttpClientError::RequestFailed { status, message, data, .. }) => {
            assert_eq!(status, 404);
            assert_eq!(message, "Request failed with status 404");
            assert_eq!(to_text(&data.unwrap()), "{\"error\":\"not found\"}");
        },
        _ => panic!("expected a request failure"),
    }
}

#[test]
fn http_failure_surfaces_as_tool_error_with_original_body() {
    let body = JsonValue::Obj(vec![(s("error"), JsonValue::Str(s("not found")))]);
    let outcome = interpret_response(404, vec![], Some(body));
    let result = tool_result_of_outcome(outcome).unwrap();
    assert!(result.is_error);
    assert_eq!(result.content.len(), 1);
    let Content::Text(tc) = &result.content[0];
    assert_eq!(tc.text, "{\"error\":\"not found\"}");
}

#[test]
fn http_failure_without_body_gets_a_stand_in_diagnostic() {
    let outcome = interpret_response(502, vec![], None);
    let result = tool_result_of_outcome(outcome).unwrap();
    assert!(result.is_error);
    let Content::Text(tc) = &result.content[0];
    assert_eq!(tc.text, "{\"status\":\"error\",\"message\":\"HTTP 502 error\"}");
}

#[test]
fn success_outcome_is_not_marked_as_error() {
    let payload = JsonValue::Arr(vec![JsonValue::Int(1), JsonValue::Int(2)]);
    let outcome = interpret_response(200, vec![], Some(payload));
    let result = tool_result_of_outcome(outcome).unwrap();
    assert!(!result.is_error);
    let Content::Text(tc) = &result.content[0];
    assert_eq!(tc.text, "[1,2]");
}

#[test]
fn transport_error_is_a_protocol_level_failure() {
    let outcome: Result<HttpClientResponse, HttpClientError> =
        Err(HttpClientError::RequestError(s("connection refused")));
    match tool_result_of_outcome(outcome) {
        Err(m) => assert_eq!(m, "Failed to execute operation: Request error: connection refused"),
        _ => panic!("expected a protocol-level failure"),
    }
}

#[test]
fn content_type_lookup_is_case_insensitive() {
    let headers = vec![(s("Content-Type"), s("application/json; charset=utf-8"))];
    assert!(content_type_is_json(&headers));
    let plain = vec![(s("Content-Type"), s("text/plain"))];
    assert!(!content_type_is_json(&plain));
    assert!(!content_type_is_json(&vec![]));
}

#[test]
fn unknown_tool_is_rejected_before_execution() {
    let doc = Document { servers: vec![], paths: vec![], components: None };
    let lookup: Vec<(String, OperationInfo)> = vec![];
    let args = JsonValue::Obj(vec![]);
    match prepare_tool_call(&doc, &lookup, "API-missing", &args, BASE) {
        Err(CallError::UnknownTool(m)) => assert_eq!(m, "Method API-missing not found"),
        _ => panic!("expected an unknown-tool rejection"),
    }
}

#[test]
fn non_object_arguments_are_rejected() {
    let op = Operation {
        operation_id: Some(s("ping")),
        summary: None,
        description: None,
        parameters: vec![],
        request_body: None,
        responses: None,
    };
    let doc = doc_for("/ping", "get", op);
    let lookup = vec![(s("API-ping"), OperationInfo { method: s("get"), path: s("/ping") })];
    let args = JsonValue::Str(s("not an object"));
    match prepare_tool_call(&doc, &lookup, "API-ping", &args, BASE) {
        Err(CallError::BadArguments(m)) => assert_eq!(m, "Tool arguments must be an object"),
        _ => panic!("expected an argument rejection"),
    }
}

#[test]
fn prepared_call_builds_the_request_plan() {
    let op = Operation {
        operation_id: Some(s("getItem")),
        summary: None,
        description: None,
        parameters: vec![param(ParamLocation::Path, "id", true)],
        request_body: None,
        responses: None,
    };
    let doc = doc_for("/items/{id}", "get", op);
    let lookup = vec![(
        s("API-getItem"),
        OperationInfo { method: s("get"), path: s("/items/{id}") },
    )];
    let args = JsonValue::Obj(vec![(s("id"), JsonValue::Str(s("9")))]);
    let plan = prepare_tool_call(&doc, &lookup, "API-getItem", &args, BASE).unwrap();
    assert_eq!(plan.url, "https://api.example.com/items/9");
}

#[test]
fn listed_tools_carry_group_and_method_names() {
    let op = Operation {
        operation_id: Some(s("ping")),
        summary: Some(s("Ping")),
        description: None,
        parameters: vec![],
        request_body: None,
        responses: None,
    };
    let doc = doc_for("/ping", "get", op);
    let result = convert_to_mcp_tools(&doc);
    let tools = list_tools(&result.tools);
    assert_eq!(tools.len(), 1);
    assert_eq!(tools[0].name, "API-ping");
    assert_eq!(tools[0].description, "Ping");
}

#[test]
fn base_url_comes_from_the_first_server() {
    let doc = Document {
        servers: vec![s("https://one.example.com"), s("https://two.example.com")],
        paths: vec![],
        components: None,
    };
    assert_eq!(base_url_of(&doc).unwrap(), "https://one.example.com");
    let bare = Document { servers: vec![], paths: vec![], components: None };
    assert_eq!(base_url_of(&bare).unwrap_err(), "No base URL found in OpenAPI spec");
}

#[test]
fn argument_extraction_requires_an_object() {
    let args = JsonValue::Obj(vec![(s("a"), JsonValue::Int(1))]);
    let entries = extract_params_from_arguments(&args).unwrap();
    assert_eq!(entries.len(), 1);
    assert_eq!(entries[0].0, "a");
    assert!(extract_params_from_arguments(&JsonValue::Int(2)).is_err());
}

#[test]
fn header_parameters_are_consumed_but_not_sent() {
    let op = Operation {
        operation_id: Some(s("withHeader")),
        summary: None,
        description: None,
        parameters: vec![param(ParamLocation::Header, "x-trace", false)],
        request_body: None,
        responses: None,
    };
    let doc = doc_for("/traced", "post", op);
    let info = OperationInfo { method: s("post"), path: s("/traced") };
    let args = vec![(s("x-trace"), JsonValue::Str(s("abc")))];
    let plan = build_request(&doc, &info, &args, BASE).unwrap();
    assert_eq!(plan.url, "https://api.example.com/traced");
    assert!(matches!(plan.body, BodyPlan::Empty));
}
