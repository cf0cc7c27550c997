use openapi_mcp::atlassian::{AtlassianConfig, Config, ServerConfig};
use openapi_mcp::gmail::{
    encode_email_header, encode_message_for_gmail, extract_attachments, extract_email_content,
    get_header_value, MessageBody, MessageHeader, MessagePayload,
};
use openapi_mcp::github::{
    get_toolset_description, get_toolset_tool_names, parse_branch_uri, parse_pr_uri,
    parse_repo_uri, uri_matches_pattern, McpServer,
};
use openapi_mcp::model::{
    MediaType, Operation, RequestBody, RequestBodyOrRef, Schema, SchemaKind, SchemaOrRef,
};
use openapi_mcp::telegram::{get_downloads_dir, get_session_file, parse_entity};
use openapi_mcp::upload::is_file_upload_parameter;

fn s(x: &str) -> String {
    x.to_string()
}

fn bare_schema(kind: SchemaKind) -> Schema {
    Schema { kind, description: None, default: None, enum_values: None }
}

#[test]
fn test_file_upload_detection() {
    let form_schema = bare_schema(SchemaKind::Object {
        properties: vec![(
            s("file"),
            SchemaOrRef::Item(bare_schema(SchemaKind::StringType { format: Some(s("binary")) })),
        )],
        required: vec![],
        additional_properties: None,
    });
    let operation = Operation {
        operation_id: None,
        summary: None,
        description: None,
        parameters: vec![],
        request_body: Some(RequestBodyOrRef::Item(RequestBody {
            content: vec![(
                s("multipart/form-data"),
                MediaType { schema: Some(SchemaOrRef::Item(form_schema)) },
            )],
        })),
        responses: None,
    };

    let file_params = is_file_upload_parameter(&operation);
    assert_eq!(file_params, vec!["file"]);
}

#[test]
fn plain_string_property_is_not_a_file_field() {
    let form_schema = bare_schema(SchemaKind::Object {
        properties: vec![
            (
                s("file"),
                SchemaOrRef::Item(bare_schema(SchemaKind::StringType {
                    format: Some(s("binary")),
                })),
            ),
            (s("name"), SchemaOrRef::Item(bare_schema(SchemaKind::StringType { format: None }))),
        ],
        required: vec![],
        additional_properties: None,
    });
    let operation = Operation {
        operation_id: None,
        summary: None,
        description: None,
        parameters: vec![],
        request_body: Some(RequestBodyOrRef::Item(RequestBody {
            content: vec![(
                s("multipart/form-data"),
                MediaType { schema: Some(SchemaOrRef::Item(form_schema)) },
            )],
        })),
        responses: None,
    };
    assert_eq!(is_file_upload_parameter(&operation), vec!["file"]);
}

#[test]
fn array_of_binary_strings_is_a_file_field() {
    let form_schema = bare_schema(SchemaKind::Object {
        properties: vec![(
            s("photos"),
            SchemaOrRef::Item(bare_schema(SchemaKind::ArrayType {
                items: Some(Box::new(SchemaOrRef::Item(bare_schema(SchemaKind::StringType {
                    format: Some(s("binary")),
                })))),
            })),
        )],
        required: vec![],
        additional_properties: None,
    });
    let operation = Operation {
        operation_id: None,
        summary: None,
        description: None,
        parameters: vec![],
        request_body: Some(RequestBodyOrRef::Item(RequestBody {
            content: vec![(
                s("multipart/form-data"),
                MediaType { schema: Some(SchemaOrRef::Item(form_schema)) },
            )],
        })),
        responses: None,
    };
    assert_eq!(is_file_upload_parameter(&operation), vec!["photos"]);
}

#[test]
fn header_lookup_ignores_case() {
    let headers = vec![
        MessageHeader { name: s("Subject"), value: s("Greetings") },
        MessageHeader { name: s("From"), value: s("a@example.com") },
    ];
    assert_eq!(get_header_value(&headers, "subject"), Some(s("Greetings")));
    assert_eq!(get_header_value(&headers, "FROM"), Some(s("a@example.com")));
    assert_eq!(get_header_value(&headers, "date"), None);
}

fn leaf_part(mime: &str, data: Option<&str>, attachment: Option<(&str, u64)>) -> MessagePayload {
    MessagePayload {
        part_id: None,
        mime_type: Some(s(mime)),
        filename: None,
        headers: None,
        body: Some(MessageBody {
            attachment_id: attachment.map(|(id, _)| s(id)),
            size: attachment.map(|(_, sz)| sz),
            data: data.map(s),
        }),
        parts: None,
    }
}

#[test]
fn attachments_are_collected_from_nested_parts() {
    let inner = MessagePayload {
        part_id: None,
        mime_type: Some(s("application/pdf")),
        filename: Some(s("report.pdf")),
        headers: None,
        body: Some(MessageBody { attachment_id: Some(s("att-1")), size: Some(2048), data: None }),
        parts: None,
    };
    let unnamed = leaf_part("image/png", None, Some(("att-2", 512)));
    let root = MessagePayload {
        part_id: None,
        mime_type: Some(s("multipart/mixed")),
        filename: None,
        headers: None,
        body: None,
        parts: Some(vec![inner, unnamed]),
    };
    let atts = extract_attachments(&root);
    assert_eq!(atts.len(), 2);
    assert_eq!(atts[0].id, "att-1");
    assert_eq!(atts[0].filename, "report.pdf");
    assert_eq!(atts[0].mime_type, "application/pdf");
    assert_eq!(atts[0].size, 2048);
    assert_eq!(atts[1].filename, "attachment-att-2");
    assert_eq!(atts[1].size, 512);
}

#[test]
fn body_text_is_decoded_from_its_transfer_encoding() {
    let text = leaf_part("text/plain", Some("SGVsbG8"), None);
    let html = leaf_part("text/html", Some("PGI-SGk8L2I-"), None);
    let root = MessagePayload {
        part_id: None,
        mime_type: Some(s("multipart/alternative")),
        filename: None,
        headers: None,
        body: None,
        parts: Some(vec![text, html]),
    };
    let content = extract_email_content(&root);
    assert_eq!(content.text, "Hello");
    assert_eq!(content.html, "<b>Hi</b>");
}

#[test]
fn message_encoding_uses_the_url_safe_alphabet() {
    assert_eq!(encode_message_for_gmail("Hello"), "SGVsbG8");
    assert_eq!(encode_message_for_gmail(""), "");
}

#[test]
fn header_encoding_wraps_only_non_ascii_text() {
    assert_eq!(encode_email_header("plain subject"), "plain subject");
    assert_eq!(encode_email_header("caf\u{e9}"), "=?UTF-8?B?Y2Fmw6k=?=");
}

#[test]
fn repository_uris_parse_into_their_parts() {
    let parts = parse_repo_uri("repo://octo/demo/contents/src/lib.rs").unwrap();
    assert_eq!(
        parts,
        vec![
            (s("owner"), s("octo")),
            (s("repo"), s("demo")),
            (s("path"), s("src/lib.rs")),
        ]
    );
    let bare = parse_repo_uri("repo://octo/demo/contents").unwrap();
    assert_eq!(bare, vec![(s("owner"), s("octo")), (s("repo"), s("demo"))]);
    assert!(parse_repo_uri("http://octo/demo").unwrap().is_empty());
}

#[test]
fn branch_and_pull_request_uris_parse_into_their_parts() {
    let branch = parse_branch_uri("repo://octo/demo/refs/heads/main/contents/a.txt").unwrap();
    assert_eq!(
        branch,
        vec![
            (s("owner"), s("octo")),
            (s("repo"), s("demo")),
            (s("branch"), s("main")),
            (s("path"), s("a.txt")),
        ]
    );
    let pr = parse_pr_uri("repo://octo/demo/refs/pull/123/head/contents/b.txt").unwrap();
    assert_eq!(
        pr,
        vec![
            (s("owner"), s("octo")),
            (s("repo"), s("demo")),
            (s("prNumber"), s("123")),
            (s("path"), s("b.txt")),
        ]
    );
}

#[test]
fn uri_pattern_matching_is_scheme_based() {
    assert!(uri_matches_pattern(
        "repo://octo/demo/contents",
        "repo://{owner}/{repo}/contents{/path*}"
    ));
    assert!(!uri_matches_pattern("web://octo", "repo://{owner}/{repo}/contents{/path*}"));
    assert!(!uri_matches_pattern("repo://octo/demo", "static-pattern"));
}

#[test]
fn toolset_catalog_answers_by_name() {
    assert_eq!(get_toolset_description("repos"), "Repository management tools");
    assert_eq!(get_toolset_description("nonsense"), "Unknown toolset");
    assert_eq!(
        get_toolset_tool_names("issues"),
        vec!["get_issue", "list_issues", "create_issue"]
    );
    assert!(get_toolset_tool_names("nonsense").is_empty());
}

#[test]
fn entity_parsing_accepts_signed_numbers_only() {
    assert_eq!(parse_entity("12345"), Ok(12345));
    assert_eq!(parse_entity("-100200"), Ok(-100200));
    assert_eq!(parse_entity("@channel"), Err(s("@channel")));
    assert_eq!(parse_entity("12-3"), Err(s("12-3")));
    assert_eq!(parse_entity(""), Err(s("")));
    assert_eq!(parse_entity("99999999999999999999"), Err(s("99999999999999999999")));
}

#[test]
fn session_locations_live_under_the_state_directory() {
    assert!(get_session_file().ends_with("/session"));
    assert!(get_downloads_dir().ends_with("/downloads"));
}

#[test]
fn configuration_validation_names_the_first_missing_field() {
    let good = Config {
        atlassian: AtlassianConfig {
            base_url: s("https://example.atlassian.net"),
            email: s("me@example.com"),
            token: s("tok"),
        },
        server: ServerConfig { name: s("srv"), version: s("0.1.0") },
    };
    assert!(good.validate().is_ok());
    let mut missing_url = good.clone();
    missing_url.atlassian.base_url = String::new();
    assert_eq!(missing_url.validate().unwrap_err(), "Atlassian base URL is required");
    let mut missing_email = good.clone();
    missing_email.atlassian.email = String::new();
    assert_eq!(missing_email.validate().unwrap_err(), "Atlassian email is required");
    let mut missing_token = good.clone();
    missing_token.atlassian.token = String::new();
    assert_eq!(missing_token.validate().unwrap_err(), "Atlassian token is required");
}

#[test]
fn server_scaffold_keeps_its_identity() {
    let mut server = McpServer::new("demo", "1.0.0");
    assert_eq!(server.name, "demo");
    assert_eq!(server.version, "1.0.0");
    server.add_tool_handler("t".to_string(), || ());
    server.add_resource_handler("r".to_string(), || ());
    assert_eq!(server.name, "demo");
}
