use openapi_mcp::auth::{AuthConfig, AuthTemplate, AuthType};

#[test]
fn test_template_rendering() {
    let template = AuthTemplate::new("Bearer {{token}}".to_string())
        .set_variable("token", "my-secret-token");

    assert_eq!(template.render(), "Bearer my-secret-token");
}

#[test]
fn every_placeholder_occurrence_is_replaced() {
    let template = AuthTemplate::new("{{k}} and {{k}} again, not {{other}}".to_string())
        .set_variable("k", "v");
    assert_eq!(template.render(), "v and v again, not {{other}}");
}

#[test]
fn variables_apply_in_binding_order() {
    let template = AuthTemplate::new("{{a}}".to_string())
        .set_variable("a", "{{b}}")
        .set_variable("b", "deep");
    assert_eq!(template.render(), "deep");
}

#[test]
fn rebinding_a_variable_takes_the_new_value() {
    let template = AuthTemplate::new("Bearer {{token}}".to_string())
        .set_variable("token", "stale")
        .set_variable("token", "fresh");
    assert_eq!(template.render(), "Bearer fresh");
}

#[test]
fn rebinding_a_header_keeps_names_unique() {
    let cfg = AuthConfig::bearer("tok".to_string())
        .add_header("X-Custom".to_string(), "1".to_string())
        .add_header("X-Custom".to_string(), "2".to_string());
    let headers = cfg.to_headers();
    assert_eq!(
        headers,
        vec![
            ("X-Custom".to_string(), "2".to_string()),
            ("Authorization".to_string(), "Bearer tok".to_string()),
        ]
    );
}

#[test]
fn bearer_configuration_compiles_an_authorization_header() {
    let headers = AuthConfig::bearer("tok".to_string()).to_headers();
    assert_eq!(headers, vec![("Authorization".to_string(), "Bearer tok".to_string())]);
}

#[test]
fn basic_configuration_encodes_the_credentials() {
    let headers = AuthConfig::basic("user".to_string(), "pass".to_string()).to_headers();
    assert_eq!(headers, vec![("Authorization".to_string(), "Basic dXNlcjpwYXNz".to_string())]);
}

#[test]
fn api_key_configuration_passes_the_key_through() {
    let headers = AuthConfig::api_key("secret-key".to_string()).to_headers();
    assert_eq!(headers, vec![("Authorization".to_string(), "secret-key".to_string())]);
}

#[test]
fn extra_headers_are_kept_and_authorization_replaces_duplicates() {
    let cfg = AuthConfig::bearer("tok".to_string())
        .add_header("X-Custom".to_string(), "1".to_string())
        .add_header("Authorization".to_string(), "stale".to_string());
    let headers = cfg.to_headers();
    assert_eq!(
        headers,
        vec![
            ("X-Custom".to_string(), "1".to_string()),
            ("Authorization".to_string(), "Bearer tok".to_string()),
        ]
    );
}

#[test]
fn default_configuration_is_an_empty_bearer() {
    let cfg = AuthConfig::default();
    assert!(matches!(cfg.auth_type, AuthType::Bearer));
    assert!(cfg.token.is_none());
    assert!(cfg.to_headers().is_empty());
}
