//! Behaviour of the routing gate and the outbound request construction.

use prompt_relay::proxy_core::build_upstream_url;
use prompt_relay::proxy_core::forward_headers;
use prompt_relay::proxy_core::is_proxy_path;
use prompt_relay::proxy_core::not_found_body;
use prompt_relay::proxy_core::should_forward_header;
use prompt_relay::proxy_core::should_have_body;

#[test]
fn only_v1_paths_are_in_scope() {
    assert!(is_proxy_path("/v1"));
    assert!(is_proxy_path("/v1/messages"));
    assert!(is_proxy_path("/v1x"));
    assert!(!is_proxy_path("/v2/messages"));
    assert!(!is_proxy_path("/V1/messages"));
    assert!(!is_proxy_path("/"));
    assert!(!is_proxy_path(""));
    assert!(!is_proxy_path("v1"));
}

#[test]
fn not_found_body_is_the_fixed_json() {
    assert_eq!(not_found_body(), "{\"msg\":\"not found\"}");
}

#[test]
fn only_post_put_patch_carry_a_body() {
    assert!(should_have_body("POST"));
    assert!(should_have_body("PUT"));
    assert!(should_have_body("PATCH"));
    assert!(!should_have_body("GET"));
    assert!(!should_have_body("HEAD"));
    assert!(!should_have_body("DELETE"));
    assert!(!should_have_body("OPTIONS"));
    assert!(!should_have_body("post"));
}

#[test]
fn host_and_connection_are_dropped_in_any_case() {
    assert!(!should_forward_header("host"));
    assert!(!should_forward_header("Host"));
    assert!(!should_forward_header("HOST"));
    assert!(!should_forward_header("HoSt"));
    assert!(!should_forward_header("connection"));
    assert!(!should_forward_header("CONNECTION"));
    assert!(!should_forward_header("Connection"));
}

#[test]
fn other_headers_are_forwarded() {
    assert!(should_forward_header("Authorization"));
    assert!(should_forward_header("x-api-key"));
    assert!(should_forward_header("Content-Type"));
    assert!(should_forward_header("hosts"));
    assert!(should_forward_header("hos"));
    assert!(should_forward_header("connection-id"));
    assert!(should_forward_header(""));
}

#[test]
fn header_set_is_filtered_in_order_and_unchanged() {
    let inbound = vec![
        ("Host".to_string(), "old.example.com".to_string()),
        ("Authorization".to_string(), "Bearer token".to_string()),
        ("CONNECTION".to_string(), "keep-alive".to_string()),
        ("x-api-key".to_string(), "key-value".to_string()),
        ("Content-Type".to_string(), "application/json".to_string()),
    ];
    let kept = forward_headers(&inbound);
    assert_eq!(
        kept,
        vec![
            ("Authorization".to_string(), "Bearer token".to_string()),
            ("x-api-key".to_string(), "key-value".to_string()),
            ("Content-Type".to_string(), "application/json".to_string()),
        ]
    );
}

#[test]
fn upstream_url_concatenates_without_encoding() {
    assert_eq!(
        build_upstream_url("https://api.example.com", "/v1/messages", None),
        "https://api.example.com/v1/messages"
    );
    assert_eq!(
        build_upstream_url("https://api.example.com", "/v1/messages", Some("beta=true&x=%20")),
        "https://api.example.com/v1/messages?beta=true&x=%20"
    );
    assert_eq!(build_upstream_url("", "/v1", Some("")), "/v1?");
}
