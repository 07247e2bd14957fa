//! Behaviour of the payload transformer at the byte level.

use prompt_relay::constants::DEFAULT_THINKING_BUDGET;
use prompt_relay::constants::SYSTEM_FALLBACK_TEXT;
use prompt_relay::constants::SYSTEM_PROMPT_TEXT;
use prompt_relay::payload::patch_request_body;
use serde_json::Value;

fn transform(body: &[u8]) -> Vec<u8> {
    patch_request_body(body)
}

fn parse(bytes: &[u8]) -> Value {
    serde_json::from_slice(bytes).expect("output must be valid JSON")
}

fn text_entry(text: &str) -> Value {
    let mut m = serde_json::Map::new();
    m.insert("type".to_string(), Value::String("text".to_string()));
    m.insert("text".to_string(), Value::String(text.to_string()));
    Value::Object(m)
}

#[test]
fn non_json_passes_through_unchanged() {
    let body = b"this is not json {".to_vec();
    assert_eq!(transform(&body), body);
}

#[test]
fn invalid_utf8_passes_through_unchanged() {
    let body = vec![0xff, 0xfe, 0x00, 0x7b];
    assert_eq!(transform(&body), body);
}

#[test]
fn truncated_json_passes_through_unchanged() {
    let body = b"{\"system\": [".to_vec();
    assert_eq!(transform(&body), body);
}

#[test]
fn transform_is_idempotent_on_bytes() {
    let bodies: Vec<Vec<u8>> = vec![
        b"{\"max_tokens\": 100}".to_vec(),
        b"{\"system\": \"hello\"}".to_vec(),
        b"{\"system\": [\"a\", \"b\", \"c\"]}".to_vec(),
        b"{\"system\": 5, \"thinking\": null}".to_vec(),
        b"not json at all".to_vec(),
        b"[1, 2, 3]".to_vec(),
    ];
    for body in bodies {
        let once = transform(&body);
        let twice = transform(&once);
        assert_eq!(twice, once);
    }
}

#[test]
fn missing_system_gets_default_list() {
    let out = parse(&transform(b"{\"max_tokens\": 100}"));
    let system = out.get("system").expect("system must be present");
    let arr = system.as_array().expect("system must be a list");
    assert!(arr.len() >= 2);
    assert_eq!(arr[0], text_entry(SYSTEM_PROMPT_TEXT));
    assert_eq!(arr[1], text_entry(SYSTEM_FALLBACK_TEXT));
}

#[test]
fn string_system_is_kept_as_second_entry() {
    let out = parse(&transform(b"{\"system\": \"hello\"}"));
    let arr = out.get("system").unwrap().as_array().unwrap();
    assert_eq!(arr.len(), 2);
    assert_eq!(arr[0], text_entry(SYSTEM_PROMPT_TEXT));
    assert_eq!(arr[1], text_entry("hello"));
}

#[test]
fn string_system_equal_to_prompt_gets_fallback() {
    let body = serde_json::to_vec(&{
        let mut m = serde_json::Map::new();
        m.insert(
            "system".to_string(),
            Value::String(SYSTEM_PROMPT_TEXT.to_string()),
        );
        Value::Object(m)
    })
    .unwrap();
    let out = parse(&transform(&body));
    let arr = out.get("system").unwrap().as_array().unwrap();
    assert_eq!(arr.len(), 2);
    assert_eq!(arr[0], text_entry(SYSTEM_PROMPT_TEXT));
    assert_eq!(arr[1], text_entry(SYSTEM_FALLBACK_TEXT));
}

#[test]
fn list_opening_with_prompt_gets_no_duplicate() {
    let mut m = serde_json::Map::new();
    m.insert(
        "system".to_string(),
        Value::Array(vec![
            text_entry(SYSTEM_PROMPT_TEXT),
            Value::String("extra".to_string()),
        ]),
    );
    let body = serde_json::to_vec(&Value::Object(m)).unwrap();
    let out = parse(&transform(&body));
    let arr = out.get("system").unwrap().as_array().unwrap();
    assert_eq!(arr.len(), 2);
    assert_eq!(arr[0], text_entry(SYSTEM_PROMPT_TEXT));
    assert_eq!(arr[1], text_entry("extra"));
}

#[test]
fn list_without_prompt_gets_it_prepended() {
    let out = parse(&transform(b"{\"system\": [\"custom\"]}"));
    let arr = out.get("system").unwrap().as_array().unwrap();
    assert_eq!(arr.len(), 2);
    assert_eq!(arr[0], text_entry(SYSTEM_PROMPT_TEXT));
    assert_eq!(arr[1], text_entry("custom"));
}

#[test]
fn empty_list_gets_prompt_and_fallback() {
    let out = parse(&transform(b"{\"system\": []}"));
    let arr = out.get("system").unwrap().as_array().unwrap();
    assert_eq!(arr.len(), 2);
    assert_eq!(arr[0], text_entry(SYSTEM_PROMPT_TEXT));
    assert_eq!(arr[1], text_entry(SYSTEM_FALLBACK_TEXT));
}

#[test]
fn untyped_text_object_gains_type() {
    let mut entry = serde_json::Map::new();
    entry.insert(
        "text".to_string(),
        Value::String(SYSTEM_PROMPT_TEXT.to_string()),
    );
    let mut m = serde_json::Map::new();
    m.insert(
        "system".to_string(),
        Value::Array(vec![Value::Object(entry)]),
    );
    let body = serde_json::to_vec(&Value::Object(m)).unwrap();
    let out = parse(&transform(&body));
    let arr = out.get("system").unwrap().as_array().unwrap();
    assert_eq!(arr.len(), 2);
    assert_eq!(arr[0], text_entry(SYSTEM_PROMPT_TEXT));
    assert_eq!(arr[1], text_entry(SYSTEM_FALLBACK_TEXT));
}

#[test]
fn entries_past_the_second_pass_through_verbatim() {
    let out = parse(&transform(
        b"{\"system\": [\"a\", \"b\", \"tail\", 7, null]}",
    ));
    let arr = out.get("system").unwrap().as_array().unwrap();
    assert_eq!(arr.len(), 6);
    assert_eq!(arr[0], text_entry(SYSTEM_PROMPT_TEXT));
    assert_eq!(arr[1], text_entry("a"));
    assert_eq!(arr[2], Value::String("b".to_string()));
    assert_eq!(arr[3], Value::String("tail".to_string()));
    assert_eq!(arr[4], Value::from(7u64));
    assert_eq!(arr[5], Value::Null);
}

#[test]
fn other_system_shapes_are_left_untouched() {
    let out = parse(&transform(b"{\"system\": 5}"));
    assert_eq!(*out.get("system").unwrap(), Value::from(5u64));
    let out = parse(&transform(b"{\"system\": {\"a\": 1}}"));
    assert!(out.get("system").unwrap().is_object());
}

#[test]
fn budget_is_one_below_small_ceiling() {
    let out = parse(&transform(b"{\"max_tokens\": 5}"));
    let thinking = out.get("thinking").unwrap();
    assert_eq!(
        *thinking.get("type").unwrap(),
        Value::String("enabled".to_string())
    );
    let budget = thinking.get("budget_tokens").unwrap().as_u64().unwrap();
    assert_eq!(budget, std::cmp::min(DEFAULT_THINKING_BUDGET, 4));
    assert!(budget >= 1);
}

#[test]
fn zero_ceiling_still_requests_one_token() {
    let out = parse(&transform(b"{\"max_tokens\": 0}"));
    let budget = out
        .get("thinking")
        .unwrap()
        .get("budget_tokens")
        .unwrap()
        .as_u64()
        .unwrap();
    assert_eq!(budget, 1);
}

#[test]
fn ceiling_of_one_still_requests_one_token() {
    let out = parse(&transform(b"{\"max_tokens\": 1}"));
    let budget = out
        .get("thinking")
        .unwrap()
        .get("budget_tokens")
        .unwrap()
        .as_u64()
        .unwrap();
    assert_eq!(budget, 1);
}

#[test]
fn large_ceiling_is_capped_by_default_budget() {
    let out = parse(&transform(b"{\"max_tokens\": 9999999}"));
    let budget = out
        .get("thinking")
        .unwrap()
        .get("budget_tokens")
        .unwrap()
        .as_u64()
        .unwrap();
    assert_eq!(budget, DEFAULT_THINKING_BUDGET);
}

#[test]
fn invalid_ceiling_means_unconstrained_budget() {
    let out = parse(&transform(b"{\"max_tokens\": \"lots\"}"));
    let budget = out
        .get("thinking")
        .unwrap()
        .get("budget_tokens")
        .unwrap()
        .as_u64()
        .unwrap();
    assert_eq!(budget, DEFAULT_THINKING_BUDGET);
    let out = parse(&transform(b"{\"max_tokens\": -3}"));
    let budget = out
        .get("thinking")
        .unwrap()
        .get("budget_tokens")
        .unwrap()
        .as_u64()
        .unwrap();
    assert_eq!(budget, DEFAULT_THINKING_BUDGET);
}

#[test]
fn present_thinking_is_left_untouched() {
    let out = parse(&transform(
        b"{\"max_tokens\": 5, \"thinking\": {\"anything\": [1, 2]}}",
    ));
    let thinking = out.get("thinking").unwrap();
    assert_eq!(
        *thinking.get("anything").unwrap(),
        Value::Array(vec![Value::from(1u64), Value::from(2u64)])
    );
    assert!(thinking.get("budget_tokens").is_none());
}

#[test]
fn null_thinking_counts_as_present() {
    let out = parse(&transform(b"{\"thinking\": null}"));
    assert_eq!(*out.get("thinking").unwrap(), Value::Null);
}

#[test]
fn unrelated_fields_pass_through() {
    let out = parse(&transform(
        b"{\"max_tokens\": 100, \"model\": \"m-1\", \"messages\": [{\"role\": \"user\"}], \"pi\": 3.5}",
    ));
    assert_eq!(*out.get("model").unwrap(), Value::String("m-1".to_string()));
    assert_eq!(out.get("pi").unwrap().as_f64().unwrap(), 3.5);
    assert_eq!(out.get("max_tokens").unwrap().as_u64().unwrap(), 100);
    assert!(out.get("messages").unwrap().is_array());
}

#[test]
fn non_object_documents_are_reencoded_only() {
    assert_eq!(transform(b"[1, 2]"), b"[1,2]".to_vec());
    assert_eq!(transform(b"42"), b"42".to_vec());
    assert_eq!(transform(b"\"hi\""), b"\"hi\"".to_vec());
}

#[test]
fn wire_shape_of_a_representative_body() {
    let out = parse(&transform(b"{\"max_tokens\": 100, \"messages\": []}"));
    assert_eq!(out.get("max_tokens").unwrap().as_u64().unwrap(), 100);
    let arr = out.get("system").unwrap().as_array().unwrap();
    assert_eq!(arr[0], text_entry(SYSTEM_PROMPT_TEXT));
    assert_eq!(arr[1], text_entry(SYSTEM_FALLBACK_TEXT));
    let budget = out
        .get("thinking")
        .unwrap()
        .get("budget_tokens")
        .unwrap()
        .as_u64()
        .unwrap();
    assert_eq!(budget, std::cmp::min(DEFAULT_THINKING_BUDGET, 99));
}
