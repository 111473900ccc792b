use pmtconcon::error::ErrorCode;
use pmtconcon::snapshots::{
    canonicalize, check_canonical_size, key_is_allowed, sort_json, text_is_allowed, validate_root,
    validate_value, JsonValue,
};

fn canonical_text(kind: &str, raw: &str) -> Result<String, pmtconcon::error::AppError> {
    canonicalize(kind, raw)
}

fn keys(value: &JsonValue) -> Vec<String> {
    match value {
        JsonValue::Object(entries) => entries.iter().map(|(key, _)| key.clone()).collect(),
        _ => Vec::new(),
    }
}

#[test]
fn canonical_encoding_is_stable() {
    let canonical = canonical_text(
        "prompt_options",
        r#"{"width":1024,"schema":"pmtcon-ai-prompt-options-v1","prompt":"고양이"}"#,
    )
    .unwrap();
    assert_eq!(
        canonical,
        r#"{"prompt":"고양이","schema":"pmtcon-ai-prompt-options-v1","width":1024}"#
    );
}

#[test]
fn secret_binary_and_unknown_fields_are_rejected() {
    assert!(canonical_text(
        "prompt_options",
        r#"{"schema":"pmtcon-ai-prompt-options-v1","token":"secret"}"#
    )
    .is_err());
    assert!(canonical_text(
        "prompt_options",
        r#"{"schema":"pmtcon-ai-prompt-options-v1","prompt":"data:image/png;base64,AAAA"}"#
    )
    .is_err());
    assert!(canonical_text(
        "prompt_options",
        r#"{"schema":"pmtcon-ai-prompt-options-v1","fullRequest":{}}"#
    )
    .is_err());
}

#[test]
fn object_entries_are_sorted_by_key_recursively() {
    let value = JsonValue::Object(vec![
        ("width".to_string(), JsonValue::Number("1024".to_string())),
        (
            "schema".to_string(),
            JsonValue::Array(vec![JsonValue::Object(vec![
                ("b".to_string(), JsonValue::Null),
                ("a".to_string(), JsonValue::Bool(true)),
            ])]),
        ),
        ("prompt".to_string(), JsonValue::Text("고양이".to_string())),
        ("width".to_string(), JsonValue::Number("7".to_string())),
    ]);
    let sorted = sort_json(&value);
    assert_eq!(keys(&sorted), vec!["prompt", "schema", "width"]);
    match &sorted {
        JsonValue::Object(entries) => {
            match &entries[2].1 {
                JsonValue::Number(n) => assert_eq!(n, "7"),
                _ => panic!("width must stay a number"),
            }
            match &entries[1].1 {
                JsonValue::Array(items) => assert_eq!(keys(&items[0]), vec!["a", "b"]),
                _ => panic!("schema must stay an array"),
            }
        }
        _ => panic!("an object must stay an object"),
    }
}

#[test]
fn snapshot_roots_follow_their_kind() {
    let policy = JsonValue::Array(Vec::new());
    assert!(validate_root("policy_refs", &policy).is_ok());
    let error = validate_root("policy_refs", &JsonValue::Object(Vec::new())).unwrap_err();
    assert_eq!(error.code, ErrorCode::AiSnapshot);
    assert!(validate_root("unknown_kind", &JsonValue::Object(Vec::new())).is_err());
    let data_tier = JsonValue::Object(vec![("tier".to_string(), JsonValue::Text("x".to_string()))]);
    assert!(validate_root("data_tier", &data_tier).is_ok());
}

#[test]
fn snapshot_texts_and_keys_are_screened() {
    assert!(text_is_allowed("고양이 그림"));
    assert!(!text_is_allowed("line\nbreak"));
    assert!(!text_is_allowed("Bearer abc"));
    assert!(!text_is_allowed("DATA:image/png"));
    assert!(!text_is_allowed(&"a".repeat(4097)));
    assert!(text_is_allowed(&"a".repeat(4096)));
    assert!(!key_is_allowed("prompt_options", "apiToken"));
    assert!(key_is_allowed("prompt_options", "prompt"));
    assert!(key_is_allowed("consent", "requestContentConfirmed"));
    assert!(!key_is_allowed("prompt_options", "requestContentConfirmed"));
}

#[test]
fn oversized_and_malformed_snapshots_are_refused() {
    let raw = format!(r#"{{"schema":"{}"}}"#, "a".repeat(70_000));
    let error = canonical_text("prompt_options", &raw).unwrap_err();
    assert_eq!(error.code, ErrorCode::AiSnapshot);
    assert!(canonical_text("prompt_options", "{not json").is_err());
    assert!(check_canonical_size("x".repeat(65_537)).is_err());
    assert_eq!(check_canonical_size("{}".to_string()).unwrap(), "{}");
}

#[test]
fn deeply_nested_snapshots_are_refused() {
    let mut raw = String::from("1");
    for _ in 0..10 {
        raw = format!("[{raw}]");
    }
    assert!(canonical_text("policy_refs", &raw).is_err());
    assert!(canonical_text("policy_refs", "[[1]]").is_ok());
}

#[test]
fn the_first_broken_rule_in_document_order_is_reported() {
    let text_message = "AI 실행 스냅샷에 비밀값 또는 바이너리 payload를 넣을 수 없습니다.";
    let key_message = "AI 실행 스냅샷에 비밀값 또는 전체 요청/응답 필드를 넣을 수 없습니다.";

    // A refused string before a refused key.
    let value = JsonValue::Object(vec![
        ("prompt".to_string(), JsonValue::Text("data:image/png".to_string())),
        ("authToken".to_string(), JsonValue::Null),
    ]);
    let mut nodes = 0usize;
    let error = validate_value("prompt_options", &value, 0, &mut nodes).unwrap_err();
    assert_eq!(error.code, ErrorCode::AiSnapshot);
    assert_eq!(error.message, text_message);

    // A key is checked before its value.
    let value = JsonValue::Object(vec![(
        "authToken".to_string(),
        JsonValue::Text("data:image/png".to_string()),
    )]);
    let mut nodes = 0usize;
    let error = validate_value("prompt_options", &value, 0, &mut nodes).unwrap_err();
    assert_eq!(error.message, key_message);

    // Counting goes on from what was counted before.
    let value = JsonValue::Array(vec![JsonValue::Null, JsonValue::Bool(true)]);
    let mut nodes = 1000usize;
    assert!(validate_value("policy_refs", &value, 0, &mut nodes).is_ok());
    assert_eq!(nodes, 1003);
    let mut nodes = 1022usize;
    let error = validate_value("policy_refs", &value, 0, &mut nodes).unwrap_err();
    assert_eq!(error.message, "AI 실행 스냅샷 구조가 너무 복잡합니다.");
}

#[test]
fn canonical_text_is_a_fixed_point() {
    let raw = r#"{ "width": 1024, "schema": "pmtcon-ai-prompt-options-v1", "prompt": "a \"q\" b", "seed": 1.5e3 }"#;
    let once = canonicalize("prompt_options", raw).unwrap();
    let twice = canonicalize("prompt_options", &once).unwrap();
    assert_eq!(once, twice);
    assert!(once.len() <= 65536);
}

#[test]
fn canonical_texts_over_64kib_are_refused() {
    let error = check_canonical_size("x".repeat(65537)).unwrap_err();
    assert_eq!(error.code, ErrorCode::AiSnapshot);
    assert_eq!(error.message, "정규화된 AI 실행 스냅샷은 64KiB를 넘을 수 없습니다.");
    assert_eq!(check_canonical_size("[]".to_string()).unwrap(), "[]");
}
