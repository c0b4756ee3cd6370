use irontrack::ai::client::{
    check_api_key, check_extraction_error, join_text_blocks, strip_code_fences, AiError,
};

#[test]
fn from_env_missing_key() {
    assert!(check_api_key(None).is_err());
}

#[test]
fn strip_code_fences_raw_json() {
    let input = r#"{"min_lat": 51.0}"#;
    assert_eq!(strip_code_fences(input), input);
}

#[test]
fn strip_code_fences_with_json_fence() {
    let input = "```json\n{\"min_lat\": 51.0}\n```";
    assert_eq!(strip_code_fences(input), r#"{"min_lat": 51.0}"#);
}

#[test]
fn strip_code_fences_with_plain_fence() {
    let input = "```\n{\"min_lat\": 51.0}\n```";
    assert_eq!(strip_code_fences(input), r#"{"min_lat": 51.0}"#);
}

#[test]
fn strip_code_fences_trims_surrounding_whitespace_and_lone_fences() {
    assert_eq!(strip_code_fences("  \n```json {\"a\":1}```  \n"), "{\"a\":1}");
    assert_eq!(strip_code_fences("{\"a\":1}\n```"), "{\"a\":1}");
    assert_eq!(strip_code_fences("```"), "");
    assert_eq!(strip_code_fences(""), "");
    assert_eq!(strip_code_fences("\u{3000}é```\u{a0}"), "é");
}

#[test]
fn text_blocks_are_joined_in_order() {
    let blocks = vec![
        ("text".to_string(), Some("{\"min".to_string())),
        ("tool_use".to_string(), Some("ignored".to_string())),
        ("text".to_string(), None),
        ("text".to_string(), Some("_lat\": 51}".to_string())),
    ];
    match join_text_blocks(&blocks) {
        Ok(t) => assert_eq!(t, "{\"min_lat\": 51}"),
        Err(_) => panic!("expected text"),
    }
}

#[test]
fn reply_without_text_is_a_parse_error() {
    let blocks = vec![("tool_use".to_string(), Some("x".to_string()))];
    match join_text_blocks(&blocks) {
        Err(AiError::ResponseParse(m)) => assert_eq!(m, "no text block in response"),
        _ => panic!("expected ResponseParse"),
    }
    let empty: Vec<(String, Option<String>)> = Vec::new();
    assert!(matches!(join_text_blocks(&empty), Err(AiError::ResponseParse(_))));
}

#[test]
fn api_key_must_be_present_and_not_blank() {
    assert!(matches!(check_api_key(None), Err(AiError::MissingApiKey)));
    assert!(matches!(check_api_key(Some("  \t".to_string())), Err(AiError::MissingApiKey)));
    match check_api_key(Some("sk-test".to_string())) {
        Ok(k) => assert_eq!(k, "sk-test"),
        Err(_) => panic!("key should be accepted"),
    }
}

#[test]
fn extraction_error_field_is_reported() {
    match check_extraction_error(Some("Please provide coordinates.".to_string())) {
        Err(AiError::ExtractionFailed(m)) => assert_eq!(m, "Please provide coordinates."),
        _ => panic!("expected ExtractionFailed"),
    }
    assert!(check_extraction_error(None).is_ok());
}
