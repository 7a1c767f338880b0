use cc_demon::codec::{decode_line, encode_user_message, ParsedEvent};

#[test]
fn test_json_format() {
    let s = encode_user_message("hello");
    assert!(s.contains("\"type\":\"user\""));
    assert!(s.contains("\"role\":\"user\""));
}

#[test]
fn test_encode_escapes_content() {
    let s = encode_user_message("say \"hi\"\nplease\\now");
    assert_eq!(
        s,
        "{\"type\":\"user\",\"message\":{\"role\":\"user\",\"content\":\"say \\\"hi\\\"\\nplease\\\\now\"}}"
    );
}

#[test]
fn test_decode_result_ok() {
    let e = decode_line("{\"type\":\"result\",\"result\":\"pong\"}");
    match e {
        ParsedEvent::ResultOk { text, identity } => {
            assert_eq!(text, Some("pong".to_string()));
            assert_eq!(identity, None);
        },
        _ => panic!("expected a result event"),
    }
}

#[test]
fn test_decode_result_error() {
    let e = decode_line("{\"type\":\"result\",\"is_error\":true,\"error\":\"boom\"}");
    match e {
        ParsedEvent::ResultError { message, .. } => assert_eq!(message, "boom"),
        _ => panic!("expected an error result"),
    }
}

#[test]
fn test_decode_result_error_without_message() {
    let e = decode_line("{\"type\":\"result\",\"is_error\":true}");
    match e {
        ParsedEvent::ResultError { message, .. } => assert_eq!(message, "Unknown error"),
        _ => panic!("expected an error result"),
    }
}

#[test]
fn test_decode_init_with_identity() {
    let e = decode_line(
        "{\"type\":\"system\",\"subtype\":\"init\",\"session_id\":\"abc-123\"}",
    );
    match e {
        ParsedEvent::Init { identity } => assert_eq!(identity, Some("abc-123".to_string())),
        _ => panic!("expected an init event"),
    }
}

#[test]
fn test_decode_assistant_text() {
    let e = decode_line(
        "{\"type\":\"assistant\",\"message\":{\"content\":[{\"type\":\"text\",\"text\":\"partial\"}]}}",
    );
    match e {
        ParsedEvent::AssistantText { text, .. } => assert_eq!(text, "partial"),
        _ => panic!("expected assistant text"),
    }
}

#[test]
fn test_decode_assistant_last_text_block_wins() {
    let e = decode_line(
        "{\"type\":\"assistant\",\"message\":{\"content\":[{\"type\":\"text\",\"text\":\"a\"},{\"type\":\"tool\"},{\"type\":\"text\",\"text\":\"b\"}]}}",
    );
    match e {
        ParsedEvent::AssistantText { text, .. } => assert_eq!(text, "b"),
        _ => panic!("expected assistant text"),
    }
}

#[test]
fn test_decode_noise_is_other() {
    assert!(matches!(decode_line("not json"), ParsedEvent::Other { identity: None }));
    assert!(matches!(decode_line("{\"type\":\"unknown\"}"), ParsedEvent::Other { .. }));
    assert!(matches!(decode_line(""), ParsedEvent::Other { identity: None }));
    assert!(matches!(decode_line("[1,2,3]"), ParsedEvent::Other { identity: None }));
    assert!(matches!(decode_line("{\"type\":42}"), ParsedEvent::Other { .. }));
}

#[test]
fn test_decode_identity_rides_on_any_event() {
    let e = decode_line("{\"type\":\"assistant\",\"session_id\":\"sid-9\"}");
    match e {
        ParsedEvent::Other { identity } => assert_eq!(identity, Some("sid-9".to_string())),
        _ => panic!("assistant without text is protocol noise, but carries the identity"),
    }
}

#[test]
fn test_decode_unicode_escapes() {
    let e = decode_line("{\"type\":\"result\",\"result\":\"\\u0041\\u00e9\"}");
    match e {
        ParsedEvent::ResultOk { text, .. } => assert_eq!(text, Some("A\u{e9}".to_string())),
        _ => panic!("expected a result event"),
    }
}

#[test]
fn test_decode_surrogate_pair() {
    let e = decode_line("{\"type\":\"result\",\"result\":\"\\ud83d\\ude00\"}");
    match e {
        ParsedEvent::ResultOk { text, .. } => {
            assert_eq!(text, Some("\u{1F600}".to_string()))
        },
        _ => panic!("expected a result event"),
    }
}

#[test]
fn test_decode_lone_surrogate_rejected() {
    let e = decode_line("{\"type\":\"result\",\"result\":\"\\ud83d\"}");
    assert!(matches!(e, ParsedEvent::Other { .. }));
}

#[test]
fn test_decode_duplicate_keys_last_wins() {
    let e = decode_line("{\"type\":\"other\",\"type\":\"result\",\"result\":\"x\"}");
    match e {
        ParsedEvent::ResultOk { text, .. } => assert_eq!(text, Some("x".to_string())),
        _ => panic!("the last occurrence of a repeated key wins"),
    }
}

#[test]
fn test_decode_nested_and_whitespace() {
    let e = decode_line(
        "  { \"type\" : \"result\" , \"result\" : \"ok\" , \"extra\" : [ 1 , -2.5e3 , null , true , { } ] }  ",
    );
    match e {
        ParsedEvent::ResultOk { text, .. } => assert_eq!(text, Some("ok".to_string())),
        _ => panic!("expected a result event"),
    }
}

#[test]
fn test_round_trip_content_through_wire() {
    // Encode arbitrary content, then read the content field back through the
    // decoder by crafting a result line with the same escaped payload.
    let content = "tabs\tquotes\" and \\ slashes\nnewlines";
    let encoded = encode_user_message(content);
    let start = encoded.find("\"content\":\"").unwrap() + "\"content\":\"".len();
    let escaped = &encoded[start..encoded.len() - 3];
    let line = format!("{{\"type\":\"result\",\"result\":\"{}\"}}", escaped);
    match decode_line(&line) {
        ParsedEvent::ResultOk { text, .. } => assert_eq!(text, Some(content.to_string())),
        _ => panic!("expected a result event"),
    }
}
