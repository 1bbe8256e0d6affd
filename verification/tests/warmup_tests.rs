use codex_switcher::warmup::{
    extract_text_from_json, extract_text_from_sse, last_text, sse_data_payloads, stream_message,
    JsonValue,
};

#[test]
fn sse_payloads_skip_other_lines_empty_data_and_done() {
    let body = "event: delta\r\ndata: {\"delta\":\"Hel\"}\r\n\r\n  data:data: {\"a\":1}  \ndata:   \ndata: [DONE]\n: comment\n";
    assert_eq!(
        sse_data_payloads(body),
        vec!["{\"delta\":\"Hel\"}".to_string(), "{\"a\":1}".to_string()]
    );
}

#[test]
fn last_text_walks_depth_first_and_keeps_the_last_non_empty_text() {
    let value = JsonValue::Array(vec![
        JsonValue::Object(vec![("text".to_string(), JsonValue::Str("first".to_string()))]),
        JsonValue::Object(vec![
            ("delta".to_string(), JsonValue::Str("".to_string())),
            (
                "content".to_string(),
                JsonValue::Array(vec![JsonValue::Object(vec![(
                    "output_text".to_string(),
                    JsonValue::Str("second".to_string()),
                )])]),
            ),
            ("other".to_string(), JsonValue::Str("ignored".to_string())),
            ("n".to_string(), JsonValue::Number),
        ]),
    ]);
    assert_eq!(last_text(&value).as_deref(), Some("second"));
    assert_eq!(last_text(&JsonValue::Null), None);
}

#[test]
fn stream_message_drops_a_blank_result() {
    let blank = vec![Some(JsonValue::Object(vec![(
        "text".to_string(),
        JsonValue::Str("   ".to_string()),
    )]))];
    assert_eq!(stream_message(&blank), None);
    let parsed = vec![
        Some(JsonValue::Object(vec![("delta".to_string(), JsonValue::Str("Hi".to_string()))])),
        None,
        Some(JsonValue::Object(vec![("id".to_string(), JsonValue::Str("x".to_string()))])),
    ];
    assert_eq!(stream_message(&parsed).as_deref(), Some("Hi"));
}

#[test]
fn warm_up_bodies_yield_their_message() {
    let sse = "data: {\"type\":\"response.output_text.delta\",\"delta\":\"Hello\"}\n\ndata: not json\ndata: [DONE]\n";
    assert_eq!(extract_text_from_sse(sse).as_deref(), Some("Hello"));
    let json = "{\"output\":[{\"content\":[{\"type\":\"output_text\",\"text\":\"Done.\"}]}]}";
    assert_eq!(extract_text_from_json(json).as_deref(), Some("Done."));
    assert_eq!(extract_text_from_json("not json"), None);
}
