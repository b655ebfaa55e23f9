use askkit::agent::{
    google_canonical_role, groq_canonical_role, AgentTextGenParams, AgentTextGenParamsApi,
    GoogleAgent, GoogleTextGenParams, GroqAgent, GroqTextGenParams,
};
use askkit::error::AppError;
use askkit::wire::{
    decode_google_chunk, decode_groq_record, google_data_payloads, google_flatten_response,
    google_parse_response, groq_parse_response,
};

#[test]
fn google_roles_are_total() {
    assert_eq!(google_canonical_role("model"), "model");
    assert_eq!(google_canonical_role("user"), "user");
    assert_eq!(google_canonical_role("assistant"), "user");
    assert_eq!(google_canonical_role(""), "user");
    assert_eq!(google_canonical_role("Model"), "user");
}

#[test]
fn groq_roles_are_total() {
    assert_eq!(groq_canonical_role("model"), "assistant");
    assert_eq!(groq_canonical_role("user"), "user");
    assert_eq!(groq_canonical_role("anything else"), "user");
    assert_eq!(groq_canonical_role(""), "user");
}

#[test]
fn push_message_str_appends_a_user_message() {
    let mut params = AgentTextGenParams::Google(GoogleTextGenParams {
        api_key: "k".into(),
        messages: Vec::new(),
    });
    params.push_message_str("hi");
    match &params {
        AgentTextGenParams::Google(p) => {
            assert_eq!(p.messages.len(), 1);
            assert_eq!(p.messages[0].role, "user");
            assert_eq!(p.messages[0].content, "hi");
        }
        _ => panic!("variant changed"),
    }
}

#[test]
fn google_request_shape() {
    let agent = GoogleAgent { id: 1, model: "gemini-2.5-flash".into() };
    assert_eq!(
        agent.text_gen_url(),
        "https://generativelanguage.googleapis.com/v1beta/models/gemini-2.5-flash:streamGenerateContent?alt=sse"
    );
    let params = GoogleTextGenParams {
        api_key: "k".into(),
        messages: vec![askkit::agent::GoogleTextGenParamsMessage {
            role: "user".into(),
            content: "hello".into(),
        }],
    };
    let body = agent.build_text_gen_body(&params);
    assert_eq!(body.contents.len(), 1);
    assert_eq!(body.contents[0].role, "user");
    assert_eq!(body.contents[0].parts.len(), 1);
    assert_eq!(body.contents[0].parts[0].text, "hello");
}

#[test]
fn groq_request_shape() {
    let agent = GroqAgent { id: 1, model: "llama-3.3-70b".into() };
    assert_eq!(agent.text_gen_url(), "https://api.groq.com/openai/v1/chat/completions");
    assert_eq!(agent.bearer_token("abc"), "Bearer abc");
    let params = GroqTextGenParams {
        api_key: "abc".into(),
        messages: vec![askkit::agent::GroqTextGenParamsMessage {
            role: "assistant".into(),
            content: "prior".into(),
        }],
    };
    let body = agent.build_text_gen_body(&params);
    assert!(body.stream);
    assert!(!body.include_reasoning);
    assert_eq!(body.model, "llama-3.3-70b");
    assert_eq!(body.messages.len(), 1);
    assert_eq!(body.messages[0].role, "assistant");
    assert_eq!(body.messages[0].content, "prior");
}

#[test]
fn google_payload_framing() {
    let chunk = b"data: {\"a\":1}\nevent: x\ndata:\ndata:   \n\ndata:{\"b\":2}";
    let payloads = google_data_payloads(chunk);
    let texts: Vec<&str> = payloads
        .iter()
        .map(|p| std::str::from_utf8(p).unwrap())
        .collect();
    // Only non-empty data payloads, trimmed, in order.
    assert_eq!(texts, vec!["{\"a\":1}", "{\"b\":2}"]);
}

#[test]
fn google_chunk_decodes_parts_into_fragments() {
    let chunk = b"data: {\"candidates\":[{\"content\":{\"parts\":[{\"text\":\"Hel\"},{\"text\":\"lo\"}]}}]}\n";
    let items = decode_google_chunk(chunk);
    assert_eq!(items.len(), 2);
    assert_eq!(items[0].as_ref().unwrap().text, "Hel");
    assert_eq!(items[1].as_ref().unwrap().text, "lo");
}

#[test]
fn google_bad_json_yields_one_error_without_aborting_later_lines() {
    let chunk =
        b"data: {broken\ndata: {\"candidates\":[{\"content\":{\"parts\":[{\"text\":\"ok\"}]}}]}\n";
    let items = decode_google_chunk(chunk);
    assert_eq!(items.len(), 2);
    assert!(matches!(items[0], Err(AppError::Json)));
    assert_eq!(items[1].as_ref().unwrap().text, "ok");
}

#[test]
fn google_invalid_utf8_chunk_yields_one_error() {
    let items = decode_google_chunk(&[b'd', 0xff, 0xfe]);
    assert_eq!(items.len(), 1);
    assert!(matches!(items[0], Err(AppError::Utf8)));
}

#[test]
fn google_parse_rejects_wrong_shape() {
    assert_eq!(google_parse_response("{}").err(), Some(AppError::Json));
    assert_eq!(
        google_parse_response("{\"candidates\":[{}]}").err(),
        Some(AppError::Json)
    );
    let body = google_parse_response(
        "{\"candidates\":[{\"content\":{\"parts\":[{\"text\":\"t1\"}]}},{\"content\":{\"parts\":[]}}]}",
    )
    .unwrap();
    let frags = google_flatten_response(&body);
    assert_eq!(frags.len(), 1);
    assert_eq!(frags[0].text, "t1");
}

#[test]
fn groq_record_without_prefix_is_skipped() {
    assert!(decode_groq_record(b"event: ping").is_empty());
    assert!(decode_groq_record(b"").is_empty());
    // "data:" without the space is not the Groq framing.
    assert!(decode_groq_record(b"data:{\"choices\":[]}").is_empty());
}

#[test]
fn groq_done_sentinel_ends_without_error() {
    assert!(decode_groq_record(b"data: [DONE]").is_empty());
}

#[test]
fn groq_record_decodes_content_deltas() {
    let record = b"data: {\"choices\":[{\"delta\":{\"content\":\"Hi\"}},{\"delta\":{}},{\"delta\":{\"content\":null}}]}";
    let items = decode_groq_record(record);
    assert_eq!(items.len(), 1);
    assert_eq!(items[0].as_ref().unwrap().text, "Hi");
}

#[test]
fn groq_bad_json_is_an_error_item() {
    let items = decode_groq_record(b"data: {nope");
    assert_eq!(items.len(), 1);
    assert!(matches!(items[0], Err(AppError::Json)));
}

#[test]
fn groq_parse_requires_choices_and_delta() {
    assert_eq!(groq_parse_response("{}").err(), Some(AppError::Json));
    assert_eq!(
        groq_parse_response("{\"choices\":[{}]}").err(),
        Some(AppError::Json)
    );
}

#[test]
fn groq_non_utf8_payload_is_an_error_item() {
    let mut record: Vec<u8> = b"data: ".to_vec();
    record.extend_from_slice(&[0xff, 0xfe]);
    let items = decode_groq_record(&record);
    assert_eq!(items.len(), 1);
    assert!(matches!(items[0], Err(AppError::FromUtf8)));
}

#[test]
fn groq_non_object_delta_is_a_shape_error() {
    assert_eq!(
        groq_parse_response("{\"choices\":[{\"delta\":5}]}").err(),
        Some(AppError::Json)
    );
}

#[test]
fn groq_parse_collects_delta_contents() {
    let body = groq_parse_response(
        "{\"choices\":[{\"delta\":{\"content\":\"a\"}},{\"delta\":{\"content\":\"b\"}}]}",
    )
    .unwrap();
    assert_eq!(body.choices.len(), 2);
    assert_eq!(body.choices[0].delta.content.as_deref(), Some("a"));
    assert_eq!(body.choices[1].delta.content.as_deref(), Some("b"));
}
