use gpt_copy_v4_backend::error::AppError;
use gpt_copy_v4_backend::openrouter::{
    check_status, completions_url, decode_stream_line, extract_completion, require_api_key,
    stream_content, stream_delta_content, stream_line_payload, ChatProviderError,
    OpenRouterChoice, OpenRouterMessage, OpenRouterResponse, OpenRouterStreamChoice,
    OpenRouterStreamDelta, OpenRouterStreamResponse, SseLineBuffer,
};

fn stream_response(content: Option<&str>) -> OpenRouterStreamResponse {
    OpenRouterStreamResponse {
        choices: vec![OpenRouterStreamChoice {
            delta: OpenRouterStreamDelta { content: content.map(|c| c.to_string()) },
        }],
    }
}

fn parse_stream_payload(payload: &str) -> Result<OpenRouterStreamResponse, String> {
    let value: serde_json::Value = serde_json::from_str(payload).map_err(|e| e.to_string())?;
    let choices = value["choices"].as_array().cloned().unwrap_or_default();
    Ok(OpenRouterStreamResponse {
        choices: choices
            .iter()
            .map(|choice| OpenRouterStreamChoice {
                delta: OpenRouterStreamDelta {
                    content: choice["delta"]["content"].as_str().map(|s| s.to_string()),
                },
            })
            .collect(),
    })
}

fn decode_all(chunks: &[&[u8]]) -> Vec<String> {
    let mut buffer = SseLineBuffer::new();
    let mut out = Vec::new();
    for chunk in chunks {
        for line in buffer.feed(chunk) {
            if let Some(payload) = decode_stream_line(&line).expect("valid line") {
                if let Some(content) = stream_content(parse_stream_payload(&payload)).unwrap() {
                    out.push(content);
                }
            }
        }
    }
    let rest = buffer.finish();
    if !rest.is_empty() {
        if let Some(payload) = decode_stream_line(&rest).expect("valid rest") {
            if let Some(content) = stream_content(parse_stream_payload(&payload)).unwrap() {
                out.push(content);
            }
        }
    }
    out
}

#[test]
fn stream_decoder_accepts_utf8_split_across_network_chunks() {
    let line = r#"data: {"choices":[{"delta":{"content":"💡"}}]}"#;
    let bytes = format!("{line}\n\n").into_bytes();
    let emoji_start = bytes
        .windows("💡".len())
        .position(|window| window == "💡".as_bytes())
        .expect("emoji bytes");

    let decoded = decode_all(&[&bytes[..emoji_start + 1], &bytes[emoji_start + 1..]]);

    assert_eq!(decoded, vec!["💡".to_string()]);
}

#[test]
fn line_buffer_gives_the_same_lines_however_the_stream_is_cut() {
    let stream = b"data: a\r\n\ndata: b\nrest".to_vec();
    let mut whole = SseLineBuffer::new();
    let lines_whole = whole.feed(&stream);
    for cut in 0..=stream.len() {
        let mut split = SseLineBuffer::new();
        let mut lines = split.feed(&stream[..cut]);
        lines.extend(split.feed(&stream[cut..]));
        assert_eq!(lines, lines_whole);
        assert_eq!(split.finish(), b"rest".to_vec());
    }
    assert_eq!(
        lines_whole,
        vec![b"data: a\r".to_vec(), Vec::new(), b"data: b".to_vec()]
    );
}

#[test]
fn unfinished_last_line_is_decoded_at_the_end() {
    let decoded = decode_all(&[b"data: {\"choices\":[{\"delta\":{\"content\":\"tail\"}}]}"]);
    assert_eq!(decoded, vec!["tail".to_string()]);
}

#[test]
fn stream_lines_without_content_give_nothing() {
    assert_eq!(stream_line_payload("data: [DONE]"), None);
    assert_eq!(stream_line_payload("data:   "), None);
    assert_eq!(stream_line_payload(": keep-alive"), None);
    assert_eq!(stream_line_payload("event: message"), None);
    assert_eq!(stream_line_payload("data: [DONE]x"), Some("[DONE]x".to_string()));
    assert_eq!(stream_line_payload("data:{\"a\":1}  "), Some("{\"a\":1}".to_string()));
    assert_eq!(decode_stream_line(b"  data: x \r").unwrap(), Some("x".to_string()));
    assert_eq!(stream_delta_content(stream_response(Some(""))), None);
    assert_eq!(stream_delta_content(stream_response(None)), None);
    assert_eq!(stream_delta_content(OpenRouterStreamResponse { choices: vec![] }), None);
    assert_eq!(stream_delta_content(stream_response(Some(" "))), Some(" ".to_string()));
}

#[test]
fn invalid_utf8_line_is_an_invalid_response() {
    match decode_stream_line(&[b'd', 0xff, b'x']) {
        Err(ChatProviderError::InvalidResponse(m)) => {
            assert_eq!(m, "invalid utf-8 sequence of 1 bytes from index 1")
        }
        other => panic!("unexpected {:?}", other),
    }
}

#[test]
fn unparsable_payload_is_an_invalid_response() {
    match stream_content(Err("expected value at line 1 column 1".to_string())) {
        Err(ChatProviderError::InvalidResponse(m)) => {
            assert_eq!(m, "expected value at line 1 column 1")
        }
        other => panic!("unexpected {:?}", other),
    }
}

#[test]
fn completion_needs_non_blank_content() {
    let response = |content: Option<&str>| OpenRouterResponse {
        choices: vec![OpenRouterChoice {
            message: OpenRouterMessage { content: content.map(|c| c.to_string()) },
        }],
    };
    assert_eq!(extract_completion(response(Some(" Hi "))).unwrap(), " Hi ");
    for bad in [response(Some(" \n")), response(None), OpenRouterResponse { choices: vec![] }] {
        match extract_completion(bad) {
            Err(ChatProviderError::InvalidResponse(m)) => {
                assert_eq!(m, "missing assistant content")
            }
            other => panic!("unexpected {:?}", other),
        }
    }
}

#[test]
fn completions_url_drops_trailing_slashes() {
    assert_eq!(
        completions_url("https://openrouter.ai/api/v1"),
        "https://openrouter.ai/api/v1/chat/completions"
    );
    assert_eq!(completions_url("http://x//"), "http://x/chat/completions");
    assert_eq!(completions_url(""), "/chat/completions");
}

#[test]
fn only_success_statuses_pass() {
    assert!(check_status(200, String::new()).is_ok());
    assert!(check_status(299, String::new()).is_ok());
    match check_status(429, "slow down".to_string()) {
        Err(ChatProviderError::Upstream { status, body }) => {
            assert_eq!(status, 429);
            assert_eq!(body, "slow down");
        }
        other => panic!("unexpected {:?}", other),
    }
    assert!(check_status(302, String::new()).is_err());
}

#[test]
fn missing_api_key_is_reported() {
    assert!(matches!(require_api_key(&None), Err(ChatProviderError::MissingApiKey)));
    assert_eq!(require_api_key(&Some("k".to_string())).unwrap(), "k");
}

#[test]
fn public_messages_hide_provider_details() {
    assert_eq!(
        ChatProviderError::MissingApiKey.public_message(),
        "OPENROUTER_API_KEY is not configured"
    );
    assert_eq!(
        ChatProviderError::Upstream { status: 502, body: "secret".to_string() }.public_message(),
        "OpenRouter request failed with 502 Bad Gateway"
    );
    assert_eq!(
        ChatProviderError::Upstream { status: 599, body: String::new() }.public_message(),
        "OpenRouter request failed with 599 <unknown status code>"
    );
    assert_eq!(
        ChatProviderError::Request("dns".to_string()).public_message(),
        "OpenRouter request failed"
    );
    assert_eq!(
        ChatProviderError::InvalidResponse("eof".to_string()).public_message(),
        "OpenRouter response was invalid"
    );
    let error = AppError::from(ChatProviderError::Upstream { status: 401, body: "no".to_string() });
    assert_eq!(error.status_code(), 502);
    let detail = error.detail();
    assert_eq!(detail.code, "provider_error");
    assert_eq!(detail.message, "OpenRouter request failed with 401 Unauthorized");
}
