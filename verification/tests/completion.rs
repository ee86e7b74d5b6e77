use lexwisp::completion::{
    http_status_error, reply_text, response_size_ok, stream_event, StreamProgress, MAX_RESPONSE_BYTES,
};
use lexwisp::provider::ProviderError;
use lexwisp::sse::SseDecoder;

fn read_stream(chunks: &[&[u8]]) -> (Result<String, ProviderError>, Vec<String>) {
    let mut decoder = SseDecoder::default();
    let mut progress = StreamProgress::new();
    let mut deltas = Vec::new();
    for chunk in chunks {
        if let Err(error) = progress.take_chunk(chunk.len()) {
            return (Err(error), deltas);
        }
        let events = match decoder.push(chunk) {
            Ok(events) => events,
            Err(error) => return (Err(error), deltas),
        };
        for data in events {
            match stream_event(&data) {
                Ok(effect) => {
                    deltas.extend(effect.deltas.iter().cloned());
                    progress.apply(&effect);
                }
                Err(error) => return (Err(error), deltas),
            }
        }
    }
    if let Err(error) = decoder.finish() {
        return (Err(error), deltas);
    }
    (progress.finish(), deltas)
}

#[test]
fn http_authentication_and_rate_limit_errors_are_distinct() {
    for (code, status, expected) in [
        (401, "401 Unauthorized", "authentication failed"),
        (429, "429 Too Many Requests", "rate limit exceeded"),
    ] {
        let error = http_status_error(code, status);
        assert!(error.to_string().contains(expected), "{}", error.to_string());
    }
    assert_eq!(
        http_status_error(403, "403 Forbidden").to_string(),
        "provider request was rejected: authentication failed (403 Forbidden)"
    );
    assert!(http_status_error(404, "404 Not Found").to_string().contains("endpoint or model was not found"));
    assert!(http_status_error(503, "503 Service Unavailable").to_string().contains("provider server error"));
    assert!(http_status_error(418, "418 I'm a teapot").to_string().contains("HTTP request failed"));
}

#[test]
fn empty_choices_are_rejected() {
    assert!(matches!(reply_text(br#"{"choices":[]}"#), Err(ProviderError::Protocol(_))));
}

#[test]
fn whole_replies_give_their_message_content() {
    assert_eq!(
        reply_text(br#"{"choices":[{"message":{"role":"assistant","content":"Hi"}}]}"#).expect("content"),
        "Hi"
    );
    assert_eq!(
        reply_text(br#"{"choices":[{"message":{"content":[{"type":"text","text":"A"},{"type":"image"},{"text":"B"}]}}]}"#)
            .expect("parts"),
        "AB"
    );
    assert!(matches!(
        reply_text(br#"{"choices":[{"message":{"content":[{"type":"image"}]}}]}"#),
        Err(ProviderError::Protocol(m)) if m == "response did not contain choices[0].message.content"
    ));
    assert!(matches!(reply_text(b"not json"), Err(ProviderError::Protocol(_))));
    assert!(response_size_ok(MAX_RESPONSE_BYTES).is_ok());
    assert!(matches!(
        response_size_ok(MAX_RESPONSE_BYTES + 1),
        Err(ProviderError::Protocol(m)) if m == "response exceeded 2 MiB"
    ));
}

#[test]
fn interrupted_stream_preserves_emitted_partial_text() {
    let (result, deltas) = read_stream(&[b"data: {\"choices\":[{\"delta\":{\"content\":\"partial\"}}]}\n\n"]);
    assert_eq!(deltas, vec!["partial".to_string()]);
    assert!(matches!(
        result,
        Err(ProviderError::Protocol(m))
            if m == "stream ended before [DONE] or a finish reason; partial text was preserved"
    ));
}

#[test]
fn streams_finish_on_done_or_a_finish_reason() {
    let (result, _) = read_stream(&[
        b"data: {\"choices\":[{\"delta\":{\"content\":\"Hel\"}}]}\n\n",
        b"data: {\"choices\":[{\"delta\":{\"content\":\"lo\"}}]}\n\ndata: [DONE]\n\n",
    ]);
    assert_eq!(result.expect("complete"), "Hello");
    let (result, _) = read_stream(&[
        b"data: {\"choices\":[{\"delta\":{\"content\":\"Hi\"},\"finish_reason\":\"stop\"}]}\n\n",
    ]);
    assert_eq!(result.expect("complete"), "Hi");
    let (result, _) = read_stream(&[
        b"data: {\"choices\":[{\"delta\":{\"content\":\"Hi\"},\"finish_reason\":null}]}\n\n",
        b"data: {\"choices\":[]}\n\n",
    ]);
    assert!(result.is_err());
    let (result, _) = read_stream(&[b"data: {oops}\n\n"]);
    assert!(matches!(result, Err(ProviderError::Protocol(_))));
}

#[test]
fn streams_are_bounded_and_time_out_by_progress() {
    let mut progress = StreamProgress::new();
    assert!(matches!(progress.timeout_error(), ProviderError::Timeout(m) if m == "the first event"));
    assert!(progress.take_chunk(MAX_RESPONSE_BYTES).is_ok());
    assert!(matches!(
        progress.take_chunk(1),
        Err(ProviderError::Protocol(m)) if m == "stream exceeded 2 MiB"
    ));
    let mut progress = StreamProgress::new();
    progress.apply(&stream_event("{\"choices\":[{\"delta\":{\"content\":\"x\"}}]}").expect("event"));
    assert_eq!(progress.output(), "x");
    assert!(matches!(progress.timeout_error(), ProviderError::Timeout(m) if m == "the next stream event"));
}
