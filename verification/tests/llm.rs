use codesmith::llm::{
    bearer_key, chat_completions_url, check_model_listed, chunk_text, final_sse_line,
    models_url, sse_line_text, sse_payload, take_sse_lines,
};
#[test]
fn streamed_chunks_concatenate_to_the_reply() {
    let body = "data: {\"choices\":[{\"delta\":{\"content\":\"hel\"}}]}\n\ndata: {\"choices\":[{\"delta\":{\"content\":\"lo\"}}]}\n\ndata: [DONE]\n\n";
    let (lines, rest) = take_sse_lines(body);
    assert_eq!(rest, "");
    let mut reply = String::new();
    for line in lines {
        if let Some(text) = sse_line_text(&line).unwrap() {
            reply.push_str(&text);
        }
    }
    assert_eq!(reply, "hello");
}

#[test]
fn partial_lines_wait_in_the_buffer() {
    let (lines, rest) = take_sse_lines("data: a\n  data: b  \npartial");
    assert_eq!(lines, vec!["data: a".to_string(), "data: b".to_string()]);
    assert_eq!(rest, "partial");
    assert_eq!(final_sse_line("  data: x \n"), Some("data: x".to_string()));
    assert_eq!(final_sse_line(" \n "), None);
    assert_eq!(sse_payload("event: ping"), None);
    assert_eq!(sse_payload("data:  [DONE] "), None);
    assert_eq!(sse_payload("data: {}"), Some("{}".to_string()));
    assert_eq!(chunk_text(&vec![None, Some("b".to_string()), Some("c".to_string())]), Some("b".to_string()));
    assert_eq!(chunk_text(&vec![None]), None);
}

#[test]
fn endpoints_and_bearer_key() {
    assert_eq!(chat_completions_url("http://localhost:11434/v1//"), "http://localhost:11434/v1/chat/completions");
    assert_eq!(models_url("http://h/v1"), "http://h/v1/models");
    assert_eq!(bearer_key(&Some(String::new())), None);
    assert_eq!(bearer_key(&Some("k".to_string())), Some("k".to_string()));
    assert_eq!(bearer_key(&None), None);
}

#[test]
fn test_connection_fails_when_configured_model_is_missing() {
    let listed = vec!["gemma4:e4b-mlx-bf16".to_string()];
    let error = check_model_listed(&listed, "qwen2.5-coder:7b")
        .expect_err("missing configured model should fail connection test");
    assert!(error.contains("qwen2.5-coder:7b"));
    assert_eq!(check_model_listed(&listed, "gemma4:e4b-mlx-bf16"), Ok(()));
}

#[test]
fn stream_lines_read_their_chunk_text() {
    assert_eq!(sse_line_text(": keep-alive"), Ok(None));
    assert_eq!(sse_line_text("data: [DONE]"), Ok(None));
    assert_eq!(
        sse_line_text("data: {\"choices\":[{\"delta\":{\"role\":\"assistant\"}},{\"delta\":{\"content\":\"x\"}}]}"),
        Ok(Some("x".to_string()))
    );
    assert_eq!(
        sse_line_text("data: {\"choices\":[{\"delta\":{\"content\":null}}]}"),
        Ok(None)
    );
    assert_eq!(sse_line_text("data: {\"choices\":[]}"), Ok(None));
    assert_eq!(sse_line_text("data: not json"), Err("parse streaming chunk".to_string()));
    assert_eq!(sse_line_text("data: {\"id\":1}"), Err("parse streaming chunk".to_string()));
}

#[test]
fn chunks_are_read_field_by_field() {
    assert_eq!(
        sse_line_text("data: {\"choices\":[{\"delta\":null}]}"),
        Err("parse streaming chunk".to_string())
    );
    assert_eq!(sse_line_text("data: {\"choices\":[{}]}"), Err("parse streaming chunk".to_string()));
    assert_eq!(sse_line_text("data: {\"choices\":[{\"delta\":{}}]}"), Ok(None));
    assert_eq!(
        sse_line_text("data: {\"choices\":[{\"delta\":{\"content\":5}}]}"),
        Err("parse streaming chunk".to_string())
    );
    assert_eq!(sse_line_text("data: {\"choices\":{}}"), Err("parse streaming chunk".to_string()));
    assert_eq!(sse_line_text("data: [[[[\"x\"]]]]"), Ok(Some("x".to_string())));
    assert_eq!(
        sse_line_text("data: {\"id\":\"c1\",\"choices\":[{\"index\":0,\"delta\":{\"content\":\"a\"}},{\"delta\":{\"content\":\"b\"}}]}"),
        Ok(Some("a".to_string()))
    );
}
