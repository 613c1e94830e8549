use cogni::openai::{
    Choice, FinishReason, Message, Reasoning, ReasoningEffort, Response, Role, Usage,
    MAX_TIMESTAMP, MIN_TIMESTAMP,
};
use cogni::request::ResponseRequest;
use cogni::response::{response_from_reply, ResponseContent, ResponseOutput, ResponsesAPIResponse};
use cogni::Error;
use serde_json::Value;

fn json(text: &str) -> Value {
    serde_json::from_str(text).unwrap()
}

fn payload_with_output(output: &str) -> Value {
    json(&format!(
        r#"{{"created": 1688413145, "model": "gpt-5", "output": {output},
            "usage": {{"input_tokens": 1, "output_tokens": 2, "total_tokens": 3}}}}"#
    ))
}

fn normalize(v: &Value) -> Result<Response, String> {
    Response::try_from(ResponsesAPIResponse::from_json(v)?)
}

#[test]
fn segments_join_without_separator_and_skip_other_types() {
    let v = payload_with_output(
        r#"[{"type": "message", "content": [
            {"type": "output_text", "text": "Hello"},
            {"type": "refusal", "refusal": "no"},
            {"type": "text", "text": " world"}]}]"#,
    );
    let resp = normalize(&v).unwrap();
    assert_eq!(resp.choices.len(), 1);
    assert_eq!(resp.choices[0].message, Message::assistant("Hello world"));
    assert_eq!(resp.choices[0].finish_reason, FinishReason::Stop);
}

#[test]
fn role_of_a_message_item_is_kept() {
    let v = payload_with_output(
        r#"[{"type": "message", "role": "user", "content": [{"type": "text", "text": "x"}]},
            {"type": "message", "role": null, "content": [{"type": "text", "text": "y"}]}]"#,
    );
    let resp = normalize(&v).unwrap();
    assert_eq!(
        resp.choices,
        vec![
            Choice {
                message: Message::user("x"),
                finish_reason: FinishReason::Stop
            },
            Choice {
                message: Message::assistant("y"),
                finish_reason: FinishReason::Stop
            },
        ]
    );
}

#[test]
fn non_message_items_are_skipped() {
    let v = payload_with_output(
        r#"[{"type": "reasoning", "content": [{"type": "text", "text": "thinking"}]},
            {"type": "message", "content": [{"type": "output_text", "text": "answer"}]},
            {"type": "function_call", "name": "f"}]"#,
    );
    let resp = normalize(&v).unwrap();
    assert_eq!(resp.choices.len(), 1);
    assert_eq!(resp.choices[0].message.content, "answer");
}

#[test]
fn message_without_text_is_malformed() {
    let v = payload_with_output(
        r#"[{"type": "message", "content": [{"type": "refusal", "refusal": "no"}]}]"#,
    );
    assert_eq!(
        normalize(&v).unwrap_err(),
        "response message missing text content"
    );
    let v = payload_with_output(r#"[{"type": "message", "content": [{"type": "text", "text": ""}]}]"#);
    assert_eq!(
        normalize(&v).unwrap_err(),
        "response message missing text content"
    );
}

#[test]
fn empty_message_is_reported_before_missing_output() {
    let v = payload_with_output(
        r#"[{"type": "reasoning"}, {"type": "message"}, {"type": "message", "content": [{"type": "text", "text": "ok"}]}]"#,
    );
    assert_eq!(
        normalize(&v).unwrap_err(),
        "response message missing text content"
    );
}

#[test]
fn no_output_at_all_means_no_assistant_output() {
    let v = payload_with_output("[]");
    assert_eq!(
        normalize(&v).unwrap_err(),
        "response did not contain any assistant messages"
    );
    let v = json(
        r#"{"created": 1, "model": "m", "usage": {"input_tokens": 1, "output_tokens": 2, "total_tokens": 3}}"#,
    );
    assert_eq!(
        normalize(&v).unwrap_err(),
        "response did not contain any assistant messages"
    );
}

#[test]
fn missing_usage_counts_default_to_zero() {
    let v = json(
        r#"{"created": 5, "model": "m", "usage": {},
            "output": [{"type": "message", "content": [{"type": "text", "text": "t"}]}]}"#,
    );
    let resp = normalize(&v).unwrap();
    assert_eq!(resp.usage, Usage::default());
    assert_eq!(resp.created, 5);
}

#[test]
fn malformed_payloads_are_rejected() {
    let bad = [
        r#"{"model": "m", "usage": {}}"#,
        r#"{"created": "1", "model": "m", "usage": {}}"#,
        r#"{"created": 1.5, "model": "m", "usage": {}}"#,
        r#"{"created": 1, "usage": {}}"#,
        r#"{"created": 1, "model": "m"}"#,
        r#"{"created": 1, "model": "m", "usage": []}"#,
        r#"{"created": 1, "model": "m", "usage": {"input_tokens": -1}}"#,
        r#"{"created": 1, "model": "m", "usage": {"input_tokens": 4294967296}}"#,
        r#"{"created": 1, "model": "m", "usage": {}, "output": {}}"#,
        r#"{"created": 1, "model": "m", "usage": {}, "output": [{"content": []}]}"#,
        r#"{"created": 1, "model": "m", "usage": {}, "output": [{"type": "message", "role": "robot"}]}"#,
        r#"{"created": 1, "model": "m", "usage": {}, "output": [{"type": "message", "content": [{"text": "x"}]}]}"#,
        r#"{"created": 1, "model": "m", "usage": {}, "output": [{"type": "message", "content": [{"type": "text"}]}]}"#,
        r#"[]"#,
    ];
    for text in bad {
        assert!(
            ResponsesAPIResponse::from_json(&json(text)).is_err(),
            "accepted {text}"
        );
    }
}

#[test]
fn token_count_at_u32_limit_is_accepted() {
    let v = json(r#"{"created": 1, "model": "m", "usage": {"total_tokens": 4294967295}}"#);
    let p = ResponsesAPIResponse::from_json(&v).unwrap();
    assert_eq!(p.usage.total_tokens, u32::MAX);
}

#[test]
fn creation_time_must_fit_a_utc_date_time() {
    let at = |secs: i64| {
        json(&format!(
            r#"{{"created": {secs}, "model": "m", "usage": {{}}}}"#
        ))
    };
    assert_eq!(
        ResponsesAPIResponse::from_json(&at(MAX_TIMESTAMP)).unwrap().created,
        MAX_TIMESTAMP
    );
    assert_eq!(
        ResponsesAPIResponse::from_json(&at(MIN_TIMESTAMP)).unwrap().created,
        MIN_TIMESTAMP
    );
    assert!(ResponsesAPIResponse::from_json(&at(MAX_TIMESTAMP + 1)).is_err());
    assert!(ResponsesAPIResponse::from_json(&at(MIN_TIMESTAMP - 1)).is_err());
    assert_eq!(
        chrono::DateTime::from_timestamp(MAX_TIMESTAMP, 0).map(|d| d.timestamp()),
        Some(MAX_TIMESTAMP)
    );
    assert!(chrono::DateTime::from_timestamp(MAX_TIMESTAMP + 1, 0).is_none());
    assert_eq!(
        chrono::DateTime::from_timestamp(MIN_TIMESTAMP, 0).map(|d| d.timestamp()),
        Some(MIN_TIMESTAMP)
    );
    assert!(chrono::DateTime::from_timestamp(MIN_TIMESTAMP - 1, 0).is_none());
}

#[test]
fn content_and_output_items_decode() {
    assert!(matches!(
        ResponseContent::from_json(&json(r#"{"type": "output_text", "text": "a"}"#)),
        Ok(ResponseContent::OutputText { text }) if text == "a"
    ));
    assert!(matches!(
        ResponseContent::from_json(&json(r#"{"type": "image"}"#)),
        Ok(ResponseContent::Other)
    ));
    let item = ResponseOutput::from_json(&json(r#"{"type": "message"}"#)).unwrap();
    assert_eq!(item.item_type, "message");
    assert_eq!(item.role, None);
    assert!(item.content.is_empty());
    assert_eq!(item.aggregated_text(), None);
    let c = ResponseContent::Text {
        text: "t".to_string(),
    };
    assert_eq!(c.as_text(), Some("t"));
    assert_eq!(ResponseContent::Other.as_text(), None);
}

#[test]
fn reply_with_success_status_is_normalized() {
    let body = payload_with_output(
        r#"[{"type": "message", "content": [{"type": "output_text", "text": "hi"}]}]"#,
    );
    for status in [200u16, 201, 299] {
        let resp = response_from_reply(status, &body).unwrap();
        assert_eq!(resp.choices[0].message.content, "hi");
        assert_eq!(resp.model, "gpt-5");
        assert_eq!(
            resp.usage,
            Usage {
                input_tokens: 1,
                output_tokens: 2,
                total_tokens: 3
            }
        );
    }
}

#[test]
fn reply_with_success_status_and_no_assistant_output() {
    let body = payload_with_output(r#"[{"type": "reasoning"}]"#);
    match response_from_reply(200, &body) {
        Err(Error::UnexpectedResponse(m)) => {
            assert_eq!(m, "response did not contain any assistant messages")
        }
        other => panic!("unexpected result: {other:?}"),
    }
}

#[test]
fn reply_with_failure_status_is_a_provider_rejection() {
    let body = json(
        r#"{"error": {"message": "Rate limit reached", "type": "requests", "param": "p", "code": "rate_limit_exceeded"}}"#,
    );
    for status in [199u16, 300, 400, 401, 404, 429, 500, 503] {
        match response_from_reply(status, &body) {
            Err(Error::OpenAIError { error }) => {
                assert_eq!(error.message, "Rate limit reached");
                assert_eq!(error.error_type, "requests");
                assert_eq!(error.param.as_deref(), Some("p"));
                assert_eq!(error.code.as_deref(), Some("rate_limit_exceeded"));
            }
            other => panic!("unexpected result for {status}: {other:?}"),
        }
    }
}

#[test]
fn reply_with_failure_status_and_no_envelope() {
    for body in [r#"{"detail": "gone"}"#, r#"{"error": {"type": "x"}}"#, r#""oops""#] {
        assert!(matches!(
            response_from_reply(500, &json(body)),
            Err(Error::UnexpectedResponse(_))
        ));
    }
}

#[test]
fn reply_with_success_status_and_error_envelope_is_malformed() {
    let body = json(r#"{"error": {"message": "m", "type": "t"}}"#);
    assert!(matches!(
        response_from_reply(200, &body),
        Err(Error::UnexpectedResponse(_))
    ));
}

#[test]
fn response_round_trips_through_json() {
    let resp = Response {
        created: 1688413145,
        choices: vec![
            Choice {
                message: Message::assistant("Hello \"world\"\n"),
                finish_reason: FinishReason::Stop,
            },
            Choice {
                message: Message::user("ünïcødé"),
                finish_reason: FinishReason::ContentFilter,
            },
        ],
        model: "gpt-5".to_string(),
        usage: Usage {
            input_tokens: 8,
            output_tokens: 9,
            total_tokens: u32::MAX,
        },
    };
    let value = resp.to_json();
    let back = Response::from_json(&value).unwrap();
    assert_eq!(back.created, resp.created);
    assert_eq!(back.choices, resp.choices);
    assert_eq!(back.model, resp.model);
    assert_eq!(back.usage, resp.usage);

    let text = serde_json::to_string(&value).unwrap();
    let again = Response::from_json(&json(&text)).unwrap();
    assert_eq!(again.choices, resp.choices);
    assert_eq!(again.created, resp.created);
    assert_eq!(again.usage, resp.usage);
}

#[test]
fn response_json_with_bad_tokens_is_rejected() {
    let good = r#"{"created": 0, "choices": [{"message": {"role": "assistant", "content": "c"}, "finish_reason": "length"}], "model": "m", "usage": {"input_tokens": 0, "output_tokens": 0, "total_tokens": 0}}"#;
    let resp = Response::from_json(&json(good)).unwrap();
    assert_eq!(resp.choices[0].finish_reason, FinishReason::Length);
    let bad = [
        good.replace("\"length\"", "\"halt\""),
        good.replace("\"assistant\"", "\"bot\""),
        good.replace("\"total_tokens\": 0", "\"total\": 0"),
        good.replace("\"created\": 0", "\"created\": \"0\""),
    ];
    for text in bad {
        assert!(Response::from_json(&json(&text)).is_err(), "accepted {text}");
    }
}

#[test]
fn tokens_and_constructors() {
    assert_eq!(Role::System.as_str(), "system");
    assert_eq!(Role::Assistant.as_str(), "assistant");
    assert_eq!(Role::User.as_str(), "user");
    assert_eq!(Role::from_token("user"), Some(Role::User));
    assert_eq!(Role::from_token("User"), None);
    assert_eq!(ReasoningEffort::Low.as_str(), "low");
    assert_eq!(ReasoningEffort::Medium.as_str(), "medium");
    assert_eq!(ReasoningEffort::High.as_str(), "high");
    assert_eq!(FinishReason::FunctionCall.as_str(), "function_call");
    assert_eq!(FinishReason::ContentFilter.as_str(), "content_filter");
    assert_eq!(FinishReason::from_token("stop"), Some(FinishReason::Stop));
    assert_eq!(
        Reasoning::from_effort(ReasoningEffort::Low).effort,
        ReasoningEffort::Low
    );
    let m = Message::system("be brief");
    assert_eq!(m.role, Role::System);
    assert_eq!(m.content, "be brief");
}

#[test]
fn payload_holds_every_field() {
    let request = ResponseRequest::new(
        "gpt-5".to_string(),
        vec![Message::system("S"), Message::assistant("A")],
        Value::from(0.5f32),
        30,
        Some(Reasoning::from_effort(ReasoningEffort::Low)),
    );
    let payload = request.to_payload();
    assert_eq!(
        payload,
        json(
            r#"{"model": "gpt-5", "temperature": 0.5, "reasoning": {"effort": "low"},
                "input": [
                    {"role": "system", "content": [{"type": "text", "text": "S"}]},
                    {"role": "assistant", "content": [{"type": "text", "text": "A"}]}
                ]}"#
        )
    );
    assert_eq!(payload.as_object().unwrap().len(), 4);
}

#[test]
fn payload_without_reasoning_has_three_keys() {
    let request = ResponseRequest::new("m".to_string(), vec![], Value::from(0.0f32), 1, None);
    let payload = request.to_payload();
    let keys: Vec<&String> = payload.as_object().unwrap().keys().collect();
    assert_eq!(keys, vec!["input", "model", "temperature"]);
    assert_eq!(payload["input"], json("[]"));
}
