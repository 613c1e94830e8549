use cogni::cli::{messages_from_flags, OutputFormat};
use cogni::exec::{assemble_messages, show_response};
use cogni::openai::{Message, Reasoning, ReasoningEffort};
use cogni::parse_messages;
use cogni::request::ResponseRequest;
use cogni::response::response_from_reply;
use cogni::Error;
use serde_json::Value;

const REPLY: &str = r#"{
     "id": "resp_XXXXX",
     "created": 1688413145,
     "model": "gpt-5",
     "output": [{
         "id": "msg_XXXXX",
         "type": "message",
         "role": "assistant",
         "content": [{
             "type": "output_text",
             "text": "ASSISTANT REPLY"
         }]
     }],
     "usage": {
         "input_tokens": 8,
         "output_tokens": 9,
         "total_tokens": 17
     }
}"#;

fn json(text: &str) -> Value {
    serde_json::from_str(text).unwrap()
}

fn placed(items: &[(&str, usize)]) -> Vec<(String, usize)> {
    items.iter().map(|(t, i)| (t.to_string(), *i)).collect()
}

fn payload_for(messages: Vec<Message>, reasoning: Option<Reasoning>) -> Value {
    ResponseRequest::new(
        "gpt-5".to_string(),
        messages,
        Value::from(0.0f32),
        60,
        reasoning,
    )
    .to_payload()
}

fn shown_reply() -> String {
    let resp = response_from_reply(200, &json(REPLY)).expect("reply decodes");
    show_response(&resp, OutputFormat::Plaintext).expect("reply shows")
}

#[test]
fn chat_no_message() {
    let flags = messages_from_flags(None, vec![], vec![]);
    let side = parse_messages("");
    assert!(matches!(
        assemble_messages(flags, side),
        Err(Error::NoMessagesProvided)
    ));
}

#[test]
fn chat_user_message_from_flag() {
    // cogni -u Hello
    let flags = messages_from_flags(None, placed(&[("Hello", 2)]), vec![]);
    let messages = assemble_messages(flags, parse_messages("")).unwrap();
    let payload = payload_for(messages, None);

    assert_eq!(payload["model"], "gpt-5");
    assert_eq!(
        payload["input"],
        json(r#"[{"role": "user", "content": [{"type": "text", "text": "Hello"}]}]"#)
    );
    assert!(shown_reply().contains("ASSISTANT REPLY"));
}

#[test]
fn chat_user_message_from_stdin() {
    let flags = messages_from_flags(None, vec![], vec![]);
    let messages = assemble_messages(flags, parse_messages("Hello")).unwrap();
    let payload = payload_for(messages, None);

    assert_eq!(payload["model"], "gpt-5");
    assert_eq!(
        payload["input"],
        json(r#"[{"role": "user", "content": [{"type": "text", "text": "Hello"}]}]"#)
    );
    assert!(shown_reply().contains("ASSISTANT REPLY"));
}

#[test]
fn chat_with_reasoning_effort() {
    // cogni -u Hello --reasoning-effort medium
    let flags = messages_from_flags(None, placed(&[("Hello", 2)]), vec![]);
    let messages = assemble_messages(flags, parse_messages("")).unwrap();
    let payload = payload_for(
        messages,
        Some(Reasoning::from_effort(ReasoningEffort::Medium)),
    );

    assert_eq!(payload["model"], "gpt-5");
    assert_eq!(payload["reasoning"], json(r#"{"effort": "medium"}"#));
    assert_eq!(
        payload["input"],
        json(r#"[{"role": "user", "content": [{"type": "text", "text": "Hello"}]}]"#)
    );
    assert!(shown_reply().contains("ASSISTANT REPLY"));
}

#[test]
fn chat_multiple_messages() {
    // cogni -s SYSTEM -u USER_1 -a ASSI_1 -u USER_2 -a ASSI_2, with USER_STDIN piped in
    let flags = messages_from_flags(
        Some("SYSTEM".to_string()),
        placed(&[("USER_1", 4), ("USER_2", 8)]),
        placed(&[("ASSI_1", 6), ("ASSI_2", 10)]),
    );
    let messages = assemble_messages(flags, parse_messages("USER_STDIN")).unwrap();
    let payload = payload_for(messages, None);

    assert_eq!(payload["model"], "gpt-5");
    assert_eq!(
        payload["input"],
        json(
            r#"[
            {"role": "system", "content": [{"type": "text", "text": "SYSTEM"}]},
            {"role": "user", "content": [{"type": "text", "text": "USER_1"}]},
            {"role": "assistant", "content": [{"type": "text", "text": "ASSI_1"}]},
            {"role": "user", "content": [{"type": "text", "text": "USER_2"}]},
            {"role": "assistant", "content": [{"type": "text", "text": "ASSI_2"}]},
            {"role": "user", "content": [{"type": "text", "text": "USER_STDIN"}]}
        ]"#
        )
    );
    assert!(shown_reply().contains("ASSISTANT REPLY"));
}

#[test]
fn chat_api_error() {
    // cogni -u USER -t 1000, with USER_STDIN piped in
    let flags = messages_from_flags(None, placed(&[("USER", 2)]), vec![]);
    let messages = assemble_messages(flags, parse_messages("USER_STDIN")).unwrap();
    let payload = ResponseRequest::new(
        "gpt-5".to_string(),
        messages,
        Value::from(1000.0f32),
        60,
        None,
    )
    .to_payload();
    assert_eq!(payload["temperature"], json("1000.0"));
    assert_eq!(
        payload["input"][0],
        json(r#"{"role": "user", "content": [{"type": "text", "text": "USER"}]}"#)
    );

    let body = json(
        r#"{
           "error": {
             "message": "1000 is greater than the maximum of 2 - 'temperature'",
             "type": "invalid_request_error",
             "param": null,
             "code": null
           }
         }"#,
    );
    match response_from_reply(400, &body) {
        Err(Error::OpenAIError { error }) => {
            assert!(error.message.contains("1000 is greater than the maximum of 2"))
        }
        other => panic!("unexpected result: {other:?}"),
    }
}

#[test]
fn chat_user_message_from_file() {
    let flags = messages_from_flags(None, vec![], vec![]);
    let messages = assemble_messages(flags, parse_messages("Hello from file")).unwrap();
    let payload = payload_for(messages, None);

    assert_eq!(payload["model"], "gpt-5");
    assert_eq!(
        payload["input"],
        json(r#"[{"role": "user", "content": [{"type": "text", "text": "Hello from file"}]}]"#)
    );
    assert!(shown_reply().contains("ASSISTANT REPLY"));
}
