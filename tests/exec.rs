use cogni::cli::OutputFormat;
use cogni::exec::{assemble_messages, require_api_key, responses_endpoint, show_response};
use cogni::openai::{Choice, FinishReason, Message, Response, Usage};
use cogni::Error;

fn default_resp(choices: Vec<Choice>) -> Response {
    Response {
        created: 0,
        choices,
        model: String::default(),
        usage: Usage::default(),
    }
}

fn hello_choice() -> Choice {
    Choice {
        message: Message::assistant("Hello world"),
        finish_reason: FinishReason::Stop,
    }
}

fn check_plaintext() {
    let resp = default_resp(vec![hello_choice()]);

    let res = show_response(&resp, OutputFormat::Plaintext);

    assert!(res.is_ok(), "Showing response should succeed");
    assert_eq!(res.unwrap().as_bytes(), b"Hello world\n");
}

fn check_json() {
    let resp = default_resp(vec![hello_choice()]);

    let output = show_response(&resp, OutputFormat::JSON).expect("Should be valid string");

    assert!(
        output.starts_with('{')
            && output.contains("\"content\":\"Hello world\"")
            && output.ends_with("}\n"),
        "{output}"
    );
}

fn check_json_pretty() {
    let resp = default_resp(vec![hello_choice()]);

    let output = show_response(&resp, OutputFormat::JSONPretty).expect("Should be valid string");

    assert!(
        output.starts_with("{\n")
            && output.contains("\"content\": \"Hello world\"")
            && output.ends_with("}\n"),
        "{output}"
    );
}

#[test]
fn chat_show_chat_response_plaintext() {
    check_plaintext();
}

#[test]
fn chat_show_chat_response_json() {
    check_json();
}

#[test]
fn chat_show_chat_response_json_pretty() {
    check_json_pretty();
}

#[test]
fn exec_show_chat_response_plaintext() {
    check_plaintext();
}

#[test]
fn exec_show_chat_response_json() {
    check_json();
}

#[test]
fn exec_show_chat_response_json_pretty() {
    check_json_pretty();
}

#[test]
fn show_json_is_the_whole_response() {
    let mut resp = default_resp(vec![hello_choice()]);
    resp.created = 1688413145;
    resp.model = "gpt-5".to_string();
    resp.usage = Usage {
        input_tokens: 8,
        output_tokens: 9,
        total_tokens: 17,
    };
    let output = show_response(&resp, OutputFormat::JSON).unwrap();
    assert_eq!(
        output,
        "{\"choices\":[{\"finish_reason\":\"stop\",\"message\":{\"content\":\"Hello world\",\"role\":\"assistant\"}}],\"created\":1688413145,\"model\":\"gpt-5\",\"usage\":{\"input_tokens\":8,\"output_tokens\":9,\"total_tokens\":17}}\n"
    );
}

#[test]
fn show_rejects_no_choice() {
    let resp = default_resp(vec![]);
    match show_response(&resp, OutputFormat::Plaintext) {
        Err(Error::UnexpectedResponse(m)) => {
            assert!(m.starts_with("Unexpected number of choices in response: "), "{m}")
        }
        other => panic!("unexpected result: {other:?}"),
    }
}

#[test]
fn show_rejects_two_choices() {
    let resp = default_resp(vec![hello_choice(), hello_choice()]);
    match show_response(&resp, OutputFormat::JSON) {
        Err(Error::UnexpectedResponse(m)) => {
            assert!(m.starts_with("Unexpected number of choices in response: "), "{m}");
            assert!(m.contains("Hello world"), "{m}");
        }
        other => panic!("unexpected result: {other:?}"),
    }
}

#[test]
fn show_rejects_finish_reason_other_than_stop() {
    for reason in [
        FinishReason::Length,
        FinishReason::FunctionCall,
        FinishReason::ContentFilter,
    ] {
        let resp = default_resp(vec![Choice {
            message: Message::assistant("Hello world"),
            finish_reason: reason,
        }]);
        match show_response(&resp, OutputFormat::Plaintext) {
            Err(Error::UnexpectedResponse(m)) => assert!(
                m.starts_with("Received unrecognized stop reason for choice: "),
                "{m}"
            ),
            other => panic!("unexpected result: {other:?}"),
        }
    }
}

#[test]
fn assembling_appends_side_channel_after_flags() {
    let flags = vec![Message::system("S"), Message::user("U")];
    let side = vec![Message::user("FROM FILE")];
    let messages = assemble_messages(flags, side).unwrap();
    assert_eq!(
        messages,
        vec![
            Message::system("S"),
            Message::user("U"),
            Message::user("FROM FILE")
        ]
    );
}

#[test]
fn assembling_side_channel_alone() {
    let messages = assemble_messages(vec![], vec![Message::user("only")]).unwrap();
    assert_eq!(messages, vec![Message::user("only")]);
}

#[test]
fn assembling_nothing_fails() {
    assert!(matches!(
        assemble_messages(vec![], vec![]),
        Err(Error::NoMessagesProvided)
    ));
}

#[test]
fn endpoint_is_under_base_url() {
    assert_eq!(
        responses_endpoint("https://api.openai.com"),
        "https://api.openai.com/v1/responses"
    );
    assert_eq!(
        responses_endpoint("http://127.0.0.1:1234"),
        "http://127.0.0.1:1234/v1/responses"
    );
}

#[test]
fn missing_api_key_is_reported() {
    assert!(matches!(require_api_key(&None), Err(Error::NoAPIKey)));
    let key = Some("ABCDE".to_string());
    assert_eq!(require_api_key(&key).unwrap(), "ABCDE");
}
