//! The decisions of one invocation: merging the message sources, reaching the
//! provider, and showing its reply.

use vstd::prelude::*;
use crate::cli::{
    at_position, flag_conversation, flag_entries, lemma_stably_sorted, lemma_system_first,
    stably_sorted, OutputFormat,
};
use crate::codec::response_json;
use crate::error::Error;
use crate::json::{compact_text, pretty_text, to_compact_text, to_pretty_text};
use crate::openai::{message_views, FinishReason, Message, MessageView, Response, Role};
use crate::parse::{is_blank, side_channel_messages};

verus! {

/// The conversation made of the flag messages followed by the side-channel
/// messages; nothing when both are empty.
pub open spec fn assembled(flags: Seq<MessageView>, side: Seq<MessageView>) -> Option<
    Seq<MessageView>,
> {
    if flags.len() + side.len() == 0 {
        None
    } else {
        Some(flags + side)
    }
}

/// Appends the side-channel messages to the flag messages. Fails with
/// `NoMessagesProvided` when the merged conversation is empty.
pub fn assemble_messages(flag_messages: Vec<Message>, side_messages: Vec<Message>) -> (r: Result<
    Vec<Message>,
    Error,
>)
    ensures
        match assembled(message_views(flag_messages@), message_views(side_messages@)) {
            Some(c) => r is Ok && message_views(r->Ok_0@) == c,
            None => r matches Err(Error::NoMessagesProvided),
        },
{
    let ghost flags = flag_messages@;
    let ghost side = side_messages@;
    let mut messages = flag_messages;
    let mut rest = side_messages;
    messages.append(&mut rest);
    proof {
        assert(message_views(messages@) =~= message_views(flags) + message_views(side));
    }
    if messages.len() == 0 {
        return Err(Error::NoMessagesProvided);
    }
    Ok(messages)
}

/// With no flag message, no system message and a blank (or absent) side
/// channel, the conversation is empty and assembling it fails for want of messages.
pub proof fn lemma_no_sources(side: Seq<char>)
    requires
        is_blank(side),
    ensures
        flag_conversation(None, Seq::empty(), Seq::empty()).len() == 0,
        side_channel_messages(side).len() == 0,
        assembled(flag_conversation(None, Seq::empty(), Seq::empty()), side_channel_messages(side))
            is None,
{
    let s = flag_entries(Seq::empty(), Seq::empty());
    lemma_stably_sorted(s);
    assert(s.len() == 0);
    if stably_sorted(s).len() > 0 {
        let x = stably_sorted(s)[0];
        stably_sorted(s).lemma_filter_contains(at_position(x.1), 0);
        assert(stably_sorted(s).filter(at_position(x.1)) == s.filter(at_position(x.1)));
        s.lemma_filter_len(at_position(x.1));
    }
}

/// With a system message, the assembled conversation starts with it, wherever
/// its flag stood and whatever the side channel holds, and it is the only
/// system message of the conversation.
pub proof fn lemma_system_message_first(
    system: Seq<char>,
    users: Seq<(Seq<char>, int)>,
    assistants: Seq<(Seq<char>, int)>,
    side: Seq<char>,
)
    ensures
        assembled(flag_conversation(Some(system), users, assistants), side_channel_messages(side))
            is Some,
        assembled(flag_conversation(Some(system), users, assistants), side_channel_messages(side))->Some_0[0]
            == (MessageView { role: Role::System, content: system }),
        forall|i: int|
            0 < i < assembled(
                flag_conversation(Some(system), users, assistants),
                side_channel_messages(side),
            )->Some_0.len() ==> (#[trigger] assembled(
                flag_conversation(Some(system), users, assistants),
                side_channel_messages(side),
            )->Some_0[i]).role != Role::System,
{
    lemma_system_first(system, users, assistants);
    let f = flag_conversation(Some(system), users, assistants);
    let c = f + side_channel_messages(side);
    assert forall|i: int| 0 < i < c.len() implies (#[trigger] c[i]).role != Role::System by {
        if i < f.len() {
            assert(c[i] == f[i]);
        } else {
            assert(c[i] == side_channel_messages(side)[i - f.len()]);
        }
    }
}

pub open spec fn choice_count_message() -> Seq<char> {
    "Unexpected number of choices in response: "@
}

pub open spec fn stop_reason_message() -> Seq<char> {
    "Received unrecognized stop reason for choice: "@
}

/// Relies on std's `{:?}` formatting through the type's derived Debug.
#[verifier::external_body]
fn debug_text<T: std::fmt::Debug>(x: &T) -> String {
    format!("{:?}", x)
}

/// The text that shows a response: only a response with exactly one choice,
/// finished by `Stop`, is shown; as its content, or as compact or indented
/// JSON of the whole response, followed by a newline.
pub fn show_response(resp: &Response, format: OutputFormat) -> (r: Result<String, Error>)
    ensures
        resp.choices@.len() != 1 ==> (r matches Err(Error::UnexpectedResponse(m))
            && choice_count_message().is_prefix_of(m@)),
        resp.choices@.len() == 1 && resp.choices@[0].finish_reason != FinishReason::Stop ==> (r matches Err(
            Error::UnexpectedResponse(m),
        ) && stop_reason_message().is_prefix_of(m@)),
        resp.choices@.len() == 1 && resp.choices@[0].finish_reason == FinishReason::Stop
            && format == OutputFormat::Plaintext ==> r is Ok && r->Ok_0@
            == resp.choices@[0].message.content@ + "\n"@,
        resp.choices@.len() == 1 && resp.choices@[0].finish_reason == FinishReason::Stop
            && format == OutputFormat::JSON ==> (r is Ok && r->Ok_0@ == compact_text(
            response_json(resp@),
        ) + "\n"@) || r matches Err(Error::JSON(_)),
        resp.choices@.len() == 1 && resp.choices@[0].finish_reason == FinishReason::Stop
            && format == OutputFormat::JSONPretty ==> (r is Ok && r->Ok_0@ == pretty_text(
            response_json(resp@),
        ) + "\n"@) || r matches Err(Error::JSON(_)),
{
    if resp.choices.len() != 1 {
        let mut m = "Unexpected number of choices in response: ".to_owned();
        m.append(debug_text(resp).as_str());
        return Err(Error::UnexpectedResponse(m));
    }
    let choice = &resp.choices[0];
    if choice.finish_reason != FinishReason::Stop {
        let mut m = "Received unrecognized stop reason for choice: ".to_owned();
        m.append(debug_text(choice).as_str());
        return Err(Error::UnexpectedResponse(m));
    }
    let mut output = match format {
        OutputFormat::Plaintext => choice.message.content.clone(),
        OutputFormat::JSON => match to_compact_text(&resp.to_json()) {
            Ok(text) => text,
            Err(e) => return Err(Error::JSON(e)),
        },
        OutputFormat::JSONPretty => match to_pretty_text(&resp.to_json()) {
            Ok(text) => text,
            Err(e) => return Err(Error::JSON(e)),
        },
    };
    output.append("\n");
    Ok(output)
}

/// The address of the responses resource under a base endpoint.
pub fn responses_endpoint(base_url: &str) -> (r: String)
    ensures
        r@ == base_url@ + "/v1/responses"@,
{
    let mut url = base_url.to_owned();
    url.append("/v1/responses");
    url
}

/// The credential to send, or `NoAPIKey` before any request is made.
pub fn require_api_key(api_key: &Option<String>) -> (r: Result<&String, Error>)
    ensures
        match api_key {
            Some(k) => r is Ok && r->Ok_0@ == k@,
            None => r matches Err(Error::NoAPIKey),
        },
{
    match api_key {
        Some(k) => Ok(k),
        None => Err(Error::NoAPIKey),
    }
}

} // verus!
