//! Encoding a conversation and its generation parameters as the provider's request payload.

use vstd::prelude::*;
use crate::json::{
    json_array, json_object, json_string, json_view, json_views, map_insert, map_view, new_map,
    JsonView,
};
use crate::openai::{message_views, Message, MessageView, Reasoning, ReasoningEffort};

verus! {

/// The entry of one message in the payload's `input` list: its role token and
/// its text as a single segment of type `text`.
pub open spec fn input_item(m: MessageView) -> JsonView {
    JsonView::Object(
        Map::empty().insert("role"@, JsonView::Str(m.role.token())).insert(
            "content"@,
            JsonView::Array(
                seq![
                    JsonView::Object(
                        Map::empty().insert("type"@, JsonView::Str("text"@)).insert(
                            "text"@,
                            JsonView::Str(m.content),
                        ),
                    ),
                ],
            ),
        ),
    )
}

/// The reasoning object of the payload.
pub open spec fn reasoning_item(effort: ReasoningEffort) -> JsonView {
    JsonView::Object(Map::empty().insert("effort"@, JsonView::Str(effort.token())))
}

/// The entries of the payload: the model, the input list and the temperature,
/// and the reasoning object only when an effort is set.
pub open spec fn payload_entries(
    model: Seq<char>,
    messages: Seq<MessageView>,
    temperature: JsonView,
    effort: Option<ReasoningEffort>,
) -> Map<Seq<char>, JsonView> {
    let base = Map::empty().insert("model"@, JsonView::Str(model)).insert(
        "input"@,
        JsonView::Array(messages.map_values(|m: MessageView| input_item(m))),
    ).insert("temperature"@, temperature);
    match effort {
        Some(e) => base.insert("reasoning"@, reasoning_item(e)),
        None => base,
    }
}

pub open spec fn effort_of(reasoning: Option<Reasoning>) -> Option<ReasoningEffort> {
    match reasoning {
        Some(r) => Some(r.effort),
        None => None,
    }
}

/// A request for one completion.
#[derive(Debug, Clone)]
pub struct ResponseRequest {
    pub model: String,
    pub messages: Vec<Message>,
    /// The sampling temperature, as the JSON number that is sent.
    pub temperature: serde_json::Value,
    /// The deadline of the call in seconds; it is not part of the payload.
    pub timeout_secs: u64,
    pub reasoning: Option<Reasoning>,
}

impl ResponseRequest {
    pub fn new(
        model: String,
        messages: Vec<Message>,
        temperature: serde_json::Value,
        timeout_secs: u64,
        reasoning: Option<Reasoning>,
    ) -> (r: ResponseRequest)
        ensures
            r.model@ == model@,
            message_views(r.messages@) == message_views(messages@),
            json_view(r.temperature) == json_view(temperature),
            r.timeout_secs == timeout_secs,
            r.reasoning == reasoning,
    {
        ResponseRequest { model, messages, temperature, timeout_secs, reasoning }
    }

    /// The entries of the payload of this request.
    pub open spec fn payload_spec(&self) -> Map<Seq<char>, JsonView> {
        payload_entries(
            self.model@,
            message_views(self.messages@),
            json_view(self.temperature),
            effort_of(self.reasoning),
        )
    }

    /// The wire payload: `{model, input, temperature, reasoning?}`.
    pub fn to_payload(&self) -> (r: serde_json::Value)
        ensures
            json_view(r) == JsonView::Object(self.payload_spec()),
    {
        let mut input: Vec<serde_json::Value> = Vec::new();
        let mut i: usize = 0;
        while i < self.messages.len()
            invariant
                i <= self.messages@.len(),
                input@.len() == i,
                forall|j: int| 0 <= j < i ==> json_view(#[trigger] input@[j]) == input_item(self.messages@[j]@),
            decreases self.messages@.len() - i,
        {
            input.push(self.messages[i].to_responses_input());
            i = i + 1;
        }
        assert(json_views(input@) =~= message_views(self.messages@).map_values(
            |m: MessageView| input_item(m),
        ));
        let mut payload = new_map();
        assert(map_view(payload) == Map::<Seq<char>, JsonView>::empty());
        map_insert(&mut payload, "model".to_owned(), json_string(self.model.clone()));
        map_insert(&mut payload, "input".to_owned(), json_array(input));
        map_insert(&mut payload, "temperature".to_owned(), self.temperature.clone());
        match &self.reasoning {
            Some(reasoning) => {
                let mut item = new_map();
                assert(map_view(item) == Map::<Seq<char>, JsonView>::empty());
                map_insert(&mut item, "effort".to_owned(), json_string(reasoning.effort.as_str().to_owned()));
                map_insert(&mut payload, "reasoning".to_owned(), json_object(item));
            },
            None => {},
        }
        json_object(payload)
    }
}

impl Message {
    /// The entry of this message in the payload's `input` list.
    pub fn to_responses_input(&self) -> (r: serde_json::Value)
        ensures
            json_view(r) == input_item(self@),
    {
        let mut segment = new_map();
        assert(map_view(segment) == Map::<Seq<char>, JsonView>::empty());
        map_insert(&mut segment, "type".to_owned(), json_string("text".to_owned()));
        map_insert(&mut segment, "text".to_owned(), json_string(self.content.clone()));
        let mut content: Vec<serde_json::Value> = Vec::new();
        content.push(json_object(segment));
        assert(json_views(content@) =~= seq![json_view(content@[0])]);
        let mut item = new_map();
        assert(map_view(item) == Map::<Seq<char>, JsonView>::empty());
        map_insert(&mut item, "role".to_owned(), json_string(self.role.as_str().to_owned()));
        map_insert(&mut item, "content".to_owned(), json_array(content));
        json_object(item)
    }
}

/// A request without a reasoning effort has no `reasoning` entry at all, and
/// one with an effort has a `reasoning` entry that is exactly `{"effort": <token>}`.
pub proof fn lemma_reasoning_entry(req: ResponseRequest)
    ensures
        req.reasoning is None ==> !req.payload_spec().contains_key("reasoning"@),
        req.reasoning matches Some(r) ==> req.payload_spec().contains_key("reasoning"@)
            && req.payload_spec()["reasoning"@] == reasoning_item(r.effort),
{
    reveal_strlit("reasoning");
    reveal_strlit("model");
    reveal_strlit("input");
    reveal_strlit("temperature");
    assert("reasoning"@.len() != "model"@.len());
    assert("reasoning"@.len() != "input"@.len());
    assert("reasoning"@.len() != "temperature"@.len());
}

} // verus!
