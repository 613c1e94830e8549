//! The JSON form of a `Response`, as the renderer writes it, and reading it back.

use vstd::prelude::*;
use crate::json::{
    entry, json_array, json_as_array, json_as_i64, json_as_str, json_as_u64, json_get, json_int,
    json_object, json_string, json_view, json_views, map_insert, map_view, new_map, text_entry,
    JsonView,
};
use crate::openai::{
    choice_views, finish_reason_of_token, role_of_token, timestamp_in_range, timestamp_is_valid,
    Choice, ChoiceView, FinishReason, Message, MessageView, Response, ResponseView, Role, Usage,
};
use crate::response::{invalid_field, parse_created};

verus! {

pub open spec fn message_json(m: MessageView) -> JsonView {
    JsonView::Object(
        Map::empty().insert("role"@, JsonView::Str(m.role.token())).insert(
            "content"@,
            JsonView::Str(m.content),
        ),
    )
}

pub open spec fn choice_json(c: ChoiceView) -> JsonView {
    JsonView::Object(
        Map::empty().insert("message"@, message_json(c.message)).insert(
            "finish_reason"@,
            JsonView::Str(c.finish_reason.token()),
        ),
    )
}

pub open spec fn usage_json(u: Usage) -> JsonView {
    JsonView::Object(
        Map::empty().insert("input_tokens"@, JsonView::Int(u.input_tokens as int)).insert(
            "output_tokens"@,
            JsonView::Int(u.output_tokens as int),
        ).insert("total_tokens"@, JsonView::Int(u.total_tokens as int)),
    )
}

/// The JSON form of a response: its creation time in seconds, its choices,
/// its model and its usage.
pub open spec fn response_json(r: ResponseView) -> JsonView {
    JsonView::Object(
        Map::empty().insert("created"@, JsonView::Int(r.created)).insert(
            "choices"@,
            JsonView::Array(r.choices.map_values(|c: ChoiceView| choice_json(c))),
        ).insert("model"@, JsonView::Str(r.model)).insert("usage"@, usage_json(r.usage)),
    )
}

pub open spec fn parse_message(j: JsonView) -> Option<MessageView> {
    match (text_entry(j, "role"@), text_entry(j, "content"@)) {
        (Some(r), Some(c)) => match role_of_token(r) {
            Some(role) => Some(MessageView { role, content: c }),
            None => None,
        },
        _ => None,
    }
}

pub open spec fn parse_choice(j: JsonView) -> Option<ChoiceView> {
    match (entry(j, "message"@), text_entry(j, "finish_reason"@)) {
        (Some(m), Some(f)) => match (parse_message(m), finish_reason_of_token(f)) {
            (Some(message), Some(finish_reason)) => Some(ChoiceView { message, finish_reason }),
            _ => None,
        },
        _ => None,
    }
}

pub open spec fn parse_choices(j: Option<JsonView>) -> Option<Seq<ChoiceView>> {
    match j {
        Some(JsonView::Array(items)) => if forall|i: int|
            0 <= i < items.len() ==> (#[trigger] parse_choice(items[i])) is Some {
            Some(items.map_values(|x: JsonView| parse_choice(x)->Some_0))
        } else {
            None
        },
        _ => None,
    }
}

pub open spec fn parse_required_count(j: Option<JsonView>) -> Option<u32> {
    match j {
        Some(JsonView::Int(i)) => if 0 <= i <= u32::MAX {
            Some(i as u32)
        } else {
            None
        },
        _ => None,
    }
}

pub open spec fn parse_usage_object(j: Option<JsonView>) -> Option<Usage> {
    match j {
        Some(u) => match (
            parse_required_count(entry(u, "input_tokens"@)),
            parse_required_count(entry(u, "output_tokens"@)),
            parse_required_count(entry(u, "total_tokens"@)),
        ) {
            (Some(a), Some(b), Some(c)) => Some(
                Usage { input_tokens: a, output_tokens: b, total_tokens: c },
            ),
            _ => None,
        },
        None => None,
    }
}

/// A response read from its JSON form; every entry is required.
pub open spec fn parse_response(j: JsonView) -> Option<ResponseView> {
    match (
        parse_created(entry(j, "created"@)),
        parse_choices(entry(j, "choices"@)),
        text_entry(j, "model"@),
        parse_usage_object(entry(j, "usage"@)),
    ) {
        (Some(created), Some(choices), Some(model), Some(usage)) => Some(
            ResponseView { created, choices, model, usage },
        ),
        _ => None,
    }
}

impl Message {
    /// The JSON form of a message: `{role, content}`.
    pub fn to_json(&self) -> (r: serde_json::Value)
        ensures
            json_view(r) == message_json(self@),
    {
        let mut m = new_map();
        assert(map_view(m) == Map::<Seq<char>, JsonView>::empty());
        map_insert(&mut m, "role".to_owned(), json_string(self.role.as_str().to_owned()));
        map_insert(&mut m, "content".to_owned(), json_string(self.content.clone()));
        json_object(m)
    }

    pub fn from_json(v: &serde_json::Value) -> (r: Result<Message, String>)
        ensures
            match parse_message(json_view(*v)) {
                Some(m) => r is Ok && r->Ok_0@ == m,
                None => r is Err,
            },
    {
        let role = match json_get(v, "role") {
            Some(x) => match json_as_str(x) {
                Some(t) => t,
                None => return Err(invalid_field("role")),
            },
            None => return Err(invalid_field("role")),
        };
        let content = match json_get(v, "content") {
            Some(x) => match json_as_str(x) {
                Some(t) => t.to_owned(),
                None => return Err(invalid_field("content")),
            },
            None => return Err(invalid_field("content")),
        };
        match Role::from_token(role) {
            Some(role) => Ok(Message { role, content }),
            None => Err(invalid_field("role")),
        }
    }
}

impl Choice {
    /// The JSON form of a choice: `{message, finish_reason}`.
    pub fn to_json(&self) -> (r: serde_json::Value)
        ensures
            json_view(r) == choice_json(self@),
    {
        let mut m = new_map();
        assert(map_view(m) == Map::<Seq<char>, JsonView>::empty());
        map_insert(&mut m, "message".to_owned(), self.message.to_json());
        map_insert(&mut m, "finish_reason".to_owned(), json_string(self.finish_reason.as_str().to_owned()));
        json_object(m)
    }

    pub fn from_json(v: &serde_json::Value) -> (r: Result<Choice, String>)
        ensures
            match parse_choice(json_view(*v)) {
                Some(c) => r is Ok && r->Ok_0@ == c,
                None => r is Err,
            },
    {
        let message = match json_get(v, "message") {
            Some(x) => Message::from_json(x),
            None => return Err(invalid_field("message")),
        };
        let finish_reason = match json_get(v, "finish_reason") {
            Some(x) => match json_as_str(x) {
                Some(t) => FinishReason::from_token(t),
                None => return Err(invalid_field("finish_reason")),
            },
            None => return Err(invalid_field("finish_reason")),
        };
        match (message, finish_reason) {
            (Ok(message), Some(finish_reason)) => Ok(Choice { message, finish_reason }),
            (Err(e), _) => Err(e),
            (_, None) => Err(invalid_field("finish_reason")),
        }
    }
}

/// A required token count entry.
fn required_count(v: &serde_json::Value, key: &str) -> (r: Result<u32, String>)
    ensures
        match parse_required_count(entry(json_view(*v), key@)) {
            Some(n) => r is Ok && r->Ok_0 == n,
            None => r is Err,
        },
{
    match json_get(v, key) {
        Some(x) => match json_as_u64(x) {
            Some(n) => if n <= u32::MAX as u64 {
                Ok(n as u32)
            } else {
                Err(invalid_field(key))
            },
            None => Err(invalid_field(key)),
        },
        None => Err(invalid_field(key)),
    }
}

impl Usage {
    pub fn to_json(&self) -> (r: serde_json::Value)
        ensures
            json_view(r) == usage_json(*self),
    {
        let mut m = new_map();
        assert(map_view(m) == Map::<Seq<char>, JsonView>::empty());
        map_insert(&mut m, "input_tokens".to_owned(), json_int(self.input_tokens as i64));
        map_insert(&mut m, "output_tokens".to_owned(), json_int(self.output_tokens as i64));
        map_insert(&mut m, "total_tokens".to_owned(), json_int(self.total_tokens as i64));
        json_object(m)
    }
}

impl Response {
    /// The JSON form of the response: `{created, choices, model, usage}`.
    pub fn to_json(&self) -> (r: serde_json::Value)
        ensures
            json_view(r) == response_json(self@),
    {
        let mut choices: Vec<serde_json::Value> = Vec::new();
        let mut i: usize = 0;
        while i < self.choices.len()
            invariant
                i <= self.choices@.len(),
                choices@.len() == i,
                forall|j: int| 0 <= j < i ==> json_view(#[trigger] choices@[j]) == choice_json(self.choices@[j]@),
            decreases self.choices@.len() - i,
        {
            choices.push(self.choices[i].to_json());
            i = i + 1;
        }
        assert(json_views(choices@) =~= choice_views(self.choices@).map_values(
            |c: ChoiceView| choice_json(c),
        ));
        let mut m = new_map();
        assert(map_view(m) == Map::<Seq<char>, JsonView>::empty());
        map_insert(&mut m, "created".to_owned(), json_int(self.created));
        map_insert(&mut m, "choices".to_owned(), json_array(choices));
        map_insert(&mut m, "model".to_owned(), json_string(self.model.clone()));
        map_insert(&mut m, "usage".to_owned(), self.usage.to_json());
        json_object(m)
    }

    /// Reads a response back from its JSON form.
    pub fn from_json(v: &serde_json::Value) -> (r: Result<Response, String>)
        ensures
            match parse_response(json_view(*v)) {
                Some(x) => r is Ok && r->Ok_0@ == x,
                None => r is Err,
            },
    {
        let created = match json_get(v, "created") {
            Some(x) => match json_as_i64(x) {
                Some(secs) => if timestamp_is_valid(secs) {
                    secs
                } else {
                    return Err(invalid_field("created"));
                },
                None => return Err(invalid_field("created")),
            },
            None => return Err(invalid_field("created")),
        };
        let items = match json_get(v, "choices") {
            Some(x) => match json_as_array(x) {
                Some(items) => items,
                None => return Err(invalid_field("choices")),
            },
            None => return Err(invalid_field("choices")),
        };
        let ghost js = json_views(items@);
        let mut choices: Vec<Choice> = Vec::new();
        let mut i: usize = 0;
        while i < items.len()
            invariant
                i <= items@.len(),
                js == json_views(items@),
                entry(json_view(*v), "choices"@) == Some(JsonView::Array(js)),
                choices@.len() == i,
                forall|j: int| 0 <= j < i ==> (#[trigger] parse_choice(js[j])) is Some,
                forall|j: int| 0 <= j < i ==> parse_choice(js[j]) == Some(#[trigger] choices@[j]@),
            decreases items@.len() - i,
        {
            let c = match Choice::from_json(&items[i]) {
                Ok(c) => c,
                Err(e) => {
                    assert(parse_choice(js[i as int]) is None);
                    return Err(e);
                },
            };
            choices.push(c);
            i = i + 1;
        }
        assert(choice_views(choices@) =~= js.map_values(|x: JsonView| parse_choice(x)->Some_0));
        let model = match json_get(v, "model") {
            Some(x) => match json_as_str(x) {
                Some(t) => t.to_owned(),
                None => return Err(invalid_field("model")),
            },
            None => return Err(invalid_field("model")),
        };
        let usage = match json_get(v, "usage") {
            Some(u) => {
                let input_tokens = required_count(u, "input_tokens")?;
                let output_tokens = required_count(u, "output_tokens")?;
                let total_tokens = required_count(u, "total_tokens")?;
                Usage { input_tokens, output_tokens, total_tokens }
            },
            None => return Err(invalid_field("usage")),
        };
        Ok(Response { created, choices, model, usage })
    }
}

proof fn lemma_message_round_trip(m: MessageView)
    ensures
        parse_message(message_json(m)) == Some(m),
{
    reveal_strlit("role");
    reveal_strlit("content");
    reveal_strlit("system");
    reveal_strlit("assistant");
    reveal_strlit("user");
    assert("role"@ != "content"@) by {
        assert("role"@.len() != "content"@.len());
    }
    assert("assistant"@ != "system"@) by {
        assert("assistant"@.len() != "system"@.len());
    }
    assert("user"@ != "system"@ && "user"@ != "assistant"@) by {
        assert("user"@.len() != "system"@.len());
        assert("user"@.len() != "assistant"@.len());
    }
}

proof fn lemma_choice_round_trip(c: ChoiceView)
    ensures
        parse_choice(choice_json(c)) == Some(c),
{
    lemma_message_round_trip(c.message);
    reveal_strlit("message");
    reveal_strlit("finish_reason");
    reveal_strlit("stop");
    reveal_strlit("length");
    reveal_strlit("function_call");
    reveal_strlit("content_filter");
    assert("message"@ != "finish_reason"@) by {
        assert("message"@.len() != "finish_reason"@.len());
    }
    assert("length"@ != "stop"@) by {
        assert("length"@.len() != "stop"@.len());
    }
    assert("function_call"@ != "stop"@ && "function_call"@ != "length"@) by {
        assert("function_call"@.len() != "stop"@.len());
        assert("function_call"@.len() != "length"@.len());
    }
    assert("content_filter"@ != "stop"@ && "content_filter"@ != "length"@
        && "content_filter"@ != "function_call"@) by {
        assert("content_filter"@.len() != "stop"@.len());
        assert("content_filter"@.len() != "length"@.len());
        assert("content_filter"@.len() != "function_call"@.len());
    }
}

proof fn lemma_usage_round_trip(u: Usage)
    ensures
        parse_usage_object(Some(usage_json(u))) == Some(u),
{
    reveal_strlit("input_tokens");
    reveal_strlit("output_tokens");
    reveal_strlit("total_tokens");
    assert("input_tokens"@ != "output_tokens"@) by {
        assert("input_tokens"@.len() != "output_tokens"@.len());
    }
    assert("total_tokens"@ != "output_tokens"@) by {
        assert("total_tokens"@.len() != "output_tokens"@.len());
    }
    assert("input_tokens"@ != "total_tokens"@) by {
        assert("input_tokens"@[0] != "total_tokens"@[0]);
    }
}

/// Writing a response in its JSON form and reading that form back gives the
/// same response: creation time, every choice with its role, text and finish
/// reason, model and token counts.
pub proof fn lemma_response_round_trip(resp: Response)
    requires
        resp.well_formed(),
    ensures
        parse_response(response_json(resp@)) == Some(resp@),
{
    let r = resp@;
    let items = r.choices.map_values(|c: ChoiceView| choice_json(c));
    assert forall|i: int| 0 <= i < items.len() implies (#[trigger] parse_choice(items[i])) is Some
        && parse_choice(items[i])->Some_0 == r.choices[i] by {
        lemma_choice_round_trip(r.choices[i]);
    }
    assert(items.map_values(|x: JsonView| parse_choice(x)->Some_0) =~= r.choices);
    lemma_usage_round_trip(r.usage);
    reveal_strlit("created");
    reveal_strlit("choices");
    reveal_strlit("model");
    reveal_strlit("usage");
    assert("created"@ != "choices"@) by {
        assert("created"@[1] != "choices"@[1]);
    }
    assert("model"@ != "usage"@) by {
        assert("model"@[0] != "usage"@[0]);
    }
    assert("created"@ != "model"@ && "created"@ != "usage"@ && "choices"@ != "model"@
        && "choices"@ != "usage"@) by {
        assert("created"@.len() != "model"@.len());
        assert("created"@.len() != "usage"@.len());
        assert("choices"@.len() != "model"@.len());
        assert("choices"@.len() != "usage"@.len());
    }
}

} // verus!
