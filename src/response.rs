//! Reading the provider's reply: the success payload and its normalization into a
//! `Response`, the error envelope, and what the HTTP status decides.

use vstd::prelude::*;
use crate::json::{
    entry, json_as_array, json_as_i64, json_as_str, json_as_u64, json_get, json_is_null,
    json_is_object, json_view, json_views, text_entry, JsonView,
};
use crate::error::Error;
use crate::openai::{
    choice_views, role_of_token, text_is, timestamp_in_range, timestamp_is_valid, APIError,
    APIErrorView, Choice, ChoiceView, FinishReason, Message, MessageView, Response, ResponseView,
    Role, Usage,
};

verus! {

/// A content segment as mathematics sees it.
pub enum ContentView {
    OutputText(Seq<char>),
    Text(Seq<char>),
    Other,
}

/// One typed content segment of an output item.
#[derive(Debug, Clone)]
pub enum ResponseContent {
    OutputText { text: String },
    Text { text: String },
    /// A segment of a type the library does not render.
    Other,
}

impl View for ResponseContent {
    type V = ContentView;

    open spec fn view(&self) -> ContentView {
        match self {
            ResponseContent::OutputText { text } => ContentView::OutputText(text@),
            ResponseContent::Text { text } => ContentView::Text(text@),
            ResponseContent::Other => ContentView::Other,
        }
    }
}

/// The text a segment contributes: its own for a textual segment, none otherwise.
pub open spec fn segment_text(c: ContentView) -> Seq<char> {
    match c {
        ContentView::OutputText(t) => t,
        ContentView::Text(t) => t,
        ContentView::Other => Seq::empty(),
    }
}

/// The texts of the segments, joined in order with no separator.
pub open spec fn joined_text(s: Seq<ContentView>) -> Seq<char>
    decreases s.len(),
{
    if s.len() == 0 {
        Seq::empty()
    } else {
        joined_text(s.drop_last()) + segment_text(s.last())
    }
}

impl ResponseContent {
    pub fn as_text(&self) -> (r: Option<&str>)
        ensures
            match self@ {
                ContentView::Other => r is None,
                c => r is Some && r->Some_0@ == segment_text(c),
            },
    {
        match self {
            ResponseContent::OutputText { text } => Some(text.as_str()),
            ResponseContent::Text { text } => Some(text.as_str()),
            ResponseContent::Other => None,
        }
    }
}

pub open spec fn content_views(s: Seq<ResponseContent>) -> Seq<ContentView> {
    s.map_values(|c: ResponseContent| c@)
}

/// An output item as mathematics sees it.
pub struct OutputView {
    pub item_type: Seq<char>,
    pub role: Option<Role>,
    pub content: Seq<ContentView>,
}

/// One item of the provider's output list.
#[derive(Debug, Clone)]
pub struct ResponseOutput {
    pub item_type: String,
    pub role: Option<Role>,
    pub content: Vec<ResponseContent>,
}

impl View for ResponseOutput {
    type V = OutputView;

    open spec fn view(&self) -> OutputView {
        OutputView { item_type: self.item_type@, role: self.role, content: content_views(self.content@) }
    }
}

impl ResponseOutput {
    /// The joined text of the textual segments, or nothing when it is empty.
    pub fn aggregated_text(&self) -> (r: Option<String>)
        ensures
            r is Some <==> joined_text(self@.content).len() > 0,
            r is Some ==> r->Some_0@ == joined_text(self@.content),
    {
        let mut aggregated = String::new();
        let mut i: usize = 0;
        while i < self.content.len()
            invariant
                i <= self.content@.len(),
                aggregated@ == joined_text(content_views(self.content@).take(i as int)),
            decreases self.content@.len() - i,
        {
            proof {
                let s = content_views(self.content@);
                assert(s.take(i as int + 1).drop_last() =~= s.take(i as int));
            }
            match self.content[i].as_text() {
                Some(text) => aggregated.append(text),
                None => {},
            }
            i = i + 1;
        }
        assert(content_views(self.content@).take(i as int) =~= content_views(self.content@));
        if aggregated.as_str().is_empty() {
            None
        } else {
            Some(aggregated)
        }
    }
}

pub open spec fn output_views(s: Seq<ResponseOutput>) -> Seq<OutputView> {
    s.map_values(|o: ResponseOutput| o@)
}

/// The provider's success payload as mathematics sees it.
pub struct ApiResponseView {
    pub created: int,
    pub model: Seq<char>,
    pub output: Seq<OutputView>,
    pub usage: Usage,
}

/// The provider's success payload, before normalization.
#[derive(Debug, Clone)]
pub struct ResponsesAPIResponse {
    /// Seconds since the Unix epoch.
    pub created: i64,
    pub model: String,
    pub output: Vec<ResponseOutput>,
    pub usage: Usage,
}

impl View for ResponsesAPIResponse {
    type V = ApiResponseView;

    open spec fn view(&self) -> ApiResponseView {
        ApiResponseView {
            created: self.created as int,
            model: self.model@,
            output: output_views(self.output@),
            usage: self.usage,
        }
    }
}

pub open spec fn is_message_item(o: OutputView) -> bool {
    o.item_type == "message"@
}

/// The output items that are assistant messages, in order.
pub open spec fn message_items(s: Seq<OutputView>) -> Seq<OutputView> {
    s.filter(|o: OutputView| is_message_item(o))
}

/// Whether some message item carries no text.
pub open spec fn has_empty_message(s: Seq<OutputView>) -> bool {
    exists|i: int| 0 <= i < s.len() && is_message_item(s[i]) && joined_text(s[i].content).len() == 0
}

/// The choice made of a message item: its role (the assistant when absent),
/// its joined text, and `Stop` as finish reason.
pub open spec fn choice_of(o: OutputView) -> ChoiceView {
    ChoiceView {
        message: MessageView {
            role: match o.role {
                Some(r) => r,
                None => Role::Assistant,
            },
            content: joined_text(o.content),
        },
        finish_reason: FinishReason::Stop,
    }
}

pub open spec fn missing_text_error() -> Seq<char> {
    "response message missing text content"@
}

pub open spec fn no_assistant_error() -> Seq<char> {
    "response did not contain any assistant messages"@
}

/// The normalized response, or the reason why there is none: a message item
/// without text, else the absence of any message item.
pub open spec fn normalized(v: ApiResponseView) -> Result<ResponseView, Seq<char>> {
    if has_empty_message(v.output) {
        Err(missing_text_error())
    } else if message_items(v.output).len() == 0 {
        Err(no_assistant_error())
    } else {
        Ok(
            ResponseView {
                created: v.created,
                choices: message_items(v.output).map_values(|o: OutputView| choice_of(o)),
                model: v.model,
                usage: v.usage,
            },
        )
    }
}

impl Response {
    /// Normalizes the provider's success payload: one `Stop` choice per message
    /// item, other items skipped.
    pub fn try_from(value: ResponsesAPIResponse) -> (r: Result<Response, String>)
        ensures
            match normalized(value@) {
                Ok(v) => r is Ok && r->Ok_0@ == v,
                Err(e) => r is Err && r->Err_0@ == e,
            },
    {
        let ghost items = value@.output;
        let mut choices: Vec<Choice> = Vec::new();
        let mut i: usize = 0;
        while i < value.output.len()
            invariant
                i <= value.output@.len(),
                items == output_views(value.output@),
                !has_empty_message(items.take(i as int)),
                choice_views(choices@) == message_items(items.take(i as int)).map_values(
                    |o: OutputView| choice_of(o),
                ),
            decreases value.output@.len() - i,
        {
            let output = &value.output[i];
            proof {
                assert(items.take(i as int + 1) =~= items.take(i as int).push(items[i as int]));
                items.take(i as int).lemma_filter_push(items[i as int], |o: OutputView| is_message_item(o));
            }
            if text_is(output.item_type.as_str(), "message") {
                let text = match output.aggregated_text() {
                    Some(text) => text,
                    None => {
                        assert(has_empty_message(items)) by {
                            assert(items[i as int] == output@);
                        }
                        return Err("response message missing text content".to_owned());
                    },
                };
                let role = match output.role {
                    Some(role) => role,
                    None => Role::Assistant,
                };
                let ghost before = choices@;
                choices.push(Choice { message: Message { role, content: text }, finish_reason: FinishReason::Stop });
                proof {
                    assert(choices@ == before.push(choices@.last()));
                    assert(choice_views(choices@) =~= choice_views(before).push(choice_of(items[i as int])));
                }
            }
            proof {
                assert forall|j: int| 0 <= j < i + 1 && is_message_item(#[trigger] items.take(i as int + 1)[j])
                    implies joined_text(items.take(i as int + 1)[j].content).len() > 0 by {
                    if j < i {
                        assert(items.take(i as int + 1)[j] == items.take(i as int)[j]);
                    }
                }
            }
            i = i + 1;
        }
        assert(items.take(i as int) =~= items);
        if choices.len() == 0 {
            return Err("response did not contain any assistant messages".to_owned());
        }
        Ok(Response { created: value.created, choices, model: value.model, usage: value.usage })
    }
}

/// A content segment read from JSON: an object whose `type` is a string;
/// `output_text` and `text` carry a string `text`, any other type is inert.
pub open spec fn parse_content(j: JsonView) -> Option<ContentView> {
    match text_entry(j, "type"@) {
        Some(t) => if t == "output_text"@ {
            match text_entry(j, "text"@) {
                Some(x) => Some(ContentView::OutputText(x)),
                None => None,
            }
        } else if t == "text"@ {
            match text_entry(j, "text"@) {
                Some(x) => Some(ContentView::Text(x)),
                None => None,
            }
        } else {
            Some(ContentView::Other)
        },
        None => None,
    }
}

/// A list of segments: absent means empty; present, it must be an array of segments.
pub open spec fn parse_contents(j: Option<JsonView>) -> Option<Seq<ContentView>> {
    match j {
        None => Some(Seq::empty()),
        Some(JsonView::Array(items)) => if forall|i: int|
            0 <= i < items.len() ==> (#[trigger] parse_content(items[i])) is Some {
            Some(items.map_values(|x: JsonView| parse_content(x)->Some_0))
        } else {
            None
        },
        _ => None,
    }
}

/// An optional role: absent or null means none, else a role token.
pub open spec fn parse_role(j: Option<JsonView>) -> Option<Option<Role>> {
    match j {
        None => Some(None),
        Some(JsonView::Null) => Some(None),
        Some(JsonView::Str(s)) => match role_of_token(s) {
            Some(r) => Some(Some(r)),
            None => None,
        },
        _ => None,
    }
}

/// An output item: a string `type`, an optional `role`, a list of segments.
pub open spec fn parse_output(j: JsonView) -> Option<OutputView> {
    match (
        text_entry(j, "type"@),
        parse_role(entry(j, "role"@)),
        parse_contents(entry(j, "content"@)),
    ) {
        (Some(t), Some(r), Some(c)) => Some(OutputView { item_type: t, role: r, content: c }),
        _ => None,
    }
}

/// The output list: absent means empty; present, it must be an array of items.
pub open spec fn parse_outputs(j: Option<JsonView>) -> Option<Seq<OutputView>> {
    match j {
        None => Some(Seq::empty()),
        Some(JsonView::Array(items)) => if forall|i: int|
            0 <= i < items.len() ==> (#[trigger] parse_output(items[i])) is Some {
            Some(items.map_values(|x: JsonView| parse_output(x)->Some_0))
        } else {
            None
        },
        _ => None,
    }
}

/// A token count: absent means zero; present, an integer that fits in u32.
pub open spec fn parse_count(j: Option<JsonView>) -> Option<u32> {
    match j {
        None => Some(0),
        Some(JsonView::Int(i)) => if 0 <= i <= u32::MAX {
            Some(i as u32)
        } else {
            None
        },
        _ => None,
    }
}

/// The usage object: required, each count read as by `parse_count`.
pub open spec fn parse_usage(j: Option<JsonView>) -> Option<Usage> {
    match j {
        Some(u) => if u is Object {
            match (
                parse_count(entry(u, "input_tokens"@)),
                parse_count(entry(u, "output_tokens"@)),
                parse_count(entry(u, "total_tokens"@)),
            ) {
                (Some(a), Some(b), Some(c)) => Some(
                    Usage { input_tokens: a, output_tokens: b, total_tokens: c },
                ),
                _ => None,
            }
        } else {
            None
        },
        None => None,
    }
}

/// A creation time: an integer count of seconds that a UTC date-time can hold.
pub open spec fn parse_created(j: Option<JsonView>) -> Option<int> {
    match j {
        Some(JsonView::Int(i)) => if timestamp_in_range(i) {
            Some(i)
        } else {
            None
        },
        _ => None,
    }
}

/// The success payload: `created`, `model` and `usage` are required, `output`
/// may be absent; other entries are ignored.
pub open spec fn parse_api_response(j: JsonView) -> Option<ApiResponseView> {
    match (
        parse_created(entry(j, "created"@)),
        text_entry(j, "model"@),
        parse_outputs(entry(j, "output"@)),
        parse_usage(entry(j, "usage"@)),
    ) {
        (Some(c), Some(m), Some(o), Some(u)) => Some(
            ApiResponseView { created: c, model: m, output: o, usage: u },
        ),
        _ => None,
    }
}

/// The message of a field that is missing or of the wrong kind.
pub fn invalid_field(key: &str) -> (r: String)
    ensures
        r@ == "missing or invalid field `"@ + key@ + "`"@,
{
    let mut m = "missing or invalid field `".to_owned();
    m.append(key);
    m.append("`");
    m
}

/// The text of a required string entry.
fn text_field(v: &serde_json::Value, key: &str) -> (r: Result<String, String>)
    ensures
        match text_entry(json_view(*v), key@) {
            Some(t) => r is Ok && r->Ok_0@ == t,
            None => r is Err,
        },
{
    match json_get(v, key) {
        Some(x) => match json_as_str(x) {
            Some(t) => Ok(t.to_owned()),
            None => Err(invalid_field(key)),
        },
        None => Err(invalid_field(key)),
    }
}

impl ResponseContent {
    pub fn from_json(v: &serde_json::Value) -> (r: Result<ResponseContent, String>)
        ensures
            match parse_content(json_view(*v)) {
                Some(c) => r is Ok && r->Ok_0@ == c,
                None => r is Err,
            },
    {
        let kind = text_field(v, "type")?;
        if text_is(kind.as_str(), "output_text") {
            let text = text_field(v, "text")?;
            Ok(ResponseContent::OutputText { text })
        } else if text_is(kind.as_str(), "text") {
            let text = text_field(v, "text")?;
            Ok(ResponseContent::Text { text })
        } else {
            Ok(ResponseContent::Other)
        }
    }
}

impl ResponseOutput {
    pub fn from_json(v: &serde_json::Value) -> (r: Result<ResponseOutput, String>)
        ensures
            match parse_output(json_view(*v)) {
                Some(o) => r is Ok && r->Ok_0@ == o,
                None => r is Err,
            },
    {
        let item_type = text_field(v, "type")?;
        let role = match json_get(v, "role") {
            None => None,
            Some(x) => if json_is_null(x) {
                None
            } else {
                match json_as_str(x) {
                    Some(t) => match Role::from_token(t) {
                        Some(role) => Some(role),
                        None => return Err(invalid_field("role")),
                    },
                    None => return Err(invalid_field("role")),
                }
            },
        };
        let mut content: Vec<ResponseContent> = Vec::new();
        match json_get(v, "content") {
            None => {
                assert(content_views(content@) =~= Seq::empty());
            },
            Some(x) => match json_as_array(x) {
                None => return Err(invalid_field("content")),
                Some(items) => {
                    let ghost js = json_views(items@);
                    let mut i: usize = 0;
                    while i < items.len()
                        invariant
                            i <= items@.len(),
                            js == json_views(items@),
                            entry(json_view(*v), "content"@) == Some(JsonView::Array(js)),
                            content@.len() == i,
                            forall|j: int| 0 <= j < i ==> (#[trigger] parse_content(js[j])) is Some,
                            forall|j: int| 0 <= j < i ==> parse_content(js[j]) == Some(#[trigger] content@[j]@),
                        decreases items@.len() - i,
                    {
                        let c = match ResponseContent::from_json(&items[i]) {
                            Ok(c) => c,
                            Err(e) => {
                                assert(parse_content(js[i as int]) is None);
                                return Err(e);
                            },
                        };
                        content.push(c);
                        i = i + 1;
                    }
                    assert(content_views(content@) =~= js.map_values(
                        |x: JsonView| parse_content(x)->Some_0,
                    ));
                },
            },
        }
        Ok(ResponseOutput { item_type, role, content })
    }
}

/// A token count entry, zero when absent.
fn count_field(v: &serde_json::Value, key: &str) -> (r: Result<u32, String>)
    ensures
        match parse_count(entry(json_view(*v), key@)) {
            Some(n) => r is Ok && r->Ok_0 == n,
            None => r is Err,
        },
{
    match json_get(v, key) {
        None => Ok(0),
        Some(x) => match json_as_u64(x) {
            Some(n) => if n <= u32::MAX as u64 {
                Ok(n as u32)
            } else {
                Err(invalid_field(key))
            },
            None => Err(invalid_field(key)),
        },
    }
}

impl ResponsesAPIResponse {
    /// Reads the provider's success payload from its JSON value.
    pub fn from_json(v: &serde_json::Value) -> (r: Result<ResponsesAPIResponse, String>)
        ensures
            match parse_api_response(json_view(*v)) {
                Some(p) => r is Ok && r->Ok_0@ == p,
                None => r is Err,
            },
    {
        let created = match json_get(v, "created") {
            Some(x) => match json_as_i64(x) {
                Some(secs) => if timestamp_is_valid(secs) {
                    secs
                } else {
                    return Err(invalid_field("created"));
                },
                None => return Err(invalid_field("created")),
            },
            None => return Err(invalid_field("created")),
        };
        let model = text_field(v, "model")?;
        let mut output: Vec<ResponseOutput> = Vec::new();
        match json_get(v, "output") {
            None => {
                assert(output_views(output@) =~= Seq::empty());
            },
            Some(x) => match json_as_array(x) {
                None => return Err(invalid_field("output")),
                Some(items) => {
                    let ghost js = json_views(items@);
                    let mut i: usize = 0;
                    while i < items.len()
                        invariant
                            i <= items@.len(),
                            js == json_views(items@),
                            entry(json_view(*v), "output"@) == Some(JsonView::Array(js)),
                            output@.len() == i,
                            forall|j: int| 0 <= j < i ==> (#[trigger] parse_output(js[j])) is Some,
                            forall|j: int| 0 <= j < i ==> parse_output(js[j]) == Some(#[trigger] output@[j]@),
                        decreases items@.len() - i,
                    {
                        let o = match ResponseOutput::from_json(&items[i]) {
                            Ok(o) => o,
                            Err(e) => {
                                assert(parse_output(js[i as int]) is None);
                                return Err(e);
                            },
                        };
                        output.push(o);
                        i = i + 1;
                    }
                    assert(output_views(output@) =~= js.map_values(
                        |x: JsonView| parse_output(x)->Some_0,
                    ));
                },
            },
        }
        let usage = match json_get(v, "usage") {
            None => return Err(invalid_field("usage")),
            Some(u) => {
                if !json_is_object(u) {
                    return Err(invalid_field("usage"));
                }
                let input_tokens = count_field(u, "input_tokens")?;
                let output_tokens = count_field(u, "output_tokens")?;
                let total_tokens = count_field(u, "total_tokens")?;
                Usage { input_tokens, output_tokens, total_tokens }
            },
        };
        Ok(ResponsesAPIResponse { created, model, output, usage })
    }
}

/// An optional text: absent or null means none.
pub open spec fn parse_optional_text(j: Option<JsonView>) -> Option<Option<Seq<char>>> {
    match j {
        None => Some(None),
        Some(JsonView::Null) => Some(None),
        Some(JsonView::Str(s)) => Some(Some(s)),
        _ => None,
    }
}

/// The provider's error object: `message` and `type` are required texts,
/// `param` and `code` optional ones.
pub open spec fn parse_api_error(j: JsonView) -> Option<APIErrorView> {
    match (
        text_entry(j, "message"@),
        text_entry(j, "type"@),
        parse_optional_text(entry(j, "param"@)),
        parse_optional_text(entry(j, "code"@)),
    ) {
        (Some(message), Some(error_type), Some(param), Some(code)) => Some(
            APIErrorView { message, error_type, param, code },
        ),
        _ => None,
    }
}

/// The error envelope: `{"error": <error object>}`.
pub open spec fn parse_error_envelope(j: JsonView) -> Option<APIErrorView> {
    match entry(j, "error"@) {
        Some(e) => parse_api_error(e),
        None => None,
    }
}

fn optional_text_field(v: &serde_json::Value, key: &str) -> (r: Result<Option<String>, String>)
    ensures
        match parse_optional_text(entry(json_view(*v), key@)) {
            Some(o) => r is Ok && crate::openai::opt_view(r->Ok_0) == o,
            None => r is Err,
        },
{
    match json_get(v, key) {
        None => Ok(None),
        Some(x) => if json_is_null(x) {
            Ok(None)
        } else {
            match json_as_str(x) {
                Some(t) => Ok(Some(t.to_owned())),
                None => Err(invalid_field(key)),
            }
        },
    }
}

impl APIError {
    pub fn from_json(v: &serde_json::Value) -> (r: Result<APIError, String>)
        ensures
            match parse_api_error(json_view(*v)) {
                Some(e) => r is Ok && r->Ok_0@ == e,
                None => r is Err,
            },
    {
        let message = text_field(v, "message")?;
        let error_type = text_field(v, "type")?;
        let param = optional_text_field(v, "param")?;
        let code = optional_text_field(v, "code")?;
        Ok(APIError { message, error_type, param, code })
    }

    /// Reads the error object out of the provider's error envelope.
    pub fn from_envelope(v: &serde_json::Value) -> (r: Result<APIError, String>)
        ensures
            match parse_error_envelope(json_view(*v)) {
                Some(e) => r is Ok && r->Ok_0@ == e,
                None => r is Err,
            },
    {
        match json_get(v, "error") {
            Some(e) => APIError::from_json(e),
            None => Err(invalid_field("error")),
        }
    }
}

/// An HTTP status of the success class.
pub open spec fn is_success(status: u16) -> bool {
    200 <= status < 300
}

/// Decides what a reply of the provider means. A success status has its body
/// read as the success payload and normalized; any other status has its body
/// read as the error envelope, which becomes a provider rejection.
pub fn response_from_reply(status: u16, body: &serde_json::Value) -> (r: Result<Response, Error>)
    ensures
        is_success(status) ==> match parse_api_response(json_view(*body)) {
            Some(p) => match normalized(p) {
                Ok(v) => r is Ok && r->Ok_0@ == v,
                Err(e) => r matches Err(Error::UnexpectedResponse(m)) && m@ == e,
            },
            None => r matches Err(Error::UnexpectedResponse(_)),
        },
        !is_success(status) ==> match parse_error_envelope(json_view(*body)) {
            Some(e) => r matches Err(Error::OpenAIError { error }) && error@ == e,
            None => r matches Err(Error::UnexpectedResponse(_)),
        },
{
    if 200 <= status && status < 300 {
        let payload = match ResponsesAPIResponse::from_json(body) {
            Ok(payload) => payload,
            Err(m) => return Err(Error::UnexpectedResponse(m)),
        };
        match Response::try_from(payload) {
            Ok(resp) => Ok(resp),
            Err(m) => Err(Error::UnexpectedResponse(m)),
        }
    } else {
        match APIError::from_envelope(body) {
            Ok(error) => Err(Error::OpenAIError { error }),
            Err(m) => Err(Error::UnexpectedResponse(m)),
        }
    }
}

/// Two segments of a textual type are joined directly: the text of a message
/// item made of them is the first text immediately followed by the second.
pub proof fn lemma_segments_join(v: ApiResponseView, a: ContentView, b: ContentView)
    requires
        v.output.len() == 1,
        is_message_item(v.output[0]),
        v.output[0].content == seq![a, b],
        !(a is Other),
        !(b is Other),
        segment_text(a).len() + segment_text(b).len() > 0,
    ensures
        normalized(v) is Ok,
        normalized(v)->Ok_0.choices.len() == 1,
        normalized(v)->Ok_0.choices[0].message.content == segment_text(a) + segment_text(b),
{
    let s = seq![a, b];
    assert(s.drop_last() =~= seq![a]);
    assert(seq![a].drop_last() =~= Seq::<ContentView>::empty());
    assert(joined_text(Seq::<ContentView>::empty()) == Seq::<char>::empty());
    assert(seq![a].last() == a);
    assert(joined_text(seq![a]) =~= segment_text(a));
    assert(joined_text(s) == segment_text(a) + segment_text(b));
    let o = v.output[0];
    assert(v.output =~= Seq::<OutputView>::empty().push(o));
    Seq::<OutputView>::empty().lemma_filter_push(o, |x: OutputView| is_message_item(x));
    assert(Seq::<OutputView>::empty().filter(|x: OutputView| is_message_item(x)) =~= Seq::<OutputView>::empty()) by {
        reveal(Seq::filter);
    }
    assert(message_items(v.output) =~= seq![o]);
}

proof fn lemma_no_message_items(s: Seq<OutputView>)
    requires
        forall|i: int| 0 <= i < s.len() ==> !is_message_item(#[trigger] s[i]),
    ensures
        message_items(s).len() == 0,
    decreases s.len(),
{
    if s.len() > 0 {
        lemma_no_message_items(s.drop_last());
        s.drop_last().lemma_filter_push(s.last(), |o: OutputView| is_message_item(o));
        assert(s.drop_last().push(s.last()) =~= s);
    } else {
        reveal(Seq::filter);
    }
}

/// A payload none of whose output items is a message (reasoning items, tool
/// calls, anything else) is rejected for holding no assistant output.
pub proof fn lemma_no_assistant_output(v: ApiResponseView)
    requires
        forall|i: int| 0 <= i < v.output.len() ==> !is_message_item(#[trigger] v.output[i]),
    ensures
        normalized(v) is Err,
        normalized(v)->Err_0 == no_assistant_error(),
{
    lemma_no_message_items(v.output);
}

} // verus!
