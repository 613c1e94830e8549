//! The conversation model shared by requests and responses.

use vstd::prelude::*;

pub use crate::request::ResponseRequest;

verus! {

/// Who authored a message.
#[derive(Debug, Clone, Copy, PartialEq, Eq, Structural)]
pub enum Role {
    System,
    Assistant,
    User,
}

impl Role {
    /// The lowercase token that stands for the role on the wire.
    pub open spec fn token(self) -> Seq<char> {
        match self {
            Role::System => "system"@,
            Role::Assistant => "assistant"@,
            Role::User => "user"@,
        }
    }

    pub fn as_str(&self) -> (r: &'static str)
        ensures
            r@ == self.token(),
    {
        match self {
            Role::System => "system",
            Role::Assistant => "assistant",
            Role::User => "user",
        }
    }
}

/// A message as mathematics sees it: a role and the text of its content.
pub struct MessageView {
    pub role: Role,
    pub content: Seq<char>,
}

/// The role whose token is the given text.
pub open spec fn role_of_token(s: Seq<char>) -> Option<Role> {
    if s == "system"@ {
        Some(Role::System)
    } else if s == "assistant"@ {
        Some(Role::Assistant)
    } else if s == "user"@ {
        Some(Role::User)
    } else {
        None
    }
}

impl Role {
    pub fn from_token(s: &str) -> (r: Option<Role>)
        ensures
            r == role_of_token(s@),
    {
        if text_is(s, "system") {
            Some(Role::System)
        } else if text_is(s, "assistant") {
            Some(Role::Assistant)
        } else if text_is(s, "user") {
            Some(Role::User)
        } else {
            None
        }
    }
}

/// Whether two texts are the same.
pub fn text_is(s: &str, expected: &str) -> (r: bool)
    ensures
        r == (s@ == expected@),
{
    s.to_owned() == expected.to_owned()
}

/// One role-tagged unit of a conversation.
#[derive(Debug, Clone)]
pub struct Message {
    pub role: Role,
    pub content: String,
}

impl View for Message {
    type V = MessageView;

    open spec fn view(&self) -> MessageView {
        MessageView { role: self.role, content: self.content@ }
    }
}

impl PartialEq for Message {
    fn eq(&self, other: &Message) -> (r: bool) {
        self.role == other.role && self.content == other.content
    }
}

impl vstd::std_specs::cmp::PartialEqSpecImpl for Message {
    open spec fn obeys_eq_spec() -> bool {
        true
    }

    open spec fn eq_spec(&self, other: &Message) -> bool {
        self@ == other@
    }
}

impl Eq for Message {}

impl Message {
    pub fn system(content: &str) -> (m: Message)
        ensures
            m@ == (MessageView { role: Role::System, content: content@ }),
    {
        Message { role: Role::System, content: content.to_owned() }
    }

    pub fn user(content: &str) -> (m: Message)
        ensures
            m@ == (MessageView { role: Role::User, content: content@ }),
    {
        Message { role: Role::User, content: content.to_owned() }
    }

    pub fn assistant(content: &str) -> (m: Message)
        ensures
            m@ == (MessageView { role: Role::Assistant, content: content@ }),
    {
        Message { role: Role::Assistant, content: content.to_owned() }
    }
}

/// Token counts that the provider reports for one exchange.
#[derive(Debug, Clone, Copy, PartialEq, Eq, Structural)]
pub struct Usage {
    pub input_tokens: u32,
    pub output_tokens: u32,
    pub total_tokens: u32,
}

impl Default for Usage {
    fn default() -> (u: Usage)
        ensures
            u == (Usage { input_tokens: 0, output_tokens: 0, total_tokens: 0 }),
    {
        Usage { input_tokens: 0, output_tokens: 0, total_tokens: 0 }
    }
}

/// How much internal deliberation the model is asked for.
#[derive(Debug, Clone, Copy, PartialEq, Eq, Structural)]
pub enum ReasoningEffort {
    Low,
    Medium,
    High,
}

impl ReasoningEffort {
    /// The lowercase token that stands for the effort on the wire.
    pub open spec fn token(self) -> Seq<char> {
        match self {
            ReasoningEffort::Low => "low"@,
            ReasoningEffort::Medium => "medium"@,
            ReasoningEffort::High => "high"@,
        }
    }

    pub fn as_str(&self) -> (r: &'static str)
        ensures
            r@ == self.token(),
    {
        match self {
            ReasoningEffort::Low => "low",
            ReasoningEffort::Medium => "medium",
            ReasoningEffort::High => "high",
        }
    }
}

/// The optional reasoning settings of a request.
#[derive(Debug, Clone, Copy, PartialEq, Eq, Structural)]
pub struct Reasoning {
    pub effort: ReasoningEffort,
}

impl Reasoning {
    pub fn from_effort(effort: ReasoningEffort) -> (r: Reasoning)
        ensures
            r.effort == effort,
    {
        Reasoning { effort }
    }
}

/// Why a completion stopped.
#[derive(Debug, Clone, Copy, PartialEq, Eq, Structural)]
pub enum FinishReason {
    Stop,
    Length,
    FunctionCall,
    ContentFilter,
}

impl FinishReason {
    /// The snake-case token that stands for the reason on the wire.
    pub open spec fn token(self) -> Seq<char> {
        match self {
            FinishReason::Stop => "stop"@,
            FinishReason::Length => "length"@,
            FinishReason::FunctionCall => "function_call"@,
            FinishReason::ContentFilter => "content_filter"@,
        }
    }

    pub fn as_str(&self) -> (r: &'static str)
        ensures
            r@ == self.token(),
    {
        match self {
            FinishReason::Stop => "stop",
            FinishReason::Length => "length",
            FinishReason::FunctionCall => "function_call",
            FinishReason::ContentFilter => "content_filter",
        }
    }
}

/// The finish reason whose token is the given text.
pub open spec fn finish_reason_of_token(s: Seq<char>) -> Option<FinishReason> {
    if s == "stop"@ {
        Some(FinishReason::Stop)
    } else if s == "length"@ {
        Some(FinishReason::Length)
    } else if s == "function_call"@ {
        Some(FinishReason::FunctionCall)
    } else if s == "content_filter"@ {
        Some(FinishReason::ContentFilter)
    } else {
        None
    }
}

impl FinishReason {
    pub fn from_token(s: &str) -> (r: Option<FinishReason>)
        ensures
            r == finish_reason_of_token(s@),
    {
        if text_is(s, "stop") {
            Some(FinishReason::Stop)
        } else if text_is(s, "length") {
            Some(FinishReason::Length)
        } else if text_is(s, "function_call") {
            Some(FinishReason::FunctionCall)
        } else if text_is(s, "content_filter") {
            Some(FinishReason::ContentFilter)
        } else {
            None
        }
    }
}

pub struct ChoiceView {
    pub message: MessageView,
    pub finish_reason: FinishReason,
}

/// One candidate completion and why it stopped.
#[derive(Debug, Clone)]
pub struct Choice {
    pub message: Message,
    pub finish_reason: FinishReason,
}

impl View for Choice {
    type V = ChoiceView;

    open spec fn view(&self) -> ChoiceView {
        ChoiceView { message: self.message@, finish_reason: self.finish_reason }
    }
}

impl PartialEq for Choice {
    fn eq(&self, other: &Choice) -> (r: bool) {
        self.message == other.message && self.finish_reason == other.finish_reason
    }
}

impl vstd::std_specs::cmp::PartialEqSpecImpl for Choice {
    open spec fn obeys_eq_spec() -> bool {
        true
    }

    open spec fn eq_spec(&self, other: &Choice) -> bool {
        self@ == other@
    }
}

impl Eq for Choice {}

pub open spec fn choice_views(s: Seq<Choice>) -> Seq<ChoiceView> {
    s.map_values(|c: Choice| c@)
}

pub open spec fn message_views(s: Seq<Message>) -> Seq<MessageView> {
    s.map_values(|m: Message| m@)
}

/// The earliest and the latest second since the Unix epoch that a UTC date-time
/// can hold (January 1 of year -262143 and December 31 of year 262142).
pub const MIN_TIMESTAMP: i64 = -8_334_601_228_800;

pub const MAX_TIMESTAMP: i64 = 8_210_266_876_799;

pub open spec fn timestamp_in_range(secs: int) -> bool {
    MIN_TIMESTAMP <= secs <= MAX_TIMESTAMP
}

/// Relies on chrono's DateTime::<Utc>::from_timestamp_secs, which gives a
/// date-time exactly for the seconds from the first day of its earliest
/// year to the last second of its latest one.
#[verifier::external_body]
pub fn timestamp_is_valid(secs: i64) -> (r: bool)
    ensures
        r == timestamp_in_range(secs as int),
{
    chrono::DateTime::<chrono::Utc>::from_timestamp_secs(secs).is_some()
}

pub struct ResponseView {
    pub created: int,
    pub choices: Seq<ChoiceView>,
    pub model: Seq<char>,
    pub usage: Usage,
}

/// The normalized reply of the provider.
#[derive(Debug, Clone)]
pub struct Response {
    /// Seconds since the Unix epoch.
    pub created: i64,
    pub choices: Vec<Choice>,
    pub model: String,
    pub usage: Usage,
}

impl View for Response {
    type V = ResponseView;

    open spec fn view(&self) -> ResponseView {
        ResponseView {
            created: self.created as int,
            choices: choice_views(self.choices@),
            model: self.model@,
            usage: self.usage,
        }
    }
}

impl Response {
    /// A response whose creation time a UTC date-time can hold.
    pub open spec fn well_formed(&self) -> bool {
        timestamp_in_range(self.created as int)
    }
}

pub struct APIErrorView {
    pub message: Seq<char>,
    pub error_type: Seq<char>,
    pub param: Option<Seq<char>>,
    pub code: Option<Seq<char>>,
}

pub open spec fn opt_view(o: Option<String>) -> Option<Seq<char>> {
    match o {
        Some(s) => Some(s@),
        None => None,
    }
}

/// The structured error envelope of the provider.
#[derive(Debug, Clone)]
pub struct APIError {
    pub message: String,
    pub error_type: String,
    pub param: Option<String>,
    pub code: Option<String>,
}

impl View for APIError {
    type V = APIErrorView;

    open spec fn view(&self) -> APIErrorView {
        APIErrorView {
            message: self.message@,
            error_type: self.error_type@,
            param: opt_view(self.param),
            code: opt_view(self.code),
        }
    }
}

} // verus!
