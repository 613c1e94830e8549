//! Reading messages out of side-channel text (a file or piped standard input).

use vstd::prelude::*;
use crate::openai::{message_views, Message, MessageView, Role};

verus! {

/// A char with Unicode's White_Space property, the set that
/// `char::is_whitespace` tests.
pub open spec fn is_white_space(c: char) -> bool {
    let n = c as u32;
    (0x9 <= n <= 0xd) || n == 0x20 || n == 0x85 || n == 0xa0 || n == 0x1680 || (0x2000 <= n
        <= 0x200a) || n == 0x2028 || n == 0x2029 || n == 0x202f || n == 0x205f || n == 0x3000
}

/// A text made of white space alone (the empty text included).
pub open spec fn is_blank(s: Seq<char>) -> bool {
    forall|i: int| 0 <= i < s.len() ==> is_white_space(#[trigger] s[i])
}

/// `t` is `s` without its leading and trailing white space.
pub open spec fn is_trim_of(t: Seq<char>, s: Seq<char>) -> bool {
    exists|a: int, b: int|
        {
            &&& 0 <= a <= b <= s.len()
            &&& t == s.subrange(a, b)
            &&& forall|i: int| 0 <= i < a ==> is_white_space(#[trigger] s[i])
            &&& forall|i: int| b <= i < s.len() ==> is_white_space(#[trigger] s[i])
            &&& a < b ==> !is_white_space(s[a]) && !is_white_space(s[b - 1])
        }
}

/// Relies on str::trim: the text with leading and trailing chars of the
/// White_Space property removed.
#[verifier::external_body]
fn trim(s: &str) -> (r: &str)
    ensures
        is_trim_of(r@, s@),
{
    s.trim()
}

/// A conversation written down ahead of time.
#[derive(Debug, Clone)]
pub struct Template {
    pub messages: Vec<Message>,
}

/// The messages that side-channel text stands for: none for blank text, else
/// one user message holding the whole text as it was read.
pub open spec fn side_channel_messages(content: Seq<char>) -> Seq<MessageView> {
    if is_blank(content) {
        Seq::empty()
    } else {
        seq![MessageView { role: Role::User, content }]
    }
}

/// Turns text read from the side channel into messages: a single user message
/// with the full text, or none when the text is blank.
pub fn parse_messages(content: &str) -> (r: Vec<Message>)
    ensures
        message_views(r@) == side_channel_messages(content@),
{
    let trimmed = trim(content);
    proof {
        let (a, b) = choose|a: int, b: int|
            {
                &&& 0 <= a <= b <= content@.len()
                &&& trimmed@ == content@.subrange(a, b)
                &&& forall|i: int| 0 <= i < a ==> is_white_space(#[trigger] content@[i])
                &&& forall|i: int| b <= i < content@.len() ==> is_white_space(#[trigger] content@[i])
                &&& a < b ==> !is_white_space(content@[a]) && !is_white_space(content@[b - 1])
            };
        if a == b {
            assert forall|i: int| 0 <= i < content@.len() implies is_white_space(
                #[trigger] content@[i],
            ) by {
                if i >= b {
                }
            }
        }
        if is_blank(content@) && a < b {
            assert(is_white_space(content@[a]));
        }
        assert(trimmed@.len() == b - a);
    }
    let mut messages: Vec<Message> = Vec::new();
    if !trimmed.is_empty() {
        messages.push(Message::user(content));
    }
    assert(message_views(messages@) =~= side_channel_messages(content@));
    messages
}

} // verus!
