//! Chat messages and the token budget that they use up.

use crate::client::json::{JsonTree, dict_of, json_object, json_string, json_tree};
use vstd::prelude::*;
use vstd::string::*;

verus! {

/// Who a message is from.
#[derive(Debug, Clone, Copy, PartialEq, Eq)]
pub enum MessageRole {
    System,
    Assistant,
    User,
}

impl MessageRole {
    /// The role's name on the wire.
    pub open spec fn spec_name(self) -> Seq<char> {
        match self {
            MessageRole::System => "system"@,
            MessageRole::Assistant => "assistant"@,
            MessageRole::User => "user"@,
        }
    }

    /// The role's name on the wire: the variant's name in lower case.
    pub fn name(self) -> (name: &'static str)
        ensures
            name@ == self.spec_name(),
    {
        match self {
            MessageRole::System => "system",
            MessageRole::Assistant => "assistant",
            MessageRole::User => "user",
        }
    }
}

/// One message of a conversation.
#[derive(Debug, PartialEq, Eq)]
pub struct Message {
    pub role: MessageRole,
    pub content: String,
}

/// A message as a JSON object: its role by name, then its content.
pub open spec fn message_tree(message: Message) -> JsonTree {
    JsonTree::Dict(
        Map::empty().insert("role"@, JsonTree::Text(message.role.spec_name())).insert(
            "content"@,
            JsonTree::Text(message.content@),
        ),
    )
}

impl Message {
    /// The message as a JSON object, as it goes over the wire.
    pub fn to_json(&self) -> (value: serde_json::Value)
        ensures
            json_tree(value) == message_tree(*self),
    {
        let mut entries: Vec<(String, serde_json::Value)> = Vec::new();
        entries.push((String::from_str("role"), json_string(self.role.name())));
        entries.push((String::from_str("content"), json_string(self.content.as_str())));
        proof {
            reveal_strlit("role");
            reveal_strlit("content");
            assert("role"@.len() != "content"@.len());
            assert(entries@.drop_last().drop_last() =~= Seq::empty());
            reveal_with_fuel(dict_of, 3);
        }
        json_object(entries)
    }

    /// A message from the user.
    pub fn new(content: &str) -> (message: Self)
        ensures
            message.role == MessageRole::User,
            message.content@ == content@,
    {
        Message { role: MessageRole::User, content: String::from_str(content) }
    }
}

/// Tokens that every message costs besides its content: four for framing
/// and one for the role.
pub const TOKENS_PER_MESSAGE: usize = 5;

/// Tokens that every conversation costs besides its messages.
pub const TOKENS_PER_REPLY: usize = 2;

/// The tokens of a conversation whose messages have contents of the given
/// token counts.
pub open spec fn total_tokens(content_tokens: Seq<usize>) -> nat
    decreases content_tokens.len(),
{
    if content_tokens.len() == 0 {
        TOKENS_PER_REPLY as nat
    } else {
        total_tokens(content_tokens.drop_last()) + TOKENS_PER_MESSAGE as nat
            + content_tokens.last() as nat
    }
}

/// The total grows with every message.
pub proof fn lemma_total_tokens_grows(content_tokens: Seq<usize>, n: int)
    requires
        0 <= n <= content_tokens.len(),
    ensures
        total_tokens(content_tokens.take(n)) <= total_tokens(content_tokens),
        total_tokens(content_tokens) >= TOKENS_PER_REPLY + TOKENS_PER_MESSAGE
            * content_tokens.len(),
    decreases content_tokens.len(),
{
    if content_tokens.len() == 0 {
        assert(content_tokens.take(n) =~= content_tokens);
    } else if n == content_tokens.len() {
        assert(content_tokens.take(n) =~= content_tokens);
        lemma_total_tokens_grows(content_tokens.drop_last(), 0);
    } else {
        lemma_total_tokens_grows(content_tokens.drop_last(), n);
        assert(content_tokens.drop_last().take(n) =~= content_tokens.take(n));
    }
}

/// The number of tokens that a conversation uses up. `content_tokens` holds,
/// for each message in turn, the number of tokens of its content.
pub fn num_tokens_from_messages(content_tokens: &[usize]) -> (num_tokens: usize)
    requires
        total_tokens(content_tokens@) <= usize::MAX,
    ensures
        num_tokens == total_tokens(content_tokens@),
{
    let mut num_tokens: usize = TOKENS_PER_REPLY;
    let mut i: usize = 0;
    while i < content_tokens.len()
        invariant
            i <= content_tokens.len(),
            num_tokens == total_tokens(content_tokens@.take(i as int)),
            total_tokens(content_tokens@) <= usize::MAX,
        decreases content_tokens.len() - i,
    {
        proof {
            lemma_total_tokens_grows(content_tokens@, i + 1);
            assert(content_tokens@.take(i + 1).drop_last() =~= content_tokens@.take(i as int));
        }
        num_tokens = num_tokens + TOKENS_PER_MESSAGE + content_tokens[i];
        i = i + 1;
    }
    assert(content_tokens@.take(i as int) =~= content_tokens@);
    num_tokens
}

} // verus!
