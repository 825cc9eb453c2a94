//! The shapes of a chat completion request and of its response.

use vstd::prelude::*;

verus! {

/// The content of a message: plain text, or structured parts. The engine
/// reads text only, so of structured content no more is kept than that it
/// was there.
#[derive(Debug)]
pub enum MessageContent {
    Text(String),
    Structured,
}

/// One message of a conversation.
#[derive(Debug)]
pub struct Message {
    /// The message content.
    pub content: Option<MessageContent>,
    /// The role of the sender: "user", "assistant", "system", "tool", ...
    pub role: String,
    pub name: Option<String>,
}

/// The stop sequences of a request.
#[derive(Debug)]
pub enum StopTokens {
    /// Several possible stop sequences.
    Multi(Vec<String>),
    /// One stop sequence.
    Single(String),
}

/// The value of `logprobs` where a request has none.
pub fn default_false() -> (value: bool)
    ensures
        !value,
{
    false
}

/// The value of `n` where a request has none.
pub fn default_1usize() -> (value: usize)
    ensures
        value == 1,
{
    1
}

/// The value of `model` where a request has none.
pub fn default_model() -> (value: String)
    ensures
        value@ == "default"@,
{
    "default".to_owned()
}

/// How many tokens a request may sample where it names no limit.
pub const DEFAULT_MAX_TOKENS: usize = 1000;

/// A chat completion request. The sampling settings are fixed when the
/// engine starts, so a request carries none.
#[derive(Debug)]
pub struct ChatCompletionRequest {
    pub messages: Vec<Message>,
    pub model: String,
    /// Accepted and not honoured.
    pub logprobs: bool,
    pub max_tokens: Option<usize>,
    /// Accepted; one choice is produced whatever it says.
    pub n_choices: usize,
    /// Accepted and not honoured: the response is always complete.
    pub stream: Option<bool>,
}

impl ChatCompletionRequest {
    /// How many tokens the request may sample.
    pub open spec fn token_limit(&self) -> nat {
        match self.max_tokens {
            Some(limit) => limit as nat,
            None => DEFAULT_MAX_TOKENS as nat,
        }
    }

    /// A request for `messages` with every other field at its default.
    pub fn new(messages: Vec<Message>) -> (request: Self)
        ensures
            request.messages == messages,
            request.model@ == "default"@,
            !request.logprobs,
            request.max_tokens is None,
            request.n_choices == 1,
            request.stream is None,
    {
        Self {
            messages,
            model: default_model(),
            logprobs: default_false(),
            max_tokens: None,
            n_choices: default_1usize(),
            stream: None,
        }
    }

    pub fn sample_len(&self) -> (limit: usize)
        ensures
            limit == self.token_limit(),
    {
        match self.max_tokens {
            Some(limit) => limit,
            None => DEFAULT_MAX_TOKENS,
        }
    }
}

/// One choice of a response.
#[derive(Debug)]
pub struct ChatCompletionChoice {
    pub index: usize,
    pub message: Message,
    pub finish_reason: String,
}

/// How many tokens a request used, estimated.
#[derive(Debug, Clone, Copy, PartialEq, Eq, Structural)]
pub struct Usage {
    pub prompt_tokens: usize,
    pub completion_tokens: usize,
    pub total_tokens: usize,
}

/// A chat completion response.
#[derive(Debug)]
pub struct ChatCompletionResponse {
    pub id: String,
    pub object: String,
    pub created: u64,
    pub model: String,
    pub choices: Vec<ChatCompletionChoice>,
    pub usage: Usage,
}

} // verus!
