//! The chat completion endpoint without its transport: from a request to the
//! prompt, through one generation, to the response.

use crate::openai_types::{
    ChatCompletionChoice, ChatCompletionRequest, ChatCompletionResponse, Message, MessageContent,
    Usage,
};
use crate::text_generation::{completed_text, TextGeneration};
use candle_core::Tensor;
use tokenizers::Tokenizer;
use vstd::prelude::*;
use vstd::utf8::{decode_utf8, encode_utf8, valid_utf8};

verus! {

/// The text of a message. Structured content and no content are both the
/// empty text.
pub open spec fn content_of(message: Message) -> Seq<char> {
    match message.content {
        Some(MessageContent::Text(text)) => text@,
        _ => Seq::empty(),
    }
}

/// The label that a role is written with in the prompt.
pub open spec fn label_of(role: Seq<char>) -> Seq<char> {
    if role == "system"@ {
        "System"@
    } else if role == "user"@ {
        "User"@
    } else if role == "assistant"@ {
        "Assistant"@
    } else {
        role
    }
}

/// The line of a message in the prompt.
pub open spec fn line_of(message: Message) -> Seq<char> {
    label_of(message.role@) + ": "@ + content_of(message) + "\n"@
}

/// The lines of the messages, in their order.
pub open spec fn lines_of(messages: Seq<Message>) -> Seq<char>
    decreases messages.len(),
{
    if messages.len() == 0 {
        Seq::empty()
    } else {
        lines_of(messages.drop_last()) + line_of(messages.last())
    }
}

/// The prompt of a conversation: a line for each message, then the cue for
/// the assistant's answer.
pub open spec fn prompt_of(messages: Seq<Message>) -> Seq<char> {
    lines_of(messages) + "Assistant: "@
}

/// The text of a message.
pub fn message_text(message: &Message) -> (text: String)
    ensures
        text@ == content_of(*message),
{
    match &message.content {
        Some(MessageContent::Text(text)) => text.clone(),
        _ => String::new(),
    }
}

/// The label of a role.
pub fn role_label(role: &String) -> (label: String)
    ensures
        label@ == label_of(role@),
{
    if *role == "system".to_owned() {
        "System".to_owned()
    } else if *role == "user".to_owned() {
        "User".to_owned()
    } else if *role == "assistant".to_owned() {
        "Assistant".to_owned()
    } else {
        role.clone()
    }
}

/// Writes a conversation as one prompt.
pub fn build_prompt(messages: &Vec<Message>) -> (prompt: String)
    ensures
        prompt@ == prompt_of(messages@),
{
    let mut prompt = String::new();
    let mut at: usize = 0;
    while at < messages.len()
        invariant
            at <= messages@.len(),
            prompt@ == lines_of(messages@.take(at as int)),
        decreases messages@.len() - at,
    {
        let message = &messages[at];
        let ghost before = prompt@;
        let label = role_label(&message.role);
        let text = message_text(message);
        prompt.append(label.as_str());
        prompt.append(": ");
        prompt.append(text.as_str());
        prompt.append("\n");
        proof {
            assert(messages@.take(at + 1).drop_last() =~= messages@.take(at as int));
            assert(messages@.take(at + 1).last() == *message);
            assert(prompt@ =~= before + line_of(*message));
        }
        at += 1;
    }
    proof {
        assert(messages@.take(at as int) =~= messages@);
    }
    prompt.append("Assistant: ");
    prompt
}

/// Whether `usage` is the usage of a request, estimated from the numbers of
/// characters of its prompt and of its completion: a quarter of each, which
/// is no count. The total is estimated from the sum of the two, so it may be
/// one more than the sum of the two estimates.
pub open spec fn is_usage(usage: Usage, prompt: Seq<char>, completion: Seq<char>) -> bool {
    &&& usage.prompt_tokens == prompt.len() / 4
    &&& usage.completion_tokens == completion.len() / 4
    &&& usage.total_tokens == (prompt.len() + completion.len()) / 4
}

/// Estimates the usage of a request.
pub fn estimate_usage(prompt: &str, completion: &str) -> (usage: Usage)
    ensures
        is_usage(usage, prompt@, completion@),
{
    let asked = prompt.unicode_len();
    let answered = completion.unicode_len();
    let total = asked / 4 + answered / 4 + (asked % 4 + answered % 4) / 4;
    Usage { prompt_tokens: asked / 4, completion_tokens: answered / 4, total_tokens: total }
}

/// `text` without its hyphens.
pub open spec fn without_hyphens(text: Seq<char>) -> Seq<char>
    decreases text.len(),
{
    if text.len() == 0 {
        Seq::empty()
    } else {
        let before = without_hyphens(text.drop_last());
        if text.last() == '-' {
            before
        } else {
            before.push(text.last())
        }
    }
}

/// The identifier of a completion that was given the unique token `unique`.
pub open spec fn completion_id_of(unique: Seq<char>) -> Seq<char> {
    "chatcmpl-"@ + without_hyphens(unique)
}

/// Makes the identifier of a completion out of a unique token, such as a
/// UUID in its hyphenated form.
pub fn completion_id(unique: &str) -> (id: String)
    ensures
        id@ == completion_id_of(unique@),
{
    let mut id = "chatcmpl-".to_owned();
    let len = unique.unicode_len();
    let mut at: usize = 0;
    while at < len
        invariant
            at <= len,
            len == unique@.len(),
            id@ == "chatcmpl-"@ + without_hyphens(unique@.take(at as int)),
        decreases len - at,
    {
        let ghost before = id@;
        proof {
            assert(unique@.take(at + 1).drop_last() =~= unique@.take(at as int));
            assert(unique@.take(at + 1).last() == unique@[at as int]);
        }
        if unique.get_char(at) != '-' {
            let one = unique.substring_char(at, at + 1);
            id.append(one);
            proof {
                assert(one@ =~= seq![unique@[at as int]]);
                assert(id@ =~= "chatcmpl-"@ + without_hyphens(unique@.take(at as int)).push(
                    unique@[at as int],
                ));
            }
        }
        at += 1;
    }
    proof {
        assert(unique@.take(at as int) =~= unique@);
    }
    id
}

/// Whether `response` is the one response to a completed request: one choice,
/// by the assistant, with the generated text, finished by a stop.
pub open spec fn is_completion(
    response: ChatCompletionResponse,
    id: Seq<char>,
    created: u64,
    model: Seq<char>,
    prompt: Seq<char>,
    content: Seq<char>,
) -> bool {
    &&& response.id@ == id
    &&& response.object@ == "chat.completion"@
    &&& response.created == created
    &&& response.model@ == model
    &&& is_usage(response.usage, prompt, content)
    &&& response.choices@.len() == 1
    &&& response.choices@[0].index == 0
    &&& response.choices@[0].finish_reason@ == "stop"@
    &&& response.choices@[0].message.role@ == "assistant"@
    &&& response.choices@[0].message.name is None
    &&& response.choices@[0].message.content matches Some(MessageContent::Text(text)) && text@
        == content
}

/// Packs a generated text as a response.
pub fn chat_response(id: String, created: u64, model: String, prompt: &str, content: String) -> (response:
    ChatCompletionResponse)
    ensures
        is_completion(response, id@, created, model@, prompt@, content@),
{
    let usage = estimate_usage(prompt, content.as_str());
    let choice = ChatCompletionChoice {
        index: 0,
        message: Message {
            role: "assistant".to_owned(),
            content: Some(MessageContent::Text(content)),
            name: None,
        },
        finish_reason: "stop".to_owned(),
    };
    let mut choices = Vec::new();
    choices.push(choice);
    ChatCompletionResponse {
        id,
        object: "chat.completion".to_owned(),
        created,
        model,
        choices,
        usage,
    }
}

/// What a failed request is answered with.
#[derive(Debug)]
pub struct ApiError {
    /// The status of the answer.
    pub status: u16,
    pub message: String,
    /// The type of the error.
    pub kind: String,
}

/// Whether `error` is the answer to a request whose generation failed.
pub open spec fn is_generation_failure(error: ApiError) -> bool {
    &&& error.status == 400
    &&& error.kind@ == "unsupported_api"@
    &&& error.message@
        == "The OpenAI API is currently not supported due to compatibility issues with the tensor operations. Please use the CLI mode instead with: cargo run --bin inference-engine -- --prompt \"Your prompt here\""@
}

/// The answer to a request whose generation failed.
pub fn generation_failure() -> (error: ApiError)
    ensures
        is_generation_failure(error),
{
    ApiError {
        status: 400,
        message: "The OpenAI API is currently not supported due to compatibility issues with the tensor operations. Please use the CLI mode instead with: cargo run --bin inference-engine -- --prompt \"Your prompt here\"".to_owned(),
        kind: "unsupported_api".to_owned(),
    }
}

/// Calls `String::from_utf8`, which gives the text of the bytes where they
/// are valid UTF-8 and refuses them where they are not.
#[verifier::external_body]
fn text_from_utf8(bytes: Vec<u8>) -> (r: Option<String>)
    ensures
        match r {
            Some(text) => valid_utf8(bytes@) && text@ == decode_utf8(bytes@),
            None => !valid_utf8(bytes@),
        },
{
    String::from_utf8(bytes).ok()
}

/// Serves one chat completion request on a session that the caller holds
/// alone for the length of the call. The conversation becomes the prompt, the
/// request's token limit (1000 where it names none) bounds the generation,
/// and the text of the whole generation, the mirrored prompt included, is
/// the content of the one choice. A generation that fails is answered with
/// the failure, whatever failed. `unique` and `created` are the response's
/// unique token and its time in seconds; `tokenize` turns the prompt into
/// ids with the session's tokenizer, and `penalize` rewrites the scores of
/// the repetition penalty.
pub fn complete_chat<E, F>(
    session: &mut TextGeneration,
    request: &ChatCompletionRequest,
    unique: &str,
    created: u64,
    tokenize: &E,
    penalize: &F,
) -> (r: Result<ChatCompletionResponse, ApiError>) where
    E: Fn(&Tokenizer, &str) -> Result<Vec<u32>, String>,
    F: Fn(Tensor, u32, &Vec<usize>) -> Result<Tensor, candle_core::Error>,

    requires
        forall|tokenizer: &Tokenizer, prompt: &str| call_requires(tokenize, (tokenizer, prompt)),
        forall|logits: Tensor, bits: u32, targets: &Vec<usize>|
            call_requires(penalize, (logits, bits, targets)),
    ensures
        final(session).codec() == old(session).codec(),
        final(session).device() == old(session).device(),
        final(session)@.same_setup(old(session)@),
        final(session)@.budget == request.token_limit(),
        final(session)@.silent_on_stop(),
        match r {
            Ok(response) => {
                &&& final(session)@.ended()
                &&& completed_text(final(session).codec(), final(session)@.stream) matches Some(
                    text,
                ) && is_completion(
                    response,
                    completion_id_of(unique@),
                    created,
                    request.model@,
                    prompt_of(request.messages@),
                    text,
                )
            },
            Err(error) => is_generation_failure(error),
        },
{
    let prompt = build_prompt(&request.messages);
    let mut buffer: Vec<u8> = Vec::new();
    let run = session.run_with_output(
        prompt.as_str(),
        request.sample_len(),
        &mut buffer,
        tokenize,
        penalize,
    );
    match run {
        Ok(_) => {},
        Err(_) => {
            return Err(generation_failure());
        },
    }
    proof {
        let text = completed_text(session.codec(), session@.stream)->0;
        assert(buffer@ =~= encode_utf8(text));
        vstd::utf8::encode_utf8_valid_utf8(text);
        vstd::utf8::encode_utf8_decode_utf8(text);
    }
    let content = match text_from_utf8(buffer) {
        Some(content) => content,
        None => String::new(),
    };
    Ok(chat_response(completion_id(unique), created, request.model.clone(), prompt.as_str(), content))
}

} // verus!
