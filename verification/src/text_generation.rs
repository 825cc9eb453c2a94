//! The generation loop: priming, stepping, stopping and flushing.

use crate::model::{passable, Family, ForwardError, Model, MAX_WINDOW};
pub use crate::token_output_stream::LoadError;
use crate::token_output_stream::{
    decode_diff_equivalence, decoded_text, empty_state, fed, fed_all, fed_all_prefix,
    fed_all_push, fragment, held_back, released_by, released_in_place, text_of, vocabulary_id,
    StreamState, TokenOutputStream,
};
use crate::tokenizer_check::decodes_safely;
use candle_core::{Device, Tensor};
use candle_transformers::generation::LogitsProcessor;
use tokenizers::Tokenizer;
use vstd::prelude::*;
use vstd::slice::slice_subrange;

verus! {

/// `candle_transformers::generation::LogitsProcessor`, carried through
/// unread.
#[verifier::external_type_specification]
#[verifier::external_body]
pub struct ExLogitsProcessor(LogitsProcessor);

/// Takes the scores of the last position out of a model's output: two calls
/// of `Tensor::squeeze(0)`, then `Tensor::to_dtype` to 32-bit scores. Nothing
/// is claimed of the tensor that comes back.
#[verifier::external_body]
fn final_logits(raw: &Tensor) -> (r: Result<Tensor, candle_core::Error>) {
    raw.squeeze(0)?.squeeze(0)?.to_dtype(candle_core::DType::F32)
}

/// Calls `Tensor::elem_count`: how many scores a tensor holds.
#[verifier::external_body]
fn logit_count(logits: &Tensor) -> (n: usize) {
    logits.elem_count()
}

/// The lengths of a tensor along its dimensions, the outermost first.
pub uninterp spec fn shape_of(tensor: Tensor) -> Seq<usize>;

/// Calls `Tensor::dims`: the lengths that `shape_of` names.
#[verifier::external_body]
fn dims_of(tensor: &Tensor) -> (dims: Vec<usize>)
    ensures
        dims@ == shape_of(*tensor),
{
    tensor.dims().to_vec()
}

/// Whether a tensor holds scores that can be sampled from: it has a last
/// dimension, and that dimension is not empty.
pub open spec fn samplable(tensor: Tensor) -> bool {
    shape_of(tensor).len() > 0 && shape_of(tensor).last() > 0
}

/// Calls `LogitsProcessor::sample` on the scores laid out afresh, row by row
/// (`Tensor::force_contiguous`). The sampler draws the next token id with its
/// own seeded generator; the draw moves that generator on, so nothing is
/// claimed of the id. The sampler takes the length of the last dimension and
/// cuts the scores into rows of it, so the tensor must have one that is not
/// empty; it divides by the step from one score to the next where that is
/// not one, which the fresh layout rules out.
#[verifier::external_body]
fn sample(processor: &mut LogitsProcessor, logits: &Tensor) -> (r: Result<
    u32,
    candle_core::Error,
>)
    requires
        samplable(*logits),
{
    processor.sample(&logits.force_contiguous()?)
}

/// Whether the scores can be sampled from.
pub fn can_sample(logits: &Tensor) -> (ready: bool)
    ensures
        ready == samplable(*logits),
{
    let dims = dims_of(logits);
    dims.len() > 0 && dims[dims.len() - 1] > 0
}

/// The two ids that end a generation.
#[derive(Clone, Copy, Debug, PartialEq, Eq, Structural)]
pub struct StopIds {
    /// The id of the end-of-sequence token.
    pub eos: u32,
    /// The id of the end-of-turn token, or `eos` where the vocabulary has none.
    pub eot: u32,
    /// Whether `eos` stands in for a missing end-of-turn token. The caller
    /// logs this; it is no failure.
    pub eot_is_fallback: bool,
}

impl StopIds {
    /// Whether `id` ends the generation.
    pub open spec fn stops(&self, id: u32) -> bool {
        id == self.eos || id == self.eot
    }

    /// Whether `id` ends the generation.
    #[verifier::when_used_as_spec(stops)]
    pub fn is_stop(&self, id: u32) -> (stop: bool)
        ensures
            stop == self.stops(id),
    {
        id == self.eos || id == self.eot
    }
}

/// The stop ids of a vocabulary: `<eos>` must be there, `<end_of_turn>` falls
/// back on it.
pub open spec fn stop_ids_of(tokenizer: Tokenizer) -> Result<StopIds, LoadError> {
    match vocabulary_id(tokenizer, "<eos>"@) {
        None => Err(LoadError::MissingEos),
        Some(eos) => match vocabulary_id(tokenizer, "<end_of_turn>"@) {
            Some(eot) => Ok(StopIds { eos, eot, eot_is_fallback: false }),
            None => Ok(StopIds { eos, eot: eos, eot_is_fallback: true }),
        },
    }
}

/// Looks the two stop ids up in the vocabulary of the stream's tokenizer.
pub fn resolve_stop_ids(stream: &TokenOutputStream) -> (r: Result<StopIds, LoadError>)
    ensures
        r == stop_ids_of(stream.codec()),
{
    let eos = match stream.get_token("<eos>") {
        Some(id) => id,
        None => {
            return Err(LoadError::MissingEos);
        },
    };
    match stream.get_token("<end_of_turn>") {
        Some(eot) => Ok(StopIds { eos, eot, eot_is_fallback: false }),
        None => Ok(StopIds { eos, eot: eos, eot_is_fallback: true }),
    }
}

/// Where the window of a forward pass starts when it is cut out of the
/// sequence: the first step of a request sees the whole sequence, each later
/// step its last token. The model keeps what it has seen, keyed by position.
pub open spec fn sliced_start(step: nat, len: nat) -> nat {
    let context = if step > 0 {
        1
    } else {
        len
    };
    if len >= context {
        (len - context) as nat
    } else {
        0
    }
}

/// Where the window of a forward pass starts when the newest token is sent
/// again by itself: the first call gets the whole sequence, each later call
/// the one token that was appended last.
pub open spec fn resent_start(step: nat, len: nat) -> nat {
    if step == 0 || len == 0 {
        0
    } else {
        (len - 1) as nat
    }
}

/// Where the window of a family's forward pass starts in a sequence of `len`
/// tokens at step `step` of a request. The window runs to the end of the
/// sequence, and the position handed to the model is the window's start.
pub open spec fn window_start(family: Family, step: nat, len: nat) -> nat {
    match family {
        Family::Gen1 | Family::Gen2 => sliced_start(step, len),
        Family::Gen3 => resent_start(step, len),
    }
}

/// The start of the window of the next forward pass.
pub fn plan_window(family: Family, step: usize, len: usize) -> (start: usize)
    ensures
        start == window_start(family, step as nat, len as nat),
        start <= len,
{
    match family {
        Family::Gen1 | Family::Gen2 => {
            let context = if step > 0 {
                1
            } else {
                len
            };
            len.saturating_sub(context)
        },
        Family::Gen3 => {
            if step == 0 || len == 0 {
                0
            } else {
                len - 1
            }
        },
    }
}

/// The two ways of feeding the model ask for the same window at every step.
/// They are kept apart because the families take their context differently.
pub proof fn strategies_agree(step: nat, len: nat)
    ensures
        sliced_start(step, len) == resent_start(step, len),
{
}

/// After the first step a window holds exactly one token.
pub proof fn later_windows_hold_one_token(family: Family, step: nat, len: nat)
    requires
        step > 0,
        len > 0,
    ensures
        len - window_start(family, step, len) == 1,
{
}

/// The bit pattern of the strength 1.0, which leaves every score as it is.
pub const IDENTITY_PENALTY: u32 = 0x3F80_0000;

/// Where the trailing window of the repetition penalty starts.
pub open spec fn penalty_start(len: nat, last_n: nat) -> nat {
    if len >= last_n {
        (len - last_n) as nat
    } else {
        0
    }
}

/// The positions among `vocabulary` scores that the ids of `window` name,
/// each once, in the order in which the ids first occur. An id beyond the
/// scores names none.
pub open spec fn positions_in(window: Seq<u32>, vocabulary: nat) -> Seq<usize>
    decreases window.len(),
{
    if window.len() == 0 {
        Seq::empty()
    } else {
        let before = positions_in(window.drop_last(), vocabulary);
        let position = window.last() as usize;
        if (window.last() as nat) < vocabulary && !before.contains(position) {
            before.push(position)
        } else {
            before
        }
    }
}

/// The positions whose scores the repetition penalty rewrites. A strength of
/// 1.0 rewrites none; any other strength rewrites, once, the score of each
/// id that occurs in the last `last_n` tokens of the sequence.
pub open spec fn penalty_targets(
    strength_bits: u32,
    last_n: nat,
    tokens: Seq<u32>,
    vocabulary: nat,
) -> Seq<usize> {
    if strength_bits == IDENTITY_PENALTY {
        Seq::empty()
    } else {
        positions_in(
            tokens.subrange(penalty_start(tokens.len(), last_n) as int, tokens.len() as int),
            vocabulary,
        )
    }
}

/// Whether `list` holds `position`.
fn holds(list: &Vec<usize>, position: usize) -> (found: bool)
    ensures
        found == list@.contains(position),
{
    let mut at: usize = 0;
    while at < list.len()
        invariant
            at <= list@.len(),
            forall|j: int| 0 <= j < at ==> list@[j] != position,
        decreases list@.len() - at,
    {
        if list[at] == position {
            return true;
        }
        at += 1;
    }
    false
}

/// Works out which scores the repetition penalty is to rewrite. `strength_bits`
/// is the strength as the bits of a 32-bit IEEE 754 number.
pub fn plan_penalty(strength_bits: u32, last_n: usize, tokens: &[u32], vocabulary: usize) -> (targets:
    Vec<usize>)
    ensures
        targets@ == penalty_targets(strength_bits, last_n as nat, tokens@, vocabulary as nat),
{
    let mut targets: Vec<usize> = Vec::new();
    if strength_bits == IDENTITY_PENALTY {
        return targets;
    }
    let len = tokens.len();
    let start = len.saturating_sub(last_n);
    let ghost window = tokens@.subrange(start as int, len as int);
    let mut at = start;
    while at < len
        invariant
            start <= at <= len,
            len == tokens@.len(),
            window == tokens@.subrange(start as int, len as int),
            targets@ == positions_in(window.take(at - start), vocabulary as nat),
        decreases len - at,
    {
        let id = tokens[at];
        proof {
            assert(window.take(at + 1 - start).drop_last() =~= window.take(at - start));
            assert(window.take(at + 1 - start).last() == id);
        }
        if (id as usize) < vocabulary && !holds(&targets, id as usize) {
            targets.push(id as usize);
        }
        at += 1;
    }
    proof {
        assert(window.take(len - start) =~= window);
    }
    targets
}

/// No position is named twice: the score of an id is rewritten once,
/// however often the id occurs in the window.
pub proof fn positions_are_distinct(window: Seq<u32>, vocabulary: nat)
    ensures
        forall|i: int, j: int|
            0 <= i < j < positions_in(window, vocabulary).len() ==> positions_in(
                window,
                vocabulary,
            )[i] != positions_in(window, vocabulary)[j],
    decreases window.len(),
{
    if window.len() > 0 {
        positions_are_distinct(window.drop_last(), vocabulary);
        let before = positions_in(window.drop_last(), vocabulary);
        let now = positions_in(window, vocabulary);
        assert forall|i: int, j: int| 0 <= i < j < now.len() implies now[i] != now[j] by {
            if j < before.len() {
                assert(now[i] == before[i] && now[j] == before[j]);
            } else {
                assert(now == before.push(window.last() as usize));
                assert(now[i] == before[i]);
                assert(before.contains(before[i]));
            }
        }
    }
}

/// The positions named are those of the ids of the window that have a
/// score, and no others.
pub proof fn positions_cover_the_window(window: Seq<u32>, vocabulary: nat, position: usize)
    ensures
        positions_in(window, vocabulary).contains(position) <==> (position < vocabulary
            && exists|k: int| 0 <= k < window.len() && window[k] as usize == position),
    decreases window.len(),
{
    if window.len() > 0 {
        let rest = window.drop_last();
        positions_cover_the_window(rest, vocabulary, position);
        let before = positions_in(rest, vocabulary);
        let now = positions_in(window, vocabulary);
        let last = window.last() as usize;
        if now.contains(position) {
            if before.contains(position) {
                let k = choose|k: int| 0 <= k < rest.len() && rest[k] as usize == position;
                assert(window[k] as usize == position);
            } else {
                let at = choose|i: int| 0 <= i < now.len() && now[i] == position;
                assert(position == last);
                assert(window[window.len() - 1] as usize == position);
            }
        }
        if position < vocabulary && exists|k: int|
            0 <= k < window.len() && window[k] as usize == position {
            let k = choose|k: int| 0 <= k < window.len() && window[k] as usize == position;
            if k < rest.len() {
                assert(rest[k] as usize == position);
                let at = choose|i: int| 0 <= i < before.len() && before[i] == position;
                assert(now[at] == position);
            } else {
                if before.contains(position) {
                    let at = choose|i: int| 0 <= i < before.len() && before[i] == position;
                    assert(now[at] == position);
                } else {
                    assert(now[now.len() - 1] == position);
                }
            }
        }
    }
}

/// Penalty identity: at the strength 1.0 no score is rewritten, so the scores
/// that are sampled from are the scores that the model gave.
pub proof fn penalty_identity(last_n: nat, tokens: Seq<u32>, vocabulary: nat)
    ensures
        penalty_targets(IDENTITY_PENALTY, last_n, tokens, vocabulary).len() == 0,
{
}

/// Why a generation ended early.
#[derive(Debug)]
pub enum GenerationError {
    /// The tokenizer could not encode the prompt.
    Tokenize(String),
    /// The tokenizer could not decode the sequence.
    Decode(String),
    /// The forward pass, the penalty or the sampler failed.
    Compute(candle_core::Error),
    /// The sequence holds no token for the model to read.
    EmptyContext,
    /// The sequence is too long for its positions to be counted.
    TooLong,
    /// The scores have no last dimension, or an empty one.
    NoScores,
}

/// What one step of a generation did.
#[derive(Debug)]
pub enum Step {
    /// A token was sampled and fed to the decoder, which released `chunk`.
    Token { id: u32, chunk: Option<String> },
    /// A stop token was sampled. It was not decoded.
    Stopped { id: u32 },
    /// Nothing was done: a stop token had been sampled before, or the
    /// request's steps were used up.
    Finished,
}

/// What a session holds besides its tokenizer, its weights and its sampler.
pub ghost struct Session {
    /// The family of the loaded model.
    pub family: Family,
    /// The ids that end a generation.
    pub stop: StopIds,
    /// The strength of the repetition penalty, as the bits of a 32-bit number.
    pub strength_bits: u32,
    /// How many trailing tokens the repetition penalty looks at.
    pub last_n: nat,
    /// The decoder: the prompt's tokens and the sampled ones that followed.
    pub stream: StreamState,
    /// How many tokens of the decoder's sequence came from the prompt.
    pub prompt_len: nat,
    /// The stop token that ended the request, once one was sampled.
    pub halted: Option<u32>,
    /// How many tokens were sampled for the request.
    pub generated: nat,
    /// How many tokens may be sampled for the request.
    pub budget: nat,
}

impl Session {
    /// Whether the request takes no further step.
    pub open spec fn ended(&self) -> bool {
        self.halted is Some || self.generated >= self.budget
    }

    /// The whole sequence of the request: the prompt's tokens and every
    /// sampled one, the stop token included.
    pub open spec fn tokens(&self) -> Seq<u32> {
        match self.halted {
            Some(id) => self.stream.tokens.push(id),
            None => self.stream.tokens,
        }
    }

    /// Whether the session differs from `other` at most in the request.
    pub open spec fn same_setup(&self, other: Session) -> bool {
        &&& self.family == other.family
        &&& self.stop == other.stop
        &&& self.strength_bits == other.strength_bits
        &&& self.last_n == other.last_n
    }
}

/// The text of a request that ran to its end with the decoder in `stream`:
/// what the decoder released for its sequence, fed from the start, and then
/// what it still held back. `None` where the sequence does not decode.
pub open spec fn completed_text(tokenizer: Tokenizer, stream: StreamState) -> Option<Seq<char>> {
    match (fed_all(tokenizer, empty_state(), stream.tokens), held_back(tokenizer, stream)) {
        (Some((end, released)), Some(rest)) => if end == stream {
            Some(released + text_of(rest))
        } else {
            None
        },
        _ => None,
    }
}

impl Session {
    /// Stop-token silence: the decoder holds the prompt's tokens and, behind
    /// them, sampled tokens of which none is a stop id; a stop id that was
    /// sampled is kept beside the decoder, and is the last token sampled.
    pub open spec fn silent_on_stop(&self) -> bool {
        &&& self.prompt_len <= self.stream.tokens.len()
        &&& self.stream.tokens.len() + (if self.halted is Some {
            1nat
        } else {
            0nat
        }) == self.prompt_len + self.generated
        &&& forall|i: int|
            self.prompt_len <= i < self.stream.tokens.len() ==> !self.stop.stops(
                #[trigger] self.stream.tokens[i],
            )
        &&& self.halted matches Some(id) ==> self.stop.stops(id)
    }
}

/// One loaded model with its decoder, its sampler and the repetition
/// penalty's settings. A session serves one request at a time.
pub struct TextGeneration {
    model: Model,
    device: Device,
    tokenizer: TokenOutputStream,
    logits_processor: LogitsProcessor,
    repeat_penalty_bits: u32,
    repeat_last_n: usize,
    stop: StopIds,
    prompt_len: usize,
    halted: Option<u32>,
    generated: usize,
    budget: usize,
}

impl View for TextGeneration {
    type V = Session;

    closed spec fn view(&self) -> Session {
        Session {
            family: self.model.architecture(),
            stop: self.stop,
            strength_bits: self.repeat_penalty_bits,
            last_n: self.repeat_last_n as nat,
            stream: self.tokenizer@,
            prompt_len: self.prompt_len as nat,
            halted: self.halted,
            generated: self.generated as nat,
            budget: self.budget as nat,
        }
    }
}

/// Appends the UTF-8 bytes of `text` to `output`.
pub fn append_text(output: &mut Vec<u8>, text: &str)
    ensures
        final(output)@ == old(output)@ + vstd::utf8::encode_utf8(text@),
{
    let bytes = text.as_bytes();
    let mut at: usize = 0;
    while at < bytes.len()
        invariant
            at <= bytes@.len(),
            bytes@ == vstd::utf8::encode_utf8(text@),
            output@ == old(output)@ + bytes@.take(at as int),
        decreases bytes@.len() - at,
    {
        output.push(bytes[at]);
        proof {
            assert(bytes@.take(at + 1) =~= bytes@.take(at as int).push(bytes@[at as int]));
        }
        at += 1;
    }
    proof {
        assert(bytes@.take(at as int) =~= bytes@);
    }
}

/// The bytes of two texts written one after the other are the bytes of the
/// texts joined.
pub proof fn utf8_of_joined(first: Seq<char>, second: Seq<char>)
    ensures
        vstd::utf8::encode_utf8(first + second) == vstd::utf8::encode_utf8(first)
            + vstd::utf8::encode_utf8(second),
    decreases first.len(),
{
    if first.len() == 0 {
        assert(first + second =~= second);
        assert(vstd::utf8::encode_utf8(first) + vstd::utf8::encode_utf8(second)
            =~= vstd::utf8::encode_utf8(second));
    } else {
        utf8_of_joined(first.drop_first(), second);
        assert((first + second).drop_first() =~= first.drop_first() + second);
        assert((first + second)[0] == first[0]);
        assert(vstd::utf8::encode_utf8(first + second) =~= vstd::utf8::encode_utf8(first)
            + vstd::utf8::encode_utf8(second));
    }
}

impl TextGeneration {
    /// The tokenizer that the session decodes with.
    pub closed spec fn codec(&self) -> Tokenizer {
        self.tokenizer.codec()
    }

    /// The model that the session runs.
    pub closed spec fn loaded(&self) -> Model {
        self.model
    }

    /// The device that the session computes on.
    pub closed spec fn device(&self) -> Device {
        self.device
    }

    /// The sampler that the session draws with.
    pub closed spec fn sampler(&self) -> LogitsProcessor {
        self.logits_processor
    }

    /// Whether the session holds the model, the device and the sampler that
    /// `other` holds.
    pub open spec fn same_parts(&self, other: &Self) -> bool {
        &&& self.loaded() == other.loaded()
        &&& self.device() == other.device()
        &&& self.sampler() == other.sampler()
    }

    /// Sets a session up with the model, the tokenizer, the sampler and the
    /// device that it is given. The tokenizer is checked and the stop ids are
    /// looked up once, here: a tokenizer whose decoder cannot decode every
    /// sequence is refused, and so is a vocabulary without an end-of-sequence
    /// token; one without an end-of-turn token uses the end-of-sequence token
    /// for both. `repeat_penalty_bits` is the penalty's
    /// strength as the bits of a 32-bit IEEE 754 number.
    pub fn new(
        model: Model,
        tokenizer: Tokenizer,
        logits_processor: LogitsProcessor,
        repeat_penalty_bits: u32,
        repeat_last_n: usize,
        device: Device,
    ) -> (r: Result<Self, LoadError>)
        ensures
            match r {
                Ok(session) => {
                    &&& decodes_safely(tokenizer)
                    &&& stop_ids_of(tokenizer) == Ok::<StopIds, LoadError>(session@.stop)
                    &&& session.codec() == tokenizer
                    &&& session.loaded() == model
                    &&& session.device() == device
                    &&& session.sampler() == logits_processor
                    &&& session@ == Session {
                        family: model.architecture(),
                        stop: session@.stop,
                        strength_bits: repeat_penalty_bits,
                        last_n: repeat_last_n as nat,
                        stream: empty_state(),
                        prompt_len: 0,
                        halted: None,
                        generated: 0,
                        budget: 0,
                    }
                },
                Err(LoadError::MissingEos) => {
                    &&& decodes_safely(tokenizer)
                    &&& stop_ids_of(tokenizer) == Err::<StopIds, LoadError>(LoadError::MissingEos)
                },
                Err(LoadError::Decoder) => !decodes_safely(tokenizer),
            },
    {
        let tokenizer = match TokenOutputStream::new(tokenizer) {
            Ok(stream) => stream,
            Err(e) => {
                return Err(e);
            },
        };
        let stop = match resolve_stop_ids(&tokenizer) {
            Ok(stop) => stop,
            Err(e) => {
                return Err(e);
            },
        };
        Ok(
            Self {
                model,
                device,
                tokenizer,
                logits_processor,
                repeat_penalty_bits,
                repeat_last_n,
                stop,
                prompt_len: 0,
                halted: None,
                generated: 0,
                budget: 0,
            },
        )
    }

    /// The ids that end a generation.
    pub fn stop_ids(&self) -> (stop: StopIds)
        ensures
            stop == self@.stop,
    {
        self.stop
    }

    /// The model of the session.
    pub fn model(&self) -> (model: &Model)
        ensures
            *model == self.loaded(),
    {
        &self.model
    }

    /// The decoder of the session.
    pub fn stream(&self) -> (stream: &TokenOutputStream)
        ensures
            stream@ == self@.stream,
            stream.codec() == self.codec(),
    {
        &self.tokenizer
    }

    /// How many tokens have been sampled for the request.
    pub fn generated(&self) -> (n: usize)
        ensures
            n == self@.generated,
    {
        self.generated
    }

    /// Whether the request takes no further step.
    pub fn is_finished(&self) -> (ended: bool)
        ensures
            ended == self@.ended(),
    {
        self.halted.is_some() || self.generated >= self.budget
    }

    /// Starts a request on a prompt that is tokenized already. The decoder is
    /// cleared and each id is fed to it, without sampling. What the decoder
    /// releases on the way is appended to `text` as it comes: the prompt,
    /// mirrored. The request may then sample `sample_len` tokens. Where the
    /// decoder cannot decode a prefix of the ids, the request ends there with
    /// the error, and `text` keeps what was released before.
    pub fn prime_into(&mut self, ids: &[u32], sample_len: usize, text: &mut String) -> (r: Result<
        (),
        GenerationError,
    >)
        ensures
            final(self).codec() == old(self).codec(),
            final(self).same_parts(old(self)),
            final(self)@.same_setup(old(self)@),
            final(self)@.halted is None,
            final(self)@.generated == 0,
            final(self)@.budget == sample_len,
            final(self)@.prompt_len == final(self)@.stream.tokens.len(),
            final(text)@ == old(text)@ + released_so_far(
                final(self).codec(),
                final(self)@.stream.tokens,
            ),
            match r {
                Ok(_) => {
                    &&& final(self)@.stream.tokens == ids@
                    &&& fed_all(final(self).codec(), empty_state(), ids@) == Some(
                        (
                            final(self)@.stream,
                            released_so_far(final(self).codec(), final(self)@.stream.tokens),
                        ),
                    )
                },
                Err(GenerationError::Decode(_)) => {
                    &&& fed_all(final(self).codec(), empty_state(), ids@) is None
                    &&& final(self)@.stream.tokens.len() <= ids@.len()
                    &&& final(self)@.stream.tokens == ids@.take(
                        final(self)@.stream.tokens.len() as int,
                    )
                    &&& fed_all(final(self).codec(), empty_state(), final(self)@.stream.tokens)
                        is None
                    &&& fed_all(
                        final(self).codec(),
                        empty_state(),
                        final(self)@.stream.tokens.drop_last(),
                    ) is Some
                },
                Err(_) => false,
            },
    {
        self.tokenizer.clear();
        self.halted = None;
        self.generated = 0;
        self.budget = sample_len;
        self.prompt_len = 0;
        let ghost mut released = Seq::<char>::empty();
        proof {
            assert(text@ =~= old(text)@ + released);
        }
        let mut at: usize = 0;
        while at < ids.len()
            invariant
                at <= ids@.len(),
                self.codec() == old(self).codec(),
                self.same_parts(old(self)),
                self@.same_setup(old(self)@),
                self@.halted is None,
                self@.generated == 0,
                self@.budget == sample_len,
                self@.prompt_len == at,
                self@.stream.tokens == ids@.take(at as int),
                fed_all(self.codec(), empty_state(), self@.stream.tokens) == Some(
                    (self@.stream, released),
                ),
                text@ == old(text)@ + released,
            decreases ids@.len() - at,
        {
            let ghost before = self@.stream;
            proof {
                fed_all_push(self.codec(), empty_state(), before.tokens, ids@[at as int]);
                assert(ids@.take(at + 1) =~= ids@.take(at as int).push(ids@[at as int]));
                assert(ids@.take(at + 1).drop_last() =~= ids@.take(at as int));
            }
            match self.tokenizer.next_token(ids[at]) {
                Ok(chunk) => {
                    match chunk {
                        Some(piece) => {
                            text.append(piece.as_str());
                            proof {
                                assert(text@ =~= old(text)@ + (released + piece@));
                                released = released + piece@;
                            }
                        },
                        None => {
                            assert(released + text_of(None) =~= released);
                        },
                    }
                },
                Err(e) => {
                    self.prompt_len = self.tokenizer.len();
                    proof {
                        if fed_all(self.codec(), empty_state(), ids@) is Some {
                            fed_all_prefix(self.codec(), empty_state(), ids@, at + 1);
                        }
                    }
                    return Err(GenerationError::Decode(e.message));
                },
            }
            at += 1;
            self.prompt_len = at;
        }
        proof {
            assert(ids@.take(at as int) =~= ids@);
        }
        Ok(())
    }

    /// Starts a request on a prompt that is tokenized already, and hands
    /// back what the decoder released for it: the prompt, mirrored.
    pub fn prime(&mut self, ids: &[u32], sample_len: usize) -> (r: Result<String, GenerationError>)
        ensures
            final(self).codec() == old(self).codec(),
            final(self).same_parts(old(self)),
            final(self)@.same_setup(old(self)@),
            final(self)@.halted is None,
            final(self)@.generated == 0,
            final(self)@.budget == sample_len,
            final(self)@.prompt_len == final(self)@.stream.tokens.len(),
            match r {
                Ok(text) => {
                    &&& final(self)@.stream.tokens == ids@
                    &&& fed_all(final(self).codec(), empty_state(), ids@) == Some(
                        (final(self)@.stream, text@),
                    )
                },
                Err(GenerationError::Decode(_)) => {
                    &&& fed_all(final(self).codec(), empty_state(), ids@) is None
                    &&& final(self)@.stream.tokens.len() <= ids@.len()
                    &&& final(self)@.stream.tokens == ids@.take(
                        final(self)@.stream.tokens.len() as int,
                    )
                    &&& fed_all(final(self).codec(), empty_state(), final(self)@.stream.tokens)
                        is None
                    &&& fed_all(
                        final(self).codec(),
                        empty_state(),
                        final(self)@.stream.tokens.drop_last(),
                    ) is Some
                },
                Err(_) => false,
            },
    {
        let mut text = String::new();
        match self.prime_into(ids, sample_len, &mut text) {
            Ok(_) => {
                proof {
                    let released = released_so_far(self.codec(), self@.stream.tokens);
                    assert(text@ =~= released);
                }
                Ok(text)
            },
            Err(e) => Err(e),
        }
    }

    /// Starts a request: has the prompt tokenized and primes the decoder
    /// with its tokens, appending to `text` what the decoder releases.
    /// `tokenize` turns a text into ids with the session's tokenizer; the
    /// tokens are those that it gives, whichever they are.
    pub fn begin_into<E>(
        &mut self,
        prompt: &str,
        sample_len: usize,
        tokenize: &E,
        text: &mut String,
    ) -> (r: Result<(), GenerationError>) where E: Fn(&Tokenizer, &str) -> Result<Vec<u32>, String>
        requires
            forall|tokenizer: &Tokenizer, prompt: &str|
                call_requires(tokenize, (tokenizer, prompt)),
        ensures
            final(self).codec() == old(self).codec(),
            final(self).same_parts(old(self)),
            final(self)@.same_setup(old(self)@),
            final(self)@.halted is None,
            final(self)@.generated == 0,
            final(self)@.budget == sample_len,
            final(self)@.prompt_len == final(self)@.stream.tokens.len(),
            final(text)@ == old(text)@ + released_so_far(
                final(self).codec(),
                final(self)@.stream.tokens,
            ),
            match r {
                Ok(_) => fed_all(final(self).codec(), empty_state(), final(self)@.stream.tokens)
                    == Some(
                    (
                        final(self)@.stream,
                        released_so_far(final(self).codec(), final(self)@.stream.tokens),
                    ),
                ),
                Err(GenerationError::Tokenize(_)) => final(self)@.stream == empty_state(),
                Err(GenerationError::Decode(_)) => fed_all(
                    final(self).codec(),
                    empty_state(),
                    final(self)@.stream.tokens,
                ) is None,
                Err(_) => false,
            },
    {
        match tokenize(self.tokenizer.tokenizer(), prompt) {
            Ok(ids) => self.prime_into(ids.as_slice(), sample_len, text),
            Err(message) => {
                self.tokenizer.clear();
                self.halted = None;
                self.generated = 0;
                self.budget = sample_len;
                self.prompt_len = 0;
                proof {
                    assert(text@ =~= old(text)@ + Seq::<char>::empty());
                }
                Err(GenerationError::Tokenize(message))
            },
        }
    }

    /// Starts a request and hands back what the decoder released for the
    /// prompt: the prompt, mirrored.
    pub fn begin<E>(&mut self, prompt: &str, sample_len: usize, tokenize: &E) -> (r: Result<
        String,
        GenerationError,
    >) where E: Fn(&Tokenizer, &str) -> Result<Vec<u32>, String>
        requires
            forall|tokenizer: &Tokenizer, prompt: &str|
                call_requires(tokenize, (tokenizer, prompt)),
        ensures
            final(self).codec() == old(self).codec(),
            final(self).same_parts(old(self)),
            final(self)@.same_setup(old(self)@),
            final(self)@.halted is None,
            final(self)@.generated == 0,
            final(self)@.budget == sample_len,
            final(self)@.prompt_len == final(self)@.stream.tokens.len(),
            match r {
                Ok(text) => fed_all(final(self).codec(), empty_state(), final(self)@.stream.tokens)
                    == Some((final(self)@.stream, text@)),
                Err(GenerationError::Tokenize(_)) => final(self)@.stream == empty_state(),
                Err(GenerationError::Decode(_)) => fed_all(
                    final(self).codec(),
                    empty_state(),
                    final(self)@.stream.tokens,
                ) is None,
                Err(_) => false,
            },
    {
        let mut text = String::new();
        match self.begin_into(prompt, sample_len, tokenize, &mut text) {
            Ok(_) => {
                proof {
                    let released = released_so_far(self.codec(), self@.stream.tokens);
                    assert(text@ =~= released);
                }
                Ok(text)
            },
            Err(e) => Err(e),
        }
    }

    /// Takes a sampled token into the request. Nothing is done where the
    /// request has ended. A stop id ends the request and stays out of the
    /// decoder; any other id is fed to the decoder, and what the decoder
    /// releases comes back with it.
    pub fn accept(&mut self, id: u32) -> (r: Result<Step, GenerationError>)
        ensures
            final(self).codec() == old(self).codec(),
            final(self).same_parts(old(self)),
            match r {
                Ok(Step::Finished) => old(self)@.ended() && final(self)@ == old(self)@,
                Ok(Step::Stopped { id: stop }) => {
                    &&& !old(self)@.ended()
                    &&& stop == id
                    &&& old(self)@.stop.stops(id)
                    &&& final(self)@ == Session {
                        halted: Some(id),
                        generated: old(self)@.generated + 1,
                        ..old(self)@
                    }
                },
                Ok(Step::Token { id: token, chunk }) => {
                    &&& !old(self)@.ended()
                    &&& token == id
                    &&& !old(self)@.stop.stops(id)
                    &&& fed(old(self).codec(), old(self)@.stream, id) == Some(
                        (final(self)@.stream, fragment(chunk)),
                    )
                    &&& final(self)@ == Session {
                        stream: final(self)@.stream,
                        generated: old(self)@.generated + 1,
                        ..old(self)@
                    }
                },
                Err(GenerationError::Decode(_)) => {
                    &&& !old(self)@.ended()
                    &&& !old(self)@.stop.stops(id)
                    &&& fed(old(self).codec(), old(self)@.stream, id) is None
                    &&& final(self)@ == Session {
                        stream: StreamState {
                            tokens: old(self)@.stream.tokens.push(id),
                            watermark: old(self)@.stream.watermark,
                        },
                        generated: old(self)@.generated + 1,
                        ..old(self)@
                    }
                },
                Err(_) => false,
            },
    {
        if self.halted.is_some() || self.generated >= self.budget {
            return Ok(Step::Finished);
        }
        self.generated = self.generated + 1;
        if self.stop.is_stop(id) {
            self.halted = Some(id);
            return Ok(Step::Stopped { id });
        }
        match self.tokenizer.next_token(id) {
            Ok(chunk) => Ok(Step::Token { id, chunk }),
            Err(e) => Err(GenerationError::Decode(e.message)),
        }
    }

    /// Ends a request: the text that the decoder decoded and did not release.
    pub fn finish(&self) -> (r: Result<Option<String>, GenerationError>)
        ensures
            match r {
                Ok(rest) => held_back(self.codec(), self@.stream) == Some(fragment(rest)),
                Err(GenerationError::Decode(_)) => held_back(self.codec(), self@.stream) is None,
                Err(_) => false,
            },
    {
        match self.tokenizer.decode_rest() {
            Ok(rest) => Ok(rest),
            Err(e) => Err(GenerationError::Decode(e.message)),
        }
    }
}

/// Applies the repetition penalty to the scores of a step. At the strength
/// 1.0 the scores come back as they are, untouched and unread. At any other
/// strength `penalize` is handed the scores, the strength and the positions
/// that `penalty_targets` names, each once, and what it gives comes back.
pub fn penalized<F>(
    logits: Tensor,
    strength_bits: u32,
    last_n: usize,
    tokens: &[u32],
    vocabulary: usize,
    penalize: &F,
) -> (r: Result<Tensor, candle_core::Error>) where
    F: Fn(Tensor, u32, &Vec<usize>) -> Result<Tensor, candle_core::Error>,

    requires
        forall|logits: Tensor, bits: u32, targets: &Vec<usize>|
            call_requires(penalize, (logits, bits, targets)),
    ensures
        strength_bits == IDENTITY_PENALTY ==> r == Ok::<Tensor, candle_core::Error>(logits),
        strength_bits != IDENTITY_PENALTY ==> exists|targets: &Vec<usize>|
            targets@ == penalty_targets(strength_bits, last_n as nat, tokens@, vocabulary as nat)
                && call_ensures(penalize, (logits, strength_bits, targets), r),
{
    if strength_bits == IDENTITY_PENALTY {
        Ok(logits)
    } else {
        let targets = plan_penalty(strength_bits, last_n, tokens, vocabulary);
        penalize(logits, strength_bits, &targets)
    }
}

impl Session {
    /// Whether the next step reaches the model: the request has not ended,
    /// and the sequence holds a token and is not too long.
    pub open spec fn reaches_model(&self) -> bool {
        &&& !self.ended()
        &&& self.stream.tokens.len() > 0
        &&& self.stream.tokens.len() + MAX_WINDOW <= usize::MAX
    }

    /// Where the window of the next step starts. The window runs from there
    /// to the end of the sequence, and the model is handed it at that
    /// position.
    pub open spec fn next_start(&self) -> nat {
        window_start(self.family, self.generated, self.stream.tokens.len())
    }
}

impl TextGeneration {
    /// Takes one step of the request: a forward pass over the window that the
    /// family's strategy asks for, the repetition penalty over the scores of
    /// the last position, a draw from the sampler. A stop token ends the
    /// request and is not decoded; any other token is fed to the decoder.
    ///
    /// `penalize` rewrites the scores at the positions it is given, for the
    /// strength it is given as bits; it is not called at the strength 1.0.
    pub fn step<F>(&mut self, penalize: &F) -> (r: Result<Step, GenerationError>) where
        F: Fn(Tensor, u32, &Vec<usize>) -> Result<Tensor, candle_core::Error>,

        requires
            forall|logits: Tensor, bits: u32, targets: &Vec<usize>|
                call_requires(penalize, (logits, bits, targets)),
        ensures
            final(self).codec() == old(self).codec(),
            final(self).device() == old(self).device(),
            final(self)@.same_setup(old(self)@),
            final(self)@.budget == old(self)@.budget,
            final(self)@.prompt_len == old(self)@.prompt_len,
            old(self)@.ended() <==> r matches Ok(Step::Finished),
            !old(self)@.ended() && old(self)@.stream.tokens.len() == 0 <==> r matches Err(
                GenerationError::EmptyContext,
            ),
            !old(self)@.ended() && old(self)@.stream.tokens.len() + MAX_WINDOW > usize::MAX
                <==> r matches Err(GenerationError::TooLong),
            !old(self)@.reaches_model() ==> final(self).same_parts(old(self)),
            old(self)@.reaches_model() ==> final(self).loaded().handed() == (
                old(self)@.next_start() as usize,
                (old(self)@.stream.tokens.len() - old(self)@.next_start()) as usize,
            ),
            match r {
                Ok(Step::Finished) => final(self)@ == old(self)@,
                Ok(Step::Stopped { id }) => {
                    &&& old(self)@.stop.stops(id)
                    &&& final(self)@.stream == old(self)@.stream
                    &&& final(self)@.halted == Some(id)
                    &&& final(self)@.generated == old(self)@.generated + 1
                },
                Ok(Step::Token { id, chunk }) => {
                    &&& !old(self)@.stop.stops(id)
                    &&& fed(old(self).codec(), old(self)@.stream, id) == Some(
                        (final(self)@.stream, fragment(chunk)),
                    )
                    &&& final(self)@.halted is None
                    &&& final(self)@.generated == old(self)@.generated + 1
                },
                Err(GenerationError::Decode(_)) => {
                    &&& final(self)@.stream.tokens.len() == old(self)@.stream.tokens.len() + 1
                    &&& final(self)@.stream.tokens.drop_last() == old(self)@.stream.tokens
                    &&& !old(self)@.stop.stops(final(self)@.stream.tokens.last())
                    &&& fed(old(self).codec(), old(self)@.stream, final(self)@.stream.tokens.last())
                        is None
                    &&& final(self)@.halted is None
                    &&& final(self)@.generated == old(self)@.generated + 1
                },
                Err(GenerationError::Tokenize(_)) => false,
                Err(_) => final(self)@ == old(self)@,
            },
    {
        if self.halted.is_some() || self.generated >= self.budget {
            return Ok(Step::Finished);
        }
        let len = self.tokenizer.len();
        if len == 0 {
            return Err(GenerationError::EmptyContext);
        }
        if len > usize::MAX - MAX_WINDOW {
            return Err(GenerationError::TooLong);
        }
        let start = plan_window(self.model.family(), self.generated, len);
        let raw = {
            let window = slice_subrange(self.tokenizer.ids(), start, len);
            match self.model.forward(window, start, &self.device) {
                Ok(raw) => raw,
                Err(ForwardError::Empty) => {
                    return Err(GenerationError::EmptyContext);
                },
                Err(ForwardError::TooLong) => {
                    return Err(GenerationError::TooLong);
                },
                Err(ForwardError::Compute(e)) => {
                    return Err(GenerationError::Compute(e));
                },
            }
        };
        let logits = match final_logits(&raw) {
            Ok(logits) => logits,
            Err(e) => {
                return Err(GenerationError::Compute(e));
            },
        };
        let vocabulary = logit_count(&logits);
        let logits = match penalized(
            logits,
            self.repeat_penalty_bits,
            self.repeat_last_n,
            self.tokenizer.ids(),
            vocabulary,
            penalize,
        ) {
            Ok(logits) => logits,
            Err(e) => {
                return Err(GenerationError::Compute(e));
            },
        };
        if !can_sample(&logits) {
            return Err(GenerationError::NoScores);
        }
        let next = match sample(&mut self.logits_processor, &logits) {
            Ok(next) => next,
            Err(e) => {
                return Err(GenerationError::Compute(e));
            },
        };
        proof {
            assert(old(self)@.stream.tokens.push(next).drop_last() =~= old(self)@.stream.tokens);
        }
        self.accept(next)
    }
}

/// What the decoder has released for the tokens of a request so far. Where
/// the last token is the one that could not be decoded, it is what was
/// released before that token.
pub open spec fn released_so_far(tokenizer: Tokenizer, tokens: Seq<u32>) -> Seq<char> {
    match fed_all(tokenizer, empty_state(), tokens) {
        Some((_, released)) => released,
        None => released_by(tokenizer, empty_state(), tokens.drop_last()),
    }
}

impl TextGeneration {
    /// Runs a whole request and appends its text to `output` as UTF-8: the
    /// prompt as the decoder mirrors it, then the fragment of each sampled
    /// token, then what the decoder held back. At most `sample_len` tokens
    /// are sampled, and a stop token ends the request without being decoded.
    /// A failure ends the request with the error; what the decoder had
    /// released by then was written and stays.
    ///
    /// `tokenize` turns the prompt into ids with the session's tokenizer, and
    /// `penalize` rewrites the scores of the repetition penalty.
    pub fn run_with_output<E, F>(
        &mut self,
        prompt: &str,
        sample_len: usize,
        output: &mut Vec<u8>,
        tokenize: &E,
        penalize: &F,
    ) -> (r: Result<(), GenerationError>) where
        E: Fn(&Tokenizer, &str) -> Result<Vec<u32>, String>,
        F: Fn(Tensor, u32, &Vec<usize>) -> Result<Tensor, candle_core::Error>,

        requires
            forall|tokenizer: &Tokenizer, prompt: &str|
                call_requires(tokenize, (tokenizer, prompt)),
            forall|logits: Tensor, bits: u32, targets: &Vec<usize>|
                call_requires(penalize, (logits, bits, targets)),
        ensures
            final(self).codec() == old(self).codec(),
            final(self).device() == old(self).device(),
            final(self)@.same_setup(old(self)@),
            final(self)@.budget == sample_len,
            final(self)@.generated <= sample_len,
            final(self)@.silent_on_stop(),
            old(output)@.is_prefix_of(final(output)@),
            sample_len == 0 ==> final(self).same_parts(old(self)) && (r is Ok || (
            r matches Err(GenerationError::Tokenize(_))) || (r matches Err(
                GenerationError::Decode(_),
            ))),
            r is Err ==> final(output)@ == old(output)@ + vstd::utf8::encode_utf8(
                released_so_far(final(self).codec(), final(self)@.stream.tokens),
            ),
            match r {
                Ok(_) => {
                    &&& final(self)@.ended()
                    &&& completed_text(final(self).codec(), final(self)@.stream) matches Some(text)
                        && final(output)@ == old(output)@ + vstd::utf8::encode_utf8(text)
                },
                Err(GenerationError::Tokenize(_)) => {
                    &&& final(self)@.stream == empty_state()
                    &&& final(output)@ == old(output)@
                },
                Err(GenerationError::EmptyContext) => {
                    &&& final(self)@.stream.tokens.len() == 0
                    &&& sample_len > 0
                    &&& final(output)@ == old(output)@
                },
                Err(GenerationError::Decode(_)) => completed_text(
                    final(self).codec(),
                    final(self)@.stream,
                ) is None,
                Err(GenerationError::TooLong) => {
                    &&& !final(self)@.ended()
                    &&& final(self)@.stream.tokens.len() + MAX_WINDOW > usize::MAX
                },
                Err(GenerationError::Compute(_)) => !final(self)@.ended(),
                Err(GenerationError::NoScores) => !final(self)@.ended(),
            },
    {
        let mut primed = String::new();
        let begun = self.begin_into(prompt, sample_len, tokenize, &mut primed);
        append_text(output, primed.as_str());
        let ghost mut written = primed@;
        proof {
            assert(primed@ =~= released_so_far(self.codec(), self@.stream.tokens));
            assert(fed_all(self.codec(), empty_state(), Seq::<u32>::empty()) == Some(
                (empty_state(), Seq::<char>::empty()),
            ));
            assert(vstd::utf8::encode_utf8(Seq::<char>::empty()) =~= Seq::<u8>::empty());
        }
        match begun {
            Ok(_) => {},
            Err(e) => {
                return Err(e);
            },
        }
        while !self.is_finished()
            invariant
                forall|logits: Tensor, bits: u32, targets: &Vec<usize>|
                    call_requires(penalize, (logits, bits, targets)),
                self.codec() == old(self).codec(),
                self.device() == old(self).device(),
                sample_len == 0 ==> self.same_parts(old(self)),
                self@.same_setup(old(self)@),
                self@.budget == sample_len,
                self@.generated <= sample_len,
                self@.silent_on_stop(),
                fed_all(self.codec(), empty_state(), self@.stream.tokens) == Some(
                    (self@.stream, written),
                ),
                output@ == old(output)@ + vstd::utf8::encode_utf8(written),
            decreases sample_len - self@.generated,
        {
            let ghost before = self@.stream;
            match self.step(penalize) {
                Ok(Step::Token { id, chunk }) => {
                    proof {
                        fed_all_push(self.codec(), empty_state(), before.tokens, id);
                    }
                    match chunk {
                        Some(piece) => {
                            append_text(output, piece.as_str());
                            proof {
                                utf8_of_joined(written, piece@);
                                assert(output@ =~= old(output)@ + vstd::utf8::encode_utf8(
                                    written + piece@,
                                ));
                                written = written + piece@;
                            }
                        },
                        None => {
                            assert(written + text_of(None) =~= written);
                        },
                    }
                },
                Ok(_) => {},
                Err(e) => {
                    proof {
                        if e is Decode {
                            let id = self@.stream.tokens.last();
                            assert(self@.stream.tokens =~= before.tokens.push(id));
                            fed_all_push(self.codec(), empty_state(), before.tokens, id);
                            assert(self@.stream.tokens.drop_last() =~= before.tokens);
                        }
                        assert(old(output)@.is_prefix_of(output@));
                    }
                    return Err(e);
                },
            }
        }
        match self.finish() {
            Ok(rest) => {
                match rest {
                    Some(piece) => {
                        append_text(output, piece.as_str());
                        proof {
                            utf8_of_joined(written, piece@);
                            assert(output@ =~= old(output)@ + vstd::utf8::encode_utf8(
                                written + piece@,
                            ));
                        }
                    },
                    None => {
                        assert(written + text_of(None) =~= written);
                    },
                }
                Ok(())
            },
            Err(e) => Err(e),
        }
    }
}

/// A request that takes no step ends with its prompt in the decoder and
/// nothing else: no token was sampled, and none stopped it.
pub proof fn no_steps_leave_the_prompt(session: Session)
    requires
        session.silent_on_stop(),
        session.generated == 0,
    ensures
        session.halted is None,
        session.stream.tokens.len() == session.prompt_len,
        session.tokens() == session.stream.tokens,
{
}

/// The text of a request that ran to its end is what its sequence decodes to
/// in one call, where the decoder released each fragment in place.
pub proof fn completed_text_is_the_decoding(tokenizer: Tokenizer, stream: StreamState)
    requires
        completed_text(tokenizer, stream) is Some,
        decoded_text(tokenizer, stream.tokens) matches Some(whole) && forall|at: int|
            0 <= at < stream.tokens.len() ==> #[trigger] released_in_place(
                tokenizer,
                stream.tokens,
                whole,
                at,
            ),
    ensures
        completed_text(tokenizer, stream) == decoded_text(tokenizer, stream.tokens),
{
    decode_diff_equivalence(tokenizer, stream.tokens);
}

} // verus!
