//! The incremental decoder: token ids in, text fragments out.
//!
//! Decoding one token at a time corrupts sub-word merges and characters whose
//! bytes are spread over several tokens. The stream therefore decodes the whole
//! sequence again for every token and releases only what is new, and only when
//! the text does not end inside a character.

pub use crate::tokenizer_check::LoadError;
use crate::tokenizer_check::{check_tokenizer, decodes_safely};
use tokenizers::Tokenizer;
use vstd::prelude::*;

verus! {

/// `tokenizers::Tokenizer`, read only through the two names below.
#[verifier::external_type_specification]
#[verifier::external_body]
pub struct ExTokenizer(Tokenizer);

/// What a tokenizer decodes with its special tokens left out: each sequence
/// of ids that its decoder accepts, with the text that the sequence decodes
/// to.
pub uninterp spec fn decodings(tokenizer: Tokenizer) -> Map<Seq<u32>, Seq<char>>;

/// What a tokenizer's vocabulary holds, added tokens included: each token
/// with its id.
pub uninterp spec fn vocabulary(tokenizer: Tokenizer) -> Map<Seq<char>, u32>;

/// The text that a tokenizer decodes `ids` to, or `None` where its decoder
/// rejects them.
pub open spec fn decoded_text(tokenizer: Tokenizer, ids: Seq<u32>) -> Option<Seq<char>> {
    if decodings(tokenizer).contains_key(ids) {
        Some(decodings(tokenizer)[ids])
    } else {
        None
    }
}

/// The id of `token` in a tokenizer's vocabulary, or `None` where the
/// vocabulary holds no such token.
pub open spec fn vocabulary_id(tokenizer: Tokenizer, token: Seq<char>) -> Option<u32> {
    if vocabulary(tokenizer).contains_key(token) {
        Some(vocabulary(tokenizer)[token])
    } else {
        None
    }
}

/// Calls `Tokenizer::decode` with `skip_special_tokens` set. The call reads
/// the tokenizer and the ids and nothing else, so its result is what
/// `decodings` holds for the ids; a failure comes back as the tokenizer's
/// message. A decoder that strips, or that takes the last of its tokens
/// apart from the others, is left out: the one reaches beyond a token that
/// is empty or all stripped, the other counts down from no token.
#[verifier::external_body]
fn decode_ids(tokenizer: &Tokenizer, ids: &[u32]) -> (r: Result<String, String>)
    requires
        decodes_safely(*tokenizer),
    ensures
        match r {
            Ok(text) => decodings(*tokenizer).contains_key(ids@) && decodings(*tokenizer)[ids@]
                == text@,
            Err(_) => !decodings(*tokenizer).contains_key(ids@),
        },
{
    match tokenizer.decode(ids, true) {
        Ok(text) => Ok(text),
        Err(err) => Err(err.to_string()),
    }
}

/// Calls `Tokenizer::token_to_id`, which looks the token up among the added
/// tokens and then in the model's vocabulary: what `vocabulary` holds for
/// the token.
#[verifier::external_body]
fn lookup_token(tokenizer: &Tokenizer, token: &str) -> (id: Option<u32>)
    ensures
        match id {
            Some(id) => vocabulary(*tokenizer).contains_key(token@) && vocabulary(
                *tokenizer,
            )[token@] == id,
            None => !vocabulary(*tokenizer).contains_key(token@),
        },
{
    tokenizer.token_to_id(token)
}

/// The tokenizer could not decode the ids it was given.
#[derive(Debug)]
pub struct StreamError {
    pub message: String,
}

/// What a stream holds besides its tokenizer.
pub ghost struct StreamState {
    /// The ids fed since the stream was last cleared.
    pub tokens: Seq<u32>,
    /// How many characters of the decoded text have been released.
    pub watermark: nat,
}

/// A stream that was just made or cleared.
pub open spec fn empty_state() -> StreamState {
    StreamState { tokens: Seq::empty(), watermark: 0 }
}

/// The character that the tokenizer puts where the bytes of a character are
/// not complete yet.
pub open spec fn replacement() -> char {
    '\u{FFFD}'
}

/// Whether `text` ends inside a character.
pub open spec fn ends_mid_character(text: Seq<char>) -> bool {
    text.len() > 0 && text.last() == replacement()
}

/// Whether a stream that has released `watermark` characters releases more
/// once the whole sequence decodes to `text`.
pub open spec fn releases(text: Seq<char>, watermark: nat) -> bool {
    text.len() > watermark && !ends_mid_character(text)
}

/// What follows the first `watermark` characters of `text`.
pub open spec fn beyond(text: Seq<char>, watermark: nat) -> Seq<char>
    recommends
        watermark <= text.len(),
{
    text.subrange(watermark as int, text.len() as int)
}

/// The characters of an optional fragment.
pub open spec fn fragment(chunk: Option<String>) -> Option<Seq<char>> {
    match chunk {
        Some(text) => Some(text@),
        None => None,
    }
}

/// The state after `id` is fed and the fragment that is released, or `None`
/// where the sequence with `id` at its end does not decode.
pub open spec fn fed(tokenizer: Tokenizer, state: StreamState, id: u32) -> Option<
    (StreamState, Option<Seq<char>>),
> {
    let tokens = state.tokens.push(id);
    match decoded_text(tokenizer, tokens) {
        None => None,
        Some(text) => if releases(text, state.watermark) {
            Some(
                (
                    StreamState { tokens, watermark: text.len() },
                    Some(beyond(text, state.watermark)),
                ),
            )
        } else {
            Some((StreamState { tokens, watermark: state.watermark }, None))
        },
    }
}

/// The text that is still held back in `state`: what the decoded sequence
/// has beyond the watermark.
pub open spec fn held_back(tokenizer: Tokenizer, state: StreamState) -> Option<Option<Seq<char>>> {
    match decoded_text(tokenizer, state.tokens) {
        None => None,
        Some(text) => if text.len() > state.watermark {
            Some(Some(beyond(text, state.watermark)))
        } else {
            Some(None)
        },
    }
}

/// The characters of a fragment, none where nothing was released.
pub open spec fn text_of(chunk: Option<Seq<char>>) -> Seq<char> {
    match chunk {
        Some(text) => text,
        None => Seq::empty(),
    }
}

/// The state after `ids` are fed one by one to a stream in state `start`, and
/// the fragments released on the way, joined in order; `None` where one of
/// the steps does not decode.
pub open spec fn fed_all(tokenizer: Tokenizer, start: StreamState, ids: Seq<u32>) -> Option<
    (StreamState, Seq<char>),
>
    decreases ids.len(),
{
    if ids.len() == 0 {
        Some((start, Seq::empty()))
    } else {
        match fed_all(tokenizer, start, ids.drop_last()) {
            None => None,
            Some((middle, released)) => match fed(tokenizer, middle, ids.last()) {
                None => None,
                Some((end, chunk)) => Some((end, released + text_of(chunk))),
            },
        }
    }
}

/// What a stream in state `start` releases while `ids` are fed to it; nothing
/// where one of the steps does not decode.
pub open spec fn released_by(tokenizer: Tokenizer, start: StreamState, ids: Seq<u32>) -> Seq<char> {
    match fed_all(tokenizer, start, ids) {
        Some((_, released)) => released,
        None => Seq::empty(),
    }
}

/// Whether the fragment released for the id at `at`, if there is one, stands
/// in `whole` at the place of the watermark that it was released at.
pub open spec fn released_in_place(
    tokenizer: Tokenizer,
    ids: Seq<u32>,
    whole: Seq<char>,
    at: int,
) -> bool {
    match fed_all(tokenizer, empty_state(), ids.take(at)) {
        Some((before, _)) => match fed(tokenizer, before, ids[at]) {
            Some((after, Some(chunk))) => {
                &&& after.watermark <= whole.len()
                &&& chunk == whole.subrange(before.watermark as int, after.watermark as int)
            },
            _ => true,
        },
        None => true,
    }
}

/// Whether every prefix of `ids` whose text does not end inside a character
/// decodes to a prefix of the text of all of `ids`.
pub open spec fn prefix_monotone(tokenizer: Tokenizer, ids: Seq<u32>) -> bool {
    forall|k: int|
        0 < k <= ids.len() ==> match (
            #[trigger] decoded_text(tokenizer, ids.take(k)),
            decoded_text(tokenizer, ids),
        ) {
            (Some(part), Some(whole)) => !ends_mid_character(part) ==> part.is_prefix_of(whole),
            _ => true,
        }
}

/// Feeding one more id continues from where the ids before it ended.
pub proof fn fed_all_push(tokenizer: Tokenizer, start: StreamState, ids: Seq<u32>, id: u32)
    ensures
        fed_all(tokenizer, start, ids.push(id)) == (match fed_all(tokenizer, start, ids) {
            None => None,
            Some((middle, released)) => match fed(tokenizer, middle, id) {
                None => None,
                Some((end, chunk)) => Some((end, released + text_of(chunk))),
            },
        }),
{
    assert(ids.push(id).drop_last() =~= ids);
    assert(ids.push(id).last() == id);
}

/// Where all of `ids` can be fed, so can each prefix. The stream then holds
/// that prefix behind what it started with, its watermark has moved by the
/// length of what it has released, and what it has released is the start of
/// what it releases for all of `ids`.
pub proof fn fed_all_prefix(tokenizer: Tokenizer, start: StreamState, ids: Seq<u32>, k: int)
    requires
        0 <= k <= ids.len(),
        fed_all(tokenizer, start, ids) is Some,
    ensures
        fed_all(tokenizer, start, ids.take(k)) matches Some((state, released)) && {
            &&& state.tokens == start.tokens + ids.take(k)
            &&& state.watermark == start.watermark + released.len()
            &&& released.is_prefix_of(released_by(tokenizer, start, ids))
        },
    decreases ids.len(),
{
    if ids.len() == 0 {
        assert(ids.take(k) =~= ids);
        assert(start.tokens + ids.take(k) =~= start.tokens);
    } else {
        fed_all_prefix(tokenizer, start, ids.drop_last(), ids.len() - 1);
        assert(ids.drop_last().take(ids.len() - 1) =~= ids.drop_last());
        let (middle, before) = fed_all(tokenizer, start, ids.drop_last())->0;
        let (end, chunk) = fed(tokenizer, middle, ids.last())->0;
        let released = before + text_of(chunk);
        assert(before.is_prefix_of(released));
        if k == ids.len() {
            assert(ids.take(k) =~= ids);
            assert(middle.tokens.push(ids.last()) =~= start.tokens + ids);
            assert(released.is_prefix_of(released));
        } else {
            fed_all_prefix(tokenizer, start, ids.drop_last(), k);
            assert(ids.drop_last().take(k) =~= ids.take(k));
            let part = released_by(tokenizer, start, ids.take(k));
            assert(part.is_prefix_of(before));
            assert(part.is_prefix_of(released));
        }
    }
}

/// What a stream has released is a prefix of `whole` as long as its
/// watermark, where every fragment was released in place.
proof fn released_is_prefix(tokenizer: Tokenizer, ids: Seq<u32>, whole: Seq<char>, k: int)
    requires
        0 <= k <= ids.len(),
        fed_all(tokenizer, empty_state(), ids) is Some,
        forall|at: int|
            0 <= at < ids.len() ==> #[trigger] released_in_place(tokenizer, ids, whole, at),
    ensures
        fed_all(tokenizer, empty_state(), ids.take(k)) matches Some((state, released)) && {
            &&& state.watermark <= whole.len()
            &&& released == whole.subrange(0, state.watermark as int)
        },
    decreases k,
{
    fed_all_prefix(tokenizer, empty_state(), ids, k);
    if k == 0 {
        assert(ids.take(0) =~= Seq::<u32>::empty());
        assert(whole.subrange(0, 0) =~= Seq::<char>::empty());
    } else {
        released_is_prefix(tokenizer, ids, whole, k - 1);
        fed_all_prefix(tokenizer, empty_state(), ids, k - 1);
        assert(ids.take(k).drop_last() =~= ids.take(k - 1));
        assert(ids.take(k).last() == ids[k - 1]);
        assert(released_in_place(tokenizer, ids, whole, k - 1));
        let (before, released) = fed_all(tokenizer, empty_state(), ids.take(k - 1))->0;
        let (after, chunk) = fed(tokenizer, before, ids[k - 1])->0;
        match chunk {
            Some(text) => {
                assert(released + text =~= whole.subrange(0, after.watermark as int));
            },
            None => {
                assert(released + text_of(chunk) =~= released);
            },
        }
    }
}

/// Decode-diff equivalence. Feed a sequence of ids to a fresh stream, join
/// what it releases, and add what it still holds back at the end: the result
/// is what the sequence decodes to in one call, on the sequences whose
/// fragments are each released in place. On every other sequence the two
/// differ: see `decode_diff_only_in_place`.
pub proof fn decode_diff_equivalence(tokenizer: Tokenizer, ids: Seq<u32>)
    requires
        fed_all(tokenizer, empty_state(), ids) is Some,
        decoded_text(tokenizer, ids) matches Some(whole) && forall|at: int|
            0 <= at < ids.len() ==> #[trigger] released_in_place(tokenizer, ids, whole, at),
    ensures
        ({
            let (end, released) = fed_all(tokenizer, empty_state(), ids)->0;
            held_back(tokenizer, end) matches Some(rest) && Some(released + text_of(rest))
                == decoded_text(tokenizer, ids)
        }),
{
    let whole = decoded_text(tokenizer, ids)->0;
    released_is_prefix(tokenizer, ids, whole, ids.len() as int);
    fed_all_prefix(tokenizer, empty_state(), ids, ids.len() as int);
    assert(ids.take(ids.len() as int) =~= ids);
    let (end, released) = fed_all(tokenizer, empty_state(), ids)->0;
    assert(end.tokens =~= ids);
    let rest = held_back(tokenizer, end)->0;
    assert(released + text_of(rest) =~= whole);
}

/// The other half of decode-diff equivalence: where what the stream releases
/// and then holds back is the text of the whole sequence, each fragment was
/// released in place.
pub proof fn decode_diff_only_in_place(tokenizer: Tokenizer, ids: Seq<u32>)
    requires
        fed_all(tokenizer, empty_state(), ids) matches Some((end, released)) && held_back(
            tokenizer,
            end,
        ) matches Some(rest) && Some(released + text_of(rest)) == decoded_text(tokenizer, ids),
    ensures
        decoded_text(tokenizer, ids) matches Some(whole) && forall|at: int|
            0 <= at < ids.len() ==> #[trigger] released_in_place(tokenizer, ids, whole, at),
{
    let whole = decoded_text(tokenizer, ids)->0;
    let (end, all) = fed_all(tokenizer, empty_state(), ids)->0;
    assert(all.is_prefix_of(whole)) by {
        let rest = held_back(tokenizer, end)->0;
        assert(all =~= (all + text_of(rest)).subrange(0, all.len() as int));
    }
    assert forall|at: int| 0 <= at < ids.len() implies #[trigger] released_in_place(
        tokenizer,
        ids,
        whole,
        at,
    ) by {
        fed_all_prefix(tokenizer, empty_state(), ids, at);
        fed_all_prefix(tokenizer, empty_state(), ids, at + 1);
        assert(ids.take(at + 1).drop_last() =~= ids.take(at));
        assert(ids.take(at + 1).last() == ids[at]);
        let (before, sofar) = fed_all(tokenizer, empty_state(), ids.take(at))->0;
        let (after, chunk) = fed(tokenizer, before, ids[at])->0;
        match chunk {
            Some(text) => {
                let longer = sofar + text;
                assert(longer.is_prefix_of(all));
                assert(longer =~= whole.subrange(0, longer.len() as int));
                assert(text =~= whole.subrange(
                    before.watermark as int,
                    after.watermark as int,
                ));
            },
            None => {},
        }
    }
}

/// Decode-diff equivalence holds of every sequence that the tokenizer
/// decodes prefix by prefix: what the stream releases and then holds back is
/// the text of the whole sequence.
pub proof fn decode_diff_equivalence_of_monotone(tokenizer: Tokenizer, ids: Seq<u32>)
    requires
        fed_all(tokenizer, empty_state(), ids) is Some,
        decoded_text(tokenizer, ids) is Some,
        prefix_monotone(tokenizer, ids),
    ensures
        ({
            let (end, released) = fed_all(tokenizer, empty_state(), ids)->0;
            held_back(tokenizer, end) matches Some(rest) && Some(released + text_of(rest))
                == decoded_text(tokenizer, ids)
        }),
{
    let whole = decoded_text(tokenizer, ids)->0;
    assert forall|at: int| 0 <= at < ids.len() implies #[trigger] released_in_place(
        tokenizer,
        ids,
        whole,
        at,
    ) by {
        fed_all_prefix(tokenizer, empty_state(), ids, at);
        let (before, _) = fed_all(tokenizer, empty_state(), ids.take(at))->0;
        assert(before.tokens.push(ids[at]) =~= ids.take(at + 1));
        match decoded_text(tokenizer, ids.take(at + 1)) {
            Some(part) => {
                if releases(part, before.watermark) {
                    assert(part.is_prefix_of(whole));
                    assert(beyond(part, before.watermark) =~= whole.subrange(
                        before.watermark as int,
                        part.len() as int,
                    ));
                }
            },
            None => {},
        }
    }
    decode_diff_equivalence(tokenizer, ids);
}

/// A tokenizer that was checked: every one that exists decodes safely.
struct Checked {
    tokenizer: Tokenizer,
}

impl Checked {
    #[verifier::type_invariant]
    spec fn checked(self) -> bool {
        decodes_safely(self.tokenizer)
    }

    /// The tokenizer, which was checked.
    fn get(&self) -> (tokenizer: &Tokenizer)
        ensures
            *tokenizer == self.tokenizer,
            decodes_safely(*tokenizer),
    {
        proof {
            use_type_invariant(self);
        }
        &self.tokenizer
    }

    /// Gives the tokenizer back.
    fn take(self) -> (tokenizer: Tokenizer)
        ensures
            tokenizer == self.tokenizer,
            decodes_safely(tokenizer),
    {
        proof {
            use_type_invariant(&self);
        }
        self.tokenizer
    }
}

/// Wraps a tokenizer so that text can be handed out token by token instead of
/// after the last one.
pub struct TokenOutputStream {
    tokenizer: Checked,
    tokens: Vec<u32>,
    watermark: usize,
}

impl View for TokenOutputStream {
    type V = StreamState;

    closed spec fn view(&self) -> StreamState {
        StreamState { tokens: self.tokens@, watermark: self.watermark as nat }
    }
}

impl TokenOutputStream {
    /// The tokenizer that the stream decodes with.
    pub closed spec fn codec(&self) -> Tokenizer {
        self.tokenizer.tokenizer
    }

    /// A stream over `tokenizer` that has been fed nothing. A tokenizer whose
    /// decoder cannot decode every sequence is refused.
    pub fn new(tokenizer: Tokenizer) -> (r: Result<Self, LoadError>)
        ensures
            match r {
                Ok(stream) => {
                    &&& decodes_safely(tokenizer)
                    &&& stream.codec() == tokenizer
                    &&& stream@ == empty_state()
                },
                Err(e) => e == LoadError::Decoder && !decodes_safely(tokenizer),
            },
    {
        match check_tokenizer(&tokenizer) {
            Ok(_) => Ok(Self { tokenizer: Checked { tokenizer }, tokens: Vec::new(), watermark: 0 }),
            Err(e) => Err(e),
        }
    }

    /// Gives the tokenizer back.
    pub fn into_inner(self) -> (tokenizer: Tokenizer)
        ensures
            tokenizer == self.codec(),
            decodes_safely(tokenizer),
    {
        self.tokenizer.take()
    }

    /// The tokenizer that the stream decodes with.
    pub fn tokenizer(&self) -> (tokenizer: &Tokenizer)
        ensures
            *tokenizer == self.codec(),
            decodes_safely(*tokenizer),
    {
        self.tokenizer.get()
    }

    /// How many ids have been fed since the stream was last cleared.
    pub fn len(&self) -> (n: usize)
        ensures
            n == self@.tokens.len(),
    {
        self.tokens.len()
    }

    /// The ids that have been fed since the stream was last cleared.
    pub fn ids(&self) -> (ids: &[u32])
        ensures
            ids@ == self@.tokens,
    {
        self.tokens.as_slice()
    }

    /// Forgets the ids and the watermark. Every request starts with this.
    pub fn clear(&mut self)
        ensures
            final(self)@ == empty_state(),
            final(self).codec() == old(self).codec(),
    {
        self.tokens.clear();
        self.watermark = 0;
    }

    /// Feeds one id. The whole sequence is decoded again; if the text has
    /// grown beyond the watermark and does not end inside a character, the new
    /// part is released and the watermark moves to the end of the text.
    /// Otherwise nothing is released, and the id waits for those that follow.
    pub fn next_token(&mut self, token: u32) -> (r: Result<Option<String>, StreamError>)
        ensures
            final(self).codec() == old(self).codec(),
            final(self)@.tokens == old(self)@.tokens.push(token),
            match r {
                Ok(chunk) => fed(old(self).codec(), old(self)@, token) == Some(
                    (final(self)@, fragment(chunk)),
                ),
                Err(_) => {
                    &&& fed(old(self).codec(), old(self)@, token) is None
                    &&& final(self)@.watermark == old(self)@.watermark
                },
            },
    {
        self.tokens.push(token);
        let text = match decode_ids(self.tokenizer.get(), self.tokens.as_slice()) {
            Ok(text) => text,
            Err(message) => {
                return Err(StreamError { message });
            },
        };
        let length = text.as_str().unicode_len();
        if length > self.watermark && text.as_str().get_char(length - 1) != '\u{FFFD}' {
            let chunk = text.as_str().substring_char(self.watermark, length).to_owned();
            self.watermark = length;
            Ok(Some(chunk))
        } else {
            Ok(None)
        }
    }

    /// The text that was decoded and not released: what the generation ends
    /// with. The stream stays as it is.
    pub fn decode_rest(&self) -> (r: Result<Option<String>, StreamError>)
        ensures
            match r {
                Ok(rest) => held_back(self.codec(), self@) == Some(fragment(rest)),
                Err(_) => held_back(self.codec(), self@) is None,
            },
    {
        let text = match decode_ids(self.tokenizer.get(), self.tokens.as_slice()) {
            Ok(text) => text,
            Err(message) => {
                return Err(StreamError { message });
            },
        };
        let length = text.as_str().unicode_len();
        if length > self.watermark {
            Ok(Some(text.as_str().substring_char(self.watermark, length).to_owned()))
        } else {
            Ok(None)
        }
    }

    /// The whole sequence decoded in one call.
    pub fn decode_all(&self) -> (r: Result<String, StreamError>)
        ensures
            match r {
                Ok(text) => decoded_text(self.codec(), self@.tokens) == Some(text@),
                Err(_) => decoded_text(self.codec(), self@.tokens) is None,
            },
    {
        match decode_ids(self.tokenizer.get(), self.tokens.as_slice()) {
            Ok(text) => Ok(text),
            Err(message) => Err(StreamError { message }),
        }
    }

    /// The id of a token of the vocabulary, if the vocabulary holds it.
    pub fn get_token(&self, token_s: &str) -> (id: Option<u32>)
        ensures
            id == vocabulary_id(self.codec(), token_s@),
    {
        lookup_token(self.tokenizer.get(), token_s)
    }
}

} // verus!
