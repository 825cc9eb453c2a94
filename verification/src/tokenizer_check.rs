//! The check that a tokenizer passes before the engine decodes with it.
//!
//! A tokenizer keeps a decoder that nobody has checked, and two kinds of
//! part make it panic: one that strips characters off the end of a token,
//! and one that takes the last token apart. The engine reads the decoder
//! and refuses the tokenizer that has one of them.

use tokenizers::Tokenizer;
use vstd::prelude::*;

verus! {

/// The decoder of a tokenizer, written as JSON without white space, each of
/// its parts tagged with its type; `None` where it cannot be written.
pub uninterp spec fn decoder_text(tokenizer: Tokenizer) -> Option<Seq<char>>;

/// The characters of an optional text.
pub open spec fn written(text: Option<String>) -> Option<Seq<char>> {
    match text {
        Some(text) => Some(text@),
        None => None,
    }
}

/// Calls `serde_json::to_string` on what `Tokenizer::get_decoder` gives: the
/// text that `decoder_text` names.
#[verifier::external_body]
fn decoder_json(tokenizer: &Tokenizer) -> (json: Option<String>)
    ensures
        written(json) == decoder_text(*tokenizer),
{
    serde_json::to_string(&tokenizer.get_decoder()).ok()
}

/// Whether `pattern` stands in `text` at the offset `at`.
pub open spec fn occurs_at(text: Seq<char>, pattern: Seq<char>, at: int) -> bool {
    &&& 0 <= at
    &&& at + pattern.len() <= text.len()
    &&& text.subrange(at, at + pattern.len()) == pattern
}

/// Whether `pattern` stands somewhere in `text`.
pub open spec fn occurs(text: Seq<char>, pattern: Seq<char>) -> bool {
    exists|at: int| occurs_at(text, pattern, at)
}

/// The tag of a part of a decoder that strips characters off the ends of a
/// token. Where it strips off the end, it reaches beyond a token that is
/// shorter than what it strips.
pub open spec fn strip_tag() -> Seq<char> {
    "\"type\":\"Strip\""@
}

/// How a part that strips writes how many characters it strips off the end
/// of a token, up to the number.
pub open spec fn stop_tag() -> Seq<char> {
    ",\"stop\":"@
}

/// How a part that strips writes that it strips nothing off the end of a
/// token. The number is the last thing that the part writes.
pub open spec fn no_stop_tag() -> Seq<char> {
    ",\"stop\":0}"@
}

/// The first offset from `from` on at which a part writes how many
/// characters it strips off the end, or the length of the text if there is
/// none.
pub open spec fn next_stop(text: Seq<char>, from: int) -> int
    decreases text.len() - from,
{
    if 0 <= from < text.len() && !occurs_at(text, stop_tag(), from) {
        next_stop(text, from + 1)
    } else {
        from
    }
}

/// Whether the part tagged at `at` strips nothing off the end of a token. A
/// part writes its tag, the one character it strips, how many it strips off
/// the start and how many off the end, in this order, so the first number
/// of the end behind a tag is the part's own.
pub open spec fn strips_no_end(text: Seq<char>, at: int) -> bool {
    occurs_at(text, no_stop_tag(), next_stop(text, at))
}

/// Whether every part of the decoder in `text` that strips does so off the
/// start of a token alone.
pub open spec fn strips_safely(text: Seq<char>) -> bool {
    forall|at: int| occurs_at(text, strip_tag(), at) ==> strips_no_end(text, at)
}

/// The tag of a part of a decoder that takes the last of its tokens apart
/// from the others. It counts down from the number of tokens, which may be
/// none.
pub open spec fn last_token_tag() -> Seq<char> {
    "\"type\":\"BPEDecoder\""@
}

/// Whether a tokenizer can decode every sequence: its decoder has no part
/// that strips off the end of a token and none that takes the last token
/// apart. Quotes inside a JSON string are escaped, so a tag stands in the
/// text only where a part bears it.
pub open spec fn decodes_safely(tokenizer: Tokenizer) -> bool {
    decoder_text(tokenizer) matches Some(text) && strips_safely(text) && !occurs(
        text,
        last_token_tag(),
    )
}

/// Why a tokenizer or a session could not be set up.
#[derive(Clone, Copy, Debug, PartialEq, Eq, Structural)]
pub enum LoadError {
    /// The vocabulary holds no end-of-sequence token.
    MissingEos,
    /// The decoder strips off the end of a token, takes the last token
    /// apart, or cannot be read.
    Decoder,
}

/// Whether `pattern` stands in `text` at `at`.
fn matches_at(text: &str, pattern: &str, at: usize, text_len: usize, pattern_len: usize) -> (found:
    bool)
    requires
        text_len == text@.len(),
        pattern_len == pattern@.len(),
        at + pattern_len <= text_len,
    ensures
        found == occurs_at(text@, pattern@, at as int),
{
    let mut k: usize = 0;
    while k < pattern_len
        invariant
            k <= pattern_len,
            text_len == text@.len(),
            pattern_len == pattern@.len(),
            at + pattern_len <= text_len,
            forall|j: int| 0 <= j < k ==> text@[at + j] == pattern@[j],
        decreases pattern_len - k,
    {
        if text.get_char(at + k) != pattern.get_char(k) {
            proof {
                let part = text@.subrange(at as int, at + pattern_len);
                assert(part[k as int] == text@[at + k]);
            }
            return false;
        }
        k += 1;
    }
    proof {
        assert(text@.subrange(at as int, at + pattern_len) =~= pattern@);
    }
    true
}

/// Whether `pattern` stands somewhere in `text`.
pub fn contains(text: &str, pattern: &str) -> (found: bool)
    ensures
        found == occurs(text@, pattern@),
{
    let text_len = text.unicode_len();
    let pattern_len = pattern.unicode_len();
    if pattern_len > text_len {
        return false;
    }
    let span = text_len - pattern_len;
    let mut at: usize = 0;
    while at < span
        invariant
            text_len == text@.len(),
            pattern_len == pattern@.len(),
            span == text_len - pattern_len,
            at <= span,
            forall|j: int| 0 <= j < at ==> !occurs_at(text@, pattern@, j),
        decreases span - at,
    {
        if matches_at(text, pattern, at, text_len, pattern_len) {
            return true;
        }
        at += 1;
    }
    matches_at(text, pattern, span, text_len, pattern_len)
}

/// Finds the first offset from `from` on at which a part writes how many
/// characters it strips off the end.
fn find_next_stop(text: &str, from: usize, text_len: usize) -> (at: usize)
    requires
        text_len == text@.len(),
        from <= text_len,
    ensures
        at == next_stop(text@, from as int),
        from <= at <= text_len,
{
    let tag = ",\"stop\":";
    let tag_len = tag.unicode_len();
    let mut at = from;
    while at < text_len
        invariant
            text_len == text@.len(),
            tag@ == stop_tag(),
            tag_len == tag@.len(),
            from <= at <= text_len,
            next_stop(text@, at as int) == next_stop(text@, from as int),
        decreases text_len - at,
    {
        if tag_len <= text_len - at && matches_at(text, tag, at, text_len, tag_len) {
            return at;
        }
        at += 1;
    }
    at
}

/// Whether the part tagged at `at` strips nothing off the end of a token.
fn strips_no_end_at(text: &str, at: usize, text_len: usize) -> (ok: bool)
    requires
        text_len == text@.len(),
        at <= text_len,
    ensures
        ok == strips_no_end(text@, at as int),
{
    let zero = ",\"stop\":0}";
    let zero_len = zero.unicode_len();
    let stop = find_next_stop(text, at, text_len);
    if zero_len > text_len - stop {
        return false;
    }
    matches_at(text, zero, stop, text_len, zero_len)
}

/// Whether every part of the decoder in `text` that strips does so off the
/// start of a token alone.
pub fn strips_off_the_start_alone(text: &str) -> (ok: bool)
    ensures
        ok == strips_safely(text@),
{
    let tag = "\"type\":\"Strip\"";
    let text_len = text.unicode_len();
    let tag_len = tag.unicode_len();
    if tag_len > text_len {
        return true;
    }
    let span = text_len - tag_len;
    let mut at: usize = 0;
    while at < span
        invariant
            text_len == text@.len(),
            tag@ == strip_tag(),
            tag_len == tag@.len(),
            span == text_len - tag_len,
            at <= span,
            forall|j: int|
                0 <= j < at && occurs_at(text@, strip_tag(), j) ==> strips_no_end(text@, j),
        decreases span - at,
    {
        if matches_at(text, tag, at, text_len, tag_len) {
            if !strips_no_end_at(text, at, text_len) {
                assert(occurs_at(text@, strip_tag(), at as int));
                return false;
            }
        }
        at += 1;
    }
    if matches_at(text, tag, span, text_len, tag_len) {
        if !strips_no_end_at(text, span, text_len) {
            assert(occurs_at(text@, strip_tag(), span as int));
            return false;
        }
    }
    true
}

/// Checks that a tokenizer can decode every sequence.
pub fn check_tokenizer(tokenizer: &Tokenizer) -> (r: Result<(), LoadError>)
    ensures
        r is Ok <==> decodes_safely(*tokenizer),
        r is Err ==> r == Err::<(), LoadError>(LoadError::Decoder),
{
    match decoder_json(tokenizer) {
        None => Err(LoadError::Decoder),
        Some(json) => {
            if !strips_off_the_start_alone(json.as_str()) || contains(
                json.as_str(),
                "\"type\":\"BPEDecoder\"",
            ) {
                Err(LoadError::Decoder)
            } else {
                Ok(())
            }
        },
    }
}

} // verus!
