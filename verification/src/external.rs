//! The boundary to the external subword tokenizer (the `tokenizers` crate).
//!
//! The tokenizer itself is consumed as an opaque component. An encoding's
//! token ids, its sequence count and its character-to-token lookup are pure
//! data of the encoding value, so they are given names here, as are the
//! tokenizer's configured pad id and truncation parameters; which encodings
//! a tokenizer can produce for a given text is named as a relation. Each
//! wrapper states its result through those names, and the rest of the
//! library is verified against the wrappers' contracts.

use vstd::prelude::*;

use crate::node::PipelineError;

verus! {

#[verifier::external_type_specification]
#[verifier::external_body]
pub struct ExTokenizer(tokenizers::tokenizer::Tokenizer);

#[verifier::external_type_specification]
#[verifier::external_body]
pub struct ExEncoding(tokenizers::tokenizer::Encoding);

/// The token-id sequence an encoding holds.
pub uninterp spec fn encoding_ids(e: tokenizers::tokenizer::Encoding) -> Seq<u32>;

/// The number of input sequences an encoding combines.
pub uninterp spec fn encoding_n_sequences(e: tokenizers::tokenizer::Encoding) -> usize;

/// The token index, within the whole encoding, of the token that covers the
/// given character position of the given input sequence; nothing when no
/// token covers it.
pub uninterp spec fn encoding_char_to_token(
    e: tokenizers::tokenizer::Encoding,
    pos: usize,
    sequence_id: usize,
) -> Option<usize>;

/// The pad id a tokenizer is configured with, if any.
pub uninterp spec fn tokenizer_pad_id(t: tokenizers::tokenizer::Tokenizer) -> Option<u32>;

/// A tokenizer's truncation strategy, as plain data: truncate whichever
/// input sequence is longest, or only the first, or only the second.
#[derive(Clone, Copy, Debug, PartialEq, Eq, Structural)]
pub enum TruncationKind {
    LongestFirst,
    OnlyFirst,
    OnlySecond,
}

/// The truncation parameters a tokenizer is configured with, if any: its
/// strategy and its `(max_length, stride)` pair.
pub uninterp spec fn tokenizer_truncation(t: tokenizers::tokenizer::Tokenizer) -> Option<
    (TruncationKind, usize, usize),
>;

/// Whether `e` is an encoding the tokenizer can produce for the given text,
/// or ordered text pair, without added special tokens. The tokenizer may
/// draw random numbers (subword dropout), so for one text this relation can
/// admit several encodings; every encoding the encode call returns stands in
/// it.
pub uninterp spec fn encoding_of(
    t: tokenizers::tokenizer::Tokenizer,
    first: Seq<char>,
    second: Option<Seq<char>>,
    e: tokenizers::tokenizer::Encoding,
) -> bool;

/// The view of an optional second input text.
pub open spec fn spec_second_view(second: Option<String>) -> Option<Seq<char>> {
    match second {
        Some(s) => Some(s@),
        None => None,
    }
}

/// Whether a tokenizer's truncation parameters keep the encode call away
/// from the stride assertion in the external crate's `Encoding::truncate`,
/// which fires whenever a truncation is actually applied with a stride at or
/// above the truncation length. Truncation is skipped entirely when none is
/// configured, when the max length is zero, or when the encoding fits.
/// Otherwise the applied truncation lengths depend on the strategy: under
/// the longest-first strategy every applied length is at least half the max
/// length (the whole max length for a single input), while under the
/// only-first and only-second strategies the target shrinks by the whole
/// overflow and the applied length can be as small as one. So the assertion
/// is never reached with: no truncation, a zero max length, a zero stride
/// (every applied length is at least one), or the longest-first strategy
/// with a stride below half the max length.
pub open spec fn spec_truncation_safe(t: tokenizers::tokenizer::Tokenizer) -> bool {
    match tokenizer_truncation(t) {
        None => true,
        Some(config) => {
            let (kind, max_length, stride) = config;
            max_length == 0 || stride == 0 || (kind is LongestFirst && stride < max_length / 2)
        },
    }
}

/// Relies on `Encoding::get_ids`: returns the encoding's token ids.
#[verifier::external_body]
pub(crate) fn encoding_get_ids(e: &tokenizers::tokenizer::Encoding) -> (r: Vec<u32>)
    ensures
        r@ == encoding_ids(*e),
{
    e.get_ids().to_vec()
}

/// Relies on `Encoding::n_sequences`: returns the number of combined input
/// sequences, which its source shows is never zero (an encoding with no
/// recorded sequence ranges counts as one sequence).
#[verifier::external_body]
pub(crate) fn encoding_num_sequences(e: &tokenizers::tokenizer::Encoding) -> (r: usize)
    ensures
        r == encoding_n_sequences(*e),
        r >= 1,
{
    e.n_sequences()
}

/// Relies on `Encoding::char_to_token`: looks up the token covering a
/// character position of one input sequence, a pure function of the
/// encoding's stored offsets.
#[verifier::external_body]
pub(crate) fn char_to_token_at(
    e: &tokenizers::tokenizer::Encoding,
    pos: usize,
    sequence_id: usize,
) -> (r: Option<usize>)
    ensures
        r == encoding_char_to_token(*e, pos, sequence_id),
{
    e.char_to_token(pos, sequence_id)
}

/// Relies on `TokenizerImpl::encode_char_offsets` (reached through
/// `Tokenizer`'s `Deref`): encodes one text, or a pair of texts as one
/// dual-sequence encoding, with per-token offsets counted in characters per
/// input sequence; fails on input the tokenizer refuses. The call truncates
/// an oversized encoding by the tokenizer's configured truncation
/// parameters and panics on a stride at or above an applied truncation
/// length — how small those lengths get depends on the strategy — so
/// parameters that keep every applied length above the stride are required
/// (see `spec_truncation_safe`).
#[verifier::external_body]
pub(crate) fn encode_input(
    t: &tokenizers::tokenizer::Tokenizer,
    first: String,
    second: Option<String>,
) -> (r: Result<tokenizers::tokenizer::Encoding, PipelineError>)
    requires
        spec_truncation_safe(*t),
    ensures
        r is Ok ==> encoding_of(*t, first@, spec_second_view(second), r->Ok_0),
        r is Err ==> r->Err_0 == PipelineError::Tokenization,
{
    let input = match second {
        None => tokenizers::tokenizer::EncodeInput::Single(first.into()),
        Some(s) => tokenizers::tokenizer::EncodeInput::Dual(first.into(), s.into()),
    };
    match t.encode_char_offsets(input, false) {
        Ok(e) => Ok(e),
        Err(_) => Err(PipelineError::Tokenization),
    }
}

/// Relies on `TokenizerImpl::get_padding` (reached through `Tokenizer`'s
/// `Deref`): returns the configured pad id — a pure field of the tokenizer
/// value — or nothing when the tokenizer has no padding configured.
#[verifier::external_body]
pub(crate) fn configured_pad_id(t: &tokenizers::tokenizer::Tokenizer) -> (r: Option<u32>)
    ensures
        r == tokenizer_pad_id(*t),
{
    match t.get_padding() {
        Some(params) => Some(params.pad_id),
        None => None,
    }
}

/// Relies on `TokenizerImpl::get_truncation` (reached through `Tokenizer`'s
/// `Deref`): returns the configured truncation strategy, max length and
/// stride — pure fields of the tokenizer value — or nothing when no
/// truncation is configured.
#[verifier::external_body]
pub(crate) fn configured_truncation(t: &tokenizers::tokenizer::Tokenizer) -> (r: Option<
    (TruncationKind, usize, usize),
>)
    ensures
        r == tokenizer_truncation(*t),
{
    match t.get_truncation() {
        Some(params) => {
            let kind = match params.strategy {
                tokenizers::TruncationStrategy::LongestFirst => TruncationKind::LongestFirst,
                tokenizers::TruncationStrategy::OnlyFirst => TruncationKind::OnlyFirst,
                tokenizers::TruncationStrategy::OnlySecond => TruncationKind::OnlySecond,
            };
            Some((kind, params.max_length, params.stride))
        },
        None => None,
    }
}

} // verus!
