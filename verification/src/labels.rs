//! The label algebra: the closed set of label variants and their per-stage
//! transformation functions. A label crosses the pipeline in three
//! representations — raw (`NoLabel`, `Span`), tokenized (`NoTokenizedLabel`,
//! `TokenizedSpan`) and batched (`NoBatchLabel`, `BatchSpan`) — and the chain
//! is closed and total: each raw variant maps to exactly one tokenized
//! variant, which maps to exactly one batched variant.

use vstd::prelude::*;

use crate::external::char_to_token_at;
use crate::external::encoding_char_to_token;
use crate::external::encoding_n_sequences;
use crate::external::encoding_num_sequences;

verus! {

/// A raw label that carries nothing.
#[derive(Clone, Copy, Debug, PartialEq, Eq, Structural)]
pub struct NoLabel();

/// A raw answer span: inclusive character offsets into the relevant text,
/// or nothing when there is no gold answer.
#[derive(Clone, Copy, Debug, PartialEq, Eq)]
pub struct Span(pub Option<(usize, usize)>);

/// The tokenized form of `NoLabel`.
#[derive(Clone, Copy, Debug, PartialEq, Eq, Structural)]
pub struct NoTokenizedLabel;

/// The tokenized form of `Span`: inclusive token indices, or nothing when
/// the span could not be aligned.
#[derive(Clone, Copy, Debug, PartialEq, Eq)]
pub struct TokenizedSpan(pub Option<(usize, usize)>);

/// The batched form of `NoTokenizedLabel`.
#[derive(Clone, Copy, Debug, PartialEq, Eq, Structural)]
pub struct NoBatchLabel;

/// The batched form of `TokenizedSpan`: one start and one end entry per
/// sample, in sample order, with the sentinel pair `(0, 0)` standing for a
/// sample whose tokenized span is absent.
#[derive(Debug, PartialEq, Eq)]
pub struct BatchSpan {
    pub start: Vec<usize>,
    pub end: Vec<usize>,
}

/// A marker for the columnar, batched form of a label.
pub trait BatchLabel: Sized {

}

impl BatchLabel for NoBatchLabel {

}

impl BatchLabel for BatchSpan {

}

/// The tokenized form of a label, with its transform to the batched form.
pub trait TokenizedLabel: Sized + Copy {
    type Batch: BatchLabel;

    /// Exactly what the batched form of an ordered list of labels holds.
    spec fn is_batch_of(labels: Seq<Self>, b: Self::Batch) -> bool;

    /// Stack an ordered list of labels into the batched form.
    fn to_batch(selfs: Vec<Self>) -> (r: Self::Batch)
        ensures
            Self::is_batch_of(selfs@, r),
    ;
}

impl TokenizedLabel for NoTokenizedLabel {
    type Batch = NoBatchLabel;

    open spec fn is_batch_of(labels: Seq<NoTokenizedLabel>, b: NoBatchLabel) -> bool {
        b == NoBatchLabel
    }

    fn to_batch(_selfs: Vec<NoTokenizedLabel>) -> (r: NoBatchLabel) {
        NoBatchLabel
    }
}

/// The columnar entry a tokenized span contributes to a batch: its indices,
/// or the sentinel pair `(0, 0)` when the span is absent.
pub open spec fn spec_span_entry(l: TokenizedSpan) -> (usize, usize) {
    match l.0 {
        Some(pair) => pair,
        None => (0usize, 0usize),
    }
}

/// The start column of a batched list of tokenized spans.
pub open spec fn spec_span_starts(labels: Seq<TokenizedSpan>) -> Seq<usize> {
    labels.map_values(|l: TokenizedSpan| spec_span_entry(l).0)
}

/// The end column of a batched list of tokenized spans.
pub open spec fn spec_span_ends(labels: Seq<TokenizedSpan>) -> Seq<usize> {
    labels.map_values(|l: TokenizedSpan| spec_span_entry(l).1)
}

impl TokenizedLabel for TokenizedSpan {
    type Batch = BatchSpan;

    open spec fn is_batch_of(labels: Seq<TokenizedSpan>, b: BatchSpan) -> bool {
        b.start@ == spec_span_starts(labels) && b.end@ == spec_span_ends(labels)
    }

    fn to_batch(selfs: Vec<TokenizedSpan>) -> (r: BatchSpan) {
        let mut start: Vec<usize> = Vec::new();
        let mut end: Vec<usize> = Vec::new();
        let n = selfs.len();
        let mut i: usize = 0;
        while i < n
            invariant
                i <= n,
                n == selfs@.len(),
                start@ == spec_span_starts(selfs@.take(i as int)),
                end@ == spec_span_ends(selfs@.take(i as int)),
            decreases n - i,
        {
            match selfs[i].0 {
                Some((s, e)) => {
                    start.push(s);
                    end.push(e);
                },
                None => {
                    start.push(0);
                    end.push(0);
                },
            }
            proof {
                assert(selfs@.take(i + 1 as int).drop_last() =~= selfs@.take(i as int));
                assert(start@ =~= spec_span_starts(selfs@.take(i + 1 as int)));
                assert(end@ =~= spec_span_ends(selfs@.take(i + 1 as int)));
            }
            i += 1;
        }
        proof {
            assert(selfs@.take(n as int) =~= selfs@);
        }
        BatchSpan { start, end }
    }
}

/// A raw sample label, with its transform to the tokenized form.
pub trait Label: Sized + Copy {
    type Tokenized: TokenizedLabel;

    /// The exact tokenized form of this label against an encoding, given the
    /// character offset at which the aligned segment starts.
    spec fn spec_tokenize(
        self,
        enc: tokenizers::tokenizer::Encoding,
        starting_index: usize,
    ) -> Self::Tokenized;

    /// Advance this label from raw to tokenized form against an encoding.
    fn tokenize(
        self,
        encoding: &tokenizers::tokenizer::Encoding,
        starting_index: usize,
    ) -> (r: Self::Tokenized)
        ensures
            r == self.spec_tokenize(*encoding, starting_index),
    ;
}

impl Label for NoLabel {
    type Tokenized = NoTokenizedLabel;

    open spec fn spec_tokenize(
        self,
        enc: tokenizers::tokenizer::Encoding,
        starting_index: usize,
    ) -> NoTokenizedLabel {
        NoTokenizedLabel
    }

    fn tokenize(
        self,
        _encoding: &tokenizers::tokenizer::Encoding,
        _starting_index: usize,
    ) -> (r: NoTokenizedLabel) {
        NoTokenizedLabel
    }
}

/// The index of the last input sequence of an encoding: the segment an
/// answer span refers to.
pub open spec fn spec_aligned_segment(enc: tokenizers::tokenizer::Encoding) -> usize {
    if encoding_n_sequences(enc) == 0 {
        0usize
    } else {
        (encoding_n_sequences(enc) - 1) as usize
    }
}

/// How a raw character span aligns against an encoding: both offsets are
/// shifted left by the start of the aligned segment and mapped through the
/// encoding's character-to-token lookup, restricted to the last segment.
/// A span that starts or ends before the segment, or whose endpoints do not
/// both land on tokens, degrades to an absent tokenized span.
pub open spec fn spec_align_span(
    span: Option<(usize, usize)>,
    enc: tokenizers::tokenizer::Encoding,
    shift: usize,
) -> TokenizedSpan {
    match span {
        None => TokenizedSpan(None),
        Some(pair) => {
            let (start, end) = pair;
            if start < shift || end < shift {
                TokenizedSpan(None)
            } else {
                let seq_id = spec_aligned_segment(enc);
                let start_tok = encoding_char_to_token(enc, (start - shift) as usize, seq_id);
                let end_tok = encoding_char_to_token(enc, (end - shift) as usize, seq_id);
                match (start_tok, end_tok) {
                    (Some(s), Some(e)) => TokenizedSpan(Some((s, e))),
                    _ => TokenizedSpan(None),
                }
            }
        },
    }
}

impl Label for Span {
    type Tokenized = TokenizedSpan;

    open spec fn spec_tokenize(
        self,
        enc: tokenizers::tokenizer::Encoding,
        starting_index: usize,
    ) -> TokenizedSpan {
        spec_align_span(self.0, enc, starting_index)
    }

    fn tokenize(
        self,
        encoding: &tokenizers::tokenizer::Encoding,
        starting_index: usize,
    ) -> (r: TokenizedSpan) {
        match self.0 {
            None => TokenizedSpan(None),
            Some((start, end)) => {
                if start < starting_index || end < starting_index {
                    return TokenizedSpan(None);
                }
                let n_sequences = encoding_num_sequences(encoding);
                let sequence_id = n_sequences - 1;
                let start_tok = char_to_token_at(encoding, start - starting_index, sequence_id);
                let end_tok = char_to_token_at(encoding, end - starting_index, sequence_id);
                match (start_tok, end_tok) {
                    (Some(s), Some(e)) => TokenizedSpan(Some((s, e))),
                    _ => TokenizedSpan(None),
                }
            },
        }
    }
}

/// Span alignment: when a span's start and end both lie at or after the
/// aligned segment's start and their shifted offsets align to tokens, the
/// tokenized span is exactly that token pair, inclusive; a span whose start
/// falls before the segment's start degrades to no span.
pub proof fn lemma_span_alignment(
    enc: tokenizers::tokenizer::Encoding,
    start: usize,
    end: usize,
    shift: usize,
    start_tok: usize,
    end_tok: usize,
)
    ensures
        start >= shift && end >= shift && encoding_char_to_token(
            enc,
            (start - shift) as usize,
            spec_aligned_segment(enc),
        ) == Some(start_tok) && encoding_char_to_token(
            enc,
            (end - shift) as usize,
            spec_aligned_segment(enc),
        ) == Some(end_tok) ==> Span(Some((start, end))).spec_tokenize(enc, shift)
            == TokenizedSpan(Some((start_tok, end_tok))),
        start < shift ==> Span(Some((start, end))).spec_tokenize(enc, shift) == TokenizedSpan(None),
{
}

/// Label-chain totality: a `NoLabel` tokenizes to `NoTokenizedLabel` for
/// every encoding and segment offset, and every batched form of a list of
/// `NoTokenizedLabel` is `NoBatchLabel`, whatever the samples held.
pub proof fn lemma_label_chain_totality(
    enc: tokenizers::tokenizer::Encoding,
    starting_index: usize,
    labels: Seq<NoTokenizedLabel>,
    b: NoBatchLabel,
)
    ensures
        NoLabel().spec_tokenize(enc, starting_index) == NoTokenizedLabel,
        NoTokenizedLabel::is_batch_of(labels, b),
        b == NoBatchLabel,
{
}

/// A batched span list substitutes the sentinel pair `(0, 0)` for every
/// absent tokenized span and keeps present spans and list order unchanged.
pub proof fn lemma_span_batch_entries(labels: Seq<TokenizedSpan>, b: BatchSpan, i: int)
    requires
        TokenizedSpan::is_batch_of(labels, b),
        0 <= i < labels.len(),
    ensures
        b.start@.len() == labels.len(),
        b.end@.len() == labels.len(),
        labels[i].0 is Some ==> (b.start@[i], b.end@[i]) == labels[i].0->Some_0,
        labels[i].0 is None ==> b.start@[i] == 0 && b.end@[i] == 0,
{
}

} // verus!
