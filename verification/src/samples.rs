//! Raw and tokenized samples. A raw sample is one text (or a question /
//! context pair) with a raw label attached; tokenizing it invokes the
//! external tokenizer on the sample's own text and advances the label from
//! raw to tokenized form against the returned encoding.

use vstd::prelude::*;

use crate::external::configured_pad_id;
use crate::external::encode_input;
use crate::external::encoding_get_ids;
use crate::external::encoding_ids;
use crate::external::encoding_of;
use crate::external::spec_second_view;
use crate::external::spec_truncation_safe;
use crate::external::tokenizer_pad_id;
use crate::labels::Label;
use crate::labels::TokenizedLabel;
use crate::node::PipelineError;

verus! {

/// One tokenized sample's token-id sequence, with the pad id that was in
/// effect when it was produced.
#[derive(Debug)]
pub struct SampleEncoding {
    pub input_ids: Vec<u32>,
    pub pad_token: u32,
}

impl SampleEncoding {
    /// Build a `SampleEncoding` from the external tokenizer's encoding value
    /// and the pad id in effect.
    pub fn from_tokenizer_encoding(encoding: tokenizers::tokenizer::Encoding, pad_token: u32) -> (r:
        SampleEncoding)
        ensures
            r.input_ids@ == encoding_ids(encoding),
            r.pad_token == pad_token,
    {
        let input_ids = encoding_get_ids(&encoding);
        SampleEncoding { input_ids, pad_token }
    }
}

/// A tokenized sample: its encoding and its tokenized label.
#[derive(Debug)]
pub struct TokenizedText<T: TokenizedLabel> {
    pub encoding: SampleEncoding,
    pub label: T,
}

/// A raw sample holding a single text.
#[derive(Debug)]
pub struct Text<T: Label> {
    pub text: String,
    pub label: T,
}

/// A raw sample holding a question / context pair. The label's character
/// offsets are relative to the last segment, the context.
#[derive(Debug)]
pub struct TextPair<T: Label> {
    pub text: (String, String),
    pub label: T,
}

impl<T: Label> Clone for Text<T> {
    fn clone(&self) -> (r: Self)
        ensures
            r == *self,
    {
        Text { text: self.text.clone(), label: self.label }
    }
}

impl<T: Label> Clone for TextPair<T> {
    fn clone(&self) -> (r: Self)
        ensures
            r == *self,
    {
        TextPair { text: (self.text.0.clone(), self.text.1.clone()), label: self.label }
    }
}

/// The pad id in effect for a tokenizer: its configured pad id, or zero when
/// it has no padding configured.
pub open spec fn spec_effective_pad(configured: Option<u32>) -> u32 {
    match configured {
        Some(p) => p,
        None => 0u32,
    }
}

/// Exactly what a tokenized sample must be, for a given tokenizer, input
/// text (or ordered pair) and raw label: it carries the token ids of an
/// encoding the tokenizer produced for that very text, the label advanced
/// against that same encoding with a segment start of zero, and the
/// tokenizer's effective pad id.
pub open spec fn spec_tokenized_output<L: Label>(
    t: tokenizers::tokenizer::Tokenizer,
    first: Seq<char>,
    second: Option<Seq<char>>,
    label: L,
    tt: TokenizedText<<L as Label>::Tokenized>,
) -> bool {
    &&& exists|enc: tokenizers::tokenizer::Encoding|
        {
            &&& #[trigger] encoding_of(t, first, second, enc)
            &&& tt.encoding.input_ids@ == encoding_ids(enc)
            &&& tt.label == label.spec_tokenize(enc, 0usize)
        }
    &&& tt.encoding.pad_token == spec_effective_pad(tokenizer_pad_id(t))
}

/// A raw sample, with its transform to a tokenized sample.
pub trait Sample: Sized {
    type Label: Label;

    /// The raw label attached to this sample.
    spec fn label(&self) -> Self::Label;

    /// The sample's text: the single text, or the first segment of a pair.
    spec fn first_text(&self) -> Seq<char>;

    /// The second segment of a pair — the context the label's offsets refer
    /// to — or nothing for a single text.
    spec fn second_text(&self) -> Option<Seq<char>>;

    /// Tokenize this sample's own text through the external tokenizer and
    /// advance its label against the returned encoding, with the aligned
    /// segment starting at character offset zero of its own text. Fails
    /// exactly when the tokenizer refuses the text.
    fn tokenize(self, tokenizer: &tokenizers::tokenizer::Tokenizer) -> (r: Result<
        TokenizedText<<Self::Label as Label>::Tokenized>,
        PipelineError,
    >)
        requires
            spec_truncation_safe(*tokenizer),
        ensures
            r is Err ==> r->Err_0 == PipelineError::Tokenization,
            r is Ok ==> spec_tokenized_output::<Self::Label>(
                *tokenizer,
                self.first_text(),
                self.second_text(),
                self.label(),
                r->Ok_0,
            ),
    ;
}

impl<T: Label> Sample for Text<T> {
    type Label = T;

    open spec fn label(&self) -> T {
        self.label
    }

    open spec fn first_text(&self) -> Seq<char> {
        self.text@
    }

    open spec fn second_text(&self) -> Option<Seq<char>> {
        None
    }

    fn tokenize(self, tokenizer: &tokenizers::tokenizer::Tokenizer) -> (r: Result<
        TokenizedText<T::Tokenized>,
        PipelineError,
    >) {
        let ghost self_ghost = self;
        let Text { text, label } = self;
        let tokens = match encode_input(tokenizer, text, None) {
            Ok(e) => e,
            Err(e) => {
                return Err(e);
            },
        };
        let ghost tokens_ghost = tokens;
        let tokenized_label = label.tokenize(&tokens, 0);
        let pad = match configured_pad_id(tokenizer) {
            Some(p) => p,
            None => 0,
        };
        let encoding = SampleEncoding::from_tokenizer_encoding(tokens, pad);
        let result = TokenizedText { encoding, label: tokenized_label };
        proof {
            assert(spec_second_view(None::<String>) == None::<Seq<char>>);
            assert(encoding_of(*tokenizer, self_ghost.first_text(), self_ghost.second_text(), tokens_ghost));
            assert(spec_tokenized_output::<T>(
                *tokenizer,
                self_ghost.first_text(),
                self_ghost.second_text(),
                self_ghost.label(),
                result,
            ));
        }
        Ok(result)
    }
}

impl<T: Label> Sample for TextPair<T> {
    type Label = T;

    open spec fn label(&self) -> T {
        self.label
    }

    open spec fn first_text(&self) -> Seq<char> {
        self.text.0@
    }

    open spec fn second_text(&self) -> Option<Seq<char>> {
        Some(self.text.1@)
    }

    fn tokenize(self, tokenizer: &tokenizers::tokenizer::Tokenizer) -> (r: Result<
        TokenizedText<T::Tokenized>,
        PipelineError,
    >) {
        let ghost self_ghost = self;
        let TextPair { text, label } = self;
        let (first, second) = text;
        let tokens = match encode_input(tokenizer, first, Some(second)) {
            Ok(e) => e,
            Err(e) => {
                return Err(e);
            },
        };
        let ghost tokens_ghost = tokens;
        let tokenized_label = label.tokenize(&tokens, 0);
        let pad = match configured_pad_id(tokenizer) {
            Some(p) => p,
            None => 0,
        };
        let encoding = SampleEncoding::from_tokenizer_encoding(tokens, pad);
        let result = TokenizedText { encoding, label: tokenized_label };
        proof {
            assert(encoding_of(*tokenizer, self_ghost.first_text(), self_ghost.second_text(), tokens_ghost));
            assert(spec_tokenized_output::<T>(
                *tokenizer,
                self_ghost.first_text(),
                self_ghost.second_text(),
                self_ghost.label(),
                result,
            ));
        }
        Ok(result)
    }
}

} // verus!
