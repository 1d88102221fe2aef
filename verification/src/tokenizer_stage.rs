//! The tokenizer stage: wraps a stage of raw samples, consuming its cursor
//! state, and yields tokenized samples. Each `next` or `get` pulls one raw
//! sample from the inner stage and re-applies tokenization to that sample's
//! own text; `len` passes the inner stage's count through unchanged.

use vstd::prelude::*;

use crate::external::TruncationKind;
use crate::external::configured_truncation;
use crate::external::spec_truncation_safe;
use crate::labels::Label;
use crate::node::Node;
use crate::node::PipelineError;
use crate::samples::Sample;
use crate::samples::TokenizedText;
use crate::samples::spec_tokenized_output;

verus! {

/// The state of a tokenizer stage: the consumed inner stage and the external
/// tokenizer it applies.
pub struct TokenizerCore<T: Node> where T::Output: Sample {
    pub loader: T,
    pub tokenizer: tokenizers::tokenizer::Tokenizer,
}

/// A tokenizer stage over an inner stage of raw samples.
pub struct TokenizerStage<T: Node> where T::Output: Sample {
    pub core: Option<TokenizerCore<T>>,
}

impl<T: Node> TokenizerStage<T> where T::Output: Sample {
    /// The external tokenizer this stage applies.
    pub open spec fn spec_tokenizer(&self) -> tokenizers::tokenizer::Tokenizer
        recommends
            !self.consumed(),
    {
        self.core->Some_0.tokenizer
    }

    /// Build a tokenizer stage by consuming an inner stage's cursor state;
    /// the old inner handle is left tombstoned. A tokenizer whose truncation
    /// parameters cannot be applied is refused before the inner stage is
    /// touched.
    pub fn new(loader: &mut T, tokenizer: tokenizers::tokenizer::Tokenizer) -> (r: Result<
        TokenizerStage<T>,
        PipelineError,
    >)
        requires
            old(loader).wf(),
        ensures
            final(loader).wf(),
            !spec_truncation_safe(tokenizer) ==> r is Err && r->Err_0
                == PipelineError::TokenizerConfig && *final(loader) == *old(loader),
            spec_truncation_safe(tokenizer) && old(loader).consumed() ==> r is Err && r->Err_0
                == PipelineError::StageReuse && *final(loader) == *old(loader),
            spec_truncation_safe(tokenizer) && !old(loader).consumed() ==> {
                &&& final(loader).consumed()
                &&& r is Ok
                &&& r->Ok_0 == (TokenizerStage {
                    core: Some(TokenizerCore { loader: *old(loader), tokenizer }),
                })
                &&& r->Ok_0.wf()
                &&& !r->Ok_0.consumed()
            },
    {
        let truncation_safe = match configured_truncation(&tokenizer) {
            None => true,
            Some((kind, max_length, stride)) => max_length == 0 || stride == 0 || (match kind {
                TruncationKind::LongestFirst => stride < max_length / 2,
                TruncationKind::OnlyFirst => false,
                TruncationKind::OnlySecond => false,
            }),
        };
        if !truncation_safe {
            return Err(PipelineError::TokenizerConfig);
        }
        let inner = match loader.consume() {
            Ok(l) => l,
            Err(e) => {
                return Err(e);
            },
        };
        Ok(TokenizerStage { core: Some(TokenizerCore { loader: inner, tokenizer }) })
    }
}

impl<T: Node> Node for TokenizerStage<T> where T::Output: Sample {
    type Output = TokenizedText<<<T::Output as Sample>::Label as Label>::Tokenized>;

    open spec fn consumed(&self) -> bool {
        self.core is None
    }

    open spec fn wf(&self) -> bool {
        match self.core {
            Some(c) => c.loader.wf() && !c.loader.consumed() && spec_truncation_safe(c.tokenizer),
            None => true,
        }
    }

    open spec fn remaining(&self) -> nat {
        match self.core {
            Some(c) => c.loader.remaining(),
            None => 0,
        }
    }

    open spec fn reported_len(&self) -> Option<usize> {
        match self.core {
            Some(c) => c.loader.reported_len(),
            None => None,
        }
    }

    open spec fn supports_get(&self) -> bool {
        match self.core {
            Some(c) => c.loader.supports_get(),
            None => false,
        }
    }

    open spec fn get_count(&self) -> nat {
        match self.core {
            Some(c) => c.loader.get_count(),
            None => 0,
        }
    }

    open spec fn yields(&self, k: nat, o: Self::Output) -> bool {
        match self.core {
            Some(c) => exists|s: T::Output|
                #[trigger] c.loader.yields(k, s) && spec_tokenized_output::<
                    <T::Output as Sample>::Label,
                >(c.tokenizer, s.first_text(), s.second_text(), s.label(), o),
            None => false,
        }
    }

    open spec fn found(&self, index: nat, o: Self::Output) -> bool {
        match self.core {
            Some(c) => exists|s: T::Output|
                #[trigger] c.loader.found(index, s) && spec_tokenized_output::<
                    <T::Output as Sample>::Label,
                >(c.tokenizer, s.first_text(), s.second_text(), s.label(), o),
            None => false,
        }
    }

    proof fn lemma_counts_bounded(&self) {
        match self.core {
            Some(c) => {
                c.loader.lemma_counts_bounded();
            },
            None => {},
        }
    }

    fn next(&mut self) -> (r: Result<Option<Self::Output>, PipelineError>)
        ensures
            !old(self).consumed() ==> !final(self).consumed() && final(self).spec_tokenizer() == old(
            self).spec_tokenizer(),
    {
        let ghost pre = *self;
        let r: Result<Option<Self::Output>, PipelineError> = match &mut self.core {
            None => Err(PipelineError::StageReuse),
            Some(core) => {
                match core.loader.next() {
                    Err(e) => Err(e),
                    Ok(None) => Ok(None),
                    Ok(Some(sample)) => {
                        let ghost sample_ghost = sample;
                        match sample.tokenize(&core.tokenizer) {
                            Err(e) => Err(e),
                            Ok(tt) => {
                                proof {
                                    assert(pre.core->Some_0.loader.yields(0, sample_ghost));
                                    assert(pre.yields(0, tt));
                                }
                                Ok(Some(tt))
                            },
                        }
                    },
                }
            },
        };
        proof {
            if !pre.consumed() && r is Ok && r->Ok_0 is Some {
                assert forall|k: nat, o: Self::Output| #[trigger] self.yields(k, o) implies pre.yields(
                    (k + 1) as nat,
                    o,
                ) by {
                    let s = choose|s: T::Output|
                        #[trigger] self.core->Some_0.loader.yields(k, s) && spec_tokenized_output::<
                            <T::Output as Sample>::Label,
                        >(
                            self.core->Some_0.tokenizer,
                            s.first_text(),
                            s.second_text(),
                            s.label(),
                            o,
                        );
                    assert(pre.core->Some_0.loader.yields((k + 1) as nat, s));
                    assert(pre.yields((k + 1) as nat, o));
                }
            }
        }
        r
    }

    fn get(&self, index: usize) -> (r: Result<Option<Self::Output>, PipelineError>) {
        match &self.core {
            None => Err(PipelineError::StageReuse),
            Some(core) => {
                match core.loader.get(index) {
                    Err(e) => Err(e),
                    Ok(None) => Ok(None),
                    Ok(Some(sample)) => {
                        let ghost sample_ghost = sample;
                        match sample.tokenize(&core.tokenizer) {
                            Err(e) => Err(e),
                            Ok(tt) => {
                                proof {
                                    assert(core.loader.found(index as nat, sample_ghost));
                                    assert(self.found(index as nat, tt));
                                }
                                Ok(Some(tt))
                            },
                        }
                    },
                }
            },
        }
    }

    fn supports_random_access(&self) -> (r: bool) {
        match &self.core {
            None => false,
            Some(core) => core.loader.supports_random_access(),
        }
    }

    fn len(&self) -> (r: Result<Option<usize>, PipelineError>) {
        match &self.core {
            None => Err(PipelineError::StageReuse),
            Some(core) => core.loader.len(),
        }
    }

    fn consume(&mut self) -> (r: Result<TokenizerStage<T>, PipelineError>) {
        let core = self.core.take();
        match core {
            None => Err(PipelineError::StageReuse),
            Some(c) => Ok(TokenizerStage { core: Some(c) }),
        }
    }
}

} // verus!
