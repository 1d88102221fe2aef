//! The batcher stage: wraps a stage of tokenized samples and packs them, in
//! order, into dense batches of fixed shape. Every batch row holds exactly
//! `seq_length` token ids: a sample's ids are truncated to that length, and
//! rows of shorter samples are filled up with the batch's pad token.

use vstd::prelude::*;

use crate::labels::BatchLabel;
use crate::labels::TokenizedLabel;
use crate::node::Node;
use crate::node::PipelineError;
use crate::samples::TokenizedText;

verus! {

/// A batch's id matrix: one row per sample, every row `seq_length` long,
/// with the pad token that filled the rows up.
#[derive(Debug)]
pub struct BatchEncoding {
    pub input_ids: Vec<Vec<u32>>,
    pub pad_token: u32,
}

/// A dense batch: the padded id matrix and the batched labels.
#[derive(Debug)]
pub struct Batch<T: BatchLabel> {
    pub encoding: BatchEncoding,
    pub labels: T,
}

/// How many whole or partial batches `n` samples yield at batch size `b`:
/// the ceiling of `n / b`.
pub open spec fn spec_ceil_div(n: nat, b: nat) -> nat
    recommends
        b >= 1,
    decreases n,
{
    if n == 0 || b == 0 {
        0
    } else if n <= b {
        1
    } else {
        1 + spec_ceil_div((n - b) as nat, b)
    }
}

/// How many samples one pull of up to `b` takes from `n` remaining.
pub open spec fn spec_take_count(b: nat, n: nat) -> nat {
    if n < b {
        n
    } else {
        b
    }
}

/// One row of a batch: the sample's ids truncated to `seq_length`, filled up
/// with the pad token.
pub open spec fn spec_pad_row(ids: Seq<u32>, seq_length: nat, pad: u32) -> Seq<u32> {
    Seq::new(seq_length, |j: int| if j < ids.len() { ids[j] } else { pad })
}

/// The pad token of a whole batch: the one of the last sample processed.
pub open spec fn spec_batch_pad<S: TokenizedLabel>(samples: Seq<TokenizedText<S>>) -> u32 {
    samples.last().encoding.pad_token
}

/// Exactly what the batch built from an ordered, nonempty list of tokenized
/// samples holds: one row per sample in list order, each row the sample's
/// truncated and padded ids, and the batched form of the samples' labels in
/// the same order.
pub open spec fn spec_batch_matches<S: TokenizedLabel>(
    samples: Seq<TokenizedText<S>>,
    seq_length: nat,
    b: Batch<S::Batch>,
) -> bool {
    &&& b.encoding.pad_token == spec_batch_pad(samples)
    &&& b.encoding.input_ids@.len() == samples.len()
    &&& forall|i: int|
        0 <= i < samples.len() ==> (#[trigger] b.encoding.input_ids@[i])@ == spec_pad_row(
            samples[i].encoding.input_ids@,
            seq_length,
            spec_batch_pad(samples),
        )
    &&& S::is_batch_of(samples.map_values(|s: TokenizedText<S>| s.label), b.labels)
}

/// Samples are exhausted exactly when no batch is left.
pub proof fn lemma_ceil_div_zero(n: nat, b: nat)
    requires
        b >= 1,
    ensures
        spec_ceil_div(n, b) == 0 <==> n == 0,
{
}

/// A batcher never has more batches left than samples.
pub proof fn lemma_ceil_div_le(n: nat, b: nat)
    requires
        b >= 1,
    ensures
        spec_ceil_div(n, b) <= n,
    decreases n,
{
    if n > b {
        lemma_ceil_div_le((n - b) as nat, b);
    }
}

/// Batches left never grow as samples are consumed.
pub proof fn lemma_ceil_div_mono(m: nat, n: nat, b: nat)
    requires
        b >= 1,
        m <= n,
    ensures
        spec_ceil_div(m, b) <= spec_ceil_div(n, b),
    decreases n,
{
    if m > b && n > b {
        lemma_ceil_div_mono((m - b) as nat, (n - b) as nat, b);
    }
}

/// One pull of up to `b` samples out of `n > 0` remaining yields exactly one
/// batch of `min(b, n)` rows, leaving one batch less to yield.
pub proof fn lemma_ceil_div_step(n: nat, b: nat)
    requires
        b >= 1,
        n >= 1,
    ensures
        spec_ceil_div(n, b) >= 1,
        spec_take_count(b, n) >= 1,
        spec_ceil_div((n - spec_take_count(b, n)) as nat, b) == spec_ceil_div(n, b) - 1,
{
}

/// Batch index `i` holds samples exactly when the samples at positions from
/// `i * b` on exist: random access to batch `i` succeeds if and only if
/// `i < ceil(g / b)`.
pub proof fn lemma_ceil_div_index(g: nat, b: nat, i: nat)
    requires
        b >= 1,
    ensures
        i * b < g <==> i < spec_ceil_div(g, b),
    decreases i,
{
    if i == 0 {
        assert(i * b == 0) by (nonlinear_arith)
            requires
                i == 0,
        ;
        lemma_ceil_div_zero(g, b);
    } else {
        if g == 0 {
        } else if g <= b {
            assert(i * b >= b) by (nonlinear_arith)
                requires
                    i >= 1,
                    b >= 1,
            ;
        } else {
            lemma_ceil_div_index((g - b) as nat, b, (i - 1) as nat);
            assert((i - 1) * b == i * b - b) by (nonlinear_arith);
        }
    }
}

/// The number of rows of a final, possibly partial batch: `n mod b` when
/// that is nonzero, else a full `b`.
pub proof fn lemma_last_batch_rows(n: nat, b: nat)
    requires
        1 <= n <= b,
    ensures
        spec_take_count(b, n) == if n % b == 0 {
            b
        } else {
            n % b
        },
{
    if n < b {
        vstd::arithmetic::div_mod::lemma_small_mod(n, b);
    } else {
        vstd::arithmetic::div_mod::lemma_mod_self_0(n as int);
    }
}

/// Padding invariant: in any batch built from samples at row length
/// `seq_length`, every row has exactly `seq_length` entries; entry `j` of
/// row `i` equals the `i`-th sample's `j`-th token id while the sample
/// reaches that far, and the batch's pad token beyond.
pub proof fn lemma_padding_invariant<S: TokenizedLabel>(
    samples: Seq<TokenizedText<S>>,
    seq_length: nat,
    b: Batch<S::Batch>,
    i: int,
    j: int,
)
    requires
        spec_batch_matches::<S>(samples, seq_length, b),
        0 <= i < samples.len(),
        0 <= j < seq_length,
    ensures
        b.encoding.input_ids@.len() == samples.len(),
        b.encoding.input_ids@[i]@.len() == seq_length,
        j < samples[i].encoding.input_ids@.len() ==> b.encoding.input_ids@[i]@[j]
            == samples[i].encoding.input_ids@[j],
        j >= samples[i].encoding.input_ids@.len() ==> b.encoding.input_ids@[i]@[j]
            == b.encoding.pad_token,
{
}

/// The cursor state of a batcher: the consumed inner stage of tokenized
/// samples.
#[verifier::reject_recursive_types(S)]
pub struct BatcherCore<S: TokenizedLabel, T: Node<Output = TokenizedText<S>>> {
    pub tokenizer: T,
}

/// A batcher over an inner stage of tokenized samples, with its fixed batch
/// size and row length.
#[verifier::reject_recursive_types(S)]
pub struct StaticBatcher<S: TokenizedLabel, T: Node<Output = TokenizedText<S>>> {
    pub core: Option<BatcherCore<S, T>>,
    pub batch_size: usize,
    pub seq_length: usize,
}

impl<S: TokenizedLabel, T: Node<Output = TokenizedText<S>>> StaticBatcher<S, T> {
    /// How many samples the inner stage still has to yield.
    pub open spec fn spec_inner_remaining(&self) -> nat {
        match self.core {
            Some(c) => c.tokenizer.remaining(),
            None => 0,
        }
    }

    /// At how many positions the inner stage's `get` finds a sample.
    pub open spec fn spec_inner_get_count(&self) -> nat {
        match self.core {
            Some(c) => c.tokenizer.get_count(),
            None => 0,
        }
    }

    /// Build a batcher by consuming an inner stage's cursor state; the old
    /// inner handle is left tombstoned. Refuses a zero batch size or row
    /// length before touching the inner stage.
    pub fn new(tokenizer: &mut T, batch_size: usize, seq_length: usize) -> (r: Result<
        StaticBatcher<S, T>,
        PipelineError,
    >)
        requires
            old(tokenizer).wf(),
        ensures
            final(tokenizer).wf(),
            batch_size == 0 || seq_length == 0 ==> r is Err && r->Err_0
                == PipelineError::BatchConfig && *final(tokenizer) == *old(tokenizer),
            batch_size > 0 && seq_length > 0 && old(tokenizer).consumed() ==> r is Err && r->Err_0
                == PipelineError::StageReuse && *final(tokenizer) == *old(tokenizer),
            batch_size > 0 && seq_length > 0 && !old(tokenizer).consumed() ==> {
                &&& final(tokenizer).consumed()
                &&& r is Ok
                &&& r->Ok_0 == (StaticBatcher {
                    core: Some(BatcherCore { tokenizer: *old(tokenizer) }),
                    batch_size,
                    seq_length,
                })
                &&& r->Ok_0.wf()
                &&& !r->Ok_0.consumed()
            },
    {
        if batch_size == 0 || seq_length == 0 {
            return Err(PipelineError::BatchConfig);
        }
        let inner = match tokenizer.consume() {
            Ok(t) => t,
            Err(e) => {
                return Err(e);
            },
        };
        Ok(StaticBatcher { core: Some(BatcherCore { tokenizer: inner }), batch_size, seq_length })
    }

    /// Pack an ordered, nonempty list of tokenized samples into one dense
    /// batch: row `i` holds sample `i`'s ids, truncated to `seq_length` and
    /// filled up with the batch's pad token — the pad token of the last
    /// sample — and the labels are stacked in the same order.
    pub fn create_batch(&self, samples: Vec<TokenizedText<S>>) -> (b: Batch<S::Batch>)
        requires
            samples@.len() > 0,
        ensures
            spec_batch_matches::<S>(samples@, self.seq_length as nat, b),
    {
        let n = samples.len();
        let seq_length = self.seq_length;
        let pad_token = samples[n - 1].encoding.pad_token;
        let mut rows: Vec<Vec<u32>> = Vec::new();
        let mut labels: Vec<S> = Vec::new();
        let mut i: usize = 0;
        while i < n
            invariant
                i <= n,
                n == samples@.len(),
                pad_token == spec_batch_pad(samples@),
                seq_length == self.seq_length,
                rows@.len() == i,
                labels@.len() == i,
                forall|k: int|
                    0 <= k < i ==> (#[trigger] rows@[k])@ == spec_pad_row(
                        samples@[k].encoding.input_ids@,
                        seq_length as nat,
                        pad_token,
                    ),
                forall|k: int| 0 <= k < i ==> #[trigger] labels@[k] == samples@[k].label,
            decreases n - i,
        {
            let sample = &samples[i];
            labels.push(sample.label);
            let ids = &sample.encoding.input_ids;
            let copy_len = if ids.len() > seq_length {
                seq_length
            } else {
                ids.len()
            };
            let mut row: Vec<u32> = Vec::new();
            let mut j: usize = 0;
            while j < copy_len
                invariant
                    j <= copy_len,
                    copy_len <= ids@.len(),
                    copy_len <= seq_length,
                    row@.len() == j,
                    forall|m: int| 0 <= m < j ==> #[trigger] row@[m] == ids@[m],
                decreases copy_len - j,
            {
                row.push(ids[j]);
                j += 1;
            }
            while j < seq_length
                invariant
                    copy_len <= j <= seq_length,
                    copy_len <= ids@.len(),
                    row@.len() == j,
                    forall|m: int| 0 <= m < copy_len ==> #[trigger] row@[m] == ids@[m],
                    forall|m: int| copy_len <= m < j ==> #[trigger] row@[m] == pad_token,
                decreases seq_length - j,
            {
                row.push(pad_token);
                j += 1;
            }
            proof {
                assert(row@ =~= spec_pad_row(ids@, seq_length as nat, pad_token));
            }
            rows.push(row);
            i += 1;
        }
        let batch_labels = S::to_batch(labels);
        proof {
            assert(labels@ =~= samples@.map_values(|s: TokenizedText<S>| s.label));
        }
        Batch { encoding: BatchEncoding { input_ids: rows, pad_token }, labels: batch_labels }
    }
}

impl<S: TokenizedLabel, T: Node<Output = TokenizedText<S>>> Node for StaticBatcher<S, T> {
    type Output = Batch<S::Batch>;

    open spec fn consumed(&self) -> bool {
        self.core is None
    }

    open spec fn wf(&self) -> bool {
        &&& self.batch_size > 0
        &&& self.seq_length > 0
        &&& match self.core {
            Some(c) => c.tokenizer.wf() && !c.tokenizer.consumed(),
            None => true,
        }
    }

    open spec fn remaining(&self) -> nat {
        spec_ceil_div(self.spec_inner_remaining(), self.batch_size as nat)
    }

    open spec fn reported_len(&self) -> Option<usize> {
        match self.core {
            Some(c) => match c.tokenizer.reported_len() {
                Some(l) => Some((l / self.batch_size) as usize),
                None => None,
            },
            None => None,
        }
    }

    open spec fn supports_get(&self) -> bool {
        match self.core {
            Some(c) => c.tokenizer.supports_get(),
            None => false,
        }
    }

    open spec fn get_count(&self) -> nat {
        spec_ceil_div(self.spec_inner_get_count(), self.batch_size as nat)
    }

    open spec fn yields(&self, k: nat, b: Self::Output) -> bool {
        match self.core {
            Some(c) => {
                let rem = c.tokenizer.remaining();
                let start = k * (self.batch_size as nat);
                &&& start < rem
                &&& exists|pulled: Seq<TokenizedText<S>>|
                    {
                        &&& #[trigger] spec_batch_matches::<S>(pulled, self.seq_length as nat, b)
                        &&& pulled.len() == spec_take_count(
                            self.batch_size as nat,
                            (rem - start) as nat,
                        )
                        &&& forall|j: int|
                            0 <= j < pulled.len() ==> c.tokenizer.yields(
                                (start + j) as nat,
                                #[trigger] pulled[j],
                            )
                    }
            },
            None => false,
        }
    }

    open spec fn found(&self, index: nat, b: Self::Output) -> bool {
        match self.core {
            Some(c) => {
                let count = c.tokenizer.get_count();
                let start = index * (self.batch_size as nat);
                &&& start < count
                &&& exists|pulled: Seq<TokenizedText<S>>|
                    {
                        &&& #[trigger] spec_batch_matches::<S>(pulled, self.seq_length as nat, b)
                        &&& pulled.len() == spec_take_count(
                            self.batch_size as nat,
                            (count - start) as nat,
                        )
                        &&& forall|j: int|
                            0 <= j < pulled.len() ==> c.tokenizer.found(
                                (start + j) as nat,
                                #[trigger] pulled[j],
                            )
                    }
            },
            None => false,
        }
    }

    proof fn lemma_counts_bounded(&self) {
        match self.core {
            Some(c) => {
                c.tokenizer.lemma_counts_bounded();
                lemma_ceil_div_le(c.tokenizer.remaining(), self.batch_size as nat);
                lemma_ceil_div_le(c.tokenizer.get_count(), self.batch_size as nat);
            },
            None => {},
        }
    }

    /// Pull up to `batch_size` samples from the inner stage via its `next`
    /// and pack exactly those samples, in pull order, into one batch; a
    /// partial final batch is yielded once, and nothing is yielded only when
    /// no sample was left.
    fn next(&mut self) -> (r: Result<Option<Batch<S::Batch>>, PipelineError>)
        ensures
            !old(self).consumed() && r is Ok ==> match r->Ok_0 {
                Some(_) => old(self).spec_inner_remaining() == final(self).spec_inner_remaining()
                    + spec_take_count(
                    old(self).batch_size as nat,
                    old(self).spec_inner_remaining(),
                ),
                None => final(self).spec_inner_remaining() == 0,
            },
    {
        let batch_size = self.batch_size;
        let samples = match &mut self.core {
            None => {
                return Err(PipelineError::StageReuse);
            },
            Some(core) => {
                let ghost old_tok = core.tokenizer;
                let ghost old_rem = core.tokenizer.remaining();
                let ghost old_rep = core.tokenizer.reported_len();
                let ghost old_sg = core.tokenizer.supports_get();
                let ghost old_gc = core.tokenizer.get_count();
                let mut samples: Vec<TokenizedText<S>> = Vec::new();
                let mut i: usize = 0;
                let mut done = false;
                #[verifier::loop_isolation(false)]
                while i < batch_size && !done
                    invariant
                        i <= batch_size,
                        batch_size >= 1,
                        core.tokenizer.wf(),
                        !core.tokenizer.consumed(),
                        core.tokenizer.reported_len() == old_rep,
                        core.tokenizer.supports_get() == old_sg,
                        core.tokenizer.get_count() == old_gc,
                        samples@.len() <= i,
                        !done ==> samples@.len() == i,
                        done ==> core.tokenizer.remaining() == 0 && samples@.len() == old_rem
                            && samples@.len() < batch_size,
                        core.tokenizer.remaining() == old_rem - samples@.len(),
                        samples@.len() <= old_rem,
                        forall|j: int|
                            0 <= j < samples@.len() ==> old_tok.yields(
                                j as nat,
                                #[trigger] samples@[j],
                            ),
                        !done ==> forall|k: nat, o: TokenizedText<S>|
                            #[trigger] core.tokenizer.yields(k, o) ==> old_tok.yields(
                                (k + samples@.len()) as nat,
                                o,
                            ),
                    decreases batch_size - i,
                {
                    match core.tokenizer.next() {
                        Err(e) => {
                            proof {
                                lemma_ceil_div_mono(
                                    core.tokenizer.remaining(),
                                    old_rem,
                                    batch_size as nat,
                                );
                                lemma_ceil_div_step(old_rem, batch_size as nat);
                            }
                            return Err(e);
                        },
                        Ok(None) => {
                            done = true;
                        },
                        Ok(Some(tt)) => {
                            proof {
                                assert(old_tok.yields(samples@.len() as nat, tt));
                            }
                            samples.push(tt);
                            proof {
                                assert forall|k: nat, o: TokenizedText<S>|
                                    #[trigger] core.tokenizer.yields(k, o) implies old_tok.yields(
                                    (k + samples@.len()) as nat,
                                    o,
                                ) by {}
                            }
                        },
                    }
                    i += 1;
                }
                proof {
                    if samples@.len() == 0 {
                        lemma_ceil_div_zero(old_rem, batch_size as nat);
                    } else {
                        lemma_ceil_div_step(old_rem, batch_size as nat);
                    }
                }
                samples
            },
        };
        if samples.len() == 0 {
            Ok(None)
        } else {
            let ghost pulled = samples@;
            let batch = self.create_batch(samples);
            proof {
                let bsz = old(self).batch_size as nat;
                assert(spec_batch_matches::<S>(pulled, old(self).seq_length as nat, batch));
                assert(pulled.len() == spec_take_count(bsz, old(self).spec_inner_remaining()));
                assert forall|j: int| 0 <= j < pulled.len() implies old(
                    self,
                ).core->Some_0.tokenizer.yields((0 * bsz + j) as nat, #[trigger] pulled[j]) by {
                    assert(old(self).core->Some_0.tokenizer.yields(j as nat, pulled[j]));
                    assert(0 * bsz + j == j) by (nonlinear_arith);
                }
                assert(old(self).yields(0, batch));
                assert forall|k: nat, b2: Batch<S::Batch>| #[trigger] self.yields(k, b2) implies old(
                    self,
                ).yields((k + 1) as nat, b2) by {
                    let cur_rem = self.core->Some_0.tokenizer.remaining();
                    // A later batch exists only when this pull filled a whole
                    // batch, so the pull consumed exactly one batch of samples.
                    assert(k * bsz < cur_rem);
                    assert(pulled.len() == bsz);
                    assert((k + 1) * bsz == k * bsz + bsz) by (nonlinear_arith);
                    let pulled2 = choose|p: Seq<TokenizedText<S>>|
                        {
                            &&& #[trigger] spec_batch_matches::<S>(p, self.seq_length as nat, b2)
                            &&& p.len() == spec_take_count(
                                self.batch_size as nat,
                                (cur_rem - k * (self.batch_size as nat)) as nat,
                            )
                            &&& forall|j: int|
                                0 <= j < p.len() ==> self.core->Some_0.tokenizer.yields(
                                    (k * (self.batch_size as nat) + j) as nat,
                                    #[trigger] p[j],
                                )
                        };
                    assert forall|j: int| 0 <= j < pulled2.len() implies old(
                        self,
                    ).core->Some_0.tokenizer.yields(
                        ((k + 1) * bsz + j) as nat,
                        #[trigger] pulled2[j],
                    ) by {
                        assert(self.core->Some_0.tokenizer.yields(
                            (k * bsz + j) as nat,
                            pulled2[j],
                        ));
                        assert((k + 1) * bsz + j == (k * bsz + j) + bsz);
                    }
                    assert(((old(self).spec_inner_remaining() - (k + 1) * bsz) as nat) == ((cur_rem
                        - k * bsz) as nat));
                    assert(old(self).yields((k + 1) as nat, b2));
                }
            }
            Ok(Some(batch))
        }
    }

    /// Pull the samples at positions `index * batch_size` up to the next
    /// batch boundary through the inner stage's random access, stopping at
    /// the first missing position, and pack exactly those samples in index
    /// order; nothing is yielded only when none was found.
    fn get(&self, index: usize) -> (r: Result<Option<Batch<S::Batch>>, PipelineError>) {
        let batch_size = self.batch_size;
        let samples = match &self.core {
            None => {
                return Err(PipelineError::StageReuse);
            },
            Some(core) => {
                let ghost g = core.tokenizer.get_count();
                proof {
                    core.tokenizer.lemma_counts_bounded();
                    lemma_ceil_div_index(g, batch_size as nat, index as nat);
                }
                let start = match index.checked_mul(batch_size) {
                    Some(s) => s,
                    None => {
                        proof {
                            assert((index as nat) * (batch_size as nat) >= g);
                        }
                        return Ok(None);
                    },
                };
                let mut samples: Vec<TokenizedText<S>> = Vec::new();
                let mut j: usize = 0;
                let mut done = false;
                #[verifier::loop_isolation(false)]
                while j < batch_size && !done
                    invariant
                        j <= batch_size,
                        batch_size >= 1,
                        core.tokenizer.wf(),
                        g == core.tokenizer.get_count(),
                        g <= usize::MAX as nat,
                        !core.tokenizer.consumed(),
                        start == (index as nat) * (batch_size as nat),
                        samples@.len() <= j,
                        !done ==> samples@.len() == j,
                        samples@.len() > 0 ==> core.tokenizer.supports_get() && start < g,
                        samples@.len() == 0 || start + samples@.len() <= g,
                        done ==> samples@.len() < batch_size && (!core.tokenizer.supports_get()
                            || start + samples@.len() >= g),
                        forall|m: int|
                            0 <= m < samples@.len() ==> core.tokenizer.found(
                                ((index as nat) * (batch_size as nat) + m) as nat,
                                #[trigger] samples@[m],
                            ),
                    decreases batch_size - j,
                {
                    match start.checked_add(j) {
                        None => {
                            done = true;
                        },
                        Some(idx) => {
                            match core.tokenizer.get(idx) {
                                Err(e) => {
                                    proof {
                                        lemma_ceil_div_index(g, batch_size as nat, index as nat);
                                    }
                                    return Err(e);
                                },
                                Ok(None) => {
                                    done = true;
                                },
                                Ok(Some(tt)) => {
                                    proof {
                                        assert(core.tokenizer.found(
                                            ((index as nat) * (batch_size as nat)
                                                + samples@.len()) as nat,
                                            tt,
                                        ));
                                    }
                                    samples.push(tt);
                                },
                            }
                        },
                    }
                    j += 1;
                }
                proof {
                    lemma_ceil_div_index(g, batch_size as nat, index as nat);
                }
                samples
            },
        };
        if samples.len() == 0 {
            Ok(None)
        } else {
            let ghost pulled = samples@;
            let batch = self.create_batch(samples);
            proof {
                assert(spec_batch_matches::<S>(pulled, self.seq_length as nat, batch));
                assert((index as nat) * (self.batch_size as nat) < self.spec_inner_get_count());
                assert(pulled.len() == spec_take_count(
                    self.batch_size as nat,
                    (self.spec_inner_get_count() - (index as nat) * (
                    self.batch_size as nat)) as nat,
                ));
                assert(self.found(index as nat, batch));
            }
            Ok(Some(batch))
        }
    }

    fn supports_random_access(&self) -> (r: bool) {
        match &self.core {
            None => false,
            Some(core) => core.tokenizer.supports_random_access(),
        }
    }

    /// The inner stage's count, divided by the batch size rounding down: a
    /// dangling partial batch is not counted, though `next` still yields it.
    fn len(&self) -> (r: Result<Option<usize>, PipelineError>) {
        match &self.core {
            None => Err(PipelineError::StageReuse),
            Some(core) => {
                match core.tokenizer.len() {
                    Err(e) => Err(e),
                    Ok(None) => Ok(None),
                    Ok(Some(l)) => Ok(Some(l / self.batch_size)),
                }
            },
        }
    }

    fn consume(&mut self) -> (r: Result<StaticBatcher<S, T>, PipelineError>) {
        let core = self.core.take();
        match core {
            None => Err(PipelineError::StageReuse),
            Some(c) => Ok(
                StaticBatcher {
                    core: Some(c),
                    batch_size: self.batch_size,
                    seq_length: self.seq_length,
                },
            ),
        }
    }
}

} // verus!
