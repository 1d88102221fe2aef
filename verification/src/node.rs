//! The pipeline interface: the error kinds a stage can surface, and the
//! `Node` contract (`next` / `get` / `len`, plus ownership transfer through
//! `consume`) that every stage satisfies.

use vstd::prelude::*;

verus! {

/// An error surfaced by a pipeline stage.
#[derive(Clone, Copy, Debug, PartialEq, Eq, Structural)]
pub enum PipelineError {
    /// An operation was attempted on a stage handle whose cursor state was
    /// already consumed into another stage.
    StageReuse,
    /// The external tokenizer refused an input; fatal for the whole run.
    Tokenization,
    /// A batcher was configured with a zero batch size or sequence length.
    BatchConfig,
    /// A tokenizer stage was given a tokenizer whose truncation parameters
    /// cannot be applied.
    TokenizerConfig,
}

/// The common contract of every pipeline stage.
///
/// A stage yields its items in source order, exactly once each, through
/// `next`; `get` is cursor-independent random access where the stage supports
/// it; `len` reports the total item count when it is known ahead of time.
/// The `yields` and `found` relations say which values the stage can hand
/// out and where they come from: a stage whose output is deterministic pins
/// its items exactly, and a stage that invokes the external tokenizer ties
/// each output to the inner stage's item it was made from.
/// A stage is built by consuming its input stage's cursor state through
/// `consume`: afterwards the old handle is tombstoned and every operation on
/// it reports `StageReuse` instead of returning silently empty results.
pub trait Node: Sized {
    type Output;

    /// Whether this handle's cursor state was consumed into another stage.
    spec fn consumed(&self) -> bool;

    /// Internal consistency of the handle; constructors establish it and
    /// every operation preserves it.
    spec fn wf(&self) -> bool;

    /// How many more items `next` has to yield.
    spec fn remaining(&self) -> nat;

    /// What `len` reports: the total item count, when known ahead of time.
    spec fn reported_len(&self) -> Option<usize>;

    /// Whether `get` supports random access at all. A streaming stage
    /// returns nothing from `get` for every index, in range or not.
    spec fn supports_get(&self) -> bool;

    /// The number of positions at which `get` finds an item
    /// (zero when random access is unsupported).
    spec fn get_count(&self) -> nat;

    /// Whether `o` is a value this stage can yield as its `k`-th `next`
    /// item from the current cursor (`k == 0` is the very next item).
    spec fn yields(&self, k: nat, o: Self::Output) -> bool;

    /// Whether `o` is a value `get` can return at position `index`.
    spec fn found(&self, index: nat, o: Self::Output) -> bool;

    /// The item counts of a well-formed stage fit the machine.
    proof fn lemma_counts_bounded(&self)
        requires
            self.wf(),
        ensures
            self.remaining() <= usize::MAX as nat,
            self.get_count() <= usize::MAX as nat,
    ;

    /// Advance the cursor by one and return the next item, or nothing when
    /// exhausted. On a consumed handle: `StageReuse`, with nothing changed.
    /// A yielded item is one the stage owed as its very next (`yields`), and
    /// what the stage owed beyond it moves up by one position.
    fn next(&mut self) -> (r: Result<Option<Self::Output>, PipelineError>)
        requires
            old(self).wf(),
        ensures
            final(self).wf(),
            final(self).consumed() == old(self).consumed(),
            final(self).reported_len() == old(self).reported_len(),
            final(self).supports_get() == old(self).supports_get(),
            final(self).get_count() == old(self).get_count(),
            (r is Err && r->Err_0 == PipelineError::StageReuse) <==> old(self).consumed(),
            old(self).consumed() ==> *final(self) == *old(self),
            !old(self).consumed() ==> match r {
                Ok(Some(_)) => old(self).remaining() > 0 && final(self).remaining() == (
                old(self).remaining() - 1) as nat,
                Ok(None) => old(self).remaining() == 0 && final(self).remaining() == 0,
                Err(e) => e == PipelineError::Tokenization && old(self).remaining() > 0 && final(
                self).remaining() <= old(self).remaining(),
            },
            !old(self).consumed() && r is Ok && r->Ok_0 is Some ==> old(self).yields(
                0,
                r->Ok_0->Some_0,
            ) && (forall|k: nat, o: Self::Output|
                #[trigger] final(self).yields(k, o) ==> old(self).yields((k + 1) as nat, o)),
    ;

    /// Random access by absolute position, independent of the `next` cursor.
    /// A found item is one the stage holds at that position (`found`).
    fn get(&self, index: usize) -> (r: Result<Option<Self::Output>, PipelineError>)
        requires
            self.wf(),
        ensures
            (r is Err && r->Err_0 == PipelineError::StageReuse) <==> self.consumed(),
            !self.consumed() ==> match r {
                Ok(Some(_)) => self.supports_get() && (index as nat) < self.get_count(),
                Ok(None) => !self.supports_get() || (index as nat) >= self.get_count(),
                Err(e) => e == PipelineError::Tokenization && self.supports_get() && (
                index as nat) < self.get_count(),
            },
            !self.consumed() && r is Ok && r->Ok_0 is Some ==> self.found(
                index as nat,
                r->Ok_0->Some_0,
            ),
    ;

    /// Whether `get` can find items at all: a streaming stage returns
    /// nothing from `get` for every index, in range or not, and a caller
    /// must not conflate that with "out of range".
    fn supports_random_access(&self) -> (r: bool)
        requires
            self.wf(),
        ensures
            r == self.supports_get(),
    ;

    /// The total item count, when it is known ahead of time.
    fn len(&self) -> (r: Result<Option<usize>, PipelineError>)
        requires
            self.wf(),
        ensures
            self.consumed() ==> r is Err && r->Err_0 == PipelineError::StageReuse,
            !self.consumed() ==> r is Ok && r->Ok_0 == self.reported_len(),
    ;

    /// Transfer this handle's cursor state into a fresh handle that equals
    /// the old one, leaving this one tombstoned. On an already-consumed
    /// handle: `StageReuse`.
    fn consume(&mut self) -> (r: Result<Self, PipelineError>)
        requires
            old(self).wf(),
        ensures
            final(self).wf(),
            old(self).consumed() ==> r is Err && r->Err_0 == PipelineError::StageReuse && *final(
            self) == *old(self),
            !old(self).consumed() ==> {
                &&& final(self).consumed()
                &&& r is Ok
                &&& r->Ok_0 == *old(self)
            },
    ;
}

} // verus!
