//! Loaders: the sources that feed the pipeline. A line loader yields one
//! unlabeled sample per line of text, streaming-only; a QA-span loader is
//! fully materialized from a structured document of topics, paragraphs and
//! questions, each question yielding one question / context pair labeled
//! with its answer span.

use vstd::prelude::*;
use vstd::string::StrSliceExecFns;

use crate::labels::NoLabel;
use crate::labels::Span;
use crate::node::Node;
use crate::node::PipelineError;
use crate::samples::Text;
use crate::samples::TextPair;

verus! {

/// One answer of a QA document: the character offset at which the answer
/// starts in its paragraph's context, and the answer text.
pub struct SQuADAnswer {
    pub answer_start: usize,
    pub text: String,
}

/// One question of a QA document, with its listed answers.
pub struct SQuADQuestion {
    pub id: Option<String>,
    pub question: String,
    pub answers: Vec<SQuADAnswer>,
    pub is_impossible: bool,
}

/// One paragraph of a QA document: a context and its question groups.
pub struct SQuADParagraph {
    pub context: String,
    pub qas: Vec<SQuADQuestion>,
}

/// One topic of a QA document.
pub struct SQuADTopic {
    pub title: String,
    pub paragraphs: Vec<SQuADParagraph>,
}

/// A whole QA document.
pub struct SQuAD {
    pub data: Vec<SQuADTopic>,
}

/// The span an answer contributes: inclusive character offsets, from the
/// answer's start offset to the offset of its last character.
pub open spec fn spec_answer_span(a: SQuADAnswer) -> (usize, usize) {
    (a.answer_start, (a.answer_start + a.text@.len() - 1) as usize)
}

/// The machine limits the span computation of one answer needs: a nonempty
/// answer text whose end offset fits in a machine word.
pub open spec fn spec_answer_fits(a: SQuADAnswer) -> bool {
    1 <= a.text@.len() && a.answer_start + a.text@.len() - 1 <= usize::MAX
}

/// Every answer whose span the loader computes fits the machine. A question
/// marked impossible computes no span.
pub open spec fn spec_question_fits(qa: SQuADQuestion) -> bool {
    qa.is_impossible || forall|i: int|
        0 <= i < qa.answers@.len() ==> spec_answer_fits(#[trigger] qa.answers@[i])
}

pub open spec fn spec_paragraph_fits(p: SQuADParagraph) -> bool {
    forall|i: int| 0 <= i < p.qas@.len() ==> spec_question_fits(#[trigger] p.qas@[i])
}

pub open spec fn spec_topic_fits(t: SQuADTopic) -> bool {
    forall|i: int| 0 <= i < t.paragraphs@.len() ==> spec_paragraph_fits(#[trigger] t.paragraphs@[i])
}

pub open spec fn spec_squad_fits(doc: SQuAD) -> bool {
    forall|i: int| 0 <= i < doc.data@.len() ==> spec_topic_fits(#[trigger] doc.data@[i])
}

/// The raw answer span of one question: absent when the question is marked
/// impossible or lists no answers; otherwise each answer in list order
/// overwrites the span of the one before it, so the last answer wins.
pub open spec fn spec_question_span(qa: SQuADQuestion) -> Option<(usize, usize)> {
    if qa.is_impossible || qa.answers@.len() == 0 {
        None
    } else {
        Some(spec_answer_span(qa.answers@.last()))
    }
}

/// The sample one question yields: its question text and its paragraph's
/// context as a pair, labeled with the question's span.
pub open spec fn spec_question_sample(qa: SQuADQuestion, context: String) -> TextPair<Span> {
    TextPair { text: (qa.question, context), label: Span(spec_question_span(qa)) }
}

/// The samples of a list of questions sharing one context, in list order.
pub open spec fn spec_questions_samples(qs: Seq<SQuADQuestion>, context: String) -> Seq<
    TextPair<Span>,
>
    decreases qs.len(),
{
    if qs.len() == 0 {
        Seq::empty()
    } else {
        spec_questions_samples(qs.drop_last(), context).push(
            spec_question_sample(qs.last(), context),
        )
    }
}

/// The samples of one paragraph, in question order.
pub open spec fn spec_paragraph_samples(p: SQuADParagraph) -> Seq<TextPair<Span>> {
    spec_questions_samples(p.qas@, p.context)
}

/// The samples of a list of paragraphs, in order.
pub open spec fn spec_paragraphs_samples(ps: Seq<SQuADParagraph>) -> Seq<TextPair<Span>>
    decreases ps.len(),
{
    if ps.len() == 0 {
        Seq::empty()
    } else {
        spec_paragraphs_samples(ps.drop_last()) + spec_paragraph_samples(ps.last())
    }
}

/// The samples of one topic, in paragraph order.
pub open spec fn spec_topic_samples(t: SQuADTopic) -> Seq<TextPair<Span>> {
    spec_paragraphs_samples(t.paragraphs@)
}

/// The samples of a list of topics, in order.
pub open spec fn spec_topics_samples(ts: Seq<SQuADTopic>) -> Seq<TextPair<Span>>
    decreases ts.len(),
{
    if ts.len() == 0 {
        Seq::empty()
    } else {
        spec_topics_samples(ts.drop_last()) + spec_topic_samples(ts.last())
    }
}

/// The samples of a whole QA document: every question of every paragraph of
/// every topic, in document order.
pub open spec fn spec_squad_samples(doc: SQuAD) -> Seq<TextPair<Span>> {
    spec_topics_samples(doc.data@)
}

/// The raw answer span of one question, computed as the document lists it:
/// the answers are walked in order and, while the question is not marked
/// impossible, each answer's span overwrites the previous one.
fn question_span(qa: &SQuADQuestion) -> (r: Option<(usize, usize)>)
    requires
        spec_question_fits(*qa),
    ensures
        r == spec_question_span(*qa),
{
    let mut span: Option<(usize, usize)> = None;
    let n = qa.answers.len();
    let mut i: usize = 0;
    while i < n
        invariant
            i <= n,
            n == qa.answers@.len(),
            spec_question_fits(*qa),
            span == if qa.is_impossible || i == 0 {
                None::<(usize, usize)>
            } else {
                Some(spec_answer_span(qa.answers@[i - 1]))
            },
        decreases n - i,
    {
        let answer = &qa.answers[i];
        if !qa.is_impossible {
            proof {
                assert(spec_answer_fits(qa.answers@[i as int]));
            }
            let answer_chars = answer.text.as_str().unicode_len();
            span = Some((answer.answer_start, answer.answer_start + (answer_chars - 1)));
        }
        i += 1;
    }
    span
}

/// The samples of one paragraph, one per question, in question order.
fn paragraph_samples(p: &SQuADParagraph, out: &mut Vec<TextPair<Span>>)
    requires
        spec_paragraph_fits(*p),
    ensures
        final(out)@ == old(out)@ + spec_paragraph_samples(*p),
{
    let n = p.qas.len();
    let mut i: usize = 0;
    while i < n
        invariant
            i <= n,
            n == p.qas@.len(),
            spec_paragraph_fits(*p),
            out@ == old(out)@ + spec_questions_samples(p.qas@.take(i as int), p.context),
        decreases n - i,
    {
        let qa = &p.qas[i];
        let span = question_span(qa);
        let sample = TextPair {
            text: (qa.question.clone(), p.context.clone()),
            label: Span(span),
        };
        out.push(sample);
        proof {
            assert(p.qas@.take(i + 1 as int).drop_last() =~= p.qas@.take(i as int));
            assert(p.qas@.take(i + 1 as int).last() == p.qas@[i as int]);
        }
        i += 1;
    }
    proof {
        assert(p.qas@.take(n as int) =~= p.qas@);
    }
}

/// The samples of one topic, in paragraph order.
fn topic_samples(t: &SQuADTopic, out: &mut Vec<TextPair<Span>>)
    requires
        spec_topic_fits(*t),
    ensures
        final(out)@ == old(out)@ + spec_topic_samples(*t),
{
    let n = t.paragraphs.len();
    let mut i: usize = 0;
    while i < n
        invariant
            i <= n,
            n == t.paragraphs@.len(),
            spec_topic_fits(*t),
            out@ == old(out)@ + spec_paragraphs_samples(t.paragraphs@.take(i as int)),
        decreases n - i,
    {
        paragraph_samples(&t.paragraphs[i], out);
        proof {
            assert(t.paragraphs@.take(i + 1 as int).drop_last() =~= t.paragraphs@.take(i as int));
            assert(t.paragraphs@.take(i + 1 as int).last() == t.paragraphs@[i as int]);
        }
        i += 1;
    }
    proof {
        assert(t.paragraphs@.take(n as int) =~= t.paragraphs@);
    }
}

/// The cursor state of a line loader.
pub struct TxtCore {
    pub lines: Vec<String>,
    pub cursor: usize,
}

/// A line loader: yields one `Text` sample with `NoLabel` per line, in line
/// order, sequentially only. `get` returns nothing for every index and
/// `len` reports nothing: the source is treated as streaming.
pub struct TxtLoader {
    pub core: Option<TxtCore>,
}

impl TxtLoader {
    /// The lines this loader was built over.
    pub open spec fn spec_lines(&self) -> Seq<String> {
        match self.core {
            Some(c) => c.lines@,
            None => Seq::empty(),
        }
    }

    /// How many lines the cursor has passed.
    pub open spec fn spec_cursor(&self) -> nat {
        match self.core {
            Some(c) => c.cursor as nat,
            None => 0,
        }
    }

    /// Build a line loader over the lines of a text source.
    pub fn new(lines: Vec<String>) -> (r: TxtLoader)
        ensures
            !r.consumed(),
            r.wf(),
            r.spec_lines() == lines@,
            r.spec_cursor() == 0,
    {
        TxtLoader { core: Some(TxtCore { lines, cursor: 0 }) }
    }
}

impl Node for TxtLoader {
    type Output = Text<NoLabel>;

    open spec fn consumed(&self) -> bool {
        self.core is None
    }

    open spec fn wf(&self) -> bool {
        match self.core {
            Some(c) => c.cursor <= c.lines@.len(),
            None => true,
        }
    }

    open spec fn remaining(&self) -> nat {
        (self.spec_lines().len() - self.spec_cursor()) as nat
    }

    open spec fn reported_len(&self) -> Option<usize> {
        None
    }

    open spec fn supports_get(&self) -> bool {
        false
    }

    open spec fn get_count(&self) -> nat {
        0
    }

    open spec fn yields(&self, k: nat, o: Text<NoLabel>) -> bool {
        &&& self.spec_cursor() + k < self.spec_lines().len()
        &&& o == (Text {
            text: self.spec_lines()[(self.spec_cursor() + k) as int],
            label: NoLabel(),
        })
    }

    open spec fn found(&self, index: nat, o: Text<NoLabel>) -> bool {
        false
    }

    proof fn lemma_counts_bounded(&self) {
        match self.core {
            Some(c) => {
                vstd::std_specs::vec::axiom_spec_len(&c.lines);
            },
            None => {},
        }
    }

    fn next(&mut self) -> (r: Result<Option<Text<NoLabel>>, PipelineError>)
        ensures
            !old(self).consumed() ==> {
                &&& final(self).spec_lines() == old(self).spec_lines()
                &&& old(self).remaining() > 0 ==> r == Ok::<_, PipelineError>(
                    Some(
                        Text {
                            text: old(self).spec_lines()[old(self).spec_cursor() as int],
                            label: NoLabel(),
                        },
                    ),
                ) && final(self).spec_cursor() == old(self).spec_cursor() + 1
                &&& old(self).remaining() == 0 ==> final(self).spec_cursor() == old(
                self).spec_cursor()
            },
    {
        match &mut self.core {
            None => Err(PipelineError::StageReuse),
            Some(core) => {
                if core.cursor < core.lines.len() {
                    let line = core.lines[core.cursor].clone();
                    core.cursor = core.cursor + 1;
                    Ok(Some(Text { text: line, label: NoLabel() }))
                } else {
                    Ok(None)
                }
            },
        }
    }

    fn get(&self, _index: usize) -> (r: Result<Option<Text<NoLabel>>, PipelineError>)
        ensures
            !self.consumed() ==> r == Ok::<Option<Text<NoLabel>>, PipelineError>(None),
    {
        match &self.core {
            None => Err(PipelineError::StageReuse),
            Some(_) => Ok(None),
        }
    }

    fn supports_random_access(&self) -> (r: bool) {
        false
    }

    fn len(&self) -> (r: Result<Option<usize>, PipelineError>) {
        match &self.core {
            None => Err(PipelineError::StageReuse),
            Some(_) => Ok(None),
        }
    }

    fn consume(&mut self) -> (r: Result<TxtLoader, PipelineError>) {
        let core = self.core.take();
        match core {
            None => Err(PipelineError::StageReuse),
            Some(c) => Ok(TxtLoader { core: Some(c) }),
        }
    }
}

/// The cursor state of a QA-span loader.
pub struct SQuADCore {
    pub texts: Vec<TextPair<Span>>,
    pub current_index: usize,
}

/// A QA-span loader: fully materialized at construction, one sample per
/// question in document order. `len` reports the total question count and
/// `get` is random access, independent of the `next` cursor.
pub struct SQuADLoader {
    pub core: Option<SQuADCore>,
}

impl SQuADLoader {
    /// The samples this loader holds, in document order.
    pub open spec fn spec_texts(&self) -> Seq<TextPair<Span>> {
        match self.core {
            Some(c) => c.texts@,
            None => Seq::empty(),
        }
    }

    /// How many samples the `next` cursor has passed.
    pub open spec fn spec_cursor(&self) -> nat {
        match self.core {
            Some(c) => c.current_index as nat,
            None => 0,
        }
    }

    /// Build a QA-span loader from a parsed QA document: one sample per
    /// question, in document order, each labeled with its answer span.
    pub fn new(squad: SQuAD) -> (r: SQuADLoader)
        requires
            spec_squad_fits(squad),
        ensures
            !r.consumed(),
            r.wf(),
            r.spec_texts() == spec_squad_samples(squad),
            r.spec_cursor() == 0,
    {
        let mut texts: Vec<TextPair<Span>> = Vec::new();
        let n = squad.data.len();
        let mut i: usize = 0;
        while i < n
            invariant
                i <= n,
                n == squad.data@.len(),
                spec_squad_fits(squad),
                texts@ == spec_topics_samples(squad.data@.take(i as int)),
            decreases n - i,
        {
            topic_samples(&squad.data[i], &mut texts);
            proof {
                assert(squad.data@.take(i + 1 as int).drop_last() =~= squad.data@.take(i as int));
                assert(squad.data@.take(i + 1 as int).last() == squad.data@[i as int]);
            }
            i += 1;
        }
        proof {
            assert(squad.data@.take(n as int) =~= squad.data@);
        }
        SQuADLoader { core: Some(SQuADCore { texts, current_index: 0 }) }
    }
}

impl Node for SQuADLoader {
    type Output = TextPair<Span>;

    open spec fn consumed(&self) -> bool {
        self.core is None
    }

    open spec fn wf(&self) -> bool {
        match self.core {
            Some(c) => c.current_index <= c.texts@.len(),
            None => true,
        }
    }

    open spec fn remaining(&self) -> nat {
        (self.spec_texts().len() - self.spec_cursor()) as nat
    }

    open spec fn reported_len(&self) -> Option<usize> {
        match self.core {
            Some(c) => Some(c.texts@.len() as usize),
            None => None,
        }
    }

    open spec fn supports_get(&self) -> bool {
        true
    }

    open spec fn get_count(&self) -> nat {
        self.spec_texts().len()
    }

    open spec fn yields(&self, k: nat, o: TextPair<Span>) -> bool {
        &&& self.spec_cursor() + k < self.spec_texts().len()
        &&& o == self.spec_texts()[(self.spec_cursor() + k) as int]
    }

    open spec fn found(&self, index: nat, o: TextPair<Span>) -> bool {
        index < self.spec_texts().len() && o == self.spec_texts()[index as int]
    }

    proof fn lemma_counts_bounded(&self) {
        match self.core {
            Some(c) => {
                vstd::std_specs::vec::axiom_spec_len(&c.texts);
            },
            None => {},
        }
    }

    fn next(&mut self) -> (r: Result<Option<TextPair<Span>>, PipelineError>)
        ensures
            !old(self).consumed() ==> {
                &&& final(self).spec_texts() == old(self).spec_texts()
                &&& old(self).remaining() > 0 ==> r == Ok::<_, PipelineError>(
                    Some(old(self).spec_texts()[old(self).spec_cursor() as int]),
                ) && final(self).spec_cursor() == old(self).spec_cursor() + 1
                &&& old(self).remaining() == 0 ==> final(self).spec_cursor() == old(
                self).spec_cursor()
            },
    {
        match &mut self.core {
            None => Err(PipelineError::StageReuse),
            Some(core) => {
                if core.current_index < core.texts.len() {
                    let text = core.texts[core.current_index].clone();
                    core.current_index = core.current_index + 1;
                    Ok(Some(text))
                } else {
                    Ok(None)
                }
            },
        }
    }

    fn get(&self, index: usize) -> (r: Result<Option<TextPair<Span>>, PipelineError>)
        ensures
            !self.consumed() ==> r == Ok::<_, PipelineError>(
                if (index as nat) < self.spec_texts().len() {
                    Some(self.spec_texts()[index as int])
                } else {
                    None
                },
            ),
    {
        match &self.core {
            None => Err(PipelineError::StageReuse),
            Some(core) => {
                if index < core.texts.len() {
                    Ok(Some(core.texts[index].clone()))
                } else {
                    Ok(None)
                }
            },
        }
    }

    fn supports_random_access(&self) -> (r: bool) {
        true
    }

    fn len(&self) -> (r: Result<Option<usize>, PipelineError>) {
        match &self.core {
            None => Err(PipelineError::StageReuse),
            Some(core) => Ok(Some(core.texts.len())),
        }
    }

    fn consume(&mut self) -> (r: Result<SQuADLoader, PipelineError>) {
        let core = self.core.take();
        match core {
            None => Err(PipelineError::StageReuse),
            Some(c) => Ok(SQuADLoader { core: Some(c) }),
        }
    }
}

} // verus!
