use sample_pipeline::Node;
use sample_pipeline::NoLabel;
use sample_pipeline::PipelineError;
use sample_pipeline::SQuAD;
use sample_pipeline::SQuADAnswer;
use sample_pipeline::SQuADLoader;
use sample_pipeline::SQuADParagraph;
use sample_pipeline::SQuADQuestion;
use sample_pipeline::SQuADTopic;
use sample_pipeline::Span;
use sample_pipeline::TokenizedLabel;
use sample_pipeline::TokenizedSpan;
use sample_pipeline::TxtLoader;

fn one_question_squad(answers: Vec<SQuADAnswer>, is_impossible: bool) -> SQuAD {
    SQuAD {
        data: vec![SQuADTopic {
            title: "animals".to_string(),
            paragraphs: vec![SQuADParagraph {
                context: "the cat sat".to_string(),
                qas: vec![SQuADQuestion {
                    id: Some("q1".to_string()),
                    question: "who sat".to_string(),
                    answers,
                    is_impossible,
                }],
            }],
        }],
    }
}

#[test]
fn it_works() {
    let result = 2 + 2;
    assert_eq!(result, 4);
}

#[test]
fn txt_loader_yields_lines_in_order() {
    let lines = vec!["one".to_string(), "two".to_string(), "three".to_string()];
    let mut loader = TxtLoader::new(lines);
    let mut seen: Vec<String> = Vec::new();
    while let Ok(Some(sample)) = loader.next() {
        assert_eq!(sample.label, NoLabel());
        seen.push(sample.text);
    }
    assert_eq!(seen, vec!["one".to_string(), "two".to_string(), "three".to_string()]);
    assert!(matches!(loader.next(), Ok(None)));
}

#[test]
fn txt_loader_is_streaming_only() {
    let loader = TxtLoader::new(vec!["one".to_string(), "two".to_string()]);
    assert!(matches!(loader.get(0), Ok(None)));
    assert!(matches!(loader.get(17), Ok(None)));
    assert!(matches!(loader.len(), Ok(None)));
}

#[test]
fn consumed_loader_reports_reuse() {
    let mut loader = TxtLoader::new(vec!["one".to_string()]);
    let mut fresh = loader.consume().unwrap();
    assert_eq!(loader.next().unwrap_err(), PipelineError::StageReuse);
    assert_eq!(loader.get(0).unwrap_err(), PipelineError::StageReuse);
    assert_eq!(loader.len().unwrap_err(), PipelineError::StageReuse);
    assert!(matches!(loader.consume(), Err(PipelineError::StageReuse)));
    let first = fresh.next().unwrap().unwrap();
    assert_eq!(first.text, "one".to_string());
}

#[test]
fn empty_source_is_exhausted_immediately() {
    let mut loader = TxtLoader::new(Vec::new());
    assert!(matches!(loader.next(), Ok(None)));
    assert!(matches!(loader.next(), Ok(None)));
}

#[test]
fn squad_loader_scenario() {
    let squad = one_question_squad(
        vec![SQuADAnswer { answer_start: 4, text: "cat".to_string() }],
        false,
    );
    let loader = SQuADLoader::new(squad);
    assert!(matches!(loader.len(), Ok(Some(1))));
    let sample = loader.get(0).unwrap().unwrap();
    assert_eq!(sample.text.0, "who sat".to_string());
    assert_eq!(sample.text.1, "the cat sat".to_string());
    assert_eq!(sample.label, Span(Some((4, 6))));
    assert!(matches!(loader.get(1), Ok(None)));
}

#[test]
fn squad_loader_last_answer_wins() {
    let squad = one_question_squad(
        vec![
            SQuADAnswer { answer_start: 0, text: "the".to_string() },
            SQuADAnswer { answer_start: 8, text: "sat".to_string() },
        ],
        false,
    );
    let loader = SQuADLoader::new(squad);
    let sample = loader.get(0).unwrap().unwrap();
    assert_eq!(sample.label, Span(Some((8, 10))));
}

#[test]
fn squad_loader_impossible_question_has_no_span() {
    let squad = one_question_squad(
        vec![SQuADAnswer { answer_start: 4, text: "cat".to_string() }],
        true,
    );
    let loader = SQuADLoader::new(squad);
    assert_eq!(loader.get(0).unwrap().unwrap().label, Span(None));
}

#[test]
fn squad_loader_no_answers_has_no_span() {
    let squad = one_question_squad(vec![], false);
    let loader = SQuADLoader::new(squad);
    assert_eq!(loader.get(0).unwrap().unwrap().label, Span(None));
}

#[test]
fn squad_loader_next_cursor_is_independent_of_get() {
    let squad = SQuAD {
        data: vec![SQuADTopic {
            title: "t".to_string(),
            paragraphs: vec![SQuADParagraph {
                context: "the cat sat".to_string(),
                qas: vec![
                    SQuADQuestion {
                        id: None,
                        question: "first".to_string(),
                        answers: vec![],
                        is_impossible: false,
                    },
                    SQuADQuestion {
                        id: None,
                        question: "second".to_string(),
                        answers: vec![],
                        is_impossible: false,
                    },
                ],
            }],
        }],
    };
    let mut loader = SQuADLoader::new(squad);
    assert_eq!(loader.next().unwrap().unwrap().text.0, "first".to_string());
    assert_eq!(loader.get(0).unwrap().unwrap().text.0, "first".to_string());
    assert_eq!(loader.next().unwrap().unwrap().text.0, "second".to_string());
    assert!(matches!(loader.next(), Ok(None)));
    assert_eq!(loader.get(1).unwrap().unwrap().text.0, "second".to_string());
}

#[test]
fn tokenized_spans_stack_with_sentinel() {
    let spans = vec![
        TokenizedSpan(Some((1, 2))),
        TokenizedSpan(None),
        TokenizedSpan(Some((5, 5))),
    ];
    let batched = TokenizedSpan::to_batch(spans);
    assert_eq!(batched.start, vec![1, 0, 5]);
    assert_eq!(batched.end, vec![2, 0, 5]);
}

#[test]
fn no_tokenized_labels_batch_to_no_batch_label() {
    let labels = vec![
        sample_pipeline::NoTokenizedLabel,
        sample_pipeline::NoTokenizedLabel,
    ];
    let batched = sample_pipeline::NoTokenizedLabel::to_batch(labels);
    assert_eq!(batched, sample_pipeline::NoBatchLabel);
}
