use sample_pipeline::Label;
use sample_pipeline::Node;
use sample_pipeline::PipelineError;
use sample_pipeline::SQuAD;
use sample_pipeline::SQuADAnswer;
use sample_pipeline::SQuADLoader;
use sample_pipeline::SQuADParagraph;
use sample_pipeline::SQuADQuestion;
use sample_pipeline::SQuADTopic;
use sample_pipeline::SampleEncoding;
use sample_pipeline::Span;
use sample_pipeline::StaticBatcher;
use sample_pipeline::TokenizedSpan;
use sample_pipeline::TokenizedText;
use sample_pipeline::TokenizerStage;
use sample_pipeline::TxtLoader;

fn word_tokenizer(words: &[(&str, u32)]) -> tokenizers::Tokenizer {
    let mut vocab = ahash::AHashMap::new();
    for (word, id) in words {
        vocab.insert((*word).to_string(), *id);
    }
    let model = tokenizers::models::wordlevel::WordLevel::builder()
        .vocab(vocab)
        .unk_token("[UNK]".to_string())
        .build()
        .unwrap();
    let mut tokenizer = tokenizers::Tokenizer::new(model);
    tokenizer.with_pre_tokenizer(Some(tokenizers::pre_tokenizers::whitespace::Whitespace {}));
    tokenizer
}

fn letters_tokenizer() -> tokenizers::Tokenizer {
    word_tokenizer(&[("a", 0), ("b", 1), ("c", 2), ("see", 3), ("dee", 4), ("e", 5)])
}

#[test]
fn encoding_carries_token_ids_and_pad() {
    let tokenizer = letters_tokenizer();
    let encoding = tokenizer.encode_char_offsets("b a see", false).unwrap();
    let sample_encoding = SampleEncoding::from_tokenizer_encoding(encoding, 9);
    assert_eq!(sample_encoding.input_ids, vec![1, 0, 3]);
    assert_eq!(sample_encoding.pad_token, 9);
}

#[test]
fn span_aligns_to_token_indices() {
    let tokenizer = letters_tokenizer();
    // Tokens: a(0) b(1) c(2) see(3) dee(4) e(5); "see" starts at character 6
    // and "e" sits at character 14.
    let encoding = tokenizer.encode_char_offsets("a b c see dee e", false).unwrap();
    let span = Span(Some((6, 14)));
    assert_eq!(span.tokenize(&encoding, 0), TokenizedSpan(Some((3, 5))));
}

#[test]
fn span_before_segment_start_is_dropped() {
    let tokenizer = letters_tokenizer();
    let encoding = tokenizer.encode_char_offsets("a b c see dee e", false).unwrap();
    let span = Span(Some((6, 14)));
    assert_eq!(span.tokenize(&encoding, 7), TokenizedSpan(None));
}

#[test]
fn span_on_whitespace_is_dropped() {
    let tokenizer = letters_tokenizer();
    let encoding = tokenizer.encode_char_offsets("a b c see dee e", false).unwrap();
    // Character 1 is the blank between "a" and "b": no token covers it.
    let span = Span(Some((1, 4)));
    assert_eq!(span.tokenize(&encoding, 0), TokenizedSpan(None));
}

#[test]
fn absent_span_stays_absent() {
    let tokenizer = letters_tokenizer();
    let encoding = tokenizer.encode_char_offsets("a b", false).unwrap();
    assert_eq!(Span(None).tokenize(&encoding, 0), TokenizedSpan(None));
}

#[test]
fn tokenizer_stage_tokenizes_lines() {
    let lines = vec!["a b".to_string(), "see".to_string()];
    let mut loader = TxtLoader::new(lines);
    let mut stage = TokenizerStage::new(&mut loader, letters_tokenizer()).unwrap();
    let first = stage.next().unwrap().unwrap();
    assert_eq!(first.encoding.input_ids, vec![0, 1]);
    assert_eq!(first.encoding.pad_token, 0);
    assert_eq!(first.label, sample_pipeline::NoTokenizedLabel);
    let second = stage.next().unwrap().unwrap();
    assert_eq!(second.encoding.input_ids, vec![3]);
    assert!(matches!(stage.next(), Ok(None)));
    assert!(matches!(stage.len(), Ok(None)));
    assert!(matches!(stage.get(0), Ok(None)));
}

#[test]
fn consumed_loader_fails_after_building_a_stage() {
    let mut loader = TxtLoader::new(vec!["a".to_string()]);
    let _stage = TokenizerStage::new(&mut loader, letters_tokenizer()).unwrap();
    assert_eq!(loader.next().unwrap_err(), PipelineError::StageReuse);
    assert_eq!(loader.get(0).unwrap_err(), PipelineError::StageReuse);
    assert_eq!(loader.len().unwrap_err(), PipelineError::StageReuse);
}

#[test]
fn building_on_a_consumed_stage_fails() {
    let mut loader = TxtLoader::new(vec!["a".to_string()]);
    let _stage = TokenizerStage::new(&mut loader, letters_tokenizer()).unwrap();
    let again = TokenizerStage::new(&mut loader, letters_tokenizer());
    assert!(matches!(again, Err(PipelineError::StageReuse)));
}

#[test]
fn unencodable_input_is_a_fatal_tokenization_error() {
    // No "[UNK]" entry in the vocabulary: an unknown word cannot be encoded.
    let tokenizer = word_tokenizer(&[("a", 0)]);
    let mut loader = TxtLoader::new(vec!["zzz".to_string()]);
    let mut stage = TokenizerStage::new(&mut loader, tokenizer).unwrap();
    assert!(matches!(stage.next(), Err(PipelineError::Tokenization)));
}

#[test]
fn configured_pad_id_flows_into_encodings() {
    let mut tokenizer = letters_tokenizer();
    tokenizer.with_padding(Some(tokenizers::PaddingParams {
        pad_id: 9,
        ..Default::default()
    }));
    let mut loader = TxtLoader::new(vec!["a".to_string()]);
    let mut stage = TokenizerStage::new(&mut loader, tokenizer).unwrap();
    let sample = stage.next().unwrap().unwrap();
    assert_eq!(sample.encoding.pad_token, 9);
}

#[test]
fn unusable_truncation_parameters_are_refused() {
    let mut tokenizer = letters_tokenizer();
    tokenizer
        .with_truncation(Some(tokenizers::TruncationParams {
            max_length: 8,
            stride: 2,
            ..Default::default()
        }))
        .unwrap();
    // A stride at or above the truncation length would make the encode call
    // abort the process; plant one through the mutable accessor, which
    // validates nothing.
    tokenizer.get_truncation_mut().unwrap().stride = 99;
    let mut loader = TxtLoader::new(vec!["a".to_string()]);
    let refused = TokenizerStage::new(&mut loader, tokenizer);
    assert!(matches!(refused, Err(PipelineError::TokenizerConfig)));
    // The loader was not consumed by the refused construction.
    let mut stage = TokenizerStage::new(&mut loader, letters_tokenizer()).unwrap();
    assert!(stage.next().unwrap().is_some());
}

#[test]
fn one_sided_truncation_with_a_stride_is_refused() {
    // Under the only-second strategy the context shrinks by the whole
    // overflow, far below half the max length, so a nonzero stride can meet
    // the encode call's stride assertion; such a tokenizer is refused even
    // though the crate's own truncation setter accepts it.
    let mut tokenizer = qa_tokenizer();
    tokenizer
        .with_truncation(Some(tokenizers::TruncationParams {
            max_length: 100,
            stride: 49,
            strategy: tokenizers::TruncationStrategy::OnlySecond,
            ..Default::default()
        }))
        .unwrap();
    let mut loader = SQuADLoader::new(qa_squad());
    let refused = TokenizerStage::new(&mut loader, tokenizer);
    assert!(matches!(refused, Err(PipelineError::TokenizerConfig)));
}

#[test]
fn one_sided_truncation_with_zero_stride_is_accepted() {
    let mut tokenizer = qa_tokenizer();
    tokenizer
        .with_truncation(Some(tokenizers::TruncationParams {
            max_length: 5,
            stride: 0,
            strategy: tokenizers::TruncationStrategy::OnlySecond,
            ..Default::default()
        }))
        .unwrap();
    let mut loader = SQuADLoader::new(qa_squad());
    let mut stage = TokenizerStage::new(&mut loader, tokenizer).unwrap();
    // Question what(5) is(6) fat(2) plus a context cut from four tokens to
    // two: the(1) fat(2).
    let sample = stage.next().unwrap().unwrap();
    assert_eq!(sample.encoding.input_ids, vec![5, 6, 2, 1, 2]);
}

#[test]
fn sound_truncation_parameters_are_accepted() {
    let mut tokenizer = letters_tokenizer();
    tokenizer
        .with_truncation(Some(tokenizers::TruncationParams {
            max_length: 4,
            stride: 1,
            ..Default::default()
        }))
        .unwrap();
    let mut loader = TxtLoader::new(vec!["a b c see dee e".to_string()]);
    let mut stage = TokenizerStage::new(&mut loader, tokenizer).unwrap();
    let sample = stage.next().unwrap().unwrap();
    // The tokenizer truncated the encoding itself: four ids survive.
    assert_eq!(sample.encoding.input_ids, vec![0, 1, 2, 3]);
}

#[test]
fn batcher_yields_padded_fixed_shape_batches() {
    let lines = vec![
        "a b c see dee e".to_string(),
        "a".to_string(),
        "b c".to_string(),
        "see dee".to_string(),
        "e".to_string(),
    ];
    let mut loader = TxtLoader::new(lines);
    let mut stage = TokenizerStage::new(&mut loader, letters_tokenizer()).unwrap();
    let mut batcher = StaticBatcher::new(&mut stage, 2, 4).unwrap();

    // The streaming source reports no count, so neither does the batcher.
    assert!(matches!(batcher.len(), Ok(None)));

    let first = batcher.next().unwrap().unwrap();
    assert_eq!(first.encoding.input_ids, vec![vec![0, 1, 2, 3], vec![0, 0, 0, 0]]);
    assert_eq!(first.encoding.pad_token, 0);

    let second = batcher.next().unwrap().unwrap();
    assert_eq!(second.encoding.input_ids, vec![vec![1, 2, 0, 0], vec![3, 4, 0, 0]]);

    let third = batcher.next().unwrap().unwrap();
    assert_eq!(third.encoding.input_ids, vec![vec![5, 0, 0, 0]]);

    assert!(matches!(batcher.next(), Ok(None)));
    assert!(matches!(batcher.next(), Ok(None)));
}

#[test]
fn create_batch_pads_truncates_and_takes_last_pad() {
    // Any batcher handle carries the row length; the inner stage is empty.
    let mut loader = TxtLoader::new(Vec::new());
    let mut stage = TokenizerStage::new(&mut loader, letters_tokenizer()).unwrap();
    let batcher = StaticBatcher::new(&mut stage, 2, 3).unwrap();
    let samples = vec![
        TokenizedText {
            encoding: SampleEncoding { input_ids: vec![1, 2, 3, 4], pad_token: 7 },
            label: sample_pipeline::NoTokenizedLabel,
        },
        TokenizedText {
            encoding: SampleEncoding { input_ids: vec![9], pad_token: 5 },
            label: sample_pipeline::NoTokenizedLabel,
        },
    ];
    let batch = batcher.create_batch(samples);
    assert_eq!(batch.encoding.pad_token, 5);
    assert_eq!(batch.encoding.input_ids, vec![vec![1, 2, 3], vec![9, 5, 5]]);
    assert_eq!(batch.labels, sample_pipeline::NoBatchLabel);
}

#[test]
fn zero_batch_shape_is_refused() {
    let mut loader = TxtLoader::new(vec!["a".to_string()]);
    let mut stage = TokenizerStage::new(&mut loader, letters_tokenizer()).unwrap();
    assert!(matches!(
        StaticBatcher::new(&mut stage, 0, 4),
        Err(PipelineError::BatchConfig)
    ));
    assert!(matches!(
        StaticBatcher::new(&mut stage, 2, 0),
        Err(PipelineError::BatchConfig)
    ));
    // The inner stage was not consumed by the refused configurations.
    let mut batcher = StaticBatcher::new(&mut stage, 2, 4).unwrap();
    assert!(batcher.next().unwrap().is_some());
}

fn qa_tokenizer() -> tokenizers::Tokenizer {
    word_tokenizer(&[("the", 1), ("fat", 2), ("cat", 3), ("sat", 4), ("what", 5), ("is", 6)])
}

fn qa_squad() -> SQuAD {
    SQuAD {
        data: vec![SQuADTopic {
            title: "cats".to_string(),
            paragraphs: vec![SQuADParagraph {
                context: "the fat cat sat".to_string(),
                qas: vec![
                    SQuADQuestion {
                        id: None,
                        question: "what is fat".to_string(),
                        answers: vec![SQuADAnswer { answer_start: 4, text: "fat".to_string() }],
                        is_impossible: false,
                    },
                    SQuADQuestion {
                        id: None,
                        question: "what is the".to_string(),
                        answers: vec![SQuADAnswer { answer_start: 0, text: "the".to_string() }],
                        is_impossible: true,
                    },
                ],
            }],
        }],
    }
}

#[test]
fn qa_pipeline_aligns_spans_to_context_tokens() {
    let mut loader = SQuADLoader::new(qa_squad());
    let mut stage = TokenizerStage::new(&mut loader, qa_tokenizer()).unwrap();
    assert!(matches!(stage.len(), Ok(Some(2))));
    // Question tokens: what(5) is(6) fat(2); context: the(1) fat(2) cat(3)
    // sat(4). "fat" covers characters 4..6 of the context and is the second
    // context token, token 4 of the combined encoding.
    let first = stage.next().unwrap().unwrap();
    assert_eq!(first.encoding.input_ids, vec![5, 6, 2, 1, 2, 3, 4]);
    assert_eq!(first.label, TokenizedSpan(Some((4, 4))));
    // The impossible question carries no span.
    let second = stage.next().unwrap().unwrap();
    assert_eq!(second.label, TokenizedSpan(None));
}

#[test]
fn qa_pipeline_batches_spans_with_sentinels() {
    let mut loader = SQuADLoader::new(qa_squad());
    let mut stage = TokenizerStage::new(&mut loader, qa_tokenizer()).unwrap();
    let mut batcher = StaticBatcher::new(&mut stage, 2, 6).unwrap();
    assert!(matches!(batcher.len(), Ok(Some(1))));
    let batch = batcher.next().unwrap().unwrap();
    assert_eq!(
        batch.encoding.input_ids,
        vec![vec![5, 6, 2, 1, 2, 3], vec![5, 6, 1, 1, 2, 3]]
    );
    assert_eq!(batch.labels.start, vec![4, 0]);
    assert_eq!(batch.labels.end, vec![4, 0]);
    assert!(matches!(batcher.next(), Ok(None)));
}

#[test]
fn random_access_support_is_a_capability_not_a_range_check() {
    // A streaming pipeline refuses random access for every index; a
    // materialized one supports it, and signals "out of range" separately.
    let mut txt = TxtLoader::new(vec!["a".to_string()]);
    assert!(!txt.supports_random_access());
    let txt_stage = TokenizerStage::new(&mut txt, letters_tokenizer()).unwrap();
    assert!(!txt_stage.supports_random_access());
    assert!(matches!(txt_stage.get(0), Ok(None)));
    let squad = SQuADLoader::new(qa_squad());
    assert!(squad.supports_random_access());
    assert!(matches!(squad.get(17), Ok(None)));
}

#[test]
fn reported_len_excludes_the_dangling_partial_batch() {
    let mut squad = qa_squad();
    let extra = SQuADQuestion {
        id: None,
        question: "what sat".to_string(),
        answers: vec![SQuADAnswer { answer_start: 12, text: "sat".to_string() }],
        is_impossible: false,
    };
    squad.data[0].paragraphs[0].qas.push(extra);
    let mut loader = SQuADLoader::new(squad);
    let mut stage = TokenizerStage::new(&mut loader, qa_tokenizer()).unwrap();
    let mut batcher = StaticBatcher::new(&mut stage, 2, 6).unwrap();
    // Three samples at batch size two: len reports one whole batch, while
    // next still yields the partial second batch once.
    assert!(matches!(batcher.len(), Ok(Some(1))));
    assert_eq!(batcher.next().unwrap().unwrap().encoding.input_ids.len(), 2);
    assert_eq!(batcher.next().unwrap().unwrap().encoding.input_ids.len(), 1);
    assert!(matches!(batcher.next(), Ok(None)));
}

#[test]
fn qa_batcher_supports_random_access() {
    let mut loader = SQuADLoader::new(qa_squad());
    let mut stage = TokenizerStage::new(&mut loader, qa_tokenizer()).unwrap();
    let batcher = StaticBatcher::new(&mut stage, 1, 6).unwrap();
    let second = batcher.get(1).unwrap().unwrap();
    assert_eq!(second.labels.start, vec![0]);
    assert_eq!(second.labels.end, vec![0]);
    let first = batcher.get(0).unwrap().unwrap();
    assert_eq!(first.labels.start, vec![4]);
    assert_eq!(first.labels.end, vec![4]);
    assert!(matches!(batcher.get(2), Ok(None)));
}
