//! A pull-based pipeline that prepares natural-language training samples:
//! loaders produce raw samples, a tokenizer stage turns them into token-id
//! encodings while carrying an optional answer-span label along, and a batcher
//! stage packs tokenized samples into dense, padded, fixed-shape batches.

pub mod batcher;
pub mod datasets;
pub mod external;
pub mod labels;
pub mod node;
pub mod samples;
pub mod tokenizer_stage;

pub use batcher::Batch;
pub use batcher::BatchEncoding;
pub use batcher::StaticBatcher;
pub use datasets::SQuAD;
pub use datasets::SQuADAnswer;
pub use datasets::SQuADLoader;
pub use datasets::SQuADParagraph;
pub use datasets::SQuADQuestion;
pub use datasets::SQuADTopic;
pub use datasets::TxtLoader;
pub use labels::BatchLabel;
pub use labels::BatchSpan;
pub use labels::Label;
pub use labels::NoBatchLabel;
pub use labels::NoLabel;
pub use labels::NoTokenizedLabel;
pub use labels::Span;
pub use labels::TokenizedLabel;
pub use labels::TokenizedSpan;
pub use node::Node;
pub use node::PipelineError;
pub use samples::Sample;
pub use samples::SampleEncoding;
pub use samples::Text;
pub use samples::TextPair;
pub use samples::TokenizedText;
pub use tokenizer_stage::TokenizerStage;
