use embed_pipeline::assemble::validate_output;
use embed_pipeline::errors::EmbedError;
use embed_pipeline::pipeline::{finish_embed_batch, prepare_embed_batch, MLState};
use embed_pipeline::ready::ReadinessCell;
use embed_pipeline::tensor::{build_batch_tensors, TokenEncoding};

/// A tiny word-level tokenizer with whitespace splitting; the unknown
/// token is resolvable only when `unk_in_vocab` is set.
fn tiny_tokenizer(unk_in_vocab: bool) -> tokenizers::Tokenizer {
    let json = if unk_in_vocab {
        r#"{"version":"1.0","pre_tokenizer":{"type":"Whitespace"},"model":{"type":"WordLevel","vocab":{"hello":0,"world":1,"a":2,"[UNK]":3},"unk_token":"[UNK]"}}"#
    } else {
        r#"{"version":"1.0","pre_tokenizer":{"type":"Whitespace"},"model":{"type":"WordLevel","vocab":{"hello":0,"world":1,"a":2},"unk_token":"[UNK]"}}"#
    };
    tokenizers::Tokenizer::from_bytes(json.as_bytes()).expect("tokenizer json")
}

fn ready_cell(unk_in_vocab: bool) -> ReadinessCell<MLState<()>> {
    let mut cell = ReadinessCell::new();
    let state = MLState { tokenizer: tiny_tokenizer(unk_in_vocab), session: () };
    assert!(cell.publish(state).is_ok());
    cell
}

#[test]
fn publish_succeeds_once() {
    let mut cell: ReadinessCell<u64> = ReadinessCell::new();
    assert!(cell.publish(7).is_ok());
    assert_eq!(cell.publish(9), Err(EmbedError::AlreadyInitialized));
    assert_eq!(cell.read(), Ok(&7));
}

#[test]
fn read_before_publish_fails_fast() {
    let cell: ReadinessCell<u64> = ReadinessCell::new();
    assert_eq!(cell.read(), Err(EmbedError::NotInitialized));
}

#[test]
fn embed_before_init_is_not_initialized() {
    let cell: ReadinessCell<MLState<()>> = ReadinessCell::new();
    let chunks = vec!["hello world".to_string()];
    assert!(matches!(prepare_embed_batch(&cell, &chunks), Err(EmbedError::NotInitialized)));
    // Readiness is checked before anything else: even an empty batch fails.
    let empty: Vec<String> = Vec::new();
    assert!(matches!(prepare_embed_batch(&cell, &empty), Err(EmbedError::NotInitialized)));
}

#[test]
fn embed_empty_batch_skips_the_model() {
    let cell = ready_cell(true);
    let empty: Vec<String> = Vec::new();
    let plan = prepare_embed_batch(&cell, &empty).expect("empty batch is fine");
    assert!(plan.is_none());
}

#[test]
fn batch_relative_padding() {
    let encs = vec![
        TokenEncoding { ids: vec![1, 2, 3], mask: vec![1, 1, 1] },
        TokenEncoding { ids: vec![4, 5, 6, 7, 8, 9, 10], mask: vec![1, 1, 1, 1, 1, 1, 1] },
        TokenEncoding { ids: vec![11, 12, 13, 14, 15], mask: vec![1, 1, 1, 1, 1] },
    ];
    let t = build_batch_tensors(&encs).expect("builds");
    assert_eq!(t.rows, 3);
    assert_eq!(t.cols, 7);
    assert_eq!(t.ids.len(), 21);
    assert_eq!(t.mask.len(), 21);
    assert_eq!(t.ids[..7], [1, 2, 3, 0, 0, 0, 0]);
    assert_eq!(t.ids[7..14], [4, 5, 6, 7, 8, 9, 10]);
    assert_eq!(t.ids[14..], [11, 12, 13, 14, 15, 0, 0]);
    assert_eq!(t.mask[..7], [1, 1, 1, 0, 0, 0, 0]);
    assert_eq!(t.mask[14..], [1, 1, 1, 1, 1, 0, 0]);
}

#[test]
fn empty_encoding_list_builds_empty_tensor() {
    let encs: Vec<TokenEncoding> = Vec::new();
    let t = build_batch_tensors(&encs).expect("builds");
    assert_eq!(t.rows, 0);
    assert_eq!(t.cols, 0);
    assert!(t.ids.is_empty());
    assert!(t.mask.is_empty());
}

#[test]
fn single_chunk_pads_to_its_own_length() {
    let encs = vec![TokenEncoding { ids: vec![9, 8], mask: vec![1, 1] }];
    let t = build_batch_tensors(&encs).expect("builds");
    assert_eq!(t.rows, 1);
    assert_eq!(t.cols, 2);
    assert_eq!(t.ids, vec![9, 8]);
    assert_eq!(t.mask, vec![1, 1]);
}

#[test]
fn prepare_tokenizes_and_pads() {
    let cell = ready_cell(true);
    let chunks = vec!["hello world".to_string(), "a".to_string()];
    let t = prepare_embed_batch(&cell, &chunks).expect("prepares").expect("non-empty");
    assert_eq!(t.rows, 2);
    assert_eq!(t.cols, 2);
    assert_eq!(t.ids, vec![0, 1, 2, 0]);
    assert_eq!(t.mask, vec![1, 1, 1, 0]);
}

#[test]
fn tokenization_failure_aborts_the_batch() {
    let cell = ready_cell(false);
    let chunks = vec!["hello".to_string(), "unmapped".to_string()];
    assert!(matches!(prepare_embed_batch(&cell, &chunks), Err(EmbedError::TokenizationFailure)));
}

#[test]
fn end_to_end_known_dimension() {
    let chunks = vec!["hello world".to_string(), "a".to_string()];
    let shape = vec![2usize, 384usize];
    let data: Vec<u32> = (0..768u32).collect();
    let res = finish_embed_batch(&chunks, &shape, &data).expect("assembles");
    assert_eq!(res.len(), 2);
    assert_eq!(res[0].chunk_text, "hello world");
    assert_eq!(res[1].chunk_text, "a");
    assert_eq!(res[0].embedding.len(), 384);
    assert_eq!(res[1].embedding.len(), 384);
    assert_eq!(res[0].embedding[0], 0);
    assert_eq!(res[1].embedding[0], 384);
}

#[test]
fn order_and_cardinality_preserved() {
    let chunks = vec!["b".to_string(), "a".to_string(), "c".to_string()];
    let shape = vec![3usize, 1usize];
    let data = vec![10u32, 20u32, 30u32];
    let res = finish_embed_batch(&chunks, &shape, &data).expect("assembles");
    assert_eq!(res.len(), 3);
    assert_eq!(res[0].chunk_text, "b");
    assert_eq!(res[1].chunk_text, "a");
    assert_eq!(res[2].chunk_text, "c");
    assert_eq!(res[0].embedding, vec![10]);
    assert_eq!(res[1].embedding, vec![20]);
    assert_eq!(res[2].embedding, vec![30]);
}

#[test]
fn output_rank_is_validated() {
    let chunks = vec!["x".to_string(), "y".to_string()];
    let rank3 = vec![2usize, 3usize, 4usize];
    let data = vec![0u32; 24];
    assert!(matches!(finish_embed_batch(&chunks, &rank3, &data), Err(EmbedError::ShapeMismatch)));
    let wrong_rows = vec![3usize, 4usize];
    let data12 = vec![0u32; 12];
    assert!(matches!(
        finish_embed_batch(&chunks, &wrong_rows, &data12),
        Err(EmbedError::ShapeMismatch)
    ));
    let short_data = vec![0u32; 5];
    let good_shape = vec![2usize, 3usize];
    assert!(matches!(
        finish_embed_batch(&chunks, &good_shape, &short_data),
        Err(EmbedError::ShapeMismatch)
    ));
    assert_eq!(validate_output(&good_shape, 2, 6), Ok(3));
}

#[test]
fn dimensions_agree_across_calls() {
    let chunks1 = vec!["p".to_string()];
    let chunks2 = vec!["q".to_string(), "r".to_string()];
    let res1 = finish_embed_batch(&chunks1, &vec![1usize, 4usize], &vec![0u32; 4]).unwrap();
    let res2 = finish_embed_batch(&chunks2, &vec![2usize, 4usize], &vec![0u32; 8]).unwrap();
    for r in res1.iter().chain(res2.iter()) {
        assert_eq!(r.embedding.len(), 4);
    }
}

#[test]
fn artifact_paths_follow_the_layout() {
    let (model, tokenizer) = embed_pipeline::pipeline::artifact_paths("/res");
    assert_eq!(model, "/res/all-MiniLM-L6-v2/model.onnx");
    assert_eq!(tokenizer, "/res/all-MiniLM-L6-v2/tokenizer.json");
}

#[test]
fn error_messages_are_descriptive() {
    assert_eq!(EmbedError::NotInitialized.message(), "ML state not initialized");
    assert_eq!(EmbedError::LoadFailure.message(), "failed to load model artifacts");
    assert_eq!(EmbedError::AlreadyInitialized.message(), "ML state already initialized");
    assert_eq!(EmbedError::TokenizationFailure.message(), "tokenization failed");
    assert_eq!(EmbedError::ShapeMismatch.message(), "unexpected tensor shape");
    assert_eq!(EmbedError::InferenceFailure.message(), "model execution failed");
}
