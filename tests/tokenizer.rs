use word_ai::encoding::TokenizerResult;
use word_ai::tokenizer::{result_from_encoded, TokenizerState};

const VOCAB_JSON: &str = r#"{"version":"1.0","truncation":null,"padding":null,"added_tokens":[],"normalizer":null,"pre_tokenizer":{"type":"Whitespace"},"post_processor":null,"decoder":null,"model":{"type":"WordLevel","vocab":{"[UNK]":0,"hello":1,"world":2},"unk_token":"[UNK]"}}"#;

fn loaded() -> TokenizerState {
    let mut t = TokenizerState::new();
    assert!(t.setup_tokenizer(VOCAB_JSON.as_bytes()).is_ok());
    t
}

fn encoded(r: TokenizerResult) -> (Vec<String>, Vec<i64>, Vec<i64>) {
    match r {
        TokenizerResult::Encoded(e) => (e.tokens, e.input_ids, e.attention_mask),
        TokenizerResult::Failed(m) => panic!("tokenization failed: {}", m),
    }
}

#[test]
fn tokenize_before_setup_fails() {
    let t = TokenizerState::new();
    match t.tokenize("hello world") {
        TokenizerResult::Failed(m) => assert_eq!(m, "Tokenizer not initialized"),
        TokenizerResult::Encoded(_) => panic!("no tokenizer is loaded"),
    }
}

#[test]
fn try_tokenizer_hello_world() {
    let (tokens, ids, mask) = encoded(loaded().tokenize("hello world"));
    assert_eq!(tokens, vec!["hello".to_string(), "world".to_string()]);
    assert_eq!(ids, vec![1, 2]);
    assert_eq!(mask, vec![1, 1]);
}

#[test]
fn unknown_word_maps_to_unknown_id() {
    let (tokens, ids, mask) = encoded(loaded().tokenize("hello there"));
    assert_eq!(tokens, vec!["hello".to_string(), "[UNK]".to_string()]);
    assert_eq!(ids, vec![1, 0]);
    assert_eq!(mask, vec![1, 1]);
}

#[test]
fn repeated_tokenize_is_identical() {
    let t = loaded();
    assert_eq!(encoded(t.tokenize("world hello")), encoded(t.tokenize("world hello")));
}

#[test]
fn failed_setup_keeps_previous_tokenizer() {
    let mut t = loaded();
    assert!(t.setup_tokenizer(b"{ not a tokenizer").is_err());
    let (_, ids, _) = encoded(t.tokenize("world"));
    assert_eq!(ids, vec![2]);
}

#[test]
fn setup_twice_with_same_bytes() {
    let mut t = loaded();
    let before = encoded(t.tokenize("hello world"));
    assert!(t.setup_tokenizer(VOCAB_JSON.as_bytes()).is_ok());
    assert_eq!(encoded(t.tokenize("hello world")), before);
}

#[test]
fn truncated_artifact_is_rejected() {
    let mut t = TokenizerState::new();
    assert!(t.setup_tokenizer(&VOCAB_JSON.as_bytes()[..40]).is_err());
    assert!(matches!(t.tokenize("hello"), TokenizerResult::Failed(_)));
}

#[test]
fn encoded_output_widens_ids() {
    let out = Ok((vec!["a".to_string(), "b".to_string()], vec![7u32, u32::MAX]));
    let (tokens, ids, mask) = encoded(result_from_encoded(out));
    assert_eq!(tokens, vec!["a".to_string(), "b".to_string()]);
    assert_eq!(ids, vec![7, u32::MAX as i64]);
    assert_eq!(mask, vec![1, 1]);
}

#[test]
fn encoded_output_with_unequal_counts_fails() {
    let out = Ok((vec!["a".to_string()], vec![1u32, 2]));
    match result_from_encoded(out) {
        TokenizerResult::Failed(m) => assert_eq!(m, "Tokenizer returned unequal token and id counts"),
        TokenizerResult::Encoded(_) => panic!("counts differ"),
    }
}

#[test]
fn encoder_error_is_passed_on() {
    match result_from_encoded(Err("bad input".to_string())) {
        TokenizerResult::Failed(m) => assert_eq!(m, "Tokenizer error: bad input"),
        TokenizerResult::Encoded(_) => panic!("the encoder failed"),
    }
}

const TRUNCATING_JSON: &str = r#"{"version":"1.0","truncation":{"direction":"Right","max_length":1,"strategy":"LongestFirst","stride":0},"padding":{"strategy":{"Fixed":8},"direction":"Right","pad_to_multiple_of":null,"pad_id":0,"pad_type_id":0,"pad_token":"[PAD]"},"added_tokens":[],"normalizer":null,"pre_tokenizer":{"type":"Whitespace"},"post_processor":{"type":"BertProcessing","sep":["[SEP]",4],"cls":["[CLS]",3]},"decoder":null,"model":{"type":"WordLevel","vocab":{"[UNK]":0,"hello":1,"world":2,"[CLS]":3,"[SEP]":4},"unk_token":"[UNK]"}}"#;

#[test]
fn empty_text_gives_empty_encoding() {
    let (tokens, ids, mask) = encoded(loaded().tokenize(""));
    assert!(tokens.is_empty() && ids.is_empty() && mask.is_empty());
}

#[test]
fn truncation_and_padding_are_switched_off() {
    let mut t = TokenizerState::new();
    assert!(t.setup_tokenizer(TRUNCATING_JSON.as_bytes()).is_ok());
    let (tokens, ids, mask) = encoded(t.tokenize("hello world"));
    assert_eq!(tokens, vec!["[CLS]".to_string(), "hello".to_string(), "world".to_string(), "[SEP]".to_string()]);
    assert_eq!(ids, vec![3, 1, 2, 4]);
    assert_eq!(mask, vec![1, 1, 1, 1]);
}
