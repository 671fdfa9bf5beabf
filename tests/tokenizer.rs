use bord::tokenizer::{attention_mask, model_inputs, Tokenizer, MAX_LEN};

// ids: [PAD]=0 [UNK]=1 [CLS]=2 [SEP]=3 hello=4 world=5 ,=6 !=7 #ing=8 the=9
const VOCAB: &str = "[PAD]\n[UNK]\n[CLS]\n[SEP]\nhello\nworld\n,\n!\n#ing\nthe\n";

fn padded(prefix: &[i64], pad: i64) -> Vec<i64> {
    let mut v = prefix.to_vec();
    while v.len() < MAX_LEN {
        v.push(pad);
    }
    v
}

#[test]
fn empty_text_gives_markers_then_padding() {
    let t = Tokenizer::load(VOCAB);
    let ids = t.tokenize("");
    assert_eq!(ids.len(), 128);
    assert_eq!(ids[0], 2);
    assert_eq!(ids[1], 3);
    assert!(ids[2..].iter().all(|&x| x == 0));
}

#[test]
fn words_and_punctuation_are_lowercased_and_split() {
    let t = Tokenizer::load(VOCAB);
    let ids = t.tokenize("Hello, WORLD!");
    assert_eq!(ids, padded(&[2, 4, 6, 5, 7, 3], 0));
}

#[test]
fn unknown_word_maps_to_unk_entry() {
    let t = Tokenizer::load(VOCAB);
    let ids = t.tokenize("hello zebra");
    assert_eq!(ids, padded(&[2, 4, 1, 3], 0));
}

#[test]
fn unknown_word_without_unk_entry_maps_to_fallback() {
    let t = Tokenizer::load("[CLS]\n[SEP]\nhello\n");
    let ids = t.tokenize("zebra");
    assert_eq!(ids, padded(&[0, 100, 1], 0));
}

#[test]
fn subword_prefix_is_tried_second() {
    let t = Tokenizer::load(VOCAB);
    assert_eq!(t.get_token_id("ing"), 8);
    assert_eq!(t.get_token_id("hello"), 4);
    assert_eq!(t.get_token_id("nothing"), 1);
}

#[test]
fn padding_uses_pad_entry_id() {
    let t = Tokenizer::load("[CLS]\n[SEP]\n[PAD]\nhi\n");
    let ids = t.tokenize("hi");
    assert_eq!(ids, padded(&[0, 3, 1], 2));
}

#[test]
fn missing_markers_are_left_out() {
    let t = Tokenizer::load("hello\n");
    let ids = t.tokenize("hello");
    assert_eq!(ids, padded(&[0], 0));
}

#[test]
fn long_text_is_truncated_to_fixed_length() {
    let t = Tokenizer::load(VOCAB);
    let text = vec!["the"; 300].join(" ");
    let ids = t.tokenize(&text);
    assert_eq!(ids.len(), 128);
    assert_eq!(ids[0], 2);
    assert!(ids[1..].iter().all(|&x| x == 9));
}

#[test]
fn whitespace_of_all_kinds_separates_words() {
    let t = Tokenizer::load(VOCAB);
    let ids = t.tokenize("  hello\tworld\n\nthe  ");
    assert_eq!(ids, padded(&[2, 4, 5, 9, 3], 0));
}

#[test]
fn vocabulary_lines_are_trimmed_and_last_duplicate_wins() {
    let t = Tokenizer::load("  hello \r\nworld\nhello\n");
    assert_eq!(t.get_token_id("hello"), 2);
    assert_eq!(t.get_token_id("world"), 1);
}

#[test]
fn tokenizing_twice_gives_the_same_sequence() {
    let t = Tokenizer::load(VOCAB);
    let a = t.tokenize("Hello there, world!");
    let b = t.tokenize("Hello there, world!");
    assert_eq!(a, b);
}

#[test]
fn mask_is_zero_exactly_where_token_is_zero() {
    let tokens = vec![5, 0, 3, 0, 7];
    assert_eq!(attention_mask(&tokens), vec![1, 0, 1, 0, 1]);
}

#[test]
fn mask_does_not_hide_nonzero_padding() {
    // The mask follows the literal rule "id == 0", not "id == pad id".
    let t = Tokenizer::load("[CLS]\n[SEP]\n[PAD]\nhi\n");
    let (tokens, mask) = model_inputs(&t, "hi");
    assert_eq!(tokens[3], 2);
    assert_eq!(mask[3], 1);
    assert_eq!(mask[0], 0);
}

#[test]
fn model_inputs_pair_tokens_with_mask() {
    let t = Tokenizer::load(VOCAB);
    let (tokens, mask) = model_inputs(&t, "hello world");
    assert_eq!(tokens, padded(&[2, 4, 5, 3], 0));
    assert_eq!(mask, padded(&[1, 1, 1, 1], 0));
}
