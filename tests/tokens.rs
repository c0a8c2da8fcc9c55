use llmnop::tokens::{
    count_tokens, find_largest_prefix_index, get_tokenizer, truncate_to_token_count,
    truncate_with_counter,
};

const TEST_TOKENIZER: &str = "hf-internal-testing/llama-tokenizer";

/// The test tokenizer comes from the Hugging Face hub (or its local cache);
/// the cases that count tokens with it need it to be reachable.
fn tokenizer_available() -> bool {
    match get_tokenizer(TEST_TOKENIZER) {
        Ok(_) => true,
        Err(e) => {
            println!("skipping the cases that need {}: {}", TEST_TOKENIZER, e);
            false
        }
    }
}

#[test]
fn test_truncate_to_token_count() {
    assert_eq!(truncate_to_token_count("", 10, TEST_TOKENIZER).unwrap(), "");
    if !tokenizer_available() {
        return;
    }

    let short_text = "Hello world";
    let short_token_count = count_tokens(short_text, TEST_TOKENIZER).unwrap();
    assert!(short_token_count < 10);
    assert_eq!(truncate_to_token_count(short_text, 10, TEST_TOKENIZER).unwrap(), short_text);

    let long_text =
        "Shall I compare thee to a summer's day? Thou art more lovely and more temperate.";
    let truncated = truncate_to_token_count(long_text, 5, TEST_TOKENIZER).unwrap();
    assert!(count_tokens(&truncated, TEST_TOKENIZER).unwrap() <= 5);
    assert!(long_text.starts_with(&truncated));
}

#[test]
fn test_find_largest_prefix_index() {
    let text = "The quick brown fox jumps over the lazy dog";

    let result = find_largest_prefix_index(text, |_| Ok(true)).unwrap();
    assert_eq!(result, text.chars().count());

    let result = find_largest_prefix_index(text, |_| Ok(false)).unwrap();
    assert_eq!(result, 0);
    if !tokenizer_available() {
        return;
    }

    let token_limit = 5;
    let result = find_largest_prefix_index(text, |prefix| {
        Ok(count_tokens(prefix, TEST_TOKENIZER).unwrap() <= token_limit)
    })
    .unwrap();

    let found_prefix: String = text.chars().take(result).collect();
    assert!(count_tokens(&found_prefix, TEST_TOKENIZER).unwrap() <= token_limit);

    if result < text.chars().count() {
        let next_prefix: String = text.chars().take(result + 1).collect();
        assert!(count_tokens(&next_prefix, TEST_TOKENIZER).unwrap() > token_limit);
    }
}

#[test]
fn prefix_search_finds_longest_accepted_prefix() {
    let text = "abcdefghij";
    let r = find_largest_prefix_index(text, |p| Ok(p.chars().count() <= 4)).unwrap();
    assert_eq!(r, 4);
    let r = find_largest_prefix_index("", |_| Ok(false)).unwrap();
    assert_eq!(r, 0);
    let r = find_largest_prefix_index(text, |_| Err("broken".to_string()));
    assert_eq!(r, Err("broken".to_string()));
}

#[test]
fn truncation_with_a_word_counter() {
    let words = |s: &str| -> Result<u32, String> { Ok(s.split_whitespace().count() as u32) };
    assert_eq!(truncate_with_counter("one two three four", 2, words).unwrap(), "one two ");
    // A text that already fits comes back whole.
    assert_eq!(truncate_with_counter("one two", 5, words).unwrap(), "one two");
    assert_eq!(truncate_with_counter("one two ", 2, words).unwrap(), "one two ");
    assert_eq!(truncate_with_counter("one two", 0, words).unwrap(), "");
    assert_eq!(truncate_with_counter("", 3, words).unwrap(), "");
}
