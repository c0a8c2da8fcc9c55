use llmnop::prompt::{
    corpus_chunks, join_encodings, length_target, output_cap, sample_window, PromptConfig,
};
use llmnop::sonnet::{get_shuffled_sonnet_lines, sonnet_lines, SONNET};

#[test]
fn test_get_shuffled_sonnet_lines_length() {
    let shuffled_lines = get_shuffled_sonnet_lines();
    assert_eq!(shuffled_lines.len(), sonnet_lines().len());
}

#[test]
fn test_get_shuffled_sonnet_lines_content() {
    let shuffled_lines = get_shuffled_sonnet_lines();
    let lines = sonnet_lines();
    for line in shuffled_lines.iter() {
        assert!(lines.contains(line));
    }
}

#[test]
fn corpus_splits_into_its_lines() {
    let lines = sonnet_lines();
    assert_eq!(lines.len(), 84);
    assert_eq!(lines[0], "Shall I compare thee to a summer's day?");
    assert_eq!(lines.join("\n"), SONNET);
}

#[test]
fn chunks_cover_the_text() {
    let chunks = corpus_chunks(SONNET, 1000);
    assert!(chunks.iter().all(|c| !c.is_empty() && c.chars().count() <= 1000));
    assert_eq!(chunks.concat(), SONNET);
    assert_eq!(corpus_chunks("", 10), Vec::<String>::new());
    assert_eq!(corpus_chunks("abcde", 2), vec!["ab".to_string(), "cd".to_string(), "e".to_string()]);
}

#[test]
fn window_wraps_around() {
    let corpus = vec![10, 11, 12, 13];
    assert_eq!(sample_window(&corpus, 2, 6), vec![12, 13, 10, 11, 12, 13]);
    assert_eq!(sample_window(&corpus, 0, 0), Vec::<u32>::new());
}

#[test]
fn length_targets() {
    assert_eq!(length_target(550, 0, -3), Some(550));
    assert_eq!(length_target(0, 0, 7), Some(1));
    assert_eq!(length_target(550, 150, 612), Some(612));
    assert_eq!(length_target(550, 150, 0), None);
    assert_eq!(length_target(550, 150, 1 << 40), None);
}

#[test]
fn encodings_join_in_order() {
    assert_eq!(join_encodings(&vec![vec![1, 2], vec![], vec![3]]), vec![1, 2, 3]);
    assert_eq!(join_encodings(&vec![]), Vec::<u32>::new());
}

#[test]
fn output_cap_only_when_shaping() {
    let mut p = PromptConfig {
        mean_input_tokens: 550,
        stddev_input_tokens: 150,
        mean_output_tokens: None,
        stddev_output_tokens: 10,
    };
    assert_eq!(output_cap(&p, 77), Some(None));
    p.mean_output_tokens = Some(150);
    assert_eq!(output_cap(&p, 148), Some(Some(148)));
    assert_eq!(output_cap(&p, 0), None);
    p.stddev_output_tokens = 0;
    assert_eq!(output_cap(&p, -5), Some(Some(150)));
}
