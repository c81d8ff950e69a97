use whispering::text::clean_text;
use whispering::transcript::{append_with_overlap, normalize_word, split_committed_and_partial};
use whispering::whisper::{WhisperOutput, WhisperSegment};

#[test]
fn append_removes_word_overlap() {
    let mut text = "hello world".to_string();
    append_with_overlap(&mut text, "world again");
    assert_eq!(text, "hello world again");
}

#[test]
fn append_keeps_non_overlapping_text() {
    let mut text = "hello".to_string();
    append_with_overlap(&mut text, "world");
    assert_eq!(text, "hello world");
}

#[test]
fn append_matches_words_ignoring_case_and_punctuation() {
    let mut text = "Hello, world.".to_string();
    append_with_overlap(&mut text, "WORLD again");
    assert_eq!(text, "Hello, world. again");
}

#[test]
fn append_to_blank_target_keeps_its_whitespace() {
    let mut text = "   ".to_string();
    append_with_overlap(&mut text, "  hi  ");
    assert_eq!(text, "   hi");
}

#[test]
fn append_after_trailing_space_adds_no_second_space() {
    let mut text = "abc ".to_string();
    append_with_overlap(&mut text, "def");
    assert_eq!(text, "abc def");
}

#[test]
fn append_of_blank_addition_changes_nothing() {
    let mut text = "abc".to_string();
    append_with_overlap(&mut text, " \t ");
    assert_eq!(text, "abc");
}

#[test]
fn append_prefers_the_longest_overlap() {
    let mut text = "a b a b".to_string();
    append_with_overlap(&mut text, "a b a b c");
    assert_eq!(text, "a b a b c");
}

#[test]
fn append_twice_is_append_once() {
    let mut once = "we went to the".to_string();
    append_with_overlap(&mut once, "the park today");
    let mut twice = once.clone();
    append_with_overlap(&mut twice, "the park today");
    assert_eq!(once, "we went to the park today");
    assert_eq!(twice, once);
}

#[test]
fn clean_text_collapses_whitespace() {
    assert_eq!(clean_text("  hello \t world\n "), "hello world");
    assert_eq!(clean_text(""), "");
    assert_eq!(clean_text(" \u{3000} "), "");
    let once = clean_text(" a  b\u{00A0}c ");
    assert_eq!(once, "a b c");
    assert_eq!(clean_text(&once), once);
}

#[test]
fn normalize_word_strips_ascii_punctuation_at_the_ends() {
    assert_eq!(normalize_word("\"Hello!\""), "Hello");
    assert_eq!(normalize_word("don't"), "don't");
    assert_eq!(normalize_word("..."), "");
}

fn segment(text: &str, start_ms: u64, end_ms: u64) -> WhisperSegment {
    WhisperSegment { text: text.to_string(), start_ms, end_ms }
}

#[test]
fn split_separates_stable_and_partial_segments() {
    let output = WhisperOutput {
        text: "Hello world again".to_string(),
        segments: vec![segment("Hello", 0, 500), segment("world", 500, 1500), segment(" again ", 1500, 3000)],
        processing_ms: 10,
    };
    let (committed, partial, until) = split_committed_and_partial(&output, 1000, 2500, 1200);
    assert_eq!(committed, "Hello world");
    assert_eq!(partial, "again");
    assert_eq!(until, 2500);
}

#[test]
fn split_skips_segments_already_committed_or_empty_in_time() {
    let output = WhisperOutput {
        text: "a b c".to_string(),
        segments: vec![segment("a", 0, 500), segment("b", 700, 700), segment("c", 600, 900)],
        processing_ms: 0,
    };
    let (committed, partial, until) = split_committed_and_partial(&output, 1000, 5000, 1600);
    assert_eq!(committed, "c");
    assert_eq!(partial, "");
    assert_eq!(until, 1900);
}

#[test]
fn split_without_segments_is_all_partial() {
    let output = WhisperOutput { text: " a  b ".to_string(), segments: vec![], processing_ms: 0 };
    let (committed, partial, until) = split_committed_and_partial(&output, 0, 0, 77);
    assert_eq!(committed, "");
    assert_eq!(partial, "a b");
    assert_eq!(until, 77);
}
