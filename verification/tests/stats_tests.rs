use textbatch::freq::char_frequencies;
use textbatch::text::{is_space, line_count, word_count};

#[test]
fn words_and_lines_of_small_text() {
    assert_eq!(word_count("a b\nc\n"), 3);
    assert_eq!(line_count("a b\nc\n"), 2);
}

#[test]
fn words_and_lines_of_empty_text() {
    assert_eq!(word_count(""), 0);
    assert_eq!(line_count(""), 0);
}

#[test]
fn words_over_whitespace_runs() {
    assert_eq!(word_count("  one\t\ttwo  three "), 3);
    assert_eq!(word_count("\n\n\t "), 0);
    assert_eq!(word_count("solo"), 1);
}

#[test]
fn lines_with_and_without_trailing_newline() {
    assert_eq!(line_count("a\nb"), 2);
    assert_eq!(line_count("a\nb\n"), 2);
    assert_eq!(line_count("\n"), 1);
    assert_eq!(line_count("\n\n"), 2);
}

#[test]
fn whitespace_classification() {
    assert!(is_space(' '));
    assert!(is_space('\t'));
    assert!(is_space('\n'));
    assert!(is_space('\u{00A0}'));
    assert!(!is_space('a'));
    assert!(!is_space('0'));
}

#[test]
fn char_frequencies_of_aab() {
    let freqs = char_frequencies("aab");
    assert_eq!(freqs.get('a'), 2);
    assert_eq!(freqs.get('b'), 1);
    assert_eq!(freqs.get('c'), 0);
    assert_eq!(freqs.len(), 2);
}

#[test]
fn char_frequencies_of_empty_text() {
    let freqs = char_frequencies("");
    assert_eq!(freqs.len(), 0);
    assert_eq!(freqs.get('a'), 0);
}

#[test]
fn char_frequencies_count_unicode_scalars() {
    let freqs = char_frequencies("héé\n");
    assert_eq!(freqs.get('h'), 1);
    assert_eq!(freqs.get('é'), 2);
    assert_eq!(freqs.get('\n'), 1);
    assert_eq!(freqs.len(), 3);
}
