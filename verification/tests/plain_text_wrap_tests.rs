use sazid::reflow::{LineComposerStr, WordWrapperStr};
use unicode_segmentation::UnicodeSegmentation;

fn words_of(input: &str) -> Vec<String> {
  input.split_word_bounds().map(|w| w.to_string()).collect()
}

fn line(text: &str, width: u16) -> Option<(String, u16)> {
  Some((text.to_string(), width))
}

#[test]
fn test_empty_string() {
  let input = "";
  let mut wrapper = WordWrapperStr::new(words_of(input), 10, true);
  assert_eq!(wrapper.next_line(), None);
}

#[test]
fn test_single_line() {
  let input = "Hello, world!";
  let mut wrapper = WordWrapperStr::new(words_of(input), 20, true);
  assert_eq!(wrapper.next_line(), line("Hello, world!", 13));
  assert_eq!(wrapper.next_line(), None);
}

#[test]
fn test_multiple_lines() {
  let input = "System\nyou are an expert programming assistant";
  let mut wrapper = WordWrapperStr::new(words_of(input), 20, true);
  assert_eq!(wrapper.next_line(), line("System", 6));
  assert_eq!(wrapper.next_line(), line("you are an expert", 17));
  assert_eq!(wrapper.next_line(), line("programming", 11));
  assert_eq!(wrapper.next_line(), line("assistant", 9));
  assert_eq!(wrapper.next_line(), None);
}

#[test]
fn test_long_word() {
  let input = "A veryverylongword that exceeds the max width.";
  let mut wrapper = WordWrapperStr::new(words_of(input), 15, true);
  assert_eq!(wrapper.next_line(), line("A", 1));
  assert_eq!(wrapper.next_line(), line("veryverylongword", 16));
  assert_eq!(wrapper.next_line(), line("that exceeds", 12));
  assert_eq!(wrapper.next_line(), line("the max width.", 14));
  assert_eq!(wrapper.next_line(), None);
}

#[test]
fn test_leading_whitespace() {
  let input = "  Leading whitespace.";
  let mut wrapper = WordWrapperStr::new(words_of(input), 20, true);
  assert_eq!(wrapper.next_line(), line("Leading whitespace.", 19));
  assert_eq!(wrapper.next_line(), None);
}

#[test]
fn test_trailing_whitespace() {
  let input = "Trailing whitespace.   ";
  let mut wrapper = WordWrapperStr::new(words_of(input), 20, true);
  assert_eq!(wrapper.next_line(), line("Trailing whitespace.", 20));
  assert_eq!(wrapper.next_line(), None);
}

#[test]
fn wrap_zero_width_gives_nothing() {
  let mut wrapper = WordWrapperStr::new(words_of("some words"), 0, true);
  assert_eq!(wrapper.next_line(), None);
  assert_eq!(wrapper.next_line(), None);
}

#[test]
fn wrap_none_is_repeated() {
  let mut wrapper = WordWrapperStr::new(words_of("one"), 10, true);
  assert_eq!(wrapper.next_line(), line("one", 3));
  assert_eq!(wrapper.next_line(), None);
  assert_eq!(wrapper.next_line(), None);
}

#[test]
fn wrap_without_trim_keeps_leading_whitespace() {
  let mut wrapper = WordWrapperStr::new(words_of("  indented"), 20, false);
  assert_eq!(wrapper.next_line(), line("  indented", 10));
  assert_eq!(wrapper.next_line(), None);
}

#[test]
fn wrap_counts_utf16_units() {
  // U+1F600 takes two UTF-16 units.
  let mut wrapper = WordWrapperStr::new(vec!["a\u{1F600}".to_string()], 5, true);
  assert_eq!(wrapper.next_line(), line("a\u{1F600}", 3));
}

#[test]
fn wrap_drops_overlong_whitespace_word() {
  let words = vec!["ab".to_string(), "      ".to_string(), "cd".to_string()];
  let mut wrapper = WordWrapperStr::new(words, 4, false);
  assert_eq!(wrapper.next_line(), line("abcd", 4));
  assert_eq!(wrapper.next_line(), None);
}
