use wc::config::{Config, CountMode};
use wc::stats::{count, Counts};
use wc::text::{count_bytes, count_chars, count_lines, count_words};

fn config(mode: CountMode) -> Config {
    Config { filename: String::from("sample.txt"), mode }
}

#[test]
fn words_equal_the_sum_over_lines() {
    let text = "hello world\n  foo\tbar baz  \r\n\nlast line";
    let per_line: usize = text.lines().map(|l| l.split_ascii_whitespace().count()).sum();
    assert_eq!(count_words(text), per_line);
    assert_eq!(count_words(text), 7);
}

#[test]
fn chars_count_scalar_values_not_bytes() {
    let text = "éàü";
    assert_eq!(count_chars(text), 3);
    assert_eq!(count_bytes(text), 6);
}

#[test]
fn hello_world_file() {
    let text = "hello world\nfoo\n";
    assert_eq!(count_lines(text), 2);
    assert_eq!(count_words(text), 3);
    assert_eq!(count_chars(text), 16);
    assert_eq!(count_bytes(text), 16);
}

#[test]
fn empty_file() {
    assert_eq!(count_lines(""), 0);
    assert_eq!(count_words(""), 0);
    assert_eq!(count_chars(""), 0);
    assert_eq!(count_bytes(""), 0);
    let stats = count(Config { filename: String::from("empty.txt"), mode: CountMode::All }, "");
    assert_eq!(stats.render(), "0\t0\t0\tempty.txt");
}

#[test]
fn lines_follow_line_splitting() {
    assert_eq!(count_lines("a"), 1);
    assert_eq!(count_lines("a\nb"), 2);
    assert_eq!(count_lines("a\nb\n"), 2);
    assert_eq!(count_lines("\n\n"), 2);
    assert_eq!(count_lines("a\r\nb\r\n"), 2);
    assert_eq!(count_lines("a\r"), 1);
}

#[test]
fn words_split_on_ascii_whitespace_only() {
    assert_eq!(count_words("  "), 0);
    assert_eq!(count_words("a\tb\x0Cc\rd e"), 5);
    assert_eq!(count_words("a\u{a0}b"), 1);
    assert_eq!(count_words("a\x0Bb"), 1);
    assert_eq!(count_words("héllo wörld"), 2);
}

#[test]
fn count_fills_only_the_mode_asked_for() {
    let text = "hello world\nfoo\n";
    let bytes = count(config(CountMode::Bytes), text);
    assert_eq!(bytes.counts, Counts::Bytes(16));
    assert_eq!(bytes.bytes(), Some(16));
    assert_eq!(bytes.lines(), None);
    assert_eq!(bytes.chars(), None);
    assert_eq!(bytes.words(), None);
    assert_eq!(count(config(CountMode::Lines), text).counts, Counts::Lines(2));
    assert_eq!(count(config(CountMode::Characters), text).counts, Counts::Characters(16));
    assert_eq!(count(config(CountMode::Words), text).counts, Counts::Words(3));
    let all = count(config(CountMode::All), text);
    assert_eq!(all.counts, Counts::All { lines: 2, words: 3, chars: 16 });
    assert_eq!(all.bytes(), None);
    assert_eq!(all.lines(), Some(2));
    assert_eq!(all.chars(), Some(16));
    assert_eq!(all.words(), Some(3));
    assert_eq!(all.filename, "sample.txt");
}

#[test]
fn multibyte_text_in_each_mode() {
    let text = "αβγ δ\n";
    assert_eq!(count(config(CountMode::Bytes), text).counts, Counts::Bytes(10));
    assert_eq!(count(config(CountMode::Characters), text).counts, Counts::Characters(6));
}
