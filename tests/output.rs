use wc::config::{Config, CountMode};
use wc::stats::{count, Counts, FileStats};

fn stats(counts: Counts) -> FileStats {
    FileStats { filename: String::from("notes.txt"), counts }
}

#[test]
fn renders_all_mode_as_lines_words_chars() {
    let text = "hello world\nfoo\n";
    let config = Config { filename: String::from("hello.txt"), mode: CountMode::All };
    assert_eq!(count(config, text).render(), "2\t3\t16\thello.txt");
}

#[test]
fn renders_a_single_count() {
    assert_eq!(stats(Counts::Bytes(16)).render(), "16\tnotes.txt");
    assert_eq!(stats(Counts::Lines(0)).render(), "0\tnotes.txt");
    assert_eq!(stats(Counts::Characters(7)).render(), "7\tnotes.txt");
    assert_eq!(stats(Counts::Words(10)).render(), "10\tnotes.txt");
}

#[test]
fn renders_many_digit_numbers() {
    assert_eq!(stats(Counts::Words(1234567890)).render(), "1234567890\tnotes.txt");
    assert_eq!(
        stats(Counts::All { lines: 100, words: 2005, chars: 30009 }).render(),
        "100\t2005\t30009\tnotes.txt"
    );
    let max = usize::MAX;
    assert_eq!(stats(Counts::Bytes(max)).render(), format!("{}\tnotes.txt", max));
}

#[test]
fn counts_a_long_text() {
    let text = "ab ".repeat(1234);
    let config = Config { filename: String::from("long.txt"), mode: CountMode::Bytes };
    assert_eq!(count(config, &text).render(), "3702\tlong.txt");
    let config = Config { filename: String::from("long.txt"), mode: CountMode::Words };
    assert_eq!(count(config, &text).render(), "1234\tlong.txt");
}

#[test]
fn repeated_counts_give_the_same_output() {
    let text = "one two\nthree\n";
    let first = count(Config { filename: String::from("f.txt"), mode: CountMode::All }, text);
    let second = count(Config { filename: String::from("f.txt"), mode: CountMode::All }, text);
    assert_eq!(first.render(), second.render());
    assert_eq!(first.render(), "2\t3\t14\tf.txt");
}
