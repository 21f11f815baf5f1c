use vstd::prelude::*;
use vstd::string::{StrSliceExecFns, StringExecFns};
use vstd::utf8::encode_utf8;

use crate::config::{Config, CountMode};
use crate::text::{count_bytes, count_chars, count_lines, count_words, lines_of, word_count};

verus! {

/// The statistics that one mode asks for. Each mode has its own variant, so
/// a value never holds a mix that no mode yields.
#[derive(Clone, Copy, Debug, PartialEq, Eq, Structural)]
pub enum Counts {
    Bytes(usize),
    Lines(usize),
    Characters(usize),
    Words(usize),
    All { lines: usize, words: usize, chars: usize },
}

/// The statistics computed for one file.
pub struct FileStats {
    pub filename: String,
    pub counts: Counts,
}

/// What `mode` yields for `text`. Every count fits in a `usize`, as the text
/// itself does.
pub open spec fn counts_of(mode: CountMode, text: Seq<char>) -> Counts {
    match mode {
        CountMode::Bytes => Counts::Bytes(encode_utf8(text).len() as usize),
        CountMode::Lines => Counts::Lines(lines_of(text).len() as usize),
        CountMode::Characters => Counts::Characters(text.len() as usize),
        CountMode::Words => Counts::Words(word_count(text) as usize),
        CountMode::All => Counts::All {
            lines: lines_of(text).len() as usize,
            words: word_count(text) as usize,
            chars: text.len() as usize,
        },
    }
}

/// The decimal digit for `d`, below ten.
pub open spec fn digit_char(d: nat) -> char {
    seq!['0', '1', '2', '3', '4', '5', '6', '7', '8', '9'][d as int]
}

/// The decimal numeral of `n`, without leading zeros.
pub open spec fn decimal(n: nat) -> Seq<char>
    decreases n,
{
    if n < 10 {
        seq![digit_char(n)]
    } else {
        decimal(n / 10).push(digit_char(n % 10))
    }
}

/// The output line for `counts` and `filename`: the counts in the order
/// lines, words, characters, then the filename, all separated by tabs.
pub open spec fn rendered(counts: Counts, filename: Seq<char>) -> Seq<char> {
    let tab = seq!['\t'];
    match counts {
        Counts::Bytes(n) => decimal(n as nat) + tab + filename,
        Counts::Lines(n) => decimal(n as nat) + tab + filename,
        Counts::Characters(n) => decimal(n as nat) + tab + filename,
        Counts::Words(n) => decimal(n as nat) + tab + filename,
        Counts::All { lines, words, chars } => decimal(lines as nat) + tab + decimal(words as nat)
            + tab + decimal(chars as nat) + tab + filename,
    }
}

/// Computes the statistics that `config.mode` asks for on `contents`, the
/// text of the file named by `config.filename`.
pub fn count(config: Config, contents: &str) -> (r: FileStats)
    ensures
        r.filename@ == config.filename@,
        r.counts == counts_of(config.mode, contents@),
{
    let counts = match config.mode {
        CountMode::Bytes => Counts::Bytes(count_bytes(contents)),
        CountMode::Lines => Counts::Lines(count_lines(contents)),
        CountMode::Characters => Counts::Characters(count_chars(contents)),
        CountMode::Words => Counts::Words(count_words(contents)),
        CountMode::All => Counts::All {
            lines: count_lines(contents),
            words: count_words(contents),
            chars: count_chars(contents),
        },
    };
    FileStats { filename: config.filename, counts: counts }
}

/// Counting is repeatable: a configuration and a text give the same
/// statistics, and so the same output line, each time they are counted.
pub proof fn counting_is_repeatable(
    mode: CountMode,
    filename: Seq<char>,
    first: Seq<char>,
    second: Seq<char>,
)
    requires
        first == second,
    ensures
        counts_of(mode, first) == counts_of(mode, second),
        rendered(counts_of(mode, first), filename) == rendered(counts_of(mode, second), filename),
{
}

fn digit_str(d: usize) -> (r: &'static str)
    requires
        d < 10,
    ensures
        r@ == seq![digit_char(d as nat)],
{
    let digits = "0123456789";
    proof {
        reveal_strlit("0123456789");
    }
    let r = digits.substring_char(d, d + 1);
    assert(r@ =~= seq![digit_char(d as nat)]);
    r
}

fn push_decimal(out: &mut String, n: usize)
    ensures
        final(out)@ == old(out)@ + decimal(n as nat),
    decreases n,
{
    if n >= 10 {
        push_decimal(out, n / 10);
    }
    out.append(digit_str(n % 10));
    assert(final(out)@ =~= old(out)@ + decimal(n as nat));
}

fn push_tab(out: &mut String)
    ensures
        final(out)@ == old(out)@ + seq!['\t'],
{
    proof {
        reveal_strlit("\t");
    }
    out.append("\t");
    assert(final(out)@ =~= old(out)@ + seq!['\t']);
}

impl FileStats {
    /// The byte count, where the mode asked for it.
    pub fn bytes(&self) -> (r: Option<usize>)
        ensures
            r == (match self.counts {
                Counts::Bytes(n) => Some(n),
                _ => None,
            }),
    {
        match self.counts {
            Counts::Bytes(n) => Some(n),
            _ => None,
        }
    }

    /// The line count, where the mode asked for it.
    pub fn lines(&self) -> (r: Option<usize>)
        ensures
            r == (match self.counts {
                Counts::Lines(n) => Some(n),
                Counts::All { lines, .. } => Some(lines),
                _ => None,
            }),
    {
        match self.counts {
            Counts::Lines(n) => Some(n),
            Counts::All { lines, .. } => Some(lines),
            _ => None,
        }
    }

    /// The character count, where the mode asked for it.
    pub fn chars(&self) -> (r: Option<usize>)
        ensures
            r == (match self.counts {
                Counts::Characters(n) => Some(n),
                Counts::All { chars, .. } => Some(chars),
                _ => None,
            }),
    {
        match self.counts {
            Counts::Characters(n) => Some(n),
            Counts::All { chars, .. } => Some(chars),
            _ => None,
        }
    }

    /// The word count, where the mode asked for it.
    pub fn words(&self) -> (r: Option<usize>)
        ensures
            r == (match self.counts {
                Counts::Words(n) => Some(n),
                Counts::All { words, .. } => Some(words),
                _ => None,
            }),
    {
        match self.counts {
            Counts::Words(n) => Some(n),
            Counts::All { words, .. } => Some(words),
            _ => None,
        }
    }

    /// The output line: the counts in the order lines, words, characters,
    /// then the filename, separated by tabs.
    pub fn render(&self) -> (r: String)
        ensures
            r@ == rendered(self.counts, self.filename@),
    {
        let mut out = String::new();
        match self.counts {
            Counts::Bytes(n) => push_decimal(&mut out, n),
            Counts::Lines(n) => push_decimal(&mut out, n),
            Counts::Characters(n) => push_decimal(&mut out, n),
            Counts::Words(n) => push_decimal(&mut out, n),
            Counts::All { lines, words, chars } => {
                push_decimal(&mut out, lines);
                push_tab(&mut out);
                push_decimal(&mut out, words);
                push_tab(&mut out);
                push_decimal(&mut out, chars);
            },
        }
        push_tab(&mut out);
        out.append(self.filename.as_str());
        assert(out@ =~= rendered(self.counts, self.filename@));
        out
    }
}

} // verus!
