use vstd::prelude::*;
use vstd::utf8::encode_utf8;

verus! {

/// The characters that separate words: space, tab, line feed, form feed and
/// carriage return (the ASCII whitespace of `u8::is_ascii_whitespace`).
pub open spec fn is_ascii_space(c: char) -> bool {
    c == ' ' || c == '\t' || c == '\n' || c == '\x0C' || c == '\r'
}

/// Whether a word starts at index `i` of `s`.
pub open spec fn starts_word(s: Seq<char>, i: int) -> bool {
    !is_ascii_space(s[i]) && (i == 0 || is_ascii_space(s[i - 1]))
}

/// The number of words of `s`: maximal runs of characters that are not ASCII
/// whitespace.
pub open spec fn word_count(s: Seq<char>) -> nat
    decreases s.len(),
{
    if s.len() == 0 {
        0
    } else {
        word_count(s.drop_last()) + if starts_word(s, s.len() - 1) {
            1nat
        } else {
            0nat
        }
    }
}

/// The number of line feeds in `s`.
pub open spec fn newline_count(s: Seq<char>) -> nat
    decreases s.len(),
{
    if s.len() == 0 {
        0
    } else {
        newline_count(s.drop_last()) + if s.last() == '\n' {
            1nat
        } else {
            0nat
        }
    }
}

/// The pieces of `s` between line feeds, in order; there is always one more
/// piece than there are line feeds.
pub open spec fn pieces(s: Seq<char>) -> Seq<Seq<char>>
    decreases s.len(),
{
    if s.len() == 0 {
        seq![Seq::empty()]
    } else {
        let p = pieces(s.drop_last());
        if s.last() == '\n' {
            p.push(Seq::empty())
        } else {
            p.update(p.len() - 1, p.last().push(s.last()))
        }
    }
}

/// A line without the carriage return of a `\r\n` ending.
pub open spec fn strip_cr(l: Seq<char>) -> Seq<char> {
    if l.len() > 0 && l.last() == '\r' {
        l.drop_last()
    } else {
        l
    }
}

/// The lines of `s`, as `str::lines` yields them: the text is split at each
/// line feed, a carriage return before a line feed is dropped, and a final
/// line ending does not open an empty line.
pub open spec fn lines_of(s: Seq<char>) -> Seq<Seq<char>> {
    let p = pieces(s);
    let ended = p.drop_last().map_values(|l: Seq<char>| strip_cr(l));
    if p.last().len() == 0 {
        ended
    } else {
        ended.push(p.last())
    }
}

/// The words of each line of `ls`, added up.
pub open spec fn words_per_line_sum(ls: Seq<Seq<char>>) -> nat
    decreases ls.len(),
{
    if ls.len() == 0 {
        0
    } else {
        words_per_line_sum(ls.drop_last()) + word_count(ls.last())
    }
}

proof fn lemma_encoded_len_at_least(cs: Seq<char>)
    ensures
        cs.len() <= encode_utf8(cs).len(),
    decreases cs.len(),
{
    if cs.len() > 0 {
        lemma_encoded_len_at_least(cs.drop_first());
    }
}

/// Counts the bytes of the UTF-8 encoding of `s`.
pub fn count_bytes(s: &str) -> (r: usize)
    ensures
        r == encode_utf8(s@).len(),
{
    s.as_bytes().len()
}

/// A text has no more characters than a `usize` can count.
fn char_len_fits(s: &str)
    ensures
        s@.len() <= usize::MAX,
{
    let byte_len = count_bytes(s);
    proof {
        lemma_encoded_len_at_least(s@);
        assert(s@.len() <= byte_len);
    }
}

/// Counts the Unicode scalar values of `s`.
pub fn count_chars(s: &str) -> (r: usize)
    ensures
        r == s@.len(),
{
    char_len_fits(s);
    let mut n: usize = 0;
    for c in it: s.chars()
        invariant
            n == it.index(),
            it.seq() == s@,
            s@.len() <= usize::MAX,
    {
        n = n + 1;
    }
    n
}

fn is_space(c: char) -> (r: bool)
    ensures
        r == is_ascii_space(c),
{
    c == ' ' || c == '\t' || c == '\n' || c == '\x0C' || c == '\r'
}

/// Counts the lines of `s`: the line feeds, and one more where the text ends
/// in a line that no line feed closes.
pub fn count_lines(s: &str) -> (r: usize)
    ensures
        r == lines_of(s@).len(),
{
    char_len_fits(s);
    let mut feeds: usize = 0;
    let mut open_line = false;
    for c in it: s.chars()
        invariant
            it.seq() == s@,
            s@.len() <= usize::MAX,
            feeds <= it.index(),
            feeds == newline_count(s@.take(it.index() as int)),
            open_line == (it.index() > 0 && s@[it.index() - 1] != '\n'),
            open_line ==> feeds < it.index(),
    {
        proof {
            let i = it.index() as int;
            assert(s@.take(i + 1).drop_last() =~= s@.take(i));
        }
        if c == '\n' {
            feeds = feeds + 1;
            open_line = false;
        } else {
            open_line = true;
        }
    }
    proof {
        assert(s@.take(s@.len() as int) =~= s@);
        lemma_pieces(s@);
    }
    if open_line {
        feeds + 1
    } else {
        feeds
    }
}

/// Counts the words of `contents`: the maximal runs of characters that are not
/// ASCII whitespace.
pub fn count_words(contents: &str) -> (r: usize)
    ensures
        r == word_count(contents@),
{
    char_len_fits(contents);
    let mut count: usize = 0;
    let mut after_space = true;
    for c in it: contents.chars()
        invariant
            it.seq() == contents@,
            contents@.len() <= usize::MAX,
            count <= it.index(),
            count == word_count(contents@.take(it.index() as int)),
            after_space == (it.index() == 0 || is_ascii_space(contents@[it.index() - 1])),
    {
        let space = is_space(c);
        proof {
            let i = it.index() as int;
            assert(contents@.take(i + 1).drop_last() =~= contents@.take(i));
        }
        if !space && after_space {
            count = count + 1;
        }
        after_space = space;
    }
    proof {
        assert(contents@.take(contents@.len() as int) =~= contents@);
    }
    count
}

proof fn lemma_pieces(s: Seq<char>)
    ensures
        pieces(s).len() == newline_count(s) + 1,
        pieces(s).last().len() == 0 <==> (s.len() == 0 || s.last() == '\n'),
        pieces(s).last().len() > 0 ==> pieces(s).last().last() == s.last(),
        words_per_line_sum(pieces(s)) == word_count(s),
        lines_of(s).len() == newline_count(s) + if s.len() > 0 && s.last() != '\n' {
            1int
        } else {
            0int
        },
    decreases s.len(),
{
    if s.len() == 0 {
        let p = pieces(s);
        assert(p.drop_last() =~= Seq::<Seq<char>>::empty());
        assert(words_per_line_sum(p.drop_last()) == 0);
        assert(p.last() =~= Seq::<char>::empty());
        assert(word_count(p.last()) == 0);
    } else {
        let t = s.drop_last();
        lemma_pieces(t);
        let p = pieces(t);
        if s.last() == '\n' {
            assert(p.push(Seq::empty()).drop_last() =~= p);
            assert(word_count(Seq::<char>::empty()) == 0);
        } else {
            let q = p.last().push(s.last());
            let p2 = p.update(p.len() - 1, q);
            assert(p2.drop_last() =~= p.drop_last());
            assert(q.drop_last() =~= p.last());
            if p.last().len() > 0 {
                assert(q[q.len() - 2] == s[s.len() - 2]);
            }
            assert(starts_word(q, q.len() - 1) == starts_word(s, s.len() - 1));
            assert(words_per_line_sum(p2) == words_per_line_sum(p.drop_last()) + word_count(q));
        }
    }
}

proof fn lemma_strip_cr_words(l: Seq<char>)
    ensures
        word_count(strip_cr(l)) == word_count(l),
{
    if l.len() > 0 && l.last() == '\r' {
        assert(word_count(l) == word_count(l.drop_last()));
    }
}

proof fn lemma_strip_cr_sum(ls: Seq<Seq<char>>)
    ensures
        words_per_line_sum(ls.map_values(|l: Seq<char>| strip_cr(l))) == words_per_line_sum(ls),
    decreases ls.len(),
{
    if ls.len() > 0 {
        let f = |l: Seq<char>| strip_cr(l);
        lemma_strip_cr_sum(ls.drop_last());
        lemma_strip_cr_words(ls.last());
        assert(ls.map_values(f).drop_last() =~= ls.drop_last().map_values(f));
    }
}

/// Counting the words of a whole text gives the same number as counting the
/// words of each of its lines and adding them up.
pub proof fn words_sum_over_lines(s: Seq<char>)
    ensures
        word_count(s) == words_per_line_sum(lines_of(s)),
{
    let p = pieces(s);
    let ended = p.drop_last().map_values(|l: Seq<char>| strip_cr(l));
    lemma_pieces(s);
    lemma_strip_cr_sum(p.drop_last());
    assert(ended.push(p.last()).drop_last() =~= ended);
    assert(word_count(Seq::<char>::empty()) == 0);
}

} // verus!
