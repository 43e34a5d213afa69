//! The counting engine: line, word, byte and character counts of a text,
//! computed in a single pass.
//!
//! The text is modelled as its sequence of Unicode scalar values. A line is
//! a maximal stretch ended by `'\n'`, with an unterminated final stretch
//! still counting as a line when it is nonempty. A word is a maximal run of
//! non-whitespace characters. The byte count is the length of the UTF-8
//! encoding of the text.

use vstd::prelude::*;
use vstd::utf8::encode_utf8;
use crate::text::is_space;

verus! {

broadcast use vstd::slice::group_slice_axioms;

/// The counts gathered from one source.
#[derive(Debug, PartialEq, Eq, Structural, Clone, Copy)]
pub struct FileInfo {
    pub num_lines: usize,
    pub num_words: usize,
    pub num_bytes: usize,
    pub num_chars: usize,
}

impl FileInfo {
    /// The record of an empty stream: all four counts zero.
    pub fn zero() -> (r: FileInfo)
        ensures
            r == (FileInfo { num_lines: 0, num_words: 0, num_bytes: 0, num_chars: 0 }),
    {
        FileInfo { num_lines: 0, num_words: 0, num_bytes: 0, num_chars: 0 }
    }

    /// Field-wise sum of two count records, used to fold per-source counts
    /// into the running total.
    pub fn add(&self, other: &FileInfo) -> (r: FileInfo)
        requires
            self.num_lines + other.num_lines <= usize::MAX,
            self.num_words + other.num_words <= usize::MAX,
            self.num_bytes + other.num_bytes <= usize::MAX,
            self.num_chars + other.num_chars <= usize::MAX,
        ensures
            r.num_lines == self.num_lines + other.num_lines,
            r.num_words == self.num_words + other.num_words,
            r.num_bytes == self.num_bytes + other.num_bytes,
            r.num_chars == self.num_chars + other.num_chars,
    {
        FileInfo {
            num_lines: self.num_lines + other.num_lines,
            num_words: self.num_words + other.num_words,
            num_bytes: self.num_bytes + other.num_bytes,
            num_chars: self.num_chars + other.num_chars,
        }
    }
}

/// Number of `'\n'` characters in the text.
pub open spec fn newline_count(s: Seq<char>) -> nat
    decreases s.len(),
{
    if s.len() == 0 {
        0
    } else {
        newline_count(s.drop_last()) + (if s.last() == '\n' { 1nat } else { 0 })
    }
}

/// Number of lines: one per terminator, plus one for a nonempty final
/// stretch that lacks a terminator.
pub open spec fn line_count_of(s: Seq<char>) -> nat {
    newline_count(s) + (if s.len() > 0 && s.last() != '\n' { 1nat } else { 0 })
}

/// A word starts at the last position of `s`: the last character is not
/// whitespace and either it is the first character or the one before it is
/// whitespace.
pub open spec fn word_starts_at_end(s: Seq<char>) -> bool {
    &&& s.len() > 0
    &&& !is_space(s.last())
    &&& (s.len() == 1 || is_space(s[s.len() - 2]))
}

/// Number of maximal whitespace-delimited nonempty tokens in the text,
/// counted by their starting positions.
pub open spec fn word_count_of(s: Seq<char>) -> nat
    decreases s.len(),
{
    if s.len() == 0 {
        0
    } else {
        word_count_of(s.drop_last()) + (if word_starts_at_end(s) { 1nat } else { 0 })
    }
}

/// Length of the UTF-8 encoding of the text.
pub open spec fn byte_count_of(s: Seq<char>) -> nat {
    encode_utf8(s).len()
}

/// `info` holds exactly the counts of the text `s`.
pub open spec fn counts_text(info: FileInfo, s: Seq<char>) -> bool {
    &&& info.num_lines == line_count_of(s)
    &&& info.num_words == word_count_of(s)
    &&& info.num_bytes == byte_count_of(s)
    &&& info.num_chars == s.len()
}

/// There are never more words than characters: each word occupies at least
/// one distinct position.
pub proof fn lemma_word_count_le_len(s: Seq<char>)
    ensures
        word_count_of(s) <= s.len(),
    decreases s.len(),
{
    if s.len() > 0 {
        lemma_word_count_le_len(s.drop_last());
    }
}

/// There are never more newlines than characters.
pub proof fn lemma_newline_count_le_len(s: Seq<char>)
    ensures
        newline_count(s) <= s.len(),
        s.len() > 0 && s.last() != '\n' ==> newline_count(s) <= s.len() - 1,
    decreases s.len(),
{
    if s.len() > 0 {
        lemma_newline_count_le_len(s.drop_last());
    }
}

/// Every Unicode scalar value takes at least one byte to encode, so the
/// character count never exceeds the byte count.
pub proof fn lemma_chars_le_bytes(s: Seq<char>)
    ensures
        s.len() <= encode_utf8(s).len(),
    decreases s.len(),
{
    if s.len() > 0 {
        lemma_chars_le_bytes(s.drop_first());
        assert(vstd::utf8::encode_scalar(s[0] as u32).len() >= 1);
    }
}

/// The words of the text: its maximal runs of non-whitespace characters, in
/// order. A run grows character by character; a non-whitespace character
/// after whitespace (or at the start) opens a new word.
pub open spec fn words_of(s: Seq<char>) -> Seq<Seq<char>>
    decreases s.len(),
{
    if s.len() == 0 {
        Seq::empty()
    } else {
        let prev = words_of(s.drop_last());
        if is_space(s.last()) {
            prev
        } else if word_starts_at_end(s) {
            prev.push(seq![s.last()])
        } else {
            prev.update(prev.len() - 1, prev.last().push(s.last()))
        }
    }
}

/// Number of whitespace characters in the text: the total width of the gaps
/// between, before and after the words.
pub open spec fn space_count(s: Seq<char>) -> nat
    decreases s.len(),
{
    if s.len() == 0 {
        0
    } else {
        space_count(s.drop_last()) + (if is_space(s.last()) { 1nat } else { 0 })
    }
}

/// Total length of a sequence of words.
pub open spec fn sum_word_lens(ws: Seq<Seq<char>>) -> nat
    decreases ws.len(),
{
    if ws.len() == 0 {
        0
    } else {
        sum_word_lens(ws.drop_last()) + ws.last().len()
    }
}

/// A text that ends in a non-whitespace character has at least one word.
proof fn lemma_words_of_nonempty(s: Seq<char>)
    requires
        s.len() > 0,
        !is_space(s.last()),
    ensures
        words_of(s).len() > 0,
    decreases s.len(),
{
    if !word_starts_at_end(s) {
        lemma_words_of_nonempty(s.drop_last());
    }
}

/// The word count is the length of the word decomposition: counting words by
/// their starting positions and splitting the text into maximal runs agree.
pub proof fn lemma_words_of_count(s: Seq<char>)
    ensures
        words_of(s).len() == word_count_of(s),
    decreases s.len(),
{
    if s.len() > 0 {
        lemma_words_of_count(s.drop_last());
        if !is_space(s.last()) && !word_starts_at_end(s) {
            lemma_words_of_nonempty(s.drop_last());
        }
    }
}

/// Word splitting is lossless in coverage: the lengths of all words plus the
/// whitespace gaps add up to the length of the text.
pub proof fn lemma_words_cover_text(s: Seq<char>)
    ensures
        sum_word_lens(words_of(s)) + space_count(s) == s.len(),
    decreases s.len(),
{
    if s.len() > 0 {
        let t = s.drop_last();
        let c = s.last();
        lemma_words_cover_text(t);
        let prev = words_of(t);
        if is_space(c) {
        } else if word_starts_at_end(s) {
            let ws = prev.push(seq![c]);
            assert(ws.drop_last() =~= prev);
            assert(ws.last() =~= seq![c]);
        } else {
            lemma_words_of_nonempty(t);
            let w2 = prev.last().push(c);
            let ws = prev.update(prev.len() - 1, w2);
            assert(ws.drop_last() =~= prev.drop_last());
            assert(ws.last() == w2);
        }
    }
}

/// Newline counts add up over any split of the text.
proof fn lemma_newline_count_concat(a: Seq<char>, b: Seq<char>)
    ensures
        newline_count(a + b) == newline_count(a) + newline_count(b),
    decreases b.len(),
{
    if b.len() == 0 {
        assert(a + b =~= a);
    } else {
        assert((a + b).drop_last() =~= a + b.drop_last());
        lemma_newline_count_concat(a, b.drop_last());
    }
}

/// Word counts add up over a split at whitespace: no word runs across such
/// a boundary.
proof fn lemma_word_count_concat(a: Seq<char>, b: Seq<char>)
    requires
        a.len() == 0 || is_space(a.last()),
    ensures
        word_count_of(a + b) == word_count_of(a) + word_count_of(b),
    decreases b.len(),
{
    if b.len() == 0 {
        assert(a + b =~= a);
    } else {
        assert((a + b).drop_last() =~= a + b.drop_last());
        lemma_word_count_concat(a, b.drop_last());
        assert(word_starts_at_end(a + b) == word_starts_at_end(b));
    }
}

/// Byte counts add up over any split of the text.
proof fn lemma_byte_count_concat(a: Seq<char>, b: Seq<char>)
    ensures
        byte_count_of(a + b) == byte_count_of(a) + byte_count_of(b),
    decreases a.len(),
{
    if a.len() == 0 {
        assert(a + b =~= b);
    } else {
        assert((a + b).drop_first() =~= a.drop_first() + b);
        assert((a + b)[0] == a[0]);
        lemma_byte_count_concat(a.drop_first(), b);
    }
}

/// Counting chunk by chunk equals counting the stream whole: when the text
/// read so far is empty or ends with a terminator — as it does after every
/// whole line — all four counts of the continued text are the field-wise
/// sums. The one-pass engine may therefore fold per-line records into a
/// running record without ever holding more than one line.
pub proof fn lemma_count_chunked(a: Seq<char>, b: Seq<char>)
    requires
        a.len() == 0 || a.last() == '\n',
    ensures
        line_count_of(a + b) == line_count_of(a) + line_count_of(b),
        word_count_of(a + b) == word_count_of(a) + word_count_of(b),
        byte_count_of(a + b) == byte_count_of(a) + byte_count_of(b),
        (a + b).len() == a.len() + b.len(),
{
    lemma_newline_count_concat(a, b);
    lemma_word_count_concat(a, b);
    lemma_byte_count_concat(a, b);
    if b.len() == 0 {
        assert(a + b =~= a);
    } else {
        assert((a + b).last() == b.last());
    }
}

/// The counts of a text are a function of the text alone: two count records
/// gathered from the same character sequence are identical.
pub proof fn lemma_count_deterministic(a: FileInfo, b: FileInfo, s: Seq<char>)
    requires
        counts_text(a, s),
        counts_text(b, s),
    ensures
        a == b,
{
}

/// Count lines, words, bytes and characters of a text in one pass.
///
/// The record returned holds exactly the counts of the text; the character
/// count never exceeds the byte count, and the word count never exceeds the
/// character count.
pub fn count(text: &str) -> (r: FileInfo)
    ensures
        counts_text(r, text@),
        r.num_chars <= r.num_bytes,
        r.num_words <= r.num_chars,
{
    let ghost s = text@;
    let num_bytes = text.as_bytes().len();
    proof {
        lemma_chars_le_bytes(s);
        lemma_word_count_le_len(s);
        lemma_newline_count_le_len(s);
    }
    let n = text.unicode_len();
    let mut num_lines: usize = 0;
    let mut num_words: usize = 0;
    let mut in_word: bool = false;
    let mut i: usize = 0;
    while i < n
        invariant
            s == text@,
            n == s.len(),
            num_bytes == byte_count_of(s),
            s.len() <= num_bytes,
            i <= n,
            num_lines == newline_count(s.subrange(0, i as int)),
            num_words == word_count_of(s.subrange(0, i as int)),
            in_word == (i > 0 && !is_space(s[i as int - 1])),
        decreases n - i,
    {
        let c = text.get_char(i);
        let ghost pre = s.subrange(0, i as int);
        let ghost post = s.subrange(0, i as int + 1);
        proof {
            assert(post.drop_last() =~= pre);
            assert(post.last() == c);
            lemma_word_count_le_len(pre);
            lemma_newline_count_le_len(pre);
        }
        if c == '\n' {
            num_lines = num_lines + 1;
        }
        if crate::text::is_space_char(c) {
            in_word = false;
        } else {
            if !in_word {
                num_words = num_words + 1;
            }
            in_word = true;
        }
        i = i + 1;
    }
    proof {
        assert(s.subrange(0, n as int) =~= s);
    }
    let num_chars = n;
    if n > 0 {
        let last = text.get_char(n - 1);
        if last != '\n' {
            num_lines = num_lines + 1;
        }
    }
    FileInfo { num_lines, num_words, num_bytes, num_chars }
}

} // verus!
