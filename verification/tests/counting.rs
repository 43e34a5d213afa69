use wcr::counting::{count, FileInfo};

#[test]
fn empty_file() {
    let text = "";
    let info = count(text);
    let expected = FileInfo { num_lines: 0, num_words: 0, num_chars: 0, num_bytes: 0 };
    assert_eq!(info, expected);
}

#[test]
fn test_count() {
    let text = "I don't want the world.\nI just want your half.\r\n";
    let info = count(text);
    let expected = FileInfo { num_lines: 2, num_words: 10, num_chars: 48, num_bytes: 48 };
    assert_eq!(info, expected);
}

#[test]
fn count_is_a_function_of_the_text() {
    let text = "some fixed byte sequence\nwith two lines";
    let first = count(text);
    let second = count(text);
    assert_eq!(first, second);
}

#[test]
fn final_line_without_terminator_counts() {
    let info = count("one\ntwo");
    assert_eq!(info.num_lines, 2);
    assert_eq!(info.num_words, 2);
    assert_eq!(info.num_bytes, 7);
    assert_eq!(info.num_chars, 7);
}

#[test]
fn whitespace_only_line_has_no_words() {
    let info = count(" \t \n");
    assert_eq!(info.num_lines, 1);
    assert_eq!(info.num_words, 0);
    assert_eq!(info.num_bytes, 4);
    assert_eq!(info.num_chars, 4);
}

#[test]
fn multibyte_characters_count_once() {
    // Two characters of two bytes each and three of one byte.
    let text = "héllö";
    let info = count(text);
    assert_eq!(info.num_chars, 5);
    assert_eq!(info.num_bytes, 7);
    assert_eq!(info.num_lines, 1);
    assert_eq!(info.num_words, 1);
}

#[test]
fn char_count_never_exceeds_byte_count() {
    for text in ["", "plain ascii", "héllö wörld\n", "naïve\r\n", "日本語 テスト\n"] {
        let info = count(text);
        assert!(info.num_chars <= info.num_bytes);
    }
}

#[test]
fn unicode_whitespace_separates_words() {
    // An ideographic space (U+3000) and a no-break space (U+00A0) both split.
    let info = count("a\u{3000}b\u{00A0}c\n");
    assert_eq!(info.num_words, 3);
    assert_eq!(info.num_lines, 1);
}

#[test]
fn whitespace_set_matches_the_standard_library() {
    // One letter between every character of the Unicode `White_Space` set:
    // the engine must split words exactly where `split_whitespace` does.
    let text = "a\tb\nc\u{b}d\u{c}e\rf g\u{85}h\u{a0}i\u{1680}j\u{2000}k\u{2001}l\u{2002}m\u{2003}n\u{2004}o\u{2005}p\u{2006}q\u{2007}r\u{2008}s\u{2009}t\u{200a}u\u{2028}v\u{2029}w\u{202f}x\u{205f}y\u{3000}z";
    let info = count(text);
    assert_eq!(info.num_words, text.split_whitespace().count());
    assert_eq!(info.num_words, 26);
}

#[test]
fn counts_match_standard_library_primitives() {
    for text in [
        "",
        "one two  three\n",
        "héllö wörld\r\nsecond line\n\n",
        "tab\tseparated\twords no final newline",
        " \u{a0}\u{3000} ",
    ] {
        let info = count(text);
        assert_eq!(info.num_bytes, text.len());
        assert_eq!(info.num_chars, text.chars().count());
        assert_eq!(info.num_words, text.split_whitespace().count());
        assert_eq!(info.num_lines, text.lines().count());
    }
}

#[test]
fn counting_line_by_line_equals_counting_whole() {
    let whole = "I don't want the world.\nI just want your half.\r\nno newline at end";
    let mut folded = FileInfo::zero();
    for chunk in ["I don't want the world.\n", "I just want your half.\r\n", "no newline at end"] {
        folded = folded.add(&count(chunk));
    }
    assert_eq!(folded, count(whole));
}

#[test]
fn adding_records_sums_fieldwise() {
    let a = count("one two\n");
    let b = count("three\nfour five six\n");
    let sum = a.add(&b);
    assert_eq!(sum.num_lines, a.num_lines + b.num_lines);
    assert_eq!(sum.num_words, a.num_words + b.num_words);
    assert_eq!(sum.num_bytes, a.num_bytes + b.num_bytes);
    assert_eq!(sum.num_chars, a.num_chars + b.num_chars);
    let zero = FileInfo::zero();
    assert_eq!(zero, FileInfo { num_lines: 0, num_words: 0, num_bytes: 0, num_chars: 0 });
}
