use wcr::counting::count;
use wcr::format::{format_count, format_file_name, format_number};
use wcr::report::{format_line, format_total_line, normalize_selection, report, Selection, SourceOutcome};

#[test]
fn should_format_count() {
    assert_eq!(format_count(1, false), "");
    assert_eq!(format_count(3, true), "       3");
    assert_eq!(format_count(10, true), "      10");
}

#[test]
fn should_format_filename() {
    assert_eq!(format_file_name("-"), "");
    assert_eq!(format_file_name("test_file.txt"), " test_file.txt");
}

#[test]
fn wide_value_is_kept_whole() {
    assert_eq!(format_count(123456789, true), "123456789");
    assert_eq!(format_count(0, true), "       0");
    assert_eq!(format_number(42, 6), "    42");
}

#[test]
fn default_selection_is_lines_words_bytes() {
    let sel = normalize_selection(Selection { lines: false, words: false, bytes: false, chars: false });
    assert_eq!(sel, Selection { lines: true, words: true, bytes: true, chars: false });
    let explicit = Selection { lines: false, words: false, bytes: false, chars: true };
    assert_eq!(normalize_selection(explicit), explicit);
}

#[test]
fn words_only_single_source() {
    // Three lines, seven words: only the word column shows, and a single
    // source gets no total line.
    let text = "one two three\nfour five\nsix seven\n";
    let info = count(text);
    assert_eq!(info.num_lines, 3);
    assert_eq!(info.num_words, 7);
    let sel = normalize_selection(Selection { lines: false, words: true, bytes: false, chars: false });
    let items = vec![SourceOutcome { name: String::from("f.txt"), info: Some(info) }];
    let lines = report(&items, &sel);
    assert_eq!(lines, vec![String::from("       7 f.txt")]);
}

#[test]
fn two_sources_make_three_lines() {
    let a = count("I don't want the world.\nI just want your half.\r\n");
    let b = count("hello\n");
    let sel = normalize_selection(Selection { lines: false, words: false, bytes: false, chars: false });
    let items = vec![
        SourceOutcome { name: String::from("a.txt"), info: Some(a) },
        SourceOutcome { name: String::from("b.txt"), info: Some(b) },
    ];
    let lines = report(&items, &sel);
    assert_eq!(lines.len(), 3);
    assert_eq!(lines[0], "       2      10      48 a.txt");
    assert_eq!(lines[1], "       1       1       6 b.txt");
    // The total is the field-wise sum of the two records.
    let total = a.add(&b);
    assert_eq!(lines[2], format_total_line(&total, &sel));
    assert_eq!(lines[2], "       3      11      54 total");
}

#[test]
fn failed_source_keeps_the_others() {
    // The middle source could not be opened: it yields no line and nothing
    // in the total; the other two still count.
    let a = count("one two\n");
    let c = count("three\n");
    let sel = normalize_selection(Selection { lines: false, words: false, bytes: false, chars: false });
    let items = vec![
        SourceOutcome { name: String::from("a.txt"), info: Some(a) },
        SourceOutcome { name: String::from("missing.txt"), info: None },
        SourceOutcome { name: String::from("c.txt"), info: Some(c) },
    ];
    let lines = report(&items, &sel);
    assert_eq!(lines.len(), 3);
    assert_eq!(lines[0], format_line(&a, &sel, "a.txt"));
    assert_eq!(lines[1], format_line(&c, &sel, "c.txt"));
    assert_eq!(lines[2], format_total_line(&a.add(&c), &sel));
}

#[test]
fn standard_input_line_has_no_name() {
    let info = count("x\n");
    let sel = normalize_selection(Selection { lines: true, words: false, bytes: false, chars: false });
    assert_eq!(format_line(&info, &sel, "-"), "       1");
}
