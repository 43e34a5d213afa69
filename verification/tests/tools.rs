use wcr::tools::{all_but_last, cat_line, echo_line, head_prefix};

#[test]
fn prints_one_argument() {
    let parts = vec![String::from("Hello there")];
    assert_eq!(echo_line(&parts, false), "Hello there\n");
}

#[test]
fn prints_two_arguments() {
    let parts = vec![String::from("Hello"), String::from("there")];
    assert_eq!(echo_line(&parts, false), "Hello there\n");
}

#[test]
fn prints_one_argument_no_new_line() {
    let parts = vec![String::from("Hello  there")];
    assert_eq!(echo_line(&parts, true), "Hello  there");
}

#[test]
fn prints_two_arguments_no_new_line() {
    let parts = vec![String::from("Hello"), String::from("there")];
    assert_eq!(echo_line(&parts, true), "Hello there");
}

#[test]
fn echo_joins_with_single_spaces() {
    let parts = vec![String::from("Hello"), String::from("there")];
    assert_eq!(echo_line(&parts, false), "Hello there\n");
    assert_eq!(echo_line(&parts, true), "Hello there");
    let one = vec![String::from("Hello  there")];
    assert_eq!(echo_line(&one, false), "Hello  there\n");
    assert_eq!(echo_line(&Vec::new(), false), "\n");
}

#[test]
fn cat_numbers_every_line() {
    let (line, prev) = cat_line("hello", true, false, 1, 0);
    assert_eq!(line, "     1\thello");
    assert_eq!(prev, 0);
    let (line, _) = cat_line("", true, false, 2, 0);
    assert_eq!(line, "     2\t");
}

#[test]
fn cat_numbers_only_nonblank_lines() {
    let (line, prev) = cat_line("first", false, true, 1, 0);
    assert_eq!(line, "     1\tfirst");
    assert_eq!(prev, 1);
    let (line, prev) = cat_line("", false, true, 2, prev);
    assert_eq!(line, "");
    assert_eq!(prev, 1);
    let (line, prev) = cat_line("second", false, true, 3, prev);
    assert_eq!(line, "     2\tsecond");
    assert_eq!(prev, 2);
}

#[test]
fn cat_plain_keeps_the_line() {
    let (line, prev) = cat_line("as is", false, false, 5, 3);
    assert_eq!(line, "as is");
    assert_eq!(prev, 3);
}

#[test]
fn head_takes_the_first_lines() {
    let lines: Vec<String> = ["a\n", "b\n", "c\n"].iter().map(|s| s.to_string()).collect();
    assert_eq!(head_prefix(&lines, 2), vec!["a\n".to_string(), "b\n".to_string()]);
    assert_eq!(head_prefix(&lines, 10), lines);
    assert_eq!(head_prefix(&lines, 0), Vec::<String>::new());
}

#[test]
fn negative_count_skips_the_tail() {
    let lines: Vec<String> = ["a\n", "b\n", "c\n"].iter().map(|s| s.to_string()).collect();
    assert_eq!(all_but_last(&lines, 1), vec!["a\n".to_string(), "b\n".to_string()]);
    assert_eq!(all_but_last(&lines, 3), Vec::<String>::new());
    assert_eq!(all_but_last(&lines, 5), Vec::<String>::new());
}
