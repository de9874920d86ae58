use der::text::{
    contains_sub, find, find_sub, is_str, is_whitespace, join, lines, same, slice, split,
    split_trimmed, to_chars, to_strings, trim,
};

fn chars(s: &str) -> Vec<char> {
    s.chars().collect()
}

#[test]
fn whitespace_is_unicode_white_space() {
    for c in ['\t', '\n', '\u{b}', '\u{c}', '\r', ' ', '\u{85}', '\u{a0}', '\u{1680}', '\u{2003}',
        '\u{2028}', '\u{2029}', '\u{202f}', '\u{205f}', '\u{3000}']
    {
        assert!(is_whitespace(c));
        assert!(c.is_whitespace());
    }
    for c in ['a', '0', '_', '\u{200b}', '\u{180e}', '\u{feff}', '\u{1c}'] {
        assert_eq!(is_whitespace(c), c.is_whitespace());
    }
}

#[test]
fn whitespace_agrees_with_std_everywhere() {
    let mut n: u32 = 0;
    while n <= 0x10ffff {
        if let Some(c) = char::from_u32(n) {
            assert_eq!(is_whitespace(c), c.is_whitespace());
        }
        n += 1;
    }
}

#[test]
fn to_chars_keeps_every_character() {
    assert_eq!(to_chars("a√b"), vec!['a', '√', 'b']);
    assert_eq!(to_chars(""), Vec::<char>::new());
}

#[test]
fn to_strings_gives_the_same_text() {
    let rows = vec![chars("ab"), chars(""), chars("c d")];
    assert_eq!(to_strings(&rows), vec!["ab".to_string(), "".to_string(), "c d".to_string()]);
}

#[test]
fn trim_removes_both_ends_only() {
    assert_eq!(trim(&chars("  a b \t\n")), chars("a b"));
    assert_eq!(trim(&chars("   ")), chars(""));
    assert_eq!(trim(&chars("")), chars(""));
    assert_eq!(trim(&chars("x")), chars("x"));
}

#[test]
fn slice_and_same() {
    let v = chars("hello");
    assert_eq!(slice(&v, 1, 3), chars("el"));
    assert_eq!(slice(&v, 2, 2), chars(""));
    assert!(same(&v, &chars("hello")));
    assert!(!same(&v, &chars("hellO")));
    assert!(!same(&v, &chars("hell")));
    assert!(is_str(&v, "hello"));
    assert!(!is_str(&v, "help"));
}

#[test]
fn find_gives_the_first_index() {
    assert_eq!(find(&chars("a=b=c"), '='), Some(1));
    assert_eq!(find(&chars("abc"), '='), None);
    assert_eq!(find(&chars(""), '='), None);
}

#[test]
fn find_sub_gives_the_first_occurrence() {
    assert_eq!(find_sub(&chars("ab@@cd@@"), &chars("@@")), Some(2));
    assert_eq!(find_sub(&chars("ab@cd"), &chars("@@")), None);
    assert_eq!(find_sub(&chars("@!"), &chars("@!")), Some(0));
    assert_eq!(find_sub(&chars("abc"), &chars("")), Some(0));
    assert_eq!(find_sub(&chars(""), &chars("a")), None);
    assert!(contains_sub(&chars("x @! y"), &chars("@!")));
    assert!(!contains_sub(&chars("x @ ! y"), &chars("@!")));
}

#[test]
fn split_gives_one_more_part_than_separators() {
    assert_eq!(split(&chars("a,b,,c"), ','), vec![chars("a"), chars("b"), chars(""), chars("c")]);
    assert_eq!(split(&chars(""), ','), vec![chars("")]);
    assert_eq!(split(&chars(","), ','), vec![chars(""), chars("")]);
    assert_eq!(split(&chars("abc"), ','), vec![chars("abc")]);
}

#[test]
fn split_trimmed_trims_each_part() {
    assert_eq!(
        split_trimmed(&chars(" x , y,z "), ','),
        vec![chars("x"), chars("y"), chars("z")]
    );
}

#[test]
fn lines_follow_the_line_feeds() {
    assert_eq!(lines(&chars("a\nb\n")), vec![chars("a"), chars("b")]);
    assert_eq!(lines(&chars("a\nb")), vec![chars("a"), chars("b")]);
    assert_eq!(lines(&chars("")), Vec::<Vec<char>>::new());
    assert_eq!(lines(&chars("\n")), vec![chars("")]);
    assert_eq!(lines(&chars("a\n\nb")), vec![chars("a"), chars(""), chars("b")]);
}

#[test]
fn lines_drop_a_carriage_return_before_a_line_feed_only() {
    assert_eq!(
        lines(&chars("foo\r\nbar\n\r\nbaz\r")),
        vec![chars("foo"), chars("bar"), chars(""), chars("baz\r")]
    );
    let text = "foo\r\nbar\n\r\nbaz\r\n\r\r\nq";
    let expected: Vec<Vec<char>> = text.lines().map(|l| l.chars().collect()).collect();
    assert_eq!(lines(&chars(text)), expected);
}

#[test]
fn join_puts_the_separator_between() {
    let parts = vec!["a".to_string(), "b".to_string(), "c".to_string()];
    assert_eq!(join(&parts, ", "), "a, b, c");
    assert_eq!(join(&vec!["a".to_string()], ","), "a");
    assert_eq!(join(&Vec::new(), ","), "");
    assert_eq!(join(&vec!["".to_string(), "".to_string()], ","), ",");
}
