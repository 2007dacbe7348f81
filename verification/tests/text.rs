use pyappify::text::{
    chars_of, contains, decimal_text, ends_with, join, same_text, split, split_first,
    split_whitespace, starts_with, trim, white_space,
};

const SAMPLES: [&str; 10] = [
    "",
    " ",
    "a",
    " a  b\tc\n",
    "\u{a0}x\u{3000}y\u{2003}",
    "a.b.c",
    "..",
    "3.12.10",
    "\u{e9}\u{4e2d} \u{1f600}",
    "\u{200b}zero width is no space\u{feff}",
];

#[test]
fn white_space_is_that_of_unicode() {
    for n in 0..=0x10ffff_u32 {
        if let Some(c) = char::from_u32(n) {
            assert_eq!(white_space(c), c.is_whitespace(), "{n:x}");
        }
    }
}

#[test]
fn words_and_trimming_agree_with_std() {
    for s in SAMPLES {
        assert_eq!(split_whitespace(s), s.split_whitespace().collect::<Vec<_>>());
        assert_eq!(trim(s), s.trim());
        assert_eq!(chars_of(s), s.chars().collect::<Vec<_>>());
    }
}

#[test]
fn splitting_agrees_with_std() {
    for s in SAMPLES {
        for sep in ['.', ' ', 'a'] {
            assert_eq!(split(s, sep), s.split(sep).collect::<Vec<_>>());
            assert_eq!(Some(split_first(s, sep)), s.split(sep).next());
            assert_eq!(join(&split(s, sep), &sep.to_string()), s);
        }
    }
}

#[test]
fn searching_agrees_with_std() {
    for s in SAMPLES {
        for p in SAMPLES {
            assert_eq!(starts_with(s, p), s.starts_with(p));
            assert_eq!(ends_with(s, p), s.ends_with(p));
            assert_eq!(contains(s, p), s.contains(p));
            assert_eq!(same_text(s, p), s == p);
        }
    }
    assert!(contains("xaab", "ab"));
}

#[test]
fn numbers_are_written_in_decimal() {
    for n in [0, 7, 10, 99, 100, 4096, u32::MAX] {
        assert_eq!(decimal_text(n), n.to_string());
    }
}

#[test]
fn joining_puts_the_separator_between() {
    let list = vec!["a".to_string(), "b".to_string(), "".to_string()];
    assert_eq!(join(&list, " "), "a b ");
    assert_eq!(join(&vec![], " "), "");
}
