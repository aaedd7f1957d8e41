use stt_linux::order::{is_at_most, sort};
use stt_linux::text::{
    chars_of, copy_strings, find, is_blank, is_whitespace, join, pad_left, pad_right, repeat, same,
    skip_space, split, starts_with, string_of, to_decimal, trim,
};

/// Normalize for comparison: lowercase, strip punctuation, collapse spaces.
fn words(s: &str) -> Vec<String> {
    s.to_lowercase()
        .chars()
        .map(|c| {
            if c.is_alphanumeric() || c == '\'' {
                c
            } else {
                ' '
            }
        })
        .collect::<String>()
        .split_whitespace()
        .map(str::to_owned)
        .collect()
}

/// Levenshtein distance over words, divided by reference length.
fn word_error_rate(reference: &str, hypothesis: &str) -> f32 {
    let r = words(reference);
    let h = words(hypothesis);
    if r.is_empty() {
        return if h.is_empty() { 0.0 } else { 1.0 };
    }

    let mut prev: Vec<usize> = (0..=h.len()).collect();
    let mut curr = vec![0usize; h.len() + 1];
    for (i, rw) in r.iter().enumerate() {
        curr[0] = i + 1;
        for (j, hw) in h.iter().enumerate() {
            let cost = usize::from(rw != hw);
            curr[j + 1] = (prev[j] + cost).min(prev[j + 1] + 1).min(curr[j] + 1);
        }
        std::mem::swap(&mut prev, &mut curr);
    }
    prev[h.len()] as f32 / r.len() as f32
}

#[test]
fn identical_strings_score_zero() {
    assert_eq!(word_error_rate("hello world", "hello world"), 0.0);
}

#[test]
fn punctuation_and_case_are_ignored() {
    assert_eq!(word_error_rate("Hello, World!", "hello world"), 0.0);
}

#[test]
fn one_wrong_word_in_four() {
    assert!((word_error_rate("a b c d", "a b x d") - 0.25).abs() < 1e-6);
}

#[test]
fn empty_hypothesis_scores_one() {
    assert_eq!(word_error_rate("a b c", ""), 1.0);
}

#[test]
fn whitespace_is_what_unicode_says() {
    for code in 0..=0x10ffffu32 {
        if let Some(c) = char::from_u32(code) {
            assert_eq!(is_whitespace(c), c.is_whitespace(), "{code:#x}");
        }
    }
}

#[test]
fn trimming_follows_the_standard_library() {
    for s in ["", " ", "a", " a", "a ", "\t a b \n", "\u{3000}x\u{2028}", "é "] {
        assert_eq!(trim(s), s.trim());
        assert_eq!(is_blank(s), s.trim().is_empty());
    }
    assert_eq!(skip_space(&chars_of("  x "), 0), 2);
    assert_eq!(skip_space(&chars_of("  "), 1), 2);
}

#[test]
fn splitting_and_joining_follow_the_standard_library() {
    for s in ["", "+", "a", "a+b", "+a++b+", "ä+ö"] {
        let expected: Vec<&str> = s.split('+').collect();
        let parts = split(s, '+');
        assert_eq!(parts, expected);
        assert_eq!(join(&parts, "+"), s);
        assert_eq!(join(&parts, ", "), expected.join(", "));
        assert_eq!(copy_strings(&parts), parts);
    }
    assert_eq!(join(&vec![], ", "), "");
}

#[test]
fn searching_finds_the_first_occurrence() {
    let hay = chars_of("abcabc");
    assert_eq!(find(&hay, &chars_of("bc"), 0), Some(1));
    assert_eq!(find(&hay, &chars_of("bc"), 2), Some(4));
    assert_eq!(find(&hay, &chars_of("bc"), 5), None);
    assert_eq!(find(&hay, &chars_of(""), 6), Some(6));
    assert_eq!(find(&hay, &chars_of("abcabcd"), 0), None);
    assert!(starts_with("event0", "event"));
    assert!(!starts_with("even", "event"));
    assert!(same("é", "é") && !same("a", "b"));
    assert_eq!(string_of(&hay, 1, 3), "bc");
}

#[test]
fn numbers_and_columns_are_formatted_like_the_standard_library() {
    for n in [0, 1, 9, 10, 99, 100, 1_234_567_890, u64::MAX] {
        assert_eq!(to_decimal(n), n.to_string());
    }
    for s in ["", "ab", "→→→→"] {
        assert_eq!(pad_right(s, 3), format!("{s:<3}"));
        assert_eq!(pad_left(s, 3), format!("{s:>3}"));
    }
    assert_eq!(repeat('x', 3), "xxx");
}

#[test]
fn sorting_follows_the_standard_library() {
    let list: Vec<String> = ["b", "", "ä", "ab", "a", "z", "B", "ab", "🎤", "\u{ffff}"]
        .iter()
        .map(|s| s.to_string())
        .collect();
    let mut expected = list.clone();
    expected.sort();
    assert_eq!(sort(list.clone()), expected);
    for a in &list {
        for b in &list {
            assert_eq!(is_at_most(a, b), a <= b, "{a:?} {b:?}");
        }
    }
}
