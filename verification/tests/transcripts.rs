use stt_linux::config::{Config, PostProcConfig, Replacement};
use stt_linux::engine::Transcript;
use stt_linux::overlay::Cmd;
use stt_linux::postproc::{capitalize, put_at, replace_literal, substitute};
use stt_linux::segments::{silent_places, split, transcript_of, BLOCK};
use stt_linux::session::Session;

fn literal(from: &str, to: &str) -> Replacement {
    Replacement {
        from: Some(from.into()),
        pattern: None,
        to: to.into(),
    }
}

fn regex(pattern: &str, to: &str) -> Replacement {
    Replacement {
        from: None,
        pattern: Some(pattern.into()),
        to: to.into(),
    }
}

fn config(replacements: Vec<Replacement>, capitalize_first: bool, trailing_space: bool) -> Config {
    Config {
        replacements,
        postproc: PostProcConfig {
            capitalize_first,
            trailing_space,
        },
        ..Config::default()
    }
}

fn polish(config: &Config, text: &str) -> String {
    config.postproc.finish(&substitute(config, text))
}

fn piece(text: &str) -> Transcript {
    Transcript {
        text: text.into(),
        language: None,
    }
}

#[test]
fn literals_are_replaced_from_left_to_right() {
    assert_eq!(replace_literal("a-b-c", "-", " "), "a b c");
    assert_eq!(replace_literal("aaa", "aa", "b"), "ba");
    assert_eq!(replace_literal("héllo", "é", "e"), "hello");
    assert_eq!(replace_literal("new line", "new line", "\n"), "\n");
    // What was put in is not looked at again.
    assert_eq!(replace_literal("ab", "a", "aa"), "aab");
}

#[test]
fn text_without_an_occurrence_is_left_alone() {
    assert_eq!(replace_literal("hello", "x", "y"), "hello");
    assert_eq!(replace_literal("hel", "hello", "y"), "hel");
    assert_eq!(replace_literal("", "x", "y"), "");
    assert_eq!(replace_literal("hello", "", "y"), "hello");
}

#[test]
fn patterns_are_replaced_with_their_groups() {
    assert_eq!(regex(r"\bum\b,? ?", "").apply("um, so um yes"), "so yes");
    assert_eq!(regex(r"(\w+) at (\w+)", "$1@$2").apply("me at home"), "me@home");
    assert_eq!(regex("(", "x").apply("a(b"), "a(b");
}

#[test]
fn a_pattern_result_is_taken_as_given() {
    assert_eq!(regex("p", "x").apply_with("text", Some("other".into())), "other");
    assert_eq!(regex("p", "x").apply_with("text", None), "text");
    assert_eq!(literal("t", "T").apply_with("text", Some("other".into())), "TexT");
    let nothing = Replacement {
        from: None,
        pattern: None,
        to: "x".into(),
    };
    assert_eq!(nothing.apply_with("text", Some("other".into())), "text");
}

#[test]
fn substitutions_apply_in_order() {
    let there = config(vec![literal("a", "b"), literal("b", "c")], false, false);
    assert_eq!(polish(&there, "ab"), "cc");
    let back = config(vec![literal("b", "c"), literal("a", "b")], false, false);
    assert_eq!(polish(&back, "ab"), "bc");
    let mixed = config(vec![regex("[0-9]+", "n"), literal("n", "number")], false, false);
    assert_eq!(polish(&mixed, "12 and 7"), "number anumberd number");
}

#[test]
fn the_first_alphabetic_character_is_capitalized() {
    assert_eq!(capitalize("hello world"), "Hello world");
    assert_eq!(capitalize("\"hello\""), "\"Hello\"");
    assert_eq!(capitalize("3 apples"), "3 Apples");
    assert_eq!(capitalize("élan"), "Élan");
    assert_eq!(capitalize("ßx"), "SSx");
    assert_eq!(capitalize("Hello"), "Hello");
    assert_eq!(capitalize("123"), "123");
    assert_eq!(capitalize(""), "");
    assert_eq!(put_at(&vec!['a', 'b', 'c'], 1, "XY"), "aXYc");
}

#[test]
fn dictations_do_not_run_together() {
    assert_eq!(polish(&Config::default(), "hello world"), "Hello world ");
    assert_eq!(polish(&config(vec![], true, false), "hello"), "Hello");
    assert_eq!(polish(&config(vec![], false, true), "hello"), "hello ");
}

#[test]
fn nothing_set_changes_nothing() {
    for text in ["hello", "", "  x "] {
        assert_eq!(polish(&config(vec![], false, false), text), text);
    }
}

#[test]
fn what_is_delivered_is_what_the_user_asked_for() {
    let s = Session::new(
        config(vec![literal("comma", ",")], true, true),
        "wtype".into(),
        false,
    );
    assert_eq!(
        s.text_to_deliver(" yes comma indeed\n"),
        Some("Yes , indeed ".into())
    );
    assert_eq!(s.text_to_deliver(" \n"), None);
    let shown = s.text_to_deliver("yes").unwrap();
    assert_eq!(Session::preview_text(&shown), Some(Cmd::Text("Yes".into())));
}

#[test]
fn nothing_is_delivered_when_no_word_is_left() {
    for (capitalized, spaced) in [(true, true), (false, false)] {
        let s = Session::new(
            config(vec![regex(r"\bum\b ?", "")], capitalized, spaced),
            "wtype".into(),
            false,
        );
        assert_eq!(s.text_to_deliver("um um"), None);
        assert!(s.text_to_deliver("um yes").is_some());
    }
    // A line break is something.
    let s = Session::new(config(vec![literal("new line", "\n")], true, false), "wtype".into(), false);
    assert_eq!(s.text_to_deliver("new line"), Some("\n".into()));
}

#[test]
fn silent_blocks_are_places_to_split() {
    assert_eq!(silent_places(&vec![true, false, true, true], 100), vec![0, 200, 300]);
    assert_eq!(silent_places(&vec![false, false], BLOCK), Vec::<usize>::new());
    assert_eq!(silent_places(&vec![], BLOCK), Vec::<usize>::new());
}

#[test]
fn short_recordings_stay_whole() {
    assert_eq!(split(100, 100, &vec![10, 20]), vec![100]);
    assert_eq!(split(0, 100, &vec![]), vec![0]);
}

#[test]
fn long_recordings_are_split_at_the_last_silence_in_reach() {
    assert_eq!(split(250, 100, &vec![0, 40, 90, 130, 200]), vec![90, 130, 200, 250]);
    assert_eq!(split(101, 100, &vec![100]), vec![100, 101]);
    // The places need not be in order.
    assert_eq!(split(150, 100, &vec![90, 40]), vec![90, 150]);
}

#[test]
fn without_silence_pieces_are_as_long_as_may_be() {
    assert_eq!(split(250, 100, &vec![]), vec![100, 200, 250]);
    assert_eq!(split(250, 100, &vec![0]), vec![100, 200, 250]);
}

#[test]
fn pieces_cover_the_recording_and_fit() {
    let places: Vec<usize> = (0..100).filter(|i| i % 7 == 0).map(|i| i * 13).collect();
    for total in [1usize, 99, 500, 1300, 2000] {
        let mut start = 0;
        for end in split(total, 97, &places) {
            assert!(start < end && end - start <= 97);
            start = end;
        }
        assert_eq!(start, total);
    }
}

#[test]
fn transcripts_of_pieces_are_joined_by_a_space() {
    let whole = transcript_of(&vec![piece("one two"), piece(""), piece("three")]);
    assert_eq!(whole, piece("one two three"));
    assert_eq!(transcript_of(&vec![piece("")]), piece(""));
    assert_eq!(transcript_of(&vec![]), Transcript::default());
    assert_eq!(transcript_of(&vec![piece("only")]).text, "only");
}
