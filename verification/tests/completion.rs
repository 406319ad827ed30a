use usage_derive::completion::{completion_request, completion_words};

fn argv(words: &[&str]) -> Vec<String> {
    words.iter().map(|w| w.to_string()).collect()
}

#[test]
fn only_the_hidden_word_asks_for_completion() {
    assert!(completion_request(&argv(&["build", "--line", "x"])).is_none());
    assert!(completion_request(&argv(&[])).is_none());
    let r = completion_request(&argv(&["__complete_word__"])).unwrap();
    assert!(r.shells.is_empty() && r.line.is_empty() && r.cursor.is_none());
    assert!(r.candidates_for.is_none() && r.words.is_none());
}

#[test]
fn a_request_reads_its_own_flags_and_ignores_the_rest() {
    let r = completion_request(&argv(&[
        "__complete_word__",
        "--shell",
        "zsh",
        "--future",
        "--line",
        "mycli bu",
        "--cursor",
        "8",
        "--candidates",
        "tasks",
    ]))
    .unwrap();
    assert_eq!(r.shells, argv(&["zsh"]));
    assert_eq!(r.line, "mycli bu");
    assert_eq!(r.cursor, Some(8));
    assert_eq!(r.candidates_for.as_deref(), Some("tasks"));
    assert!(r.words.is_none());
}

#[test]
fn words_take_everything_after_them() {
    let r = completion_request(&argv(&["__complete_word__", "--words", "mycli", "--line", "b"])).unwrap();
    assert_eq!(r.words, Some(argv(&["mycli", "--line", "b"])));
    assert!(r.line.is_empty());
}

#[test]
fn a_cursor_that_is_not_a_number_is_no_cursor() {
    let r = completion_request(&argv(&["__complete_word__", "--cursor", "3", "--cursor", "end"])).unwrap();
    assert_eq!(r.cursor, None);
    let r = completion_request(&argv(&["__complete_word__", "--cursor", "3", "--cursor"])).unwrap();
    assert_eq!(r.cursor, None);
}

#[test]
fn split_words_always_have_one_under_the_cursor() {
    let (words, cword, prefix) = completion_words(vec![]);
    assert_eq!((words, cword, prefix), (vec![String::new()], 0, String::new()));
    let (words, cword, prefix) = completion_words(argv(&["mycli", "bu"]));
    assert_eq!((words.len(), cword, prefix.as_str()), (2, 1, "bu"));
}

#[test]
fn a_cursor_reads_as_std_parses_a_usize() {
    for word in ["0", "+12", "007", "-1", "+", "", "1_000", " 3", "18446744073709551615", "18446744073709551616", "99999999999999999999"] {
        let r = completion_request(&argv(&["__complete_word__", "--cursor", word])).unwrap();
        assert_eq!(r.cursor, word.parse::<usize>().ok(), "cursor word {word:?}");
    }
}
