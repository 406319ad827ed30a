use usage_derive::text::{ends_with, find_char, lines, replace_char, split_char, starts_with, str_eq, strip_prefix, trim};

#[test]
fn lines_follow_std() {
    for text in ["", "a", "a\n", "a\r\nb", "a\n\nb\n", "\n", "x\r", "x\r\n\r\n", " a \n b "] {
        let ours = lines(text);
        let std: Vec<&str> = text.lines().collect();
        assert_eq!(ours, std, "{text:?}");
    }
}

#[test]
fn trim_and_split_follow_std() {
    for text in ["", " ", " a b ", "\t\u{a0}x\u{3000}", "a,,b,", ","] {
        assert_eq!(trim(text), text.trim(), "{text:?}");
        let ours = split_char(text, ',');
        let std: Vec<&str> = text.split(',').collect();
        assert_eq!(ours, std, "{text:?}");
    }
}

#[test]
fn small_string_operations() {
    assert!(str_eq("abc", "abc"));
    assert!(!str_eq("abc", "abd"));
    assert!(starts_with("target.x", "target."));
    assert!(ends_with("a.dependencies", ".dependencies"));
    assert!(!ends_with("s", "longer"));
    assert_eq!(strip_prefix("dependencies.x", "dependencies."), Some("x"));
    assert_eq!(find_char("a=b=c", '='), Some(1));
    assert_eq!(find_char("abc", '='), None);
    assert_eq!(replace_char("usage-argv-x", '-', '_'), "usage_argv_x");
}
