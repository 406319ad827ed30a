use usage_derive::environment::{env_items, env_pick, env_replacement, env_switch};

#[test]
fn environment_first_set_variable_fills_the_field() {
    assert!(env_pick(&vec![false, false, false], 2).is_none());
    let p = env_pick(&vec![false, true, true], 2).unwrap();
    assert_eq!((p.index, p.deprecated), (1, false));
    let p = env_pick(&vec![false, false, true], 2).unwrap();
    assert_eq!((p.index, p.deprecated), (2, true));
    let p = env_pick(&vec![true], 0).unwrap();
    assert_eq!((p.index, p.deprecated), (0, true));
}

#[test]
fn environment_switch_words() {
    for off in ["", "0", "false", "no", "off"] {
        assert!(!env_switch(off), "{off:?}");
    }
    for on in ["1", "true", "yes", "on", "OFF", "False", " "] {
        assert!(env_switch(on), "{on:?}");
    }
}

#[test]
fn environment_items_split_on_the_delimiter() {
    assert_eq!(env_items(b"a,b,,c", Some(b',')), vec![b"a".to_vec(), b"b".to_vec(), vec![], b"c".to_vec()]);
    assert_eq!(env_items(b"", Some(b',')), vec![Vec::<u8>::new()]);
    assert_eq!(env_items(b"a,b", None), vec![b"a,b".to_vec()]);
    assert_eq!(env_items(b",", Some(b',')), vec![Vec::<u8>::new(), Vec::new()]);
    let expected: Vec<Vec<u8>> = b"x:y".split(|b| *b == b':').map(|p| p.to_vec()).collect();
    assert_eq!(env_items(b"x:y", Some(b':')), expected);
}

#[test]
fn environment_replacement_is_env_then_first_fallback() {
    let none: Vec<String> = Vec::new();
    let fallbacks = vec!["APP_OLD_HOME".to_string(), "HOME2".to_string()];
    assert_eq!(env_replacement(&Some("APP_HOME".to_string()), &fallbacks).as_deref(), Some("APP_HOME"));
    assert_eq!(env_replacement(&None, &fallbacks).as_deref(), Some("APP_OLD_HOME"));
    assert_eq!(env_replacement(&None, &none), None);
}
