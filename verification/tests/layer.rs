use usage_derive::layer::{
    argument_matches, key_suffix, key_suffixes, setting_given, word_text, KeyKind, PartialValue, SettingGiven,
};

#[test]
fn each_kind_has_its_own_key_space() {
    assert_eq!(key_suffix(KeyKind::Flag, 3), 3);
    assert_eq!(key_suffix(KeyKind::Arg, 3), (1 << 30) | 3);
    assert_eq!(key_suffix(KeyKind::Command, 0), 2 << 30);
    let flags = key_suffixes(KeyKind::Flag, 4);
    let args = key_suffixes(KeyKind::Arg, 4);
    let mut all: Vec<u64> = flags.iter().chain(args.iter()).copied().collect();
    all.push(key_suffix(KeyKind::Command, 0));
    let base: u64 = 0xdead_beef_0000_0000;
    let mut keys: Vec<u64> = all.iter().map(|s| base | s).collect();
    keys.sort();
    keys.dedup();
    assert_eq!(keys.len(), 9);
}

#[test]
fn a_switch_contributes_the_bool_the_parser_landed_on() {
    assert!(matches!(setting_given(&PartialValue::Bool(false)), SettingGiven::Bool(false)));
    assert!(matches!(setting_given(&PartialValue::Bool(true)), SettingGiven::Bool(true)));
}

#[test]
fn a_count_saturates() {
    assert!(matches!(setting_given(&PartialValue::Count(3)), SettingGiven::Int(3)));
    assert!(matches!(setting_given(&PartialValue::Count(u64::MAX)), SettingGiven::Int(i64::MAX)));
}

#[test]
fn text_is_contributed_and_bytes_that_are_not_text_are_said() {
    let given = setting_given(&PartialValue::Required(b"fast".to_vec()));
    assert!(matches!(given, SettingGiven::Text(t) if t == "fast"));
    assert!(matches!(setting_given(&PartialValue::Required(vec![0xff, 0xfe])), SettingGiven::NotText));
    assert!(matches!(setting_given(&PartialValue::Optional(None)), SettingGiven::Text(t) if t.is_empty()));
    let list = setting_given(&PartialValue::Many(vec![b"a,b".to_vec(), b"c".to_vec()]));
    assert!(matches!(list, SettingGiven::List(items) if items == vec!["a,b".to_string(), "c".to_string()]));
    let broken = setting_given(&PartialValue::Many(vec![b"a".to_vec(), vec![0xc3]]));
    assert!(matches!(broken, SettingGiven::NotText));
}

#[test]
fn a_word_that_is_not_utf8_is_reported_not_replaced() {
    assert_eq!(word_text("path", "é".as_bytes().to_vec()).ok().as_deref(), Some("é"));
    let err = word_text("path", vec![b'a', 0xff]).err().expect("refused");
    assert_eq!(err.name, "path");
    assert_eq!(err.bytes, vec![b'a', 0xff]);
}

#[test]
fn a_relationship_sees_what_a_field_holds() {
    assert!(argument_matches(true, &PartialValue::Required(b"yaml".to_vec()), b"yaml"));
    assert!(!argument_matches(false, &PartialValue::Required(b"yaml".to_vec()), b"yaml"));
    assert!(!argument_matches(true, &PartialValue::Optional(None), b""));
    assert!(argument_matches(true, &PartialValue::Many(vec![b"a".to_vec(), b"b".to_vec()]), b"b"));
    assert!(argument_matches(true, &PartialValue::Bool(false), b"false"));
    assert!(!argument_matches(true, &PartialValue::Bool(false), b"true"));
    assert!(argument_matches(true, &PartialValue::Count(2), b"true"));
    assert!(argument_matches(true, &PartialValue::Count(0), b"false"));
    assert!(!argument_matches(true, &PartialValue::Count(0), b"0"));
}
