use usage_derive::hash::{
    binding_hash, declaration_hash, hash_binding_part, hash_binding_usize, BindingContract,
    FieldShape,
};

fn contract(validate: &str, validate_error: &str) -> u64 {
    let mut hash = 0xcbf2_9ce4_8422_2325u64;
    hash_binding_part(&mut hash, b"validate", Some(validate.as_bytes()));
    hash_binding_part(&mut hash, b"validate-error", Some(validate_error.as_bytes()));
    hash
}

#[test]
fn adjacent_binding_properties_cannot_alias_by_concatenation() {
    assert_ne!(contract("a", "bc"), contract("ab", "c"));
}

/// FNV-1a over the bytes, spelled out here independently.
fn fnv64(mut hash: u64, bytes: &[u8]) -> u64 {
    for b in bytes {
        hash ^= u64::from(*b);
        hash = hash.wrapping_mul(0x0000_0100_0000_01b3);
    }
    hash
}

#[test]
fn a_binding_part_hashes_its_length_delimited_encoding() {
    let mut hash = 7u64;
    hash_binding_part(&mut hash, b"ab", Some(b"xyz"));
    let mut stream = Vec::new();
    stream.extend_from_slice(&2u64.to_le_bytes());
    stream.extend_from_slice(b"ab");
    stream.push(1);
    stream.extend_from_slice(&3u64.to_le_bytes());
    stream.extend_from_slice(b"xyz");
    assert_eq!(hash, fnv64(7, &stream));

    let mut absent = 7u64;
    hash_binding_part(&mut absent, b"ab", None);
    let mut stream = Vec::new();
    stream.extend_from_slice(&2u64.to_le_bytes());
    stream.extend_from_slice(b"ab");
    stream.push(0);
    stream.extend_from_slice(&0u64.to_le_bytes());
    assert_eq!(absent, fnv64(7, &stream));
    assert_ne!(absent, hash);
}

#[test]
fn an_absent_count_differs_from_zero() {
    let mut none = 1u64;
    hash_binding_usize(&mut none, b"var-min", None);
    let mut zero = 1u64;
    hash_binding_usize(&mut zero, b"var-min", Some(0));
    assert_ne!(none, zero);
}

#[test]
fn declaration_hash_is_fnv1a_32() {
    assert_eq!(declaration_hash(""), 0x811c_9dc5);
    assert_eq!(declaration_hash("a"), 0xe40c_292c);
    assert_eq!(declaration_hash("foobar"), 0xbf9c_f968);
}

fn sample() -> BindingContract {
    BindingContract {
        shape: FieldShape::Optional,
        bool_value: false,
        optional_value_type: true,
        variadic: false,
        repeatable: false,
        var_min: None,
        var_max: Some(3),
        value_var_min: None,
        value_var_max: None,
        value_enum: false,
        allow_unknown_choices: false,
        choices: vec!["a".to_string(), "b".to_string()],
        validate: None,
        validate_error: None,
        delimiter: Some(','),
    }
}

#[test]
fn binding_hash_follows_every_part_of_the_contract() {
    let base = binding_hash(&sample());
    assert_eq!(base, binding_hash(&sample()));
    let mut shape = sample();
    shape.shape = FieldShape::Required;
    assert_ne!(base, binding_hash(&shape));
    let mut choices = sample();
    choices.choices = vec!["ab".to_string()];
    assert_ne!(base, binding_hash(&choices));
    let mut delimiter = sample();
    delimiter.delimiter = None;
    assert_ne!(base, binding_hash(&delimiter));
    let mut validate = sample();
    validate.validate = Some("value != ''".to_string());
    assert_ne!(base, binding_hash(&validate));
}

#[test]
fn binding_hash_matches_a_hand_built_stream() {
    let contract = BindingContract {
        shape: FieldShape::Bool,
        bool_value: true,
        optional_value_type: false,
        variadic: false,
        repeatable: false,
        var_min: None,
        var_max: None,
        value_var_min: None,
        value_var_max: None,
        value_enum: false,
        allow_unknown_choices: false,
        choices: vec![],
        validate: None,
        validate_error: None,
        delimiter: None,
    };
    let mut expected = 0xcbf2_9ce4_8422_2325u64;
    hash_binding_part(&mut expected, b"shape", Some(b"bool"));
    hash_binding_part(&mut expected, b"bool-value", Some(&[1]));
    hash_binding_part(&mut expected, b"optional-value", Some(&[0]));
    hash_binding_part(&mut expected, b"variadic", Some(&[0]));
    hash_binding_part(&mut expected, b"repeatable", Some(&[0]));
    hash_binding_usize(&mut expected, b"var-min", None);
    hash_binding_usize(&mut expected, b"var-max", None);
    hash_binding_usize(&mut expected, b"value-var-min", None);
    hash_binding_usize(&mut expected, b"value-var-max", None);
    hash_binding_part(&mut expected, b"value-enum", Some(&[0]));
    hash_binding_part(&mut expected, b"open-choices", Some(&[0]));
    hash_binding_part(&mut expected, b"choices-end", None);
    hash_binding_part(&mut expected, b"validate", None);
    hash_binding_part(&mut expected, b"validate-error", None);
    hash_binding_part(&mut expected, b"delimiter", None);
    assert_eq!(binding_hash(&contract), expected);
}
