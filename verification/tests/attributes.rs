use usage_derive::attributes::{
    attribute_name, field_attribute, is_parser, merge_message, merge_of, parse_message,
    scope_message, scope_of, source_attribute_message, source_bindings,
    struct_attribute, FieldAttribute, Merge, MergeError, SettingScope, StructAttribute,
};

#[test]
fn merge_is_union_or_deep_and_replace_goes_unsaid() {
    assert_eq!(merge_of("union"), Ok(Merge::Union));
    assert_eq!(merge_of("deep"), Ok(Merge::Deep));
    assert_eq!(merge_of("replace"), Err(MergeError::Replace));
    assert_eq!(merge_of("Union"), Err(MergeError::Unknown));
    assert_eq!(merge_of(""), Err(MergeError::Unknown));
}

#[test]
fn scope_is_global_or_env() {
    assert_eq!(scope_of("global"), Some(SettingScope::Global));
    assert_eq!(scope_of("env"), Some(SettingScope::Env));
    assert_eq!(scope_of("project"), None);
}

#[test]
fn only_the_spec_s_parsers_are_named() {
    for parser in ["list_by_comma", "list_by_colon", "list_by_os_path_separator", "set_by_comma"] {
        assert!(is_parser(parser), "{parser}");
    }
    assert!(!is_parser("set_by_colon"));
    assert!(!is_parser("list_by_comma "));
}

#[test]
fn a_source_binds_each_key_to_its_kind() {
    let words = |w: &[&str]| w.iter().map(|s| s.to_string()).collect::<Vec<_>>();
    assert_eq!(source_bindings(&words(&["git"])), None);
    assert_eq!(source_bindings(&words(&[])), None);
    assert_eq!(
        source_bindings(&words(&["git", "hk.jobs", "hk.threads"])),
        Some(vec![
            ("git".to_string(), "hk.jobs".to_string()),
            ("git".to_string(), "hk.threads".to_string()),
        ])
    );
}

#[test]
fn every_field_attribute_reads_back_from_its_name() {
    for attribute in [
        FieldAttribute::Flatten,
        FieldAttribute::Key,
        FieldAttribute::Ty,
        FieldAttribute::Env,
        FieldAttribute::DeprecatedEnv,
        FieldAttribute::Cli,
        FieldAttribute::Alias,
        FieldAttribute::Example,
        FieldAttribute::Extension,
        FieldAttribute::Source,
        FieldAttribute::Default,
        FieldAttribute::DefaultFn,
        FieldAttribute::DefaultNote,
        FieldAttribute::Choices,
        FieldAttribute::Merge,
        FieldAttribute::Scope,
        FieldAttribute::Parse,
        FieldAttribute::Hide,
        FieldAttribute::Optional,
        FieldAttribute::Deprecated,
        FieldAttribute::DeprecatedWarnAt,
        FieldAttribute::DeprecatedRemoveAt,
        FieldAttribute::Since,
        FieldAttribute::Help,
        FieldAttribute::LongHelp,
        FieldAttribute::HelpHeading,
        FieldAttribute::WritesTo,
    ] {
        assert_eq!(field_attribute(attribute_name(attribute)), Some(attribute));
    }
    assert_eq!(field_attribute("aliases"), Some(FieldAttribute::Alias));
    assert_eq!(field_attribute("examples"), Some(FieldAttribute::Example));
    assert_eq!(field_attribute("extension"), Some(FieldAttribute::Extension));
    assert_eq!(field_attribute("prefix"), None);
}

#[test]
fn a_struct_takes_a_prefix_sources_and_files() {
    assert_eq!(struct_attribute("prefix"), Some(StructAttribute::Prefix));
    assert_eq!(struct_attribute("source"), Some(StructAttribute::Source));
    assert_eq!(struct_attribute("file"), Some(StructAttribute::File));
    assert_eq!(struct_attribute("key"), None);
}

#[test]
fn attribute_values_are_refused_with_what_they_take() {
    assert_eq!(merge_message(MergeError::Replace, "replace"), "`replace` is the default; say nothing instead");
    assert_eq!(merge_message(MergeError::Unknown, "sum"), "`merge` is `union` or `deep`, not `sum`");
    assert_eq!(scope_message("project"), "`scope` is `global` or `env`, not `project`");
    assert_eq!(parse_message("by_tab"), "`by_tab` is not a parser the spec names");
    assert!(source_attribute_message().starts_with("`source` takes a kind and at least one key"));
}
