use usage_derive::command::{
    command_plan, completion_plan, partial_field, unknown_flags, value_source, CommandDecl,
    CommandField, FieldKind, PartialField, Storage, UnknownFlags, ValueConversion, ValueSource,
};
use usage_derive::hash::{declaration_hash, FieldShape};

fn field(kind: FieldKind, shape: FieldShape, value_ty: Option<&str>) -> CommandField {
    CommandField {
        kind,
        shape,
        value_ty: value_ty.map(|t| t.to_string()),
        value_enum: false,
        optional_value_type: false,
        optional_collection: false,
        required_collection: false,
        has_default: false,
        validates: false,
        bound: false,
        global: false,
        negate: false,
        repeatable: false,
        has_choices: false,
        allow_unknown_choices: false,
        deprecated_env: false,
    }
}

fn cli(fields: Vec<CommandField>) -> CommandDecl {
    CommandDecl {
        name: "tool".to_string(),
        fingerprint: "struct Tool".to_string(),
        fields,
        settings: false,
        completion: false,
        spec_endpoint: false,
        runtime_bin: None,
        runtime_name: None,
        args_override_self: true,
        composable: false,
        unknown_flags: None,
    }
}

#[test]
fn command_plan_splits_flags_and_args() {
    let mut verbose = field(FieldKind::Flag, FieldShape::Count, None);
    verbose.validates = true;
    let name = field(FieldKind::Flag, FieldShape::Required, Some("String"));
    let mut level = field(FieldKind::Flag, FieldShape::Required, Some("u8"));
    level.has_default = true;
    let input = field(FieldKind::Arg, FieldShape::Required, Some("PathBuf"));
    let sub = field(FieldKind::Subcommand { optional: false }, FieldShape::Required, None);
    let plan = command_plan(&cli(vec![verbose, input, name, sub, level]));
    assert_eq!(plan.declaration, declaration_hash("struct Tool"));
    assert_eq!(plan.flags, vec![0, 2, 4]);
    assert_eq!(plan.args, vec![1]);
    assert_eq!(plan.flag_keys, vec![0, 1, 2]);
    assert_eq!(plan.arg_keys, vec![0x4000_0000]);
    assert_eq!(plan.flag_required, vec![false, true, false]);
    assert_eq!(plan.flag_counts, vec![true, false, false]);
    assert!(plan.imports_validation);
    assert!(plan.subcommand_required);
    assert!(!plan.resolves_settings);
    assert_eq!(plan.values[0], ValueSource::Collected);
    assert_eq!(plan.values[1], ValueSource::One(ValueConversion::Path));
    assert_eq!(plan.values[2], ValueSource::One(ValueConversion::Text));
    assert_eq!(plan.values[4], ValueSource::One(ValueConversion::Parsed));
}

#[test]
fn command_value_sources_follow_the_shape() {
    let mut maybe = field(FieldKind::Flag, FieldShape::Optional, Some("OsString"));
    assert_eq!(value_source(&maybe), ValueSource::Optional(ValueConversion::OsText));
    maybe.optional_value_type = true;
    assert_eq!(value_source(&maybe), ValueSource::OptionalValue(ValueConversion::OsText));
    let mut many = field(FieldKind::Arg, FieldShape::Many, Some("Mode"));
    many.value_enum = true;
    assert_eq!(value_source(&many), ValueSource::Many(ValueConversion::Choice));
    many.optional_collection = true;
    many.has_default = true;
    assert_eq!(
        value_source(&many),
        ValueSource::OptionalMany { conversion: ValueConversion::Choice, defaulted: true }
    );
    let group = field(FieldKind::ArgGroup { optional: true }, FieldShape::Optional, None);
    assert_eq!(value_source(&group), ValueSource::Group { required: false });
    assert_eq!(value_source(&field(FieldKind::Skip, FieldShape::Required, Some("u8"))), ValueSource::Default);
    assert_eq!(value_source(&field(FieldKind::Flatten, FieldShape::Required, None)), ValueSource::Flattened);
}

#[test]
fn command_required_collection_without_default() {
    let mut files = field(FieldKind::Flag, FieldShape::Many, Some("String"));
    files.required_collection = true;
    let mut bound = field(FieldKind::Flag, FieldShape::Bool, None);
    bound.bound = true;
    let plan = command_plan(&cli(vec![files, bound]));
    assert_eq!(plan.flag_required, vec![true, false]);
    assert!(plan.resolves_settings);
}

#[test]
fn command_completion_program_prefers_the_binary() {
    let mut c = cli(vec![]);
    c.completion = true;
    c.runtime_name = Some("tool-rt".to_string());
    let plan = completion_plan(&c);
    assert!(plan.emitted);
    assert_eq!(plan.program.as_deref(), Some("tool-rt"));
    c.runtime_bin = Some("tool-bin".to_string());
    assert_eq!(completion_plan(&c).program.as_deref(), Some("tool-bin"));
    c.runtime_bin = None;
    c.runtime_name = None;
    c.spec_endpoint = true;
    let plan = completion_plan(&c);
    assert_eq!(plan.program, None);
    assert!(plan.spec_endpoint);
}

#[test]
fn command_partial_markers_follow_the_policy() {
    let mut global = field(FieldKind::Flag, FieldShape::Optional, Some("String"));
    global.global = true;
    global.negate = true;
    global.has_choices = true;
    let permissive = partial_field(true, false, &global);
    assert_eq!(
        permissive,
        PartialField {
            storage: Storage::MaybeBytes,
            duplicated: false,
            here: false,
            negated: true,
            mirrored: true,
            invalid_choice: true,
            deprecated_env: false,
        }
    );
    let strict = partial_field(false, false, &global);
    assert!(strict.duplicated && strict.here);
    assert!(partial_field(true, true, &global).duplicated);
    let mut many = field(FieldKind::Flag, FieldShape::Many, Some("String"));
    many.allow_unknown_choices = true;
    many.value_enum = true;
    let p = partial_field(false, false, &many);
    assert_eq!((p.storage, p.duplicated, p.invalid_choice), (Storage::AllBytes, false, false));
    let mut arg = field(FieldKind::Arg, FieldShape::Required, Some("String"));
    arg.deprecated_env = true;
    arg.global = true;
    let p = partial_field(false, false, &arg);
    assert_eq!((p.storage, p.duplicated, p.mirrored, p.deprecated_env), (Storage::Bytes, false, false, true));
    let sub = field(FieldKind::Subcommand { optional: true }, FieldShape::Optional, None);
    assert_eq!(partial_field(false, false, &sub).storage, Storage::Nothing);
    let plan = command_plan(&cli(vec![global, sub]));
    assert_eq!(plan.partial.len(), 2);
    assert_eq!(plan.partial[0], permissive);
}

#[test]
fn command_unknown_flags_word() {
    assert_eq!(unknown_flags(&None), None);
    assert_eq!(unknown_flags(&Some("error".to_string())), Some(UnknownFlags::Error));
    assert_eq!(unknown_flags(&Some("value".to_string())), Some(UnknownFlags::Value));
    assert_eq!(unknown_flags(&Some("Error".to_string())), Some(UnknownFlags::Value));
    let mut c = cli(vec![]);
    c.unknown_flags = Some("error".to_string());
    assert_eq!(command_plan(&c).unknown_flags, Some(UnknownFlags::Error));
}
