use usage_derive::config::{
    accept_setting, check_setting, setting_message, ty_name, Const, RustType, SettingDecl,
    SettingError,
};
use usage_derive::attributes::{
    attribute_name, field_attribute, flatten_message, flatten_refusal, FieldAttribute,
};
use usage_derive::declaration::{
    collision_message, duplicate_source, duplicate_source_message, extension, extension_message,
    file_decl, file_message, name_collision, sort_sources, source_decl, source_message, Clash,
    ExtensionError, FileError, FileItem, FileScope, SettingNames, Source, SourceError, XdgBase,
};

fn path(name: &str, args: Vec<RustType>) -> RustType {
    RustType::Path { name: name.to_string(), args }
}

fn plain(name: &str) -> RustType {
    path(name, vec![])
}

/// `Vec<inner>`.
fn vec_of(inner: RustType) -> RustType {
    path("Vec", vec![inner])
}

fn float(f: f64) -> Const {
    Const::Float { bits: f.to_bits(), fits_f32: !(f as f32).is_infinite() || f.is_infinite() }
}

fn text(s: &str) -> Const {
    Const::Str(s.to_string())
}

fn ints(values: &[i64]) -> Vec<Const> {
    values.iter().map(|v| Const::Int(*v)).collect()
}

fn texts(values: &[&str]) -> Vec<Const> {
    values.iter().map(|v| text(v)).collect()
}

fn decl(field: &str, field_type: RustType) -> SettingDecl {
    SettingDecl {
        field_name: field.to_string(),
        key: None,
        prefix: None,
        field_type,
        ty: None,
        optional: None,
        default: None,
        default_fn: false,
        choices: vec![],
        merge: false,
        parse: false,
    }
}

fn with_default(mut d: SettingDecl, default: Const) -> SettingDecl {
    d.default = Some(default);
    d
}

fn with_choices(mut d: SettingDecl, choices: Vec<Const>) -> SettingDecl {
    d.choices = choices;
    d
}

fn with_ty(mut d: SettingDecl, ty: &str) -> SettingDecl {
    d.ty = Some(ty.to_string());
    d
}

fn rejection(d: &SettingDecl) -> SettingError {
    match check_setting(d) {
        Ok(s) => panic!("should not have compiled, but read as `{}`", ty_name(&s.ty)),
        Err(e) => e,
    }
}

/// What the author of a refused declaration reads, the field's type written as `field_type`.
fn refusal_message(d: &SettingDecl, field_type: &str) -> String {
    let e = rejection(d);
    setting_message(e, d, field_type)
}

fn accepted(d: &SettingDecl) {
    if let Err(e) = check_setting(d) {
        panic!("should have compiled: {e:?}");
    }
}

#[test]
fn a_uint_refuses_a_negative_default_or_choice() {
    let d = with_default(decl("jobs", plain("u64")), Const::Int(-1));
    assert_eq!(rejection(&d), SettingError::DefaultNotAdmitted);
    let err = refusal_message(&d, "u64");
    assert!(err.contains("the default is not a value `uint` can hold"), "unhelpful: {err}");

    let d = with_choices(decl("jobs", plain("u64")), ints(&[1, -1]));
    assert_eq!(rejection(&d), SettingError::ChoiceNotAdmitted);
    let err = refusal_message(&d, "u64");
    assert!(err.contains("a choice is not a value `uint` can hold"), "unhelpful: {err}");

    // A signed field still takes one, which is the whole difference.
    accepted(&with_default(decl("offset", plain("i64")), Const::Int(-1)));
}

#[test]
fn a_default_is_refused_unless_it_is_already_the_field_s_type() {
    for (field, ty, default) in [
        ("name", plain("String"), Const::Int(1)),
        ("name", plain("String"), Const::Bool(true)),
        ("home", plain("PathBuf"), Const::Int(1)),
        ("ports", vec_of(plain("u64")), Const::Int(80)),
    ] {
        let d = with_default(decl(field, ty), default);
        assert_eq!(rejection(&d), SettingError::DefaultNotAdmitted, "accepted on `{field}`");
        let err = refusal_message(&d, "T");
        assert!(err.contains("the default is not a value"), "`{field}`: {err}");
        assert!(err.contains("Nothing coerces a default"), "unhelpful for `{field}`: {err}");
    }

    for (field, ty, default) in [
        ("name", plain("String"), text("1")),
        ("home", plain("PathBuf"), text("/tmp")),
        ("ports", vec_of(plain("u64")), Const::List(ints(&[80]))),
        ("ports", vec_of(plain("u64")), Const::List(ints(&[80, 443]))),
    ] {
        accepted(&with_default(decl(field, ty), default));
    }
}

#[test]
fn a_list_default_is_held_against_the_choices_item_by_item() {
    let tags = || decl("tags", vec_of(plain("String")));
    accepted(&with_choices(with_default(tags(), Const::List(texts(&["a"]))), texts(&["a", "b"])));
    accepted(&with_choices(
        with_default(tags(), Const::List(texts(&["a", "b"]))),
        texts(&["a", "b"]),
    ));

    let d = with_choices(with_default(tags(), Const::List(texts(&["a", "z"]))), texts(&["a", "b"]));
    assert_eq!(rejection(&d), SettingError::DefaultItemNotAChoice);
    let err = refusal_message(&d, "Vec<String>");
    assert!(err.contains("not one of the declared choices"), "unhelpful: {err}");

    let d = with_choices(with_default(decl("mode", plain("String")), text("z")), texts(&["a", "b"]));
    assert_eq!(rejection(&d), SettingError::DefaultNotAChoice);
    let err = refusal_message(&d, "String");
    assert!(err.contains("the default is not one of the declared choices"), "unhelpful: {err}");

    // An accepted list setting keeps what it declared.
    let kept = accept_setting(with_choices(
        with_default(tags(), Const::List(texts(&["a"]))),
        texts(&["a", "b"]),
    ))
    .unwrap_or_else(|e| panic!("should have compiled: {e:?}"));
    assert_eq!(kept.key, "tags");
    assert_eq!(ty_name(&kept.ty), "list<string>");
    assert!(matches!(&kept.default, Some(Const::List(items)) if items.len() == 1
        && matches!(&items[0], Const::Str(a) if a == "a")));
    assert_eq!(kept.choices.len(), 2);
    assert!(matches!(&kept.choices[1], Const::Str(b) if b == "b"));
}

#[test]
fn a_choice_on_a_list_setting_names_one_item() {
    accepted(&with_choices(decl("tags", vec_of(plain("String"))), texts(&["a", "b"])));
}

#[test]
fn a_string_setting_spells_its_values_as_strings() {
    let level = || decl("level", plain("String"));
    for d in [
        with_choices(level(), ints(&[1, 2])),
        with_default(level(), Const::Int(1)),
        with_default(level(), Const::Bool(true)),
    ] {
        let err = refusal_message(&d, "String");
        assert!(err.contains("`string` can hold"), "accepted on a String field: {err}");
    }
    assert_eq!(rejection(&with_choices(level(), ints(&[1, 2]))), SettingError::ChoiceNotAdmitted);
    assert_eq!(rejection(&with_default(level(), Const::Int(1))), SettingError::DefaultNotAdmitted);
    assert_eq!(rejection(&with_default(level(), Const::Bool(true))), SettingError::DefaultNotAdmitted);

    accepted(&with_choices(with_default(level(), text("1")), texts(&["1", "2"])));
}

#[test]
fn a_default_that_does_not_fit_the_field_is_refused() {
    for (field, ty, value, expected) in [
        ("small", "u8", Const::Int(256), SettingError::DefaultDoesNotFit),
        ("small", "u8", Const::Int(-1), SettingError::DefaultNotAdmitted),
        ("signed", "i8", Const::Int(128), SettingError::DefaultDoesNotFit),
        ("medium", "u16", Const::Int(70000), SettingError::DefaultDoesNotFit),
        ("wide", "u32", Const::Int(5_000_000_000), SettingError::DefaultDoesNotFit),
        ("ratio", "f32", float(1e300), SettingError::DefaultDoesNotFit),
    ] {
        let d = with_default(decl(field, plain(ty)), value);
        assert_eq!(rejection(&d), expected, "accepted on `{field}: {ty}`");
        let err = refusal_message(&d, ty);
        assert!(err.contains("does not fit") || err.contains("can hold"), "`{field}`: {err}");
    }

    let err = rejection(&with_choices(decl("small", plain("u8")), ints(&[1, 256])));
    assert_eq!(err, SettingError::ChoiceDoesNotFit);

    for ty in ["int", "any"] {
        let d = with_default(with_ty(decl("jobs", plain("u64")), ty), Const::Int(-1));
        assert_eq!(rejection(&d), SettingError::DefaultDoesNotFit, "`ty = \"{ty}\"` let a negative default past");
        let err = refusal_message(&d, "u64");
        assert!(err.contains("does not fit `u64`"), "`ty = \"{ty}\"`: {err}");
    }
    let err = rejection(&with_choices(
        with_ty(decl("ports", vec_of(plain("u64"))), "list<int>"),
        ints(&[1, -1]),
    ));
    assert_eq!(err, SettingError::ChoiceDoesNotFit);

    let ports = || decl("ports", vec_of(plain("u16")));
    assert_eq!(rejection(&with_choices(ports(), ints(&[1, 70000]))), SettingError::ChoiceDoesNotFit);
    accepted(&with_choices(ports(), ints(&[1, 65535])));
    assert_eq!(
        rejection(&with_default(ports(), Const::List(ints(&[80, 70000])))),
        SettingError::DefaultDoesNotFit
    );

    for (field, ty, value) in [
        ("small", "u8", Const::Int(255)),
        ("signed", "i8", Const::Int(-128)),
        ("medium", "u16", Const::Int(65535)),
        ("ratio", "f32", float(1.5)),
        ("jobs", "u64", Const::Int(4)),
    ] {
        accepted(&with_default(decl(field, plain(ty)), value));
    }
    accepted(&with_default(ports(), Const::List(ints(&[80, 443]))));
}

fn btree_map(key: RustType, value: RustType) -> RustType {
    path("BTreeMap", vec![key, value])
}

#[test]
fn a_ty_the_field_could_never_read_is_refused() {
    let table = || btree_map(plain("String"), plain("String"));
    for (field, field_type, ty) in [
        ("name", plain("String"), "uint"),
        ("name", plain("String"), "bool"),
        ("jobs", plain("u64"), "string"),
        ("jobs", plain("u64"), "duration"),
        ("flag", plain("bool"), "string"),
        ("jobs", plain("u64"), "list<uint>"),
        ("ports", vec_of(plain("u64")), "uint"),
        ("table", table(), "string"),
        ("names", vec_of(plain("String")), "list<uint>"),
        ("ports", vec_of(plain("u64")), "list<string>"),
        ("ports", vec_of(plain("u64")), "set<string>"),
        ("nested", vec_of(vec_of(plain("u64"))), "list<list<string>>"),
        ("table", table(), "map<string, bool>"),
        ("table", table(), "list<string>"),
        ("names", vec_of(plain("String")), "map<string, string>"),
    ] {
        let d = with_ty(decl(field, field_type), ty);
        assert_eq!(rejection(&d), SettingError::UnreadableTy, "`ty = \"{ty}\"` was accepted on `{field}`");
        let err = refusal_message(&d, "T");
        assert!(err.contains("cannot be read into"), "`{field}`: {err}");
    }

    for (field, field_type, ty) in [
        ("timeout", plain("String"), "duration"),
        ("home", plain("PathBuf"), "path"),
        ("home", plain("PathBuf"), "url"),
        ("ratio", plain("f64"), "int"),
        ("ratio", plain("f32"), "float"),
        ("whatever", plain("String"), "any"),
        ("small", plain("u8"), "int"),
        ("names", vec_of(plain("String")), "list<string>"),
        ("paths", vec_of(plain("PathBuf")), "set<path>"),
        ("spans", vec_of(plain("String")), "list<duration>"),
        ("nested", vec_of(vec_of(plain("u64"))), "list<list<uint>>"),
        ("table", table(), "map<string, string>"),
        ("table", table(), "object"),
        ("items", vec_of(plain("Custom")), "list<string>"),
    ] {
        accepted(&with_ty(decl(field, field_type), ty));
    }
}

#[test]
fn a_ty_override_does_not_widen_what_the_field_holds() {
    let d = with_default(with_ty(decl("small", plain("u8")), "int"), Const::Int(256));
    assert_eq!(rejection(&d), SettingError::DefaultDoesNotFit);
    let err = refusal_message(&d, "u8");
    assert!(err.contains("does not fit `u8`"), "unhelpful: {err}");

    accepted(&with_default(
        with_ty(decl("ports", plain("Ports")), "list<uint>"),
        Const::List(ints(&[80, 443])),
    ));
}

fn setting(key: &str, aliases: &[&str]) -> SettingNames {
    SettingNames { key: key.to_string(), aliases: aliases.iter().map(|a| a.to_string()).collect() }
}

#[test]
fn two_settings_cannot_answer_to_one_name() {
    let cases = [
        // An alias over another setting's key.
        vec![setting("jobs", &["other"]), setting("other", &[])],
        // The same alias twice.
        vec![setting("jobs", &["shared"]), setting("threads", &["shared"])],
        // A key over an earlier setting's alias.
        vec![setting("jobs", &["threads"]), setting("threads", &[])],
    ];
    for settings in cases {
        let collision = name_collision(&settings).expect("a colliding name was accepted");
        assert_eq!(collision.clash(), Clash::Between);
        let idents = settings.iter().map(|s| s.key.clone()).collect();
        let err = collision_message(&collision, &idents);
        assert!(err.contains("could never be reached"), "a colliding name was accepted: {err}");
    }

    let collision = name_collision(&vec![setting("jobs", &["jobs"])]).unwrap();
    assert_eq!(collision.clash(), Clash::OwnKey);
    let err = collision_message(&collision, &vec!["jobs".to_string()]);
    assert!(err.contains("alias of its own key"), "unhelpful: {err}");

    let collision = name_collision(&vec![setting("jobs", &["concurrency", "concurrency"])]).unwrap();
    assert_eq!(collision.clash(), Clash::AliasTwice);
    assert_eq!(collision.name, "concurrency");
    let err = collision_message(&collision, &vec!["jobs".to_string()]);
    assert!(err.contains("lists the alias `concurrency` twice"), "unhelpful: {err}");

    assert!(name_collision(&vec![
        setting("jobs", &["concurrency", "parallelism"]),
        setting("threads", &["task-jobs"]),
    ])
    .is_none());
}

/// What a flattened field with one attribute is refused for, by the attribute's name.
fn flattened_with(attribute: &str) -> Option<&'static str> {
    let given = vec![field_attribute(attribute).expect("a field attribute")];
    flatten_refusal(&given).map(attribute_name)
}

#[test]
fn every_setting_attribute_on_a_flattened_field_is_refused() {
    for attribute in [
        "env",
        "deprecated_env",
        "alias",
        "example",
        "default_note",
        "optional",
        "deprecated",
        "deprecated_warn_at",
        "deprecated_remove_at",
        "since",
        "help_heading",
        "writes_to",
        "x",
    ] {
        assert_eq!(
            flattened_with(attribute),
            Some(attribute),
            "`{attribute}` was accepted on a flattened field"
        );
        let refused = flatten_refusal(&vec![field_attribute(attribute).unwrap()]).unwrap();
        let err = flatten_message(refused);
        assert!(
            err.contains("describes a setting, and `flatten` says this field is a group"),
            "`{attribute}` was accepted on a flattened field: {err}"
        );
    }

    // A doc comment is not one of them: it describes the group, and `help` is how the derive
    // carries a doc comment.
    assert_eq!(flattened_with("help"), None);
}

#[test]
fn spec_only_field_metadata_is_accepted() {
    accepted(&decl("jobs", plain("u64")));
    assert!(extension(vec![Some(text("ex.rust_type")), Some(text("u64"))]).is_ok());
    assert!(extension(vec![Some(text("ex.restart_required")), Some(Const::Bool(true))]).is_ok());
    let given = vec![FieldAttribute::HelpHeading, FieldAttribute::WritesTo, FieldAttribute::Extension];
    // Not flattened, so they describe the setting; were it flattened, the first is reported.
    assert_eq!(flatten_refusal(&given), Some(FieldAttribute::HelpHeading));
}

fn source_item(name: &str, value: &str) -> (String, Option<String>) {
    (name.to_string(), Some(value.to_string()))
}

fn source(items: Vec<(String, Option<String>)>) -> Source {
    source_decl(&items).unwrap_or_else(|e| panic!("should have compiled: {e:?}"))
}

#[test]
fn a_config_source_and_file_are_struct_declarations() {
    let git = source(vec![source_item("kind", "git"), source_item("name", "git config")]);
    assert_eq!(git.kind, "git");
    assert_eq!(git.name.as_deref(), Some("git config"));
    let project = file_decl(&vec![
        FileItem::Path(Some("ex.toml".to_string())),
        FileItem::Findup(Some(true)),
        FileItem::Scope(Some("project".to_string())),
    ])
    .unwrap();
    assert!(project.findup);
    assert_eq!(project.scope, FileScope::Project);
    let xdg = file_decl(&vec![
        FileItem::Path(Some("ex/config.toml".to_string())),
        FileItem::Xdg(Some("config".to_string())),
        FileItem::Format(Some("toml".to_string())),
    ])
    .unwrap();
    assert_eq!(xdg.xdg, Some(XdgBase::Config));
    assert_eq!(xdg.format.as_deref(), Some("toml"));
    assert_eq!(duplicate_source(&vec![git]), None);

    let sources = vec![
        source(vec![source_item("kind", "git")]),
        source(vec![source_item("kind", "git"), source_item("name", "git")]),
    ];
    let kind = duplicate_source(&sources).expect("a repeated kind");
    assert_eq!(kind, "git");
    let err = duplicate_source_message(&kind);
    assert!(err.contains("source `git` is declared more than once"), "unhelpful: {err}");

    let items = vec![FileItem::Findup(Some(true))];
    let e = file_decl(&items).err().expect("refused");
    assert_eq!(e, FileError::NoPath);
    let err = file_message(e, &items).unwrap();
    assert!(err.contains("needs `path"), "unhelpful: {err}");

    let items = vec![
        FileItem::Path(Some("ex.toml".to_string())),
        FileItem::Scope(Some("trusted".to_string())),
    ];
    let e = file_decl(&items).err().expect("refused");
    assert_eq!(e, FileError::NotAScope(1));
    let err = file_message(e, &items).unwrap();
    assert!(err.contains("not a config file scope"), "unhelpful: {err}");

    for items in [
        vec![
            FileItem::Path(Some("ex/config.toml".to_string())),
            FileItem::Xdg(Some("config".to_string())),
            FileItem::Findup(Some(true)),
        ],
        vec![
            FileItem::Path(Some("ex/config.toml".to_string())),
            FileItem::Xdg(Some("cache".to_string())),
            FileItem::Scope(Some("global".to_string())),
        ],
    ] {
        let e = file_decl(&items).err().expect("refused");
        assert_eq!(e, FileError::XdgDecidesScope);
        let err = file_message(e, &items).unwrap();
        assert!(err.contains("base decides its scope"), "{err}");
    }

    let items = vec![
        FileItem::Path(Some("ex/value".to_string())),
        FileItem::Xdg(Some("local".to_string())),
    ];
    let e = file_decl(&items).err().expect("refused");
    assert_eq!(e, FileError::NotXdgBase(1));
    let err = file_message(e, &items).unwrap();
    assert!(err.contains("not an XDG base"), "{err}");

    let e = extension(vec![Some(text("key"))]).unwrap_err();
    assert_eq!(e, ExtensionError::NotAPair);
    let err = extension_message(e).unwrap();
    assert!(err.contains("exactly a string key and one scalar value"), "unhelpful: {err}");
}

#[test]
fn a_source_attribute_is_read_once_each() {
    assert_eq!(
        source_decl(&vec![source_item("kind", "git"), source_item("color", "red")]).unwrap_err(),
        SourceError::Unknown(1)
    );
    assert_eq!(
        source_decl(&vec![source_item("kind", "git"), source_item("kind", "jj")]).unwrap_err(),
        SourceError::GivenTwice(1)
    );
    assert_eq!(
        source_decl(&vec![("kind".to_string(), None)]).unwrap_err(),
        SourceError::NotAString(0)
    );
    assert_eq!(source_decl(&vec![source_item("name", "git")]).unwrap_err(), SourceError::NoKind);
    assert_eq!(source_decl(&vec![source_item("kind", "")]).unwrap_err(), SourceError::EmptyKind);
    let full = source(vec![
        source_item("set_hint", "git config --global"),
        source_item("doc_hint", "see git-config(1)"),
        source_item("kind", "git"),
    ]);
    assert_eq!(full.set_hint.as_deref(), Some("git config --global"));
    assert_eq!(full.doc_hint.as_deref(), Some("see git-config(1)"));
    assert_eq!(full.name, None);
}

#[test]
fn the_first_duplicate_kind_in_sorted_order_is_named() {
    let kinds = ["zsh", "git", "zsh", "bash", "git"];
    let sources: Vec<Source> =
        kinds.iter().map(|k| source(vec![source_item("kind", k)])).collect();
    assert_eq!(duplicate_source(&sources).as_deref(), Some("git"));
}

#[test]
fn a_file_attribute_with_the_wrong_value_is_refused() {
    assert!(matches!(
        file_decl(&vec![FileItem::Path(Some("a".to_string())), FileItem::Path(Some("b".to_string()))]),
        Err(FileError::GivenTwice(1))
    ));
    assert!(matches!(file_decl(&vec![FileItem::Path(None)]), Err(FileError::BadValue(0))));
    assert!(matches!(file_decl(&vec![FileItem::Path(Some(String::new()))]), Err(FileError::EmptyPath)));
    assert!(matches!(
        file_decl(&vec![FileItem::Unknown("dir".to_string())]),
        Err(FileError::Unknown(0))
    ));
    let system = file_decl(&vec![
        FileItem::Scope(Some("system".to_string())),
        FileItem::Path(Some("/etc/ex.toml".to_string())),
    ])
    .unwrap();
    assert_eq!(system.scope, FileScope::System);
    assert!(!system.findup);
}

#[test]
fn an_extension_is_a_key_and_one_scalar() {
    assert_eq!(extension(vec![Some(Const::Int(1)), Some(text("v"))]).unwrap_err(), ExtensionError::KeyNotAString);
    assert_eq!(extension(vec![None, Some(text("v"))]).unwrap_err(), ExtensionError::KeyNotAString);
    assert_eq!(extension(vec![Some(text("")), Some(text("v"))]).unwrap_err(), ExtensionError::EmptyKey);
    assert_eq!(extension(vec![Some(text("k")), None]).unwrap_err(), ExtensionError::ValueNotALiteral);
    assert_eq!(
        extension(vec![Some(text("k")), Some(Const::List(vec![]))]).unwrap_err(),
        ExtensionError::ValueIsAList
    );
    let (key, value) = extension(vec![Some(text("tool.key")), Some(Const::Int(3))]).unwrap();
    assert_eq!(key, "tool.key");
    assert!(matches!(value, Const::Int(3)));
    assert_eq!(
        extension(vec![Some(text("k")), Some(text("v")), Some(text("w"))]).unwrap_err(),
        ExtensionError::NotAPair
    );
}

#[test]
fn flatten_reports_the_first_attribute_in_its_own_order() {
    let given = vec![FieldAttribute::Extension, FieldAttribute::Alias, FieldAttribute::Env];
    assert_eq!(flatten_refusal(&given), Some(FieldAttribute::Env));
    assert_eq!(flatten_refusal(&vec![]), None);
    assert_eq!(flatten_refusal(&vec![FieldAttribute::LongHelp, FieldAttribute::Flatten]), None);
    assert_eq!(flattened_with("aliases"), Some("alias"));
    assert_eq!(flattened_with("extension"), Some("x"));
}

#[test]
fn a_refused_source_says_which_attribute() {
    let items = vec![source_item("kind", "git"), source_item("color", "red")];
    let e = source_decl(&items).unwrap_err();
    let names = items.iter().map(|(n, _)| n.clone()).collect();
    assert_eq!(
        source_message(e, &names).unwrap(),
        "a config source does not understand `color`; use `kind`, `name`, `doc_hint`, or `set_hint`"
    );
    assert_eq!(source_message(SourceError::NotAString(0), &names), None);
}

#[test]
fn an_absolute_xdg_path_is_refused() {
    let items = vec![
        FileItem::Path(Some("/etc/ex.toml".to_string())),
        FileItem::Xdg(Some("config".to_string())),
    ];
    let e = file_decl(&items).err().expect("refused");
    assert_eq!(e, FileError::XdgPathAbsolute);
    assert!(file_message(e, &items).unwrap().contains("must be relative to the XDG config directories"));
}

fn declared_source(kind: &str, name: Option<&str>) -> Source {
    Source { kind: kind.to_string(), name: name.map(|n| n.to_string()), doc_hint: None, set_hint: None }
}

#[test]
fn sources_sort_by_kind_keeping_declaration_order() {
    let sorted = sort_sources(vec![
        declared_source("env", None),
        declared_source("cli", Some("first")),
        declared_source("file", None),
        declared_source("cli", Some("second")),
    ]);
    let kinds: Vec<(&str, Option<&str>)> =
        sorted.iter().map(|s| (s.kind.as_str(), s.name.as_deref())).collect();
    assert_eq!(
        kinds,
        vec![("cli", Some("first")), ("cli", Some("second")), ("env", None), ("file", None)]
    );
    assert_eq!(duplicate_source(&sorted), Some("cli".to_string()));
    assert!(sort_sources(Vec::new()).is_empty());
}
