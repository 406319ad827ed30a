use usage_derive::config::{
    check_setting, const_eq, field_holds, ty_name, Const, Position, RustType, SettingDecl,
    SettingError,
};

fn path(name: &str, args: Vec<RustType>) -> RustType {
    RustType::Path { name: name.to_string(), args }
}

fn plain(name: &str) -> RustType {
    path(name, vec![])
}

fn float(f: f64) -> Const {
    Const::Float { bits: f.to_bits(), fits_f32: !(f as f32).is_infinite() || f.is_infinite() }
}

fn text(s: &str) -> Const {
    Const::Str(s.to_string())
}

fn decl(field: &str, field_type: RustType) -> SettingDecl {
    SettingDecl {
        field_name: field.to_string(),
        key: None,
        prefix: None,
        field_type,
        ty: None,
        optional: None,
        default: None,
        default_fn: false,
        choices: vec![],
        merge: false,
        parse: false,
    }
}

fn error(d: &SettingDecl) -> SettingError {
    match check_setting(d) {
        Ok(s) => panic!("accepted as `{}`", ty_name(&s.ty)),
        Err(e) => e,
    }
}

#[test]
fn a_plain_field_becomes_a_setting_under_its_prefix() {
    let mut d = decl("jobs", plain("u64"));
    d.prefix = Some("task".to_string());
    let s = check_setting(&d).unwrap();
    assert_eq!(s.key, "task.jobs");
    assert_eq!(ty_name(&s.ty), "uint");
    assert!(!s.optional);

    let mut d = decl("r#type", path("Option", vec![path("Vec", vec![plain("String")])]));
    d.key = None;
    let s = check_setting(&d).unwrap();
    assert_eq!(s.key, "type");
    assert_eq!(ty_name(&s.ty), "list<string>");
    assert!(s.optional);

    let mut d = decl("cache_dir", plain("PathBuf"));
    d.key = Some("cache.dir".to_string());
    assert_eq!(check_setting(&d).unwrap().key, "cache.dir");
}

#[test]
fn a_uint_setting_refuses_negative_values() {
    let mut d = decl("jobs", plain("u64"));
    d.default = Some(Const::Int(-1));
    assert_eq!(error(&d), SettingError::DefaultNotAdmitted);
    let mut d = decl("jobs", plain("u64"));
    d.choices = vec![Const::Int(1), Const::Int(-2)];
    assert_eq!(error(&d), SettingError::ChoiceNotAdmitted);
}

#[test]
fn a_ty_the_field_could_never_read_is_refused_before_anything_else() {
    let mut d = decl("name", plain("String"));
    d.ty = Some("uint".to_string());
    d.default = Some(Const::Int(-1));
    assert_eq!(error(&d), SettingError::UnreadableTy);
    d.ty = Some("nonsense".to_string());
    assert_eq!(error(&d), SettingError::UnknownTy);
    let d = decl("items", path("Vec", vec![plain("Custom")]));
    assert_eq!(error(&d), SettingError::NoSpecType);
    let mut d = decl("timeout", plain("String"));
    d.ty = Some("duration".to_string());
    assert_eq!(ty_name(&check_setting(&d).unwrap().ty), "duration");
}

#[test]
fn optional_defaults_and_default_fns_exclude_each_other() {
    let mut d = decl("jobs", path("Option", vec![plain("u64")]));
    d.optional = Some(false);
    assert_eq!(error(&d), SettingError::OptionalDisagrees);
    let mut d = decl("jobs", path("Option", vec![plain("u64")]));
    d.default = Some(Const::Int(4));
    assert_eq!(error(&d), SettingError::OptionalWithDefault);
    let mut d = decl("jobs", plain("u64"));
    d.default = Some(Const::Int(4));
    d.default_fn = true;
    assert_eq!(error(&d), SettingError::DefaultAndDefaultFn);
    let mut d = decl("jobs", path("Option", vec![plain("u64")]));
    d.default_fn = true;
    assert_eq!(error(&d), SettingError::OptionalWithDefaultFn);
    let mut d = decl("jobs", path("Option", vec![plain("u64")]));
    d.optional = Some(true);
    assert!(check_setting(&d).unwrap().optional);
}

#[test]
fn choices_merge_and_parse_need_the_right_type() {
    let mut d = decl("flag", plain("bool"));
    d.choices = vec![Const::Bool(true)];
    assert_eq!(error(&d), SettingError::ChoicesOnBool);
    let mut d = decl("small", plain("u8"));
    d.ty = Some("int".to_string());
    d.choices = vec![Const::Int(1), Const::Int(300)];
    assert_eq!(error(&d), SettingError::ChoiceDoesNotFit);
    let mut d = decl("name", plain("String"));
    d.choices = vec![Const::Int(1)];
    assert_eq!(error(&d), SettingError::ChoiceNotAdmitted);
    let mut d = decl("name", plain("String"));
    d.merge = true;
    assert_eq!(error(&d), SettingError::MergeOnScalar);
    let mut d = decl("name", plain("String"));
    d.parse = true;
    assert_eq!(error(&d), SettingError::ParseOnScalar);
    let mut d = decl("names", path("Vec", vec![plain("String")]));
    d.merge = true;
    d.parse = true;
    d.choices = vec![text("a")];
    assert!(check_setting(&d).is_ok());
}

#[test]
fn constants_compare_as_the_values_they_are() {
    assert!(const_eq(&float(0.0), &float(-0.0)));
    assert!(!const_eq(&float(f64::NAN), &float(f64::NAN)));
    assert!(const_eq(&float(2.5), &float(2.5)));
    assert!(!const_eq(&Const::Int(1), &float(1.0)));
    assert!(const_eq(&Const::List(vec![text("a"), Const::Int(2)]), &Const::List(vec![text("a"), Const::Int(2)])));
    assert!(!const_eq(&Const::List(vec![text("a")]), &Const::List(vec![text("a"), text("a")])));
}

#[test]
fn a_field_holds_what_its_width_allows() {
    assert!(field_holds(&plain("u8"), &Const::Int(255), Position::Default));
    assert!(!field_holds(&plain("u8"), &Const::Int(256), Position::Default));
    assert!(!field_holds(&plain("u64"), &Const::Int(-1), Position::Default));
    assert!(field_holds(&plain("i64"), &Const::Int(i64::MIN), Position::Default));
    assert!(field_holds(&plain("Custom"), &Const::Int(-1), Position::Default));
    let ports = path("Vec", vec![plain("u16")]);
    assert!(field_holds(&ports, &Const::List(vec![Const::Int(80), Const::Int(443)]), Position::Default));
    assert!(!field_holds(&ports, &Const::List(vec![Const::Int(70000)]), Position::Default));
    assert!(!field_holds(&ports, &Const::Int(80), Position::Default));
    assert!(field_holds(&ports, &Const::Int(80), Position::Choice));
    assert!(!field_holds(&ports, &Const::Int(70000), Position::Choice));
    assert!(field_holds(&plain("f32"), &float(f64::INFINITY), Position::Default));
}
