use usage_derive::config::{parse_ty_name, ty_name, Shape, Ty};

fn roundtrip(name: &str) -> String {
    ty_name(&parse_ty_name(name).expect("a type name"))
}

#[test]
fn every_type_name_reads_back_as_its_type() {
    for name in [
        "bool",
        "int",
        "uint",
        "float",
        "string",
        "path",
        "url",
        "duration",
        "object",
        "any",
        "list<uint>",
        "set<path>",
        "map<string, bool>",
        "list<list<string>>",
        "map<string, list<map<string, duration>>>",
    ] {
        assert_eq!(roundtrip(name), name);
    }
}

#[test]
fn a_type_name_may_be_spaced_out() {
    assert_eq!(roundtrip("  list< uint >  "), "list<uint>");
    assert_eq!(roundtrip("map< string ,path>"), "map<string, path>");
}

#[test]
fn a_map_is_keyed_by_strings_only() {
    assert!(parse_ty_name("map<uint, string>").is_none());
    assert!(parse_ty_name("map<string>").is_none());
}

#[test]
fn unknown_type_names_are_refused() {
    for name in ["", "list<>", "list<nope>", "strings", "List<uint>", "set<", "tuple"] {
        assert!(parse_ty_name(name).is_none(), "{name}");
    }
}

#[test]
fn collections_are_the_list_and_map_shapes() {
    for name in ["bool", "int", "uint", "float", "string", "path", "url", "duration", "object", "any", "list<int>", "set<int>", "map<string, int>"] {
        let ty = parse_ty_name(name).unwrap();
        let shape = ty.shape();
        assert_eq!(
            ty.is_collection(),
            matches!(shape, Some(Shape::List) | Some(Shape::Mapping)),
            "{name}"
        );
    }
    assert_eq!(Ty::Any.shape(), None);
    assert_eq!(Ty::Uint.shape(), Some(Shape::Int));
    assert_eq!(Ty::Duration.shape(), Some(Shape::Str));
    assert!(Ty::Object.is_collection());
    assert!(!Ty::Path.is_collection());
}

use usage_derive::config::{generic_arg, infer_ty, peel_option, reads, Const, Position, RustType};

fn path(name: &str, args: Vec<RustType>) -> RustType {
    RustType::Path { name: name.to_string(), args }
}

fn plain(name: &str) -> RustType {
    path(name, vec![])
}

fn name_of(ty: Option<Ty>) -> Option<String> {
    ty.map(|ty| ty_name(&ty))
}

#[test]
fn uint_admits_no_negative_value() {
    assert!(!Ty::Uint.admits(&Const::Int(-1), Position::Default));
    assert!(!Ty::Uint.admits(&Const::Int(-1), Position::Choice));
    assert!(Ty::Uint.admits(&Const::Int(0), Position::Default));
    assert!(Ty::Int.admits(&Const::Int(-1), Position::Default));
}

#[test]
fn text_types_take_strings_only() {
    for ty in [Ty::String, Ty::Path, Ty::Url, Ty::Duration] {
        assert!(ty.admits(&Const::Str("x".into()), Position::Default));
        assert!(!ty.admits(&Const::Int(1), Position::Default));
        assert!(!ty.admits(&Const::Bool(true), Position::Choice));
        assert!(!ty.admits(&float(1.5), Position::Default));
    }
    assert!(Ty::Float.admits(&Const::Int(1), Position::Default));
    assert!(Ty::Float.admits(&float(1.5), Position::Default));
    assert!(!Ty::Int.admits(&float(1.5), Position::Default));
    assert!(Ty::Any.admits(&Const::List(vec![]), Position::Default));
    assert!(!Ty::Object.admits(&Const::Str("x".into()), Position::Default));
}

#[test]
fn a_list_default_is_held_against_the_item_type() {
    let ports = Ty::List(Box::new(Ty::Uint));
    let list = Const::List(vec![Const::Int(80), Const::Int(443)]);
    assert!(ports.admits(&list, Position::Default));
    assert!(!ports.admits(&Const::List(vec![Const::Int(80), Const::Int(-1)]), Position::Default));
    // `default = 80` on a list is refused; as a choice it names one item.
    assert!(!ports.admits(&Const::Int(80), Position::Default));
    assert!(ports.admits(&Const::Int(80), Position::Choice));
    assert!(!ports.admits(&Const::Int(-80), Position::Choice));
}

#[test]
fn a_type_named_by_its_rust_type() {
    assert_eq!(name_of(infer_ty(&plain("bool"))), Some("bool".into()));
    assert_eq!(name_of(infer_ty(&plain("u8"))), Some("uint".into()));
    assert_eq!(name_of(infer_ty(&plain("isize"))), Some("int".into()));
    assert_eq!(name_of(infer_ty(&plain("f32"))), Some("float".into()));
    assert_eq!(name_of(infer_ty(&plain("PathBuf"))), Some("path".into()));
    assert_eq!(name_of(infer_ty(&plain("Value"))), Some("any".into()));
    assert_eq!(name_of(infer_ty(&path("Vec", vec![plain("u64")]))), Some("list<uint>".into()));
    assert_eq!(
        name_of(infer_ty(&path("BTreeMap", vec![plain("String"), path("Vec", vec![plain("String")])]))),
        Some("map<string, list<string>>".into())
    );
    assert_eq!(name_of(infer_ty(&path("BTreeMap", vec![plain("u64"), plain("String")]))), None);
    assert_eq!(name_of(infer_ty(&plain("Custom"))), None);
    assert_eq!(name_of(infer_ty(&path("Vec", vec![plain("Custom")]))), None);
    assert_eq!(name_of(infer_ty(&RustType::Other)), None);
}

#[test]
fn reads_says_whether_a_field_takes_a_type() {
    let ty = |name: &str| parse_ty_name(name).unwrap();
    assert_eq!(reads(&plain("String"), &ty("uint")), Some(false));
    assert_eq!(reads(&plain("u64"), &ty("bool")), Some(false));
    assert_eq!(reads(&plain("u64"), &ty("string")), Some(false));
    assert_eq!(reads(&path("Vec", vec![plain("u64")]), &ty("list<uint>")), Some(true));
    assert_eq!(reads(&path("Vec", vec![plain("String")]), &ty("list<uint>")), Some(false));
    assert_eq!(reads(&path("Vec", vec![plain("String")]), &ty("map<string, string>")), Some(false));
    assert_eq!(reads(&plain("f64"), &ty("int")), Some(true));
    assert_eq!(reads(&plain("String"), &ty("duration")), Some(true));
    assert_eq!(reads(&plain("Value"), &ty("list<string>")), Some(true));
    assert_eq!(reads(&plain("String"), &ty("any")), None);
    assert_eq!(reads(&plain("Custom"), &ty("string")), None);
    assert_eq!(
        reads(&path("BTreeMap", vec![plain("String"), plain("bool")]), &ty("map<string, bool>")),
        Some(true)
    );
    assert_eq!(reads(&path("BTreeMap", vec![plain("String"), plain("bool")]), &ty("object")), None);
}

#[test]
fn option_is_peeled_once() {
    let inner = plain("u64");
    let optional = path("Option", vec![path("Vec", vec![inner])]);
    let (peeled, ty) = peel_option(&optional);
    assert!(peeled);
    assert!(matches!(ty, RustType::Path { name, .. } if name == "Vec"));
    let (peeled, _) = peel_option(&plain("u64"));
    assert!(!peeled);
    assert!(generic_arg(&plain("u64"), 0).is_none());
    assert!(matches!(generic_arg(&optional, 0), Some(RustType::Path { name, .. }) if name == "Vec"));
}

fn float(f: f64) -> Const {
    Const::Float { bits: f.to_bits(), fits_f32: !(f as f32).is_infinite() || f.is_infinite() }
}
