use usage_derive::fields::{
    argument_lookup, declared_groups, delimiter_byte, deprecation_spelling, duplicates_per_level, field_active_in_view, field_selectors,
    flagset_name, group_enforced, has_negate, rejects_duplicate, CommandPolicy, DeclaredGroup,
    FieldDecl, FieldKind, GroupDecl, Lookup, Membership, Repetition, ViewDecl,
};

fn strings(values: &[&str]) -> Vec<String> {
    values.iter().map(|v| v.to_string()).collect()
}

fn flag(longs: &[&str], hidden: &[&str], shorts: &[char], negate: Option<&str>, global: bool) -> FieldDecl {
    FieldDecl {
        ident: "field".to_string(),
        name: "field".to_string(),
        kind: FieldKind::Flag {
            longs: strings(longs),
            hidden_longs: strings(hidden),
            shorts: shorts.to_vec(),
            negate: negate.map(|n| n.to_string()),
            global,
        },
        repetition: Repetition::Single,
        repeatable: false,
    }
}

fn arg(ident: &str, name: &str) -> FieldDecl {
    FieldDecl {
        ident: ident.to_string(),
        name: name.to_string(),
        kind: FieldKind::Arg,
        repetition: Repetition::Single,
        repeatable: false,
    }
}

fn view(all_globals: bool, globals: &[&str]) -> ViewDecl {
    ViewDecl { all_globals, globals: strings(globals) }
}

#[test]
fn a_flag_is_selected_by_every_spelling() {
    let f = flag(&["yes", "assume-yes"], &["ok"], &['y'], Some("no"), true);
    assert_eq!(field_selectors(&f), strings(&["--yes", "--assume-yes", "-y", "--no"]));
}

#[test]
fn an_argument_is_selected_by_its_name_and_kebab_ident() {
    assert_eq!(field_selectors(&arg("out_dir", "out-dir")), strings(&["out-dir"]));
    assert_eq!(field_selectors(&arg("out_dir", "OUT")), strings(&["OUT", "out-dir"]));
    assert_eq!(field_selectors(&arg("outDir", "out-dir")), strings(&["out-dir"]));
    let skipped = FieldDecl { kind: FieldKind::Skip, ..arg("x", "x") };
    assert!(field_selectors(&skipped).is_empty());
}

#[test]
fn a_view_carries_the_globals_it_names() {
    let f = flag(&["verbose"], &["loud"], &['v'], None, true);
    assert!(field_active_in_view(&f, &view(true, &[])));
    assert!(field_active_in_view(&f, &view(false, &["--verbose"])));
    assert!(field_active_in_view(&f, &view(false, &["--loud"])));
    assert!(field_active_in_view(&f, &view(false, &["-q", "-v"])));
    assert!(!field_active_in_view(&f, &view(false, &["--quiet", "verbose", "-V"])));
}

#[test]
fn a_view_names_a_negative_only_flag_by_its_negation() {
    let f = flag(&[], &[], &[], Some("no-color"), true);
    assert!(field_active_in_view(&f, &view(false, &["--no-color"])));
    assert!(!field_active_in_view(&f, &view(false, &["--color"])));
}

#[test]
fn only_a_global_flag_is_carried() {
    let local = flag(&["verbose"], &[], &[], None, false);
    assert!(!field_active_in_view(&local, &view(true, &["--verbose"])));
    assert!(!field_active_in_view(&arg("path", "path"), &view(true, &["path"])));
}

#[test]
fn a_repeat_is_an_error_only_where_the_command_is_strict() {
    let permissive = CommandPolicy { args_override_self: true, composable: false };
    let strict = CommandPolicy { args_override_self: false, composable: false };
    let composable = CommandPolicy { args_override_self: true, composable: true };
    let f = flag(&["jobs"], &[], &[], None, false);
    assert!(!rejects_duplicate(&permissive, &f));
    assert!(rejects_duplicate(&strict, &f));
    assert!(rejects_duplicate(&composable, &f));

    let counted = FieldDecl { repetition: Repetition::Count, ..flag(&["v"], &[], &[], None, false) };
    let many = FieldDecl { repetition: Repetition::Many, ..flag(&["x"], &[], &[], None, false) };
    let var = FieldDecl { repeatable: true, ..flag(&["x"], &[], &[], None, false) };
    for f in [&counted, &many, &var] {
        assert!(!rejects_duplicate(&strict, f));
    }
    assert!(!rejects_duplicate(&strict, &arg("path", "path")));
}

#[test]
fn a_global_flag_is_a_duplicate_per_level() {
    let strict = CommandPolicy { args_override_self: false, composable: false };
    assert!(duplicates_per_level(&strict, &flag(&["yes"], &[], &[], None, true)));
    assert!(!duplicates_per_level(&strict, &flag(&["yes"], &[], &[], None, false)));
    let permissive = CommandPolicy { args_override_self: true, composable: false };
    assert!(!duplicates_per_level(&permissive, &flag(&["yes"], &[], &[], None, true)));
}

#[test]
fn a_negation_is_a_flag_with_a_negative_spelling() {
    assert!(has_negate(&flag(&["color"], &[], &[], Some("no-color"), false)));
    assert!(!has_negate(&flag(&["color"], &[], &[], None, false)));
    assert!(!has_negate(&arg("path", "path")));
}

fn member(selector: Option<&str>, groups: &[&str]) -> Membership {
    Membership { selector: selector.map(|s| s.to_string()), groups: strings(groups) }
}

fn summary(groups: &[DeclaredGroup]) -> Vec<(String, bool, bool, Vec<String>)> {
    groups
        .iter()
        .map(|g| (g.name.clone(), g.required, g.multiple, g.members.clone()))
        .collect()
}

#[test]
fn groups_gather_their_members_in_written_order() {
    let fields = vec![
        member(Some("--json"), &["format"]),
        member(None, &["format"]),
        member(Some("--yaml"), &["format", "output"]),
        member(Some("--out"), &["output", "output"]),
        member(Some("--json"), &["format"]),
    ];
    let decls = vec![
        GroupDecl { name: "output".to_string(), required: true, multiple: true },
        GroupDecl { name: "output".to_string(), required: false, multiple: false },
    ];
    let groups = declared_groups(&fields, &decls);
    assert_eq!(
        summary(&groups),
        vec![
            ("format".to_string(), false, false, strings(&["--json", "--yaml"])),
            ("output".to_string(), true, true, strings(&["--yaml", "--out"])),
        ]
    );
    assert!(group_enforced(&groups[0]));
    assert!(group_enforced(&groups[1]));
    assert!(declared_groups(&vec![], &decls).is_empty());
}

#[test]
fn a_group_is_enforced_when_it_constrains_something() {
    let group = |required: bool, multiple: bool, members: &[&str]| DeclaredGroup {
        name: "g".to_string(),
        required,
        multiple,
        members: strings(members),
    };
    assert!(!group_enforced(&group(true, false, &["--a"])));
    assert!(group_enforced(&group(false, false, &["--a", "--b"])));
    assert!(group_enforced(&group(true, true, &["--a", "--b"])));
    assert!(!group_enforced(&group(false, true, &["--a", "--b"])));
}

#[test]
fn a_flagset_is_named_by_the_last_segment_of_its_type() {
    assert_eq!(flagset_name("crate :: cli :: TaskSettings"), "task-settings");
    assert_eq!(flagset_name("GlobalArgs"), "global-args");
    assert_eq!(flagset_name("a:::B"), "b");
    assert_eq!(flagset_name("super::HTTPOptions"), "h-t-t-p-options");
}

#[test]
fn only_an_ascii_delimiter_becomes_a_byte() {
    assert_eq!(delimiter_byte(Some(',')), Some(b','));
    assert_eq!(delimiter_byte(Some('\u{7f}')), Some(0x7f));
    assert_eq!(delimiter_byte(Some('é')), None);
    assert_eq!(delimiter_byte(None), None);
}

fn nested(kind: FieldKind) -> FieldDecl {
    FieldDecl {
        ident: "nested".to_string(),
        name: "nested".to_string(),
        kind,
        repetition: Repetition::Single,
        repeatable: false,
    }
}

#[test]
fn argument_lookup_prefers_own_fields_then_flattened_then_groups() {
    let fields = vec![
        nested(FieldKind::ArgGroup),
        flag(&["verbose"], &[], &['v'], None, false),
        nested(FieldKind::Flatten),
        arg("input_file", "input"),
        flag(&["verbose"], &[], &[], Some("quiet"), false),
        nested(FieldKind::Flatten),
        nested(FieldKind::Subcommand),
    ];
    assert!(matches!(argument_lookup(&fields, "-v"), Lookup::Own(1)));
    assert!(matches!(argument_lookup(&fields, "--verbose"), Lookup::Own(1)));
    assert!(matches!(argument_lookup(&fields, "--quiet"), Lookup::Own(4)));
    assert!(matches!(argument_lookup(&fields, "input-file"), Lookup::Own(3)));
    match argument_lookup(&fields, "--other") {
        Lookup::Nested(order) => assert_eq!(order, vec![2, 5, 0]),
        Lookup::Own(_) => panic!("no own field answers to --other"),
    }
}

#[test]
fn deprecation_names_a_flag_by_its_first_spelling() {
    assert_eq!(deprecation_spelling(&flag(&["old", "older"], &[], &['o'], None, false)).as_deref(), Some("--old"));
    assert_eq!(deprecation_spelling(&flag(&[], &[], &['o', 'p'], None, false)).as_deref(), Some("-o"));
    assert_eq!(deprecation_spelling(&flag(&[], &[], &[], Some("no-x"), false)).as_deref(), Some("field"));
    assert_eq!(deprecation_spelling(&arg("input", "input")), None);
}
