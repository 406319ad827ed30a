use usage_derive::arg_group::{
    any_given, arg_group_plan, conflict, member_for, ArgGroupDecl, Conversion, GroupMember,
};
use usage_derive::hash::declaration_hash;

fn member(name: &str, short: Option<char>, value_ty: Option<&str>, value_enum: bool) -> GroupMember {
    GroupMember {
        ident: name.to_string(),
        name: name.to_string(),
        short,
        value_ty: value_ty.map(|t| t.to_string()),
        value_enum,
        help: None,
        long_help: None,
        hide: false,
        value_name: None,
    }
}

fn output() -> ArgGroupDecl {
    ArgGroupDecl {
        ident: "Output".to_string(),
        name: "output".to_string(),
        fingerprint: "enum Output".to_string(),
        members: vec![
            member("json", Some('j'), None, false),
            member("file", None, Some("std::path::PathBuf"), false),
            member("format", Some('f'), Some("Format"), true),
            member("width", None, Some("usize"), false),
            member("raw", None, Some("OsString"), false),
        ],
    }
}

#[test]
fn arg_group_plan_states_each_member() {
    let g = output();
    let plan = arg_group_plan(&g);
    assert_eq!(plan.declaration, declaration_hash("enum Output"));
    assert_eq!(plan.members.len(), 5);
    assert_eq!(plan.members[0].selectors, vec!["--json".to_string(), "-j".to_string()]);
    assert_eq!(plan.members[1].selectors, vec!["--file".to_string()]);
    assert_eq!(plan.members[3].key, 3);
    assert!(!plan.members[0].takes_value);
    assert!(plan.members[1].takes_value);
    assert!(plan.members[2].lists_choices);
    assert!(!plan.members[3].lists_choices);
    assert_eq!(plan.members[0].conversion, Conversion::Switch);
    assert_eq!(plan.members[1].conversion, Conversion::Path);
    assert_eq!(plan.members[2].conversion, Conversion::Choice);
    assert_eq!(plan.members[3].conversion, Conversion::Parsed);
    assert_eq!(plan.members[4].conversion, Conversion::OsText);
}

#[test]
fn arg_group_reports_first_given_and_first_conflict() {
    assert_eq!(any_given(&vec![false, false, false]), None);
    assert_eq!(any_given(&vec![false, true, true]), Some(1));
    assert_eq!(conflict(&vec![false, true, false]), None);
    assert_eq!(conflict(&vec![true, false, true, true]), Some((0, 2)));
}

#[test]
fn arg_group_member_lookup_by_selector() {
    let g = output();
    assert_eq!(member_for(&g, "--format"), Some(2));
    assert_eq!(member_for(&g, "-j"), Some(0));
    assert_eq!(member_for(&g, "-x"), None);
    assert_eq!(member_for(&g, "json"), None);
}

#[test]
fn arg_group_conflict_starts_at_the_first_given() {
    for given in [vec![true, true], vec![false, true, false, true], vec![false, false, true], vec![]] {
        match conflict(&given) {
            Some((a, b)) => {
                assert_eq!(any_given(&given), Some(a));
                assert!(a < b && given[a] && given[b]);
            }
            None => assert!(given.iter().filter(|g| **g).count() <= 1),
        }
    }
}
