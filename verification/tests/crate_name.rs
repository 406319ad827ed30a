use usage_derive::crate_name::{
    dependency_table_key, find_in_manifest, inline_dependency, is_dependencies_section,
    match_dep, multiline_table_start, package_name, parse_string, section_header,
    split_assignment, strip_comment, FoundCrate,
};

#[test]
fn finds_a_renamed_facade() {
    let manifest = r#"
[package]
name = "app"

[dependencies]
usage = { package = "usage-rs", version = "5" }
"#;
    assert_eq!(
        find_in_manifest(manifest, "usage-rs").unwrap(),
        FoundCrate::Name("usage".into())
    );
}

#[test]
fn finds_direct_argv() {
    let manifest = r#"
[package]
name = "app"
[dependencies]
usage-argv = { path = "../argv", features = ["spec"] }
"#;
    assert_eq!(
        find_in_manifest(manifest, "usage-argv").unwrap(),
        FoundCrate::Name("usage_argv".into())
    );
}

#[test]
fn itself_when_expanding_inside_the_package() {
    let manifest = r#"
[package]
name = "usage-rs"
[dependencies]
usage-argv = { path = "../argv" }
"#;
    assert_eq!(
        find_in_manifest(manifest, "usage-rs").unwrap(),
        FoundCrate::Itself
    );
}

#[test]
fn finds_multiline_rename() {
    let manifest = r#"
[package]
name = "app"
[dependencies]
usage = {
  package = "usage-rs"
  version = "5"
}
"#;
    assert_eq!(
        find_in_manifest(manifest, "usage-rs").unwrap(),
        FoundCrate::Name("usage".into())
    );
}

#[test]
fn finds_named_dependency_table() {
    let manifest = r#"
[package]
name = "app"
[dependencies.usage-argv]
path = "../argv"
"#;
    assert_eq!(
        find_in_manifest(manifest, "usage-argv").unwrap(),
        FoundCrate::Name("usage_argv".into())
    );
}

#[test]
fn finds_renamed_named_dependency_table() {
    let manifest = r#"
[package]
name = "app"
[dependencies.usage]
package = "usage-rs"
version = "5"
"#;
    assert_eq!(
        find_in_manifest(manifest, "usage-rs").unwrap(),
        FoundCrate::Name("usage".into())
    );
}

#[test]
fn prefers_nothing_when_absent() {
    let manifest = r#"
[package]
name = "app"
[dependencies]
serde = "1"
"#;
    assert!(find_in_manifest(manifest, "usage-rs").is_err());
}

#[test]
fn a_manifest_without_a_package_name_resolves_nothing() {
    let manifest = "[dependencies]\nusage-argv = \"1\"\n";
    assert!(find_in_manifest(manifest, "usage-argv").is_err());
    assert_eq!(package_name(manifest), None);
}

#[test]
fn a_bare_version_dependency_is_found_under_its_folded_name() {
    let manifest = "[package]\nname = \"app\"\n[dev-dependencies]\nusage-argv = \"6\"\n";
    assert_eq!(
        find_in_manifest(manifest, "usage-argv").unwrap(),
        FoundCrate::Name("usage_argv".into())
    );
}

#[test]
fn a_dependency_outside_a_dependencies_section_is_ignored() {
    let manifest = "[package]\nname = \"app\"\n[features]\nusage-argv = \"6\"\n";
    assert!(find_in_manifest(manifest, "usage-argv").is_err());
}

#[test]
fn target_dependencies_and_comments_are_read() {
    let manifest = "[package] # the package\nname = 'app' # a comment\n\r\n[target.'cfg(unix)'.dependencies]\r\nfacade = { package = \"usage-rs\" } # renamed\r\n";
    assert_eq!(package_name(manifest), Some("app".to_string()));
    assert_eq!(
        find_in_manifest(manifest, "usage-rs").unwrap(),
        FoundCrate::Name("facade".into())
    );
}

#[test]
fn an_open_table_still_answers_at_the_end_of_the_manifest() {
    let manifest = "[package]\nname = \"app\"\n[dependencies]\nusage = {\n  package = \"usage-rs\"\n";
    assert_eq!(
        find_in_manifest(manifest, "usage-rs").unwrap(),
        FoundCrate::Name("usage".into())
    );
}

#[test]
fn manifest_line_helpers() {
    assert_eq!(strip_comment("a = 1 # note"), "a = 1 ");
    assert_eq!(strip_comment("no comment"), "no comment");
    assert_eq!(section_header("  [ dependencies ]  "), Some("dependencies"));
    assert_eq!(section_header("[dependencies"), None);
    assert!(is_dependencies_section("build-dependencies"));
    assert!(is_dependencies_section("target.x86_64.dev-dependencies"));
    assert!(!is_dependencies_section("features"));
    assert_eq!(dependency_table_key("dependencies.usage-argv"), Some("usage-argv"));
    assert_eq!(dependency_table_key("dependencies.a b"), None);
    assert_eq!(split_assignment(" key = value "), Some(("key", "value")));
    assert_eq!(split_assignment("no assignment"), None);
    assert_eq!(parse_string(" \"text\" "), Some("text".to_string()));
    assert_eq!(parse_string("'text'"), Some("text".to_string()));
    assert_eq!(parse_string("\""), None);
    assert_eq!(parse_string("bare"), None);
    assert_eq!(
        inline_dependency("usage = { package = \"usage-rs\", version = \"5\" }"),
        Some(("usage".to_string(), Some("usage-rs".to_string())))
    );
    assert_eq!(inline_dependency("serde = \"1\""), Some(("serde".to_string(), None)));
    assert_eq!(inline_dependency("serde = 1.0"), Some(("serde".to_string(), None)));
    assert_eq!(inline_dependency("serde = {"), None);
    assert_eq!(multiline_table_start("usage = {"), Some("usage".to_string()));
    assert_eq!(multiline_table_start("usage = { a = 1 }"), None);
    assert_eq!(
        match_dep("usage-argv", None, "usage-argv"),
        Some(FoundCrate::Name("usage_argv".into()))
    );
    assert_eq!(match_dep("usage", Some("usage-rs"), "usage-argv"), None);
}
