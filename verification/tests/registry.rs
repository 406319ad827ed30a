use usage_derive::declaration::{File, FileScope, XdgBase};
use usage_derive::registry::{read_plan, spec_files, BuildHow, ReadHow, RegistryField};

fn file(path: &str, findup: bool, xdg: Option<XdgBase>, scope: FileScope) -> File {
    File { path: path.to_string(), findup, xdg, scope, format: Some("toml".to_string()) }
}

#[test]
fn an_xdg_file_is_listed_for_the_system_and_the_user() {
    let listed = spec_files(&vec![
        file("ex.toml", true, None, FileScope::Project),
        file("ex/config.toml", false, Some(XdgBase::Config), FileScope::Project),
        file("ex/cache.toml", false, Some(XdgBase::Cache), FileScope::Project),
    ]);
    let view: Vec<(String, bool, FileScope)> =
        listed.iter().map(|f| (f.path.clone(), f.findup, f.scope)).collect();
    assert_eq!(
        view,
        vec![
            ("ex.toml".to_string(), true, FileScope::Project),
            ("$XDG_CONFIG_DIRS/ex/config.toml".to_string(), false, FileScope::System),
            ("$XDG_CONFIG_HOME/ex/config.toml".to_string(), false, FileScope::Global),
            ("$XDG_CACHE_HOME/ex/cache.toml".to_string(), false, FileScope::Global),
        ]
    );
    assert!(listed.iter().all(|f| f.format.as_deref() == Some("toml")));
}

#[test]
fn a_setting_is_read_as_its_field_can_hold_it() {
    let prop = |optional_field: bool, default_fn: bool| RegistryField::Prop { optional_field, default_fn };
    assert_eq!(read_plan(prop(false, false)), Some((ReadHow::Required, BuildHow::Present)));
    assert_eq!(read_plan(prop(true, false)), Some((ReadHow::Optional, BuildHow::AsOption)));
    assert_eq!(read_plan(prop(false, true)), Some((ReadHow::Optional, BuildHow::OrDefaultFn)));
    assert_eq!(read_plan(RegistryField::Flatten), None);
}
