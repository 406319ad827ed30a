use usage_derive::crate_name::FoundCrate;
use usage_derive::paths::{config_path, derive_path, runtime_path, schemars_path, validation_path};

fn name(n: &str) -> Result<FoundCrate, ()> {
    Ok(FoundCrate::Name(n.to_string()))
}

#[test]
fn a_direct_runtime_dependency_wins() {
    assert_eq!(runtime_path(&name("usage_argv"), &name("usage")), vec!["usage_argv"]);
    assert_eq!(runtime_path(&Err(()), &name("usage")), vec!["usage", "argv"]);
    assert_eq!(runtime_path(&Ok(FoundCrate::Itself), &Ok(FoundCrate::Itself)), vec!["usage_rs", "argv"]);
    assert_eq!(runtime_path(&Err(()), &Err(())), vec!["usage_argv"]);
}

#[test]
fn the_derive_comes_through_the_facade() {
    assert_eq!(derive_path(&name("usage_derive"), &Err(())), vec!["usage_derive"]);
    assert_eq!(derive_path(&Err(()), &name("cli")), vec!["cli"]);
    assert_eq!(derive_path(&Err(()), &Ok(FoundCrate::Itself)), vec!["usage_rs"]);
    assert_eq!(derive_path(&Err(()), &Err(())), vec!["usage_derive"]);
}

#[test]
fn schemars_keeps_its_name_unless_renamed() {
    assert_eq!(schemars_path(&Ok(FoundCrate::Itself)), vec!["schemars"]);
    assert_eq!(schemars_path(&name("my-schemars")), vec!["my_schemars"]);
    assert_eq!(schemars_path(&Err(())), vec!["schemars"]);
}

#[test]
fn config_and_validation_fall_back_to_the_facade_module() {
    assert_eq!(config_path(&Ok(FoundCrate::Itself), &Err(())), vec!["usage_config"]);
    assert_eq!(config_path(&name("cfg-crate"), &Err(())), vec!["cfg_crate"]);
    assert_eq!(config_path(&Err(()), &name("my-usage")), vec!["my_usage", "config"]);
    assert_eq!(config_path(&Err(()), &Ok(FoundCrate::Itself)), vec!["usage_rs", "config"]);
    assert_eq!(config_path(&Err(()), &Err(())), vec!["usage_config"]);
    assert_eq!(validation_path(&Err(()), &name("usage")), vec!["usage", "validation"]);
    assert_eq!(validation_path(&Err(()), &Err(())), vec!["usage_validation"]);
}
