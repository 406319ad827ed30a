//! The paths generated code names the adopter's crates by.
//!
//! Each is decided from how the adopter's manifest lists a crate: a direct dependency wins,
//! otherwise the `usage-rs` facade provides it as a module, and the bare name is left to
//! produce the useful compiler error when neither was declared. A path is its segments, to be
//! written after a leading `::`.

use vstd::prelude::*;
use vstd::string::*;

use crate::crate_name::{rustc_name, Found, FoundCrate};
use crate::text::replace_char;

verus! {

pub open spec fn lookup_view(found: Result<FoundCrate, ()>) -> Result<Found, ()> {
    match found {
        Ok(f) => Ok(f@),
        Err(()) => Err(()),
    }
}

pub open spec fn segments_view(path: Vec<String>) -> Seq<Seq<char>> {
    path@.map_values(|s: String| s@)
}

fn one(a: String) -> (res: Vec<String>)
    ensures
        segments_view(res) == seq![a@],
{
    let mut v = Vec::new();
    v.push(a);
    assert(segments_view(v) =~= seq![a@]);
    v
}

fn two(a: String, b: &str) -> (res: Vec<String>)
    ensures
        segments_view(res) == seq![a@, b@],
{
    let mut v = Vec::new();
    v.push(a);
    v.push(b.to_owned());
    assert(segments_view(v) =~= seq![a@, b@]);
    v
}

fn folded(name: &String) -> (res: String)
    ensures
        res@ == rustc_name(name@),
{
    let res = replace_char(name.as_str(), '-', '_');
    assert(res@ =~= rustc_name(name@));
    res
}

/// The runtime: a direct `usage-argv` dependency by its name, else the facade's `argv`.
pub open spec fn runtime_path_of(argv: Result<Found, ()>, facade: Result<Found, ()>) -> Seq<
    Seq<char>,
> {
    match argv {
        Ok(Found::Name(name)) => seq![name],
        _ => match facade {
            Ok(Found::Itself) => seq!["usage_rs"@, "argv"@],
            Ok(Found::Name(name)) => seq![name, "argv"@],
            _ => seq!["usage_argv"@],
        },
    }
}

/// The runtime as the adopter depended on it, given how the manifest lists `usage-argv` and
/// `usage-rs`.
pub fn runtime_path(argv: &Result<FoundCrate, ()>, facade: &Result<FoundCrate, ()>) -> (res: Vec<
    String,
>)
    ensures
        segments_view(res) == runtime_path_of(lookup_view(*argv), lookup_view(*facade)),
{
    match argv {
        Ok(FoundCrate::Name(name)) => one(name.clone()),
        _ => match facade {
            Ok(FoundCrate::Itself) => two("usage_rs".to_owned(), "argv"),
            Ok(FoundCrate::Name(name)) => two(name.clone(), "argv"),
            _ => one("usage_argv".to_owned()),
        },
    }
}

/// The derive package: a direct `usage-derive` dependency by its name, else the facade.
pub open spec fn derive_path_of(derive: Result<Found, ()>, facade: Result<Found, ()>) -> Seq<
    Seq<char>,
> {
    match derive {
        Ok(Found::Name(name)) => seq![name],
        _ => match facade {
            Ok(Found::Itself) => seq!["usage_rs"@],
            Ok(Found::Name(name)) => seq![name],
            _ => seq!["usage_derive"@],
        },
    }
}

/// The derive package as the adopter depended on it.
pub fn derive_path(derive: &Result<FoundCrate, ()>, facade: &Result<FoundCrate, ()>) -> (res: Vec<
    String,
>)
    ensures
        segments_view(res) == derive_path_of(lookup_view(*derive), lookup_view(*facade)),
{
    match derive {
        Ok(FoundCrate::Name(name)) => one(name.clone()),
        _ => match facade {
            Ok(FoundCrate::Itself) => one("usage_rs".to_owned()),
            Ok(FoundCrate::Name(name)) => one(name.clone()),
            _ => one("usage_derive".to_owned()),
        },
    }
}

/// The schema library, by the name the adopter gave it, or its own.
pub open spec fn schemars_path_of(schemars: Result<Found, ()>) -> Seq<Seq<char>> {
    match schemars {
        Ok(Found::Name(name)) => seq![rustc_name(name)],
        _ => seq!["schemars"@],
    }
}

/// The schema library, as the adopter depended on it.
pub fn schemars_path(schemars: &Result<FoundCrate, ()>) -> (res: Vec<String>)
    ensures
        segments_view(res) == schemars_path_of(lookup_view(*schemars)),
{
    match schemars {
        Ok(FoundCrate::Itself) => one("schemars".to_owned()),
        Ok(FoundCrate::Name(name)) => one(folded(name)),
        _ => one("schemars".to_owned()),
    }
}

/// A crate the facade re-exports as `module`: itself by its own name, a direct dependency by
/// its (folded) name, else the facade's module.
pub open spec fn facade_module_path_of(
    direct: Result<Found, ()>,
    facade: Result<Found, ()>,
    own: Seq<char>,
    module: Seq<char>,
) -> Seq<Seq<char>> {
    match direct {
        Ok(Found::Itself) => seq![own],
        Ok(Found::Name(name)) => seq![rustc_name(name)],
        _ => match facade {
            Ok(Found::Itself) => seq!["usage_rs"@, module],
            Ok(Found::Name(name)) => seq![rustc_name(name), module],
            _ => seq![own],
        },
    }
}

fn facade_module_path(
    direct: &Result<FoundCrate, ()>,
    facade: &Result<FoundCrate, ()>,
    own: &str,
    module: &str,
) -> (res: Vec<String>)
    ensures
        segments_view(res) == facade_module_path_of(
            lookup_view(*direct),
            lookup_view(*facade),
            own@,
            module@,
        ),
{
    match direct {
        Ok(FoundCrate::Itself) => one(own.to_owned()),
        Ok(FoundCrate::Name(name)) => one(folded(name)),
        _ => match facade {
            Ok(FoundCrate::Itself) => two("usage_rs".to_owned(), module),
            Ok(FoundCrate::Name(name)) => two(folded(name), module),
            _ => one(own.to_owned()),
        },
    }
}

/// The cold expression evaluator, resolved independently of the binding runtime.
pub fn validation_path(validation: &Result<FoundCrate, ()>, facade: &Result<FoundCrate, ()>) -> (res:
    Vec<String>)
    ensures
        segments_view(res) == facade_module_path_of(
            lookup_view(*validation),
            lookup_view(*facade),
            "usage_validation"@,
            "validation"@,
        ),
{
    facade_module_path(validation, facade, "usage_validation", "validation")
}

/// The config crate as the adopter depended on it.
pub fn config_path(config: &Result<FoundCrate, ()>, facade: &Result<FoundCrate, ()>) -> (res: Vec<
    String,
>)
    ensures
        segments_view(res) == facade_module_path_of(
            lookup_view(*config),
            lookup_view(*facade),
            "usage_config"@,
            "config"@,
        ),
{
    facade_module_path(config, facade, "usage_config", "config")
}

/// How generated code reaches each crate: a direct dependency is named by its own name and the
/// facade is then irrelevant; without one, the facade's module is used (`usage_rs::<module>`
/// when the adopter is the facade itself); with neither, the crate's own name is left for the
/// compiler to report. The facade's runtime module is `argv`, and the derive package is the
/// facade itself.
pub proof fn lemma_a_direct_dependency_wins(direct: Result<Found, ()>, facade: Result<Found, ()>, other: Result<Found, ()>, n: Seq<char>)
    ensures
        direct == Ok::<Found, ()>(Found::Name(n)) ==> runtime_path_of(direct, facade) == seq![n]
            && runtime_path_of(direct, facade) == runtime_path_of(direct, other),
        direct == Ok::<Found, ()>(Found::Name(n)) ==> derive_path_of(direct, facade) == seq![n],
        direct is Err ==> runtime_path_of(direct, Ok::<Found, ()>(Found::Name(n))) == seq![n, "argv"@],
        direct is Err ==> runtime_path_of(direct, Ok::<Found, ()>(Found::Itself)) == seq!["usage_rs"@, "argv"@],
        direct is Err ==> runtime_path_of(direct, Err::<Found, ()>(())) == seq!["usage_argv"@],
        direct is Err ==> derive_path_of(direct, Ok::<Found, ()>(Found::Name(n))) == seq![n],
        direct is Err ==> derive_path_of(direct, Ok::<Found, ()>(Found::Itself)) == seq!["usage_rs"@],
        direct is Err ==> derive_path_of(direct, Err::<Found, ()>(())) == seq!["usage_derive"@],
        schemars_path_of(Ok::<Found, ()>(Found::Name(n))) == seq![rustc_name(n)],
        direct is Err ==> schemars_path_of(direct) == seq!["schemars"@],
        direct == Ok::<Found, ()>(Found::Name(n)) ==> facade_module_path_of(direct, facade, "usage_config"@, "config"@)
            == seq![rustc_name(n)],
        direct is Err ==> facade_module_path_of(direct, Ok::<Found, ()>(Found::Itself), "usage_config"@, "config"@)
            == seq!["usage_rs"@, "config"@],
        direct is Err ==> facade_module_path_of(direct, Ok::<Found, ()>(Found::Name(n)), "usage_validation"@, "validation"@)
            == seq![rustc_name(n), "validation"@],
        direct is Err ==> facade_module_path_of(direct, Err::<Found, ()>(()), "usage_config"@, "config"@)
            == seq!["usage_config"@],
        facade_module_path_of(Ok::<Found, ()>(Found::Itself), facade, "usage_config"@, "config"@) == seq!["usage_config"@],
{
}

} // verus!
