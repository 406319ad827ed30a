//! The attributes of a `usage::Config` struct and its fields: their names, the values they
//! take (how a collection merges, where a setting is scoped, which parsers split a string,
//! how `source(kind, keys...)` binds a setting), and which of them a flattened field refuses.

use vstd::prelude::*;
use vstd::string::*;

use crate::text::str_eq;

verus! {

/// How a collection setting combines across layers, beyond the default of replacing it.
#[derive(Clone, Copy, PartialEq, Eq, Structural, Debug)]
pub enum Merge {
    Union,
    Deep,
}

/// Why a `merge` value is refused.
#[derive(Clone, Copy, PartialEq, Eq, Structural, Debug)]
pub enum MergeError {
    /// `replace`, which is the default and goes unsaid.
    Replace,
    /// Anything else that is not `union` or `deep`.
    Unknown,
}

pub open spec fn merge_spec(value: Seq<char>) -> Result<Merge, MergeError> {
    if value == "union"@ {
        Ok(Merge::Union)
    } else if value == "deep"@ {
        Ok(Merge::Deep)
    } else if value == "replace"@ {
        Err(MergeError::Replace)
    } else {
        Err(MergeError::Unknown)
    }
}

/// `merge = "union"` or `merge = "deep"`.
pub fn merge_of(value: &str) -> (res: Result<Merge, MergeError>)
    ensures
        res == merge_spec(value@),
{
    if str_eq(value, "union") {
        Ok(Merge::Union)
    } else if str_eq(value, "deep") {
        Ok(Merge::Deep)
    } else if str_eq(value, "replace") {
        Err(MergeError::Replace)
    } else {
        Err(MergeError::Unknown)
    }
}

/// Where a setting's value lives.
#[derive(Clone, Copy, PartialEq, Eq, Structural, Debug)]
pub enum SettingScope {
    Global,
    Env,
}

pub open spec fn scope_spec(value: Seq<char>) -> Option<SettingScope> {
    if value == "global"@ {
        Some(SettingScope::Global)
    } else if value == "env"@ {
        Some(SettingScope::Env)
    } else {
        None
    }
}

/// `scope = "global"` or `scope = "env"`.
pub fn scope_of(value: &str) -> (res: Option<SettingScope>)
    ensures
        res == scope_spec(value@),
{
    if str_eq(value, "global") {
        Some(SettingScope::Global)
    } else if str_eq(value, "env") {
        Some(SettingScope::Env)
    } else {
        None
    }
}

pub open spec fn parser_spec(value: Seq<char>) -> bool {
    ||| value == "list_by_comma"@
    ||| value == "list_by_colon"@
    ||| value == "list_by_os_path_separator"@
    ||| value == "set_by_comma"@
}

/// Whether `parse = "..."` names a parser the spec has.
pub fn is_parser(value: &str) -> (res: bool)
    ensures
        res == parser_spec(value@),
{
    str_eq(value, "list_by_comma") || str_eq(value, "list_by_colon") || str_eq(
        value,
        "list_by_os_path_separator",
    ) || str_eq(value, "set_by_comma")
}

/// `source("git", "hk.jobs", "hk.threads")`: the kind, then the keys it reads the setting
/// from, as one binding per key; `None` without a kind and at least one key.
pub fn source_bindings(words: &Vec<String>) -> (res: Option<Vec<(String, String)>>)
    ensures
        match res {
            None => words@.len() < 2,
            Some(bindings) => {
                &&& words@.len() >= 2
                &&& bindings@.len() == words@.len() - 1
                &&& forall|i: int|
                    0 <= i < bindings@.len() ==> (#[trigger] bindings@[i]).0@ == words@[0]@
                        && bindings@[i].1@ == words@[i + 1]@
            },
        },
{
    if words.len() < 2 {
        return None;
    }
    let mut bindings: Vec<(String, String)> = Vec::new();
    let mut i: usize = 1;
    while i < words.len()
        invariant
            1 <= i <= words@.len(),
            bindings@.len() == i - 1,
            forall|k: int|
                0 <= k < bindings@.len() ==> (#[trigger] bindings@[k]).0@ == words@[0]@
                    && bindings@[k].1@ == words@[k + 1]@,
        decreases words@.len() - i,
    {
        bindings.push((words[0].clone(), words[i].clone()));
        i = i + 1;
    }
    Some(bindings)
}


/// An attribute a `usage::Config` field may carry.
#[derive(Clone, Copy, PartialEq, Eq, Structural, Debug)]
pub enum FieldAttribute {
    Flatten,
    Key,
    Ty,
    Env,
    DeprecatedEnv,
    Cli,
    Alias,
    Example,
    Extension,
    Source,
    Default,
    DefaultFn,
    DefaultNote,
    Choices,
    Merge,
    Scope,
    Parse,
    Hide,
    Optional,
    Deprecated,
    DeprecatedWarnAt,
    DeprecatedRemoveAt,
    Since,
    Help,
    LongHelp,
    HelpHeading,
    WritesTo,
}

/// The attribute a name inside a field's `#[usage(...)]` is, where it is one; a few have a
/// plural spelling too.
pub open spec fn field_attribute_spec(name: Seq<char>) -> Option<FieldAttribute> {
    if name == "flatten"@ {
        Some(FieldAttribute::Flatten)
    } else if name == "key"@ {
        Some(FieldAttribute::Key)
    } else if name == "ty"@ {
        Some(FieldAttribute::Ty)
    } else if name == "env"@ {
        Some(FieldAttribute::Env)
    } else if name == "deprecated_env"@ {
        Some(FieldAttribute::DeprecatedEnv)
    } else if name == "cli"@ {
        Some(FieldAttribute::Cli)
    } else if name == "alias"@ {
        Some(FieldAttribute::Alias)
    } else if name == "aliases"@ {
        Some(FieldAttribute::Alias)
    } else if name == "example"@ {
        Some(FieldAttribute::Example)
    } else if name == "examples"@ {
        Some(FieldAttribute::Example)
    } else if name == "x"@ {
        Some(FieldAttribute::Extension)
    } else if name == "extension"@ {
        Some(FieldAttribute::Extension)
    } else if name == "source"@ {
        Some(FieldAttribute::Source)
    } else if name == "default"@ {
        Some(FieldAttribute::Default)
    } else if name == "default_fn"@ {
        Some(FieldAttribute::DefaultFn)
    } else if name == "default_note"@ {
        Some(FieldAttribute::DefaultNote)
    } else if name == "choices"@ {
        Some(FieldAttribute::Choices)
    } else if name == "merge"@ {
        Some(FieldAttribute::Merge)
    } else if name == "scope"@ {
        Some(FieldAttribute::Scope)
    } else if name == "parse"@ {
        Some(FieldAttribute::Parse)
    } else if name == "hide"@ {
        Some(FieldAttribute::Hide)
    } else if name == "optional"@ {
        Some(FieldAttribute::Optional)
    } else if name == "deprecated"@ {
        Some(FieldAttribute::Deprecated)
    } else if name == "deprecated_warn_at"@ {
        Some(FieldAttribute::DeprecatedWarnAt)
    } else if name == "deprecated_remove_at"@ {
        Some(FieldAttribute::DeprecatedRemoveAt)
    } else if name == "since"@ {
        Some(FieldAttribute::Since)
    } else if name == "help"@ {
        Some(FieldAttribute::Help)
    } else if name == "long_help"@ {
        Some(FieldAttribute::LongHelp)
    } else if name == "help_heading"@ {
        Some(FieldAttribute::HelpHeading)
    } else if name == "writes_to"@ {
        Some(FieldAttribute::WritesTo)
    } else {
        None
    }
}

/// The attribute a name inside a field's `#[usage(...)]` is, where it is one.
pub fn field_attribute(name: &str) -> (res: Option<FieldAttribute>)
    ensures
        res == field_attribute_spec(name@),
{
    if str_eq(name, "flatten") {
        Some(FieldAttribute::Flatten)
    } else if str_eq(name, "key") {
        Some(FieldAttribute::Key)
    } else if str_eq(name, "ty") {
        Some(FieldAttribute::Ty)
    } else if str_eq(name, "env") {
        Some(FieldAttribute::Env)
    } else if str_eq(name, "deprecated_env") {
        Some(FieldAttribute::DeprecatedEnv)
    } else if str_eq(name, "cli") {
        Some(FieldAttribute::Cli)
    } else if str_eq(name, "alias") {
        Some(FieldAttribute::Alias)
    } else if str_eq(name, "aliases") {
        Some(FieldAttribute::Alias)
    } else if str_eq(name, "example") {
        Some(FieldAttribute::Example)
    } else if str_eq(name, "examples") {
        Some(FieldAttribute::Example)
    } else if str_eq(name, "x") {
        Some(FieldAttribute::Extension)
    } else if str_eq(name, "extension") {
        Some(FieldAttribute::Extension)
    } else if str_eq(name, "source") {
        Some(FieldAttribute::Source)
    } else if str_eq(name, "default") {
        Some(FieldAttribute::Default)
    } else if str_eq(name, "default_fn") {
        Some(FieldAttribute::DefaultFn)
    } else if str_eq(name, "default_note") {
        Some(FieldAttribute::DefaultNote)
    } else if str_eq(name, "choices") {
        Some(FieldAttribute::Choices)
    } else if str_eq(name, "merge") {
        Some(FieldAttribute::Merge)
    } else if str_eq(name, "scope") {
        Some(FieldAttribute::Scope)
    } else if str_eq(name, "parse") {
        Some(FieldAttribute::Parse)
    } else if str_eq(name, "hide") {
        Some(FieldAttribute::Hide)
    } else if str_eq(name, "optional") {
        Some(FieldAttribute::Optional)
    } else if str_eq(name, "deprecated") {
        Some(FieldAttribute::Deprecated)
    } else if str_eq(name, "deprecated_warn_at") {
        Some(FieldAttribute::DeprecatedWarnAt)
    } else if str_eq(name, "deprecated_remove_at") {
        Some(FieldAttribute::DeprecatedRemoveAt)
    } else if str_eq(name, "since") {
        Some(FieldAttribute::Since)
    } else if str_eq(name, "help") {
        Some(FieldAttribute::Help)
    } else if str_eq(name, "long_help") {
        Some(FieldAttribute::LongHelp)
    } else if str_eq(name, "help_heading") {
        Some(FieldAttribute::HelpHeading)
    } else if str_eq(name, "writes_to") {
        Some(FieldAttribute::WritesTo)
    } else {
        None
    }
}

/// The name an attribute is reported by.
pub open spec fn attribute_name_spec(attribute: FieldAttribute) -> Seq<char> {
    match attribute {
        FieldAttribute::Flatten => "flatten"@,
        FieldAttribute::Key => "key"@,
        FieldAttribute::Ty => "ty"@,
        FieldAttribute::Env => "env"@,
        FieldAttribute::DeprecatedEnv => "deprecated_env"@,
        FieldAttribute::Cli => "cli"@,
        FieldAttribute::Alias => "alias"@,
        FieldAttribute::Example => "example"@,
        FieldAttribute::Extension => "x"@,
        FieldAttribute::Source => "source"@,
        FieldAttribute::Default => "default"@,
        FieldAttribute::DefaultFn => "default_fn"@,
        FieldAttribute::DefaultNote => "default_note"@,
        FieldAttribute::Choices => "choices"@,
        FieldAttribute::Merge => "merge"@,
        FieldAttribute::Scope => "scope"@,
        FieldAttribute::Parse => "parse"@,
        FieldAttribute::Hide => "hide"@,
        FieldAttribute::Optional => "optional"@,
        FieldAttribute::Deprecated => "deprecated"@,
        FieldAttribute::DeprecatedWarnAt => "deprecated_warn_at"@,
        FieldAttribute::DeprecatedRemoveAt => "deprecated_remove_at"@,
        FieldAttribute::Since => "since"@,
        FieldAttribute::Help => "help"@,
        FieldAttribute::LongHelp => "long_help"@,
        FieldAttribute::HelpHeading => "help_heading"@,
        FieldAttribute::WritesTo => "writes_to"@,
    }
}

/// The name an attribute is reported by.
pub fn attribute_name(attribute: FieldAttribute) -> (res: &'static str)
    ensures
        res@ == attribute_name_spec(attribute),
{
    match attribute {
        FieldAttribute::Flatten => "flatten",
        FieldAttribute::Key => "key",
        FieldAttribute::Ty => "ty",
        FieldAttribute::Env => "env",
        FieldAttribute::DeprecatedEnv => "deprecated_env",
        FieldAttribute::Cli => "cli",
        FieldAttribute::Alias => "alias",
        FieldAttribute::Example => "example",
        FieldAttribute::Extension => "x",
        FieldAttribute::Source => "source",
        FieldAttribute::Default => "default",
        FieldAttribute::DefaultFn => "default_fn",
        FieldAttribute::DefaultNote => "default_note",
        FieldAttribute::Choices => "choices",
        FieldAttribute::Merge => "merge",
        FieldAttribute::Scope => "scope",
        FieldAttribute::Parse => "parse",
        FieldAttribute::Hide => "hide",
        FieldAttribute::Optional => "optional",
        FieldAttribute::Deprecated => "deprecated",
        FieldAttribute::DeprecatedWarnAt => "deprecated_warn_at",
        FieldAttribute::DeprecatedRemoveAt => "deprecated_remove_at",
        FieldAttribute::Since => "since",
        FieldAttribute::Help => "help",
        FieldAttribute::LongHelp => "long_help",
        FieldAttribute::HelpHeading => "help_heading",
        FieldAttribute::WritesTo => "writes_to",
    }
}

/// How many attributes describe one setting.
pub const SETTING_ATTRIBUTES: usize = 24;

/// The attributes that describe one setting, by position in the order a flattened field's
/// refusal looks for them: the `k`th.
pub open spec fn setting_attribute_at(k: int) -> FieldAttribute {
    if k == 0 {
        FieldAttribute::Env
    } else if k == 1 {
        FieldAttribute::Default
    } else if k == 2 {
        FieldAttribute::DefaultFn
    } else if k == 3 {
        FieldAttribute::Cli
    } else if k == 4 {
        FieldAttribute::Source
    } else if k == 5 {
        FieldAttribute::Choices
    } else if k == 6 {
        FieldAttribute::Merge
    } else if k == 7 {
        FieldAttribute::Scope
    } else if k == 8 {
        FieldAttribute::Parse
    } else if k == 9 {
        FieldAttribute::Hide
    } else if k == 10 {
        FieldAttribute::Key
    } else if k == 11 {
        FieldAttribute::Ty
    } else if k == 12 {
        FieldAttribute::DeprecatedEnv
    } else if k == 13 {
        FieldAttribute::Alias
    } else if k == 14 {
        FieldAttribute::Example
    } else if k == 15 {
        FieldAttribute::DefaultNote
    } else if k == 16 {
        FieldAttribute::Optional
    } else if k == 17 {
        FieldAttribute::Deprecated
    } else if k == 18 {
        FieldAttribute::DeprecatedWarnAt
    } else if k == 19 {
        FieldAttribute::DeprecatedRemoveAt
    } else if k == 20 {
        FieldAttribute::Since
    } else if k == 21 {
        FieldAttribute::HelpHeading
    } else if k == 22 {
        FieldAttribute::WritesTo
    } else {
        FieldAttribute::Extension
    }
}

fn setting_attribute(k: usize) -> (res: FieldAttribute)
    requires
        k < SETTING_ATTRIBUTES,
    ensures
        res == setting_attribute_at(k as int),
{
    if k == 0 {
        FieldAttribute::Env
    } else if k == 1 {
        FieldAttribute::Default
    } else if k == 2 {
        FieldAttribute::DefaultFn
    } else if k == 3 {
        FieldAttribute::Cli
    } else if k == 4 {
        FieldAttribute::Source
    } else if k == 5 {
        FieldAttribute::Choices
    } else if k == 6 {
        FieldAttribute::Merge
    } else if k == 7 {
        FieldAttribute::Scope
    } else if k == 8 {
        FieldAttribute::Parse
    } else if k == 9 {
        FieldAttribute::Hide
    } else if k == 10 {
        FieldAttribute::Key
    } else if k == 11 {
        FieldAttribute::Ty
    } else if k == 12 {
        FieldAttribute::DeprecatedEnv
    } else if k == 13 {
        FieldAttribute::Alias
    } else if k == 14 {
        FieldAttribute::Example
    } else if k == 15 {
        FieldAttribute::DefaultNote
    } else if k == 16 {
        FieldAttribute::Optional
    } else if k == 17 {
        FieldAttribute::Deprecated
    } else if k == 18 {
        FieldAttribute::DeprecatedWarnAt
    } else if k == 19 {
        FieldAttribute::DeprecatedRemoveAt
    } else if k == 20 {
        FieldAttribute::Since
    } else if k == 21 {
        FieldAttribute::HelpHeading
    } else if k == 22 {
        FieldAttribute::WritesTo
    } else {
        FieldAttribute::Extension
    }
}

/// The `k`th setting attribute is the first of them among `given`.
pub open spec fn first_given(given: Seq<FieldAttribute>, k: int) -> bool {
    &&& 0 <= k < SETTING_ATTRIBUTES
    &&& given.contains(setting_attribute_at(k))
    &&& forall|j: int| 0 <= j < k ==> !given.contains(#[trigger] setting_attribute_at(j))
}

/// Why a field marked `flatten` is refused: the first attribute it gives that describes one
/// setting, or `None` when it gives none and is a group.
///
/// `given` holds the attributes that took effect on the field: a `hide = false` or an empty
/// list says nothing.
pub fn flatten_refusal(given: &Vec<FieldAttribute>) -> (res: Option<FieldAttribute>)
    ensures
        match res {
            Some(a) => exists|k: int| first_given(given@, k) && a == #[trigger] setting_attribute_at(k),
            None => forall|k: int|
                0 <= k < SETTING_ATTRIBUTES ==> !given@.contains(#[trigger] setting_attribute_at(k)),
        },
{
    let mut k: usize = 0;
    while k < SETTING_ATTRIBUTES
        invariant
            k <= SETTING_ATTRIBUTES,
            forall|j: int| 0 <= j < k ==> !given@.contains(#[trigger] setting_attribute_at(j)),
        decreases SETTING_ATTRIBUTES - k,
    {
        let attribute = setting_attribute(k);
        let mut i: usize = 0;
        while i < given.len()
            invariant
                k < SETTING_ATTRIBUTES,
                attribute == setting_attribute_at(k as int),
                forall|j: int| 0 <= j < k ==> !given@.contains(#[trigger] setting_attribute_at(j)),
                i <= given@.len(),
                forall|m: int| 0 <= m < i ==> #[trigger] given@[m] != attribute,
            decreases given@.len() - i,
        {
            if given[i] == attribute {
                assert(given@[i as int] == attribute);
                assert(first_given(given@, k as int));
                return Some(attribute);
            }
            i = i + 1;
        }
        k = k + 1;
    }
    None
}

/// Every attribute but `flatten` itself and the help a doc comment gives describes one
/// setting, so every one of them refuses a flattened field: none is left off the list.
pub proof fn lemma_every_setting_attribute_refuses_flatten(attribute: FieldAttribute)
    requires
        attribute != FieldAttribute::Flatten,
        attribute != FieldAttribute::Help,
        attribute != FieldAttribute::LongHelp,
    ensures
        exists|k: int| 0 <= k < SETTING_ATTRIBUTES && #[trigger] setting_attribute_at(k) == attribute,
{
    match attribute {
        FieldAttribute::Env => assert(setting_attribute_at(0) == attribute),
        FieldAttribute::Default => assert(setting_attribute_at(1) == attribute),
        FieldAttribute::DefaultFn => assert(setting_attribute_at(2) == attribute),
        FieldAttribute::Cli => assert(setting_attribute_at(3) == attribute),
        FieldAttribute::Source => assert(setting_attribute_at(4) == attribute),
        FieldAttribute::Choices => assert(setting_attribute_at(5) == attribute),
        FieldAttribute::Merge => assert(setting_attribute_at(6) == attribute),
        FieldAttribute::Scope => assert(setting_attribute_at(7) == attribute),
        FieldAttribute::Parse => assert(setting_attribute_at(8) == attribute),
        FieldAttribute::Hide => assert(setting_attribute_at(9) == attribute),
        FieldAttribute::Key => assert(setting_attribute_at(10) == attribute),
        FieldAttribute::Ty => assert(setting_attribute_at(11) == attribute),
        FieldAttribute::DeprecatedEnv => assert(setting_attribute_at(12) == attribute),
        FieldAttribute::Alias => assert(setting_attribute_at(13) == attribute),
        FieldAttribute::Example => assert(setting_attribute_at(14) == attribute),
        FieldAttribute::DefaultNote => assert(setting_attribute_at(15) == attribute),
        FieldAttribute::Optional => assert(setting_attribute_at(16) == attribute),
        FieldAttribute::Deprecated => assert(setting_attribute_at(17) == attribute),
        FieldAttribute::DeprecatedWarnAt => assert(setting_attribute_at(18) == attribute),
        FieldAttribute::DeprecatedRemoveAt => assert(setting_attribute_at(19) == attribute),
        FieldAttribute::Since => assert(setting_attribute_at(20) == attribute),
        FieldAttribute::HelpHeading => assert(setting_attribute_at(21) == attribute),
        FieldAttribute::WritesTo => assert(setting_attribute_at(22) == attribute),
        FieldAttribute::Extension => assert(setting_attribute_at(23) == attribute),
        _ => {},
    }
}

/// A doc comment describes the group, not one setting: `help`, `long_help` and `flatten`
/// never refuse a flattened field.
pub proof fn lemma_help_describes_the_group(k: int)
    requires
        0 <= k < SETTING_ATTRIBUTES,
    ensures
        setting_attribute_at(k) != FieldAttribute::Help,
        setting_attribute_at(k) != FieldAttribute::LongHelp,
        setting_attribute_at(k) != FieldAttribute::Flatten,
{
}

/// An attribute a `usage::Config` struct may carry.
#[derive(Clone, Copy, PartialEq, Eq, Structural, Debug)]
pub enum StructAttribute {
    Prefix,
    Source,
    File,
}

pub open spec fn struct_attribute_spec(name: Seq<char>) -> Option<StructAttribute> {
    if name == "prefix"@ {
        Some(StructAttribute::Prefix)
    } else if name == "source"@ {
        Some(StructAttribute::Source)
    } else if name == "file"@ {
        Some(StructAttribute::File)
    } else {
        None
    }
}

/// The attribute a name inside the struct's `#[usage(...)]` is, where it is one.
pub fn struct_attribute(name: &str) -> (res: Option<StructAttribute>)
    ensures
        res == struct_attribute_spec(name@),
{
    if str_eq(name, "prefix") {
        Some(StructAttribute::Prefix)
    } else if str_eq(name, "source") {
        Some(StructAttribute::Source)
    } else if str_eq(name, "file") {
        Some(StructAttribute::File)
    } else {
        None
    }
}


/// What the author reads when a flattened field gives `attribute`.
pub open spec fn flatten_message_of(attribute: FieldAttribute) -> Seq<char> {
    "`"@ + attribute_name_spec(attribute) + "` describes a setting, and `flatten` says this field is a group of them: put it on the group's own fields"@
}

/// The message for a flattened field that gives an attribute of one setting.
pub fn flatten_message(attribute: FieldAttribute) -> (res: String)
    ensures
        res@ == flatten_message_of(attribute),
{
    let mut s = String::from_str("`");
    s.append(attribute_name(attribute));
    s.append("` describes a setting, and `flatten` says this field is a group of them: put it on the group's own fields");
    s
}

/// What the author reads when `merge = value` is refused.
pub open spec fn merge_message_of(e: MergeError, value: Seq<char>) -> Seq<char> {
    match e {
        MergeError::Replace => "`replace` is the default; say nothing instead"@,
        MergeError::Unknown => "`merge` is `union` or `deep`, not `"@ + value + "`"@,
    }
}

/// The message for a refused `merge`.
pub fn merge_message(e: MergeError, value: &str) -> (res: String)
    ensures
        res@ == merge_message_of(e, value@),
{
    match e {
        MergeError::Replace => {
            let mut s = String::from_str("`replace` is the default; say nothing instead");
            s
        },
        MergeError::Unknown => {
            let mut s = String::from_str("`merge` is `union` or `deep`, not `");
            s.append(value);
            s.append("`");
            s
        },
    }
}

/// What the author reads when `scope = value` is refused.
pub open spec fn scope_message_of(value: Seq<char>) -> Seq<char> {
    "`scope` is `global` or `env`, not `"@ + value + "`"@
}

/// The message for a refused `scope`.
pub fn scope_message(value: &str) -> (res: String)
    ensures
        res@ == scope_message_of(value@),
{
    let mut s = String::from_str("`scope` is `global` or `env`, not `");
    s.append(value);
    s.append("`");
    s
}

/// What the author reads when `parse = value` names no parser.
pub open spec fn parse_message_of(value: Seq<char>) -> Seq<char> {
    "`"@ + value + "` is not a parser the spec names"@
}

/// The message for a refused `parse`.
pub fn parse_message(value: &str) -> (res: String)
    ensures
        res@ == parse_message_of(value@),
{
    let mut s = String::from_str("`");
    s.append(value);
    s.append("` is not a parser the spec names");
    s
}

/// What the author reads when `source(...)` lacks a kind or a key.
pub open spec fn source_attribute_message_of() -> Seq<char> {
    "`source` takes a kind and at least one key, as in `source(\"git\", \"hk.jobs\")`"@
}

/// The message for a `source(...)` without a kind and a key.
pub fn source_attribute_message() -> (res: String)
    ensures
        res@ == source_attribute_message_of(),
{
    let mut s = String::from_str("`source` takes a kind and at least one key, as in `source(\"git\", \"hk.jobs\")`");
    s
}

/// The names a field's attributes are written with: each attribute answers to its own name,
/// `alias`, `example` and `extension` also to `aliases`, `examples` and `x`, and an attribute is
/// reported by the name it is written with, which reads back as the same attribute.
pub proof fn lemma_field_attribute_names(attribute: FieldAttribute)
    ensures
        field_attribute_spec("flatten"@) == Some(FieldAttribute::Flatten),
        field_attribute_spec("key"@) == Some(FieldAttribute::Key),
        field_attribute_spec("ty"@) == Some(FieldAttribute::Ty),
        field_attribute_spec("env"@) == Some(FieldAttribute::Env),
        field_attribute_spec("deprecated_env"@) == Some(FieldAttribute::DeprecatedEnv),
        field_attribute_spec("cli"@) == Some(FieldAttribute::Cli),
        field_attribute_spec("alias"@) == Some(FieldAttribute::Alias),
        field_attribute_spec("aliases"@) == Some(FieldAttribute::Alias),
        field_attribute_spec("example"@) == Some(FieldAttribute::Example),
        field_attribute_spec("examples"@) == Some(FieldAttribute::Example),
        field_attribute_spec("x"@) == Some(FieldAttribute::Extension),
        field_attribute_spec("extension"@) == Some(FieldAttribute::Extension),
        field_attribute_spec("source"@) == Some(FieldAttribute::Source),
        field_attribute_spec("default"@) == Some(FieldAttribute::Default),
        field_attribute_spec("default_fn"@) == Some(FieldAttribute::DefaultFn),
        field_attribute_spec("default_note"@) == Some(FieldAttribute::DefaultNote),
        field_attribute_spec("choices"@) == Some(FieldAttribute::Choices),
        field_attribute_spec("merge"@) == Some(FieldAttribute::Merge),
        field_attribute_spec("scope"@) == Some(FieldAttribute::Scope),
        field_attribute_spec("parse"@) == Some(FieldAttribute::Parse),
        field_attribute_spec("hide"@) == Some(FieldAttribute::Hide),
        field_attribute_spec("optional"@) == Some(FieldAttribute::Optional),
        field_attribute_spec("deprecated"@) == Some(FieldAttribute::Deprecated),
        field_attribute_spec("deprecated_warn_at"@) == Some(FieldAttribute::DeprecatedWarnAt),
        field_attribute_spec("deprecated_remove_at"@) == Some(FieldAttribute::DeprecatedRemoveAt),
        field_attribute_spec("since"@) == Some(FieldAttribute::Since),
        field_attribute_spec("help"@) == Some(FieldAttribute::Help),
        field_attribute_spec("long_help"@) == Some(FieldAttribute::LongHelp),
        field_attribute_spec("help_heading"@) == Some(FieldAttribute::HelpHeading),
        field_attribute_spec("writes_to"@) == Some(FieldAttribute::WritesTo),
        attribute_name_spec(FieldAttribute::Flatten) == "flatten"@,
        attribute_name_spec(FieldAttribute::Key) == "key"@,
        attribute_name_spec(FieldAttribute::Ty) == "ty"@,
        attribute_name_spec(FieldAttribute::Env) == "env"@,
        attribute_name_spec(FieldAttribute::DeprecatedEnv) == "deprecated_env"@,
        attribute_name_spec(FieldAttribute::Cli) == "cli"@,
        attribute_name_spec(FieldAttribute::Alias) == "alias"@,
        attribute_name_spec(FieldAttribute::Example) == "example"@,
        attribute_name_spec(FieldAttribute::Extension) == "x"@,
        attribute_name_spec(FieldAttribute::Source) == "source"@,
        attribute_name_spec(FieldAttribute::Default) == "default"@,
        attribute_name_spec(FieldAttribute::DefaultFn) == "default_fn"@,
        attribute_name_spec(FieldAttribute::DefaultNote) == "default_note"@,
        attribute_name_spec(FieldAttribute::Choices) == "choices"@,
        attribute_name_spec(FieldAttribute::Merge) == "merge"@,
        attribute_name_spec(FieldAttribute::Scope) == "scope"@,
        attribute_name_spec(FieldAttribute::Parse) == "parse"@,
        attribute_name_spec(FieldAttribute::Hide) == "hide"@,
        attribute_name_spec(FieldAttribute::Optional) == "optional"@,
        attribute_name_spec(FieldAttribute::Deprecated) == "deprecated"@,
        attribute_name_spec(FieldAttribute::DeprecatedWarnAt) == "deprecated_warn_at"@,
        attribute_name_spec(FieldAttribute::DeprecatedRemoveAt) == "deprecated_remove_at"@,
        attribute_name_spec(FieldAttribute::Since) == "since"@,
        attribute_name_spec(FieldAttribute::Help) == "help"@,
        attribute_name_spec(FieldAttribute::LongHelp) == "long_help"@,
        attribute_name_spec(FieldAttribute::HelpHeading) == "help_heading"@,
        attribute_name_spec(FieldAttribute::WritesTo) == "writes_to"@,
        field_attribute_spec(attribute_name_spec(attribute)) == Some(attribute),
{
    reveal_strlit("flatten");
    reveal_strlit("key");
    reveal_strlit("ty");
    reveal_strlit("env");
    reveal_strlit("deprecated_env");
    reveal_strlit("cli");
    reveal_strlit("alias");
    reveal_strlit("aliases");
    reveal_strlit("example");
    reveal_strlit("examples");
    reveal_strlit("x");
    reveal_strlit("extension");
    reveal_strlit("source");
    reveal_strlit("default");
    reveal_strlit("default_fn");
    reveal_strlit("default_note");
    reveal_strlit("choices");
    reveal_strlit("merge");
    reveal_strlit("scope");
    reveal_strlit("parse");
    reveal_strlit("hide");
    reveal_strlit("optional");
    reveal_strlit("deprecated");
    reveal_strlit("deprecated_warn_at");
    reveal_strlit("deprecated_remove_at");
    reveal_strlit("since");
    reveal_strlit("help");
    reveal_strlit("long_help");
    reveal_strlit("help_heading");
    reveal_strlit("writes_to");
    assert("key"@.len() != "flatten"@.len());
    assert("key"@ != "flatten"@);
    assert("ty"@.len() != "flatten"@.len());
    assert("ty"@ != "flatten"@);
    assert("ty"@.len() != "key"@.len());
    assert("ty"@ != "key"@);
    assert("env"@.len() != "flatten"@.len());
    assert("env"@ != "flatten"@);
    assert("env"@[0] != "key"@[0]);
    assert("env"@ != "key"@);
    assert("env"@.len() != "ty"@.len());
    assert("env"@ != "ty"@);
    assert("deprecated_env"@.len() != "flatten"@.len());
    assert("deprecated_env"@ != "flatten"@);
    assert("deprecated_env"@.len() != "key"@.len());
    assert("deprecated_env"@ != "key"@);
    assert("deprecated_env"@.len() != "ty"@.len());
    assert("deprecated_env"@ != "ty"@);
    assert("deprecated_env"@.len() != "env"@.len());
    assert("deprecated_env"@ != "env"@);
    assert("cli"@.len() != "flatten"@.len());
    assert("cli"@ != "flatten"@);
    assert("cli"@[0] != "key"@[0]);
    assert("cli"@ != "key"@);
    assert("cli"@.len() != "ty"@.len());
    assert("cli"@ != "ty"@);
    assert("cli"@[0] != "env"@[0]);
    assert("cli"@ != "env"@);
    assert("cli"@.len() != "deprecated_env"@.len());
    assert("cli"@ != "deprecated_env"@);
    assert("alias"@.len() != "flatten"@.len());
    assert("alias"@ != "flatten"@);
    assert("alias"@.len() != "key"@.len());
    assert("alias"@ != "key"@);
    assert("alias"@.len() != "ty"@.len());
    assert("alias"@ != "ty"@);
    assert("alias"@.len() != "env"@.len());
    assert("alias"@ != "env"@);
    assert("alias"@.len() != "deprecated_env"@.len());
    assert("alias"@ != "deprecated_env"@);
    assert("alias"@.len() != "cli"@.len());
    assert("alias"@ != "cli"@);
    assert("aliases"@[0] != "flatten"@[0]);
    assert("aliases"@ != "flatten"@);
    assert("aliases"@.len() != "key"@.len());
    assert("aliases"@ != "key"@);
    assert("aliases"@.len() != "ty"@.len());
    assert("aliases"@ != "ty"@);
    assert("aliases"@.len() != "env"@.len());
    assert("aliases"@ != "env"@);
    assert("aliases"@.len() != "deprecated_env"@.len());
    assert("aliases"@ != "deprecated_env"@);
    assert("aliases"@.len() != "cli"@.len());
    assert("aliases"@ != "cli"@);
    assert("aliases"@.len() != "alias"@.len());
    assert("aliases"@ != "alias"@);
    assert("example"@[0] != "flatten"@[0]);
    assert("example"@ != "flatten"@);
    assert("example"@.len() != "key"@.len());
    assert("example"@ != "key"@);
    assert("example"@.len() != "ty"@.len());
    assert("example"@ != "ty"@);
    assert("example"@.len() != "env"@.len());
    assert("example"@ != "env"@);
    assert("example"@.len() != "deprecated_env"@.len());
    assert("example"@ != "deprecated_env"@);
    assert("example"@.len() != "cli"@.len());
    assert("example"@ != "cli"@);
    assert("example"@.len() != "alias"@.len());
    assert("example"@ != "alias"@);
    assert("example"@[0] != "aliases"@[0]);
    assert("example"@ != "aliases"@);
    assert("examples"@.len() != "flatten"@.len());
    assert("examples"@ != "flatten"@);
    assert("examples"@.len() != "key"@.len());
    assert("examples"@ != "key"@);
    assert("examples"@.len() != "ty"@.len());
    assert("examples"@ != "ty"@);
    assert("examples"@.len() != "env"@.len());
    assert("examples"@ != "env"@);
    assert("examples"@.len() != "deprecated_env"@.len());
    assert("examples"@ != "deprecated_env"@);
    assert("examples"@.len() != "cli"@.len());
    assert("examples"@ != "cli"@);
    assert("examples"@.len() != "alias"@.len());
    assert("examples"@ != "alias"@);
    assert("examples"@.len() != "aliases"@.len());
    assert("examples"@ != "aliases"@);
    assert("examples"@.len() != "example"@.len());
    assert("examples"@ != "example"@);
    assert("x"@.len() != "flatten"@.len());
    assert("x"@ != "flatten"@);
    assert("x"@.len() != "key"@.len());
    assert("x"@ != "key"@);
    assert("x"@.len() != "ty"@.len());
    assert("x"@ != "ty"@);
    assert("x"@.len() != "env"@.len());
    assert("x"@ != "env"@);
    assert("x"@.len() != "deprecated_env"@.len());
    assert("x"@ != "deprecated_env"@);
    assert("x"@.len() != "cli"@.len());
    assert("x"@ != "cli"@);
    assert("x"@.len() != "alias"@.len());
    assert("x"@ != "alias"@);
    assert("x"@.len() != "aliases"@.len());
    assert("x"@ != "aliases"@);
    assert("x"@.len() != "example"@.len());
    assert("x"@ != "example"@);
    assert("x"@.len() != "examples"@.len());
    assert("x"@ != "examples"@);
    assert("extension"@.len() != "flatten"@.len());
    assert("extension"@ != "flatten"@);
    assert("extension"@.len() != "key"@.len());
    assert("extension"@ != "key"@);
    assert("extension"@.len() != "ty"@.len());
    assert("extension"@ != "ty"@);
    assert("extension"@.len() != "env"@.len());
    assert("extension"@ != "env"@);
    assert("extension"@.len() != "deprecated_env"@.len());
    assert("extension"@ != "deprecated_env"@);
    assert("extension"@.len() != "cli"@.len());
    assert("extension"@ != "cli"@);
    assert("extension"@.len() != "alias"@.len());
    assert("extension"@ != "alias"@);
    assert("extension"@.len() != "aliases"@.len());
    assert("extension"@ != "aliases"@);
    assert("extension"@.len() != "example"@.len());
    assert("extension"@ != "example"@);
    assert("extension"@.len() != "examples"@.len());
    assert("extension"@ != "examples"@);
    assert("extension"@.len() != "x"@.len());
    assert("extension"@ != "x"@);
    assert("source"@.len() != "flatten"@.len());
    assert("source"@ != "flatten"@);
    assert("source"@.len() != "key"@.len());
    assert("source"@ != "key"@);
    assert("source"@.len() != "ty"@.len());
    assert("source"@ != "ty"@);
    assert("source"@.len() != "env"@.len());
    assert("source"@ != "env"@);
    assert("source"@.len() != "deprecated_env"@.len());
    assert("source"@ != "deprecated_env"@);
    assert("source"@.len() != "cli"@.len());
    assert("source"@ != "cli"@);
    assert("source"@.len() != "alias"@.len());
    assert("source"@ != "alias"@);
    assert("source"@.len() != "aliases"@.len());
    assert("source"@ != "aliases"@);
    assert("source"@.len() != "example"@.len());
    assert("source"@ != "example"@);
    assert("source"@.len() != "examples"@.len());
    assert("source"@ != "examples"@);
    assert("source"@.len() != "x"@.len());
    assert("source"@ != "x"@);
    assert("source"@.len() != "extension"@.len());
    assert("source"@ != "extension"@);
    assert("default"@[0] != "flatten"@[0]);
    assert("default"@ != "flatten"@);
    assert("default"@.len() != "key"@.len());
    assert("default"@ != "key"@);
    assert("default"@.len() != "ty"@.len());
    assert("default"@ != "ty"@);
    assert("default"@.len() != "env"@.len());
    assert("default"@ != "env"@);
    assert("default"@.len() != "deprecated_env"@.len());
    assert("default"@ != "deprecated_env"@);
    assert("default"@.len() != "cli"@.len());
    assert("default"@ != "cli"@);
    assert("default"@.len() != "alias"@.len());
    assert("default"@ != "alias"@);
    assert("default"@[0] != "aliases"@[0]);
    assert("default"@ != "aliases"@);
    assert("default"@[0] != "example"@[0]);
    assert("default"@ != "example"@);
    assert("default"@.len() != "examples"@.len());
    assert("default"@ != "examples"@);
    assert("default"@.len() != "x"@.len());
    assert("default"@ != "x"@);
    assert("default"@.len() != "extension"@.len());
    assert("default"@ != "extension"@);
    assert("default"@.len() != "source"@.len());
    assert("default"@ != "source"@);
    assert("default_fn"@.len() != "flatten"@.len());
    assert("default_fn"@ != "flatten"@);
    assert("default_fn"@.len() != "key"@.len());
    assert("default_fn"@ != "key"@);
    assert("default_fn"@.len() != "ty"@.len());
    assert("default_fn"@ != "ty"@);
    assert("default_fn"@.len() != "env"@.len());
    assert("default_fn"@ != "env"@);
    assert("default_fn"@.len() != "deprecated_env"@.len());
    assert("default_fn"@ != "deprecated_env"@);
    assert("default_fn"@.len() != "cli"@.len());
    assert("default_fn"@ != "cli"@);
    assert("default_fn"@.len() != "alias"@.len());
    assert("default_fn"@ != "alias"@);
    assert("default_fn"@.len() != "aliases"@.len());
    assert("default_fn"@ != "aliases"@);
    assert("default_fn"@.len() != "example"@.len());
    assert("default_fn"@ != "example"@);
    assert("default_fn"@.len() != "examples"@.len());
    assert("default_fn"@ != "examples"@);
    assert("default_fn"@.len() != "x"@.len());
    assert("default_fn"@ != "x"@);
    assert("default_fn"@.len() != "extension"@.len());
    assert("default_fn"@ != "extension"@);
    assert("default_fn"@.len() != "source"@.len());
    assert("default_fn"@ != "source"@);
    assert("default_fn"@.len() != "default"@.len());
    assert("default_fn"@ != "default"@);
    assert("default_note"@.len() != "flatten"@.len());
    assert("default_note"@ != "flatten"@);
    assert("default_note"@.len() != "key"@.len());
    assert("default_note"@ != "key"@);
    assert("default_note"@.len() != "ty"@.len());
    assert("default_note"@ != "ty"@);
    assert("default_note"@.len() != "env"@.len());
    assert("default_note"@ != "env"@);
    assert("default_note"@.len() != "deprecated_env"@.len());
    assert("default_note"@ != "deprecated_env"@);
    assert("default_note"@.len() != "cli"@.len());
    assert("default_note"@ != "cli"@);
    assert("default_note"@.len() != "alias"@.len());
    assert("default_note"@ != "alias"@);
    assert("default_note"@.len() != "aliases"@.len());
    assert("default_note"@ != "aliases"@);
    assert("default_note"@.len() != "example"@.len());
    assert("default_note"@ != "example"@);
    assert("default_note"@.len() != "examples"@.len());
    assert("default_note"@ != "examples"@);
    assert("default_note"@.len() != "x"@.len());
    assert("default_note"@ != "x"@);
    assert("default_note"@.len() != "extension"@.len());
    assert("default_note"@ != "extension"@);
    assert("default_note"@.len() != "source"@.len());
    assert("default_note"@ != "source"@);
    assert("default_note"@.len() != "default"@.len());
    assert("default_note"@ != "default"@);
    assert("default_note"@.len() != "default_fn"@.len());
    assert("default_note"@ != "default_fn"@);
    assert("choices"@[0] != "flatten"@[0]);
    assert("choices"@ != "flatten"@);
    assert("choices"@.len() != "key"@.len());
    assert("choices"@ != "key"@);
    assert("choices"@.len() != "ty"@.len());
    assert("choices"@ != "ty"@);
    assert("choices"@.len() != "env"@.len());
    assert("choices"@ != "env"@);
    assert("choices"@.len() != "deprecated_env"@.len());
    assert("choices"@ != "deprecated_env"@);
    assert("choices"@.len() != "cli"@.len());
    assert("choices"@ != "cli"@);
    assert("choices"@.len() != "alias"@.len());
    assert("choices"@ != "alias"@);
    assert("choices"@[0] != "aliases"@[0]);
    assert("choices"@ != "aliases"@);
    assert("choices"@[0] != "example"@[0]);
    assert("choices"@ != "example"@);
    assert("choices"@.len() != "examples"@.len());
    assert("choices"@ != "examples"@);
    assert("choices"@.len() != "x"@.len());
    assert("choices"@ != "x"@);
    assert("choices"@.len() != "extension"@.len());
    assert("choices"@ != "extension"@);
    assert("choices"@.len() != "source"@.len());
    assert("choices"@ != "source"@);
    assert("choices"@[0] != "default"@[0]);
    assert("choices"@ != "default"@);
    assert("choices"@.len() != "default_fn"@.len());
    assert("choices"@ != "default_fn"@);
    assert("choices"@.len() != "default_note"@.len());
    assert("choices"@ != "default_note"@);
    assert("merge"@.len() != "flatten"@.len());
    assert("merge"@ != "flatten"@);
    assert("merge"@.len() != "key"@.len());
    assert("merge"@ != "key"@);
    assert("merge"@.len() != "ty"@.len());
    assert("merge"@ != "ty"@);
    assert("merge"@.len() != "env"@.len());
    assert("merge"@ != "env"@);
    assert("merge"@.len() != "deprecated_env"@.len());
    assert("merge"@ != "deprecated_env"@);
    assert("merge"@.len() != "cli"@.len());
    assert("merge"@ != "cli"@);
    assert("merge"@[0] != "alias"@[0]);
    assert("merge"@ != "alias"@);
    assert("merge"@.len() != "aliases"@.len());
    assert("merge"@ != "aliases"@);
    assert("merge"@.len() != "example"@.len());
    assert("merge"@ != "example"@);
    assert("merge"@.len() != "examples"@.len());
    assert("merge"@ != "examples"@);
    assert("merge"@.len() != "x"@.len());
    assert("merge"@ != "x"@);
    assert("merge"@.len() != "extension"@.len());
    assert("merge"@ != "extension"@);
    assert("merge"@.len() != "source"@.len());
    assert("merge"@ != "source"@);
    assert("merge"@.len() != "default"@.len());
    assert("merge"@ != "default"@);
    assert("merge"@.len() != "default_fn"@.len());
    assert("merge"@ != "default_fn"@);
    assert("merge"@.len() != "default_note"@.len());
    assert("merge"@ != "default_note"@);
    assert("merge"@.len() != "choices"@.len());
    assert("merge"@ != "choices"@);
    assert("scope"@.len() != "flatten"@.len());
    assert("scope"@ != "flatten"@);
    assert("scope"@.len() != "key"@.len());
    assert("scope"@ != "key"@);
    assert("scope"@.len() != "ty"@.len());
    assert("scope"@ != "ty"@);
    assert("scope"@.len() != "env"@.len());
    assert("scope"@ != "env"@);
    assert("scope"@.len() != "deprecated_env"@.len());
    assert("scope"@ != "deprecated_env"@);
    assert("scope"@.len() != "cli"@.len());
    assert("scope"@ != "cli"@);
    assert("scope"@[0] != "alias"@[0]);
    assert("scope"@ != "alias"@);
    assert("scope"@.len() != "aliases"@.len());
    assert("scope"@ != "aliases"@);
    assert("scope"@.len() != "example"@.len());
    assert("scope"@ != "example"@);
    assert("scope"@.len() != "examples"@.len());
    assert("scope"@ != "examples"@);
    assert("scope"@.len() != "x"@.len());
    assert("scope"@ != "x"@);
    assert("scope"@.len() != "extension"@.len());
    assert("scope"@ != "extension"@);
    assert("scope"@.len() != "source"@.len());
    assert("scope"@ != "source"@);
    assert("scope"@.len() != "default"@.len());
    assert("scope"@ != "default"@);
    assert("scope"@.len() != "default_fn"@.len());
    assert("scope"@ != "default_fn"@);
    assert("scope"@.len() != "default_note"@.len());
    assert("scope"@ != "default_note"@);
    assert("scope"@.len() != "choices"@.len());
    assert("scope"@ != "choices"@);
    assert("scope"@[0] != "merge"@[0]);
    assert("scope"@ != "merge"@);
    assert("parse"@.len() != "flatten"@.len());
    assert("parse"@ != "flatten"@);
    assert("parse"@.len() != "key"@.len());
    assert("parse"@ != "key"@);
    assert("parse"@.len() != "ty"@.len());
    assert("parse"@ != "ty"@);
    assert("parse"@.len() != "env"@.len());
    assert("parse"@ != "env"@);
    assert("parse"@.len() != "deprecated_env"@.len());
    assert("parse"@ != "deprecated_env"@);
    assert("parse"@.len() != "cli"@.len());
    assert("parse"@ != "cli"@);
    assert("parse"@[0] != "alias"@[0]);
    assert("parse"@ != "alias"@);
    assert("parse"@.len() != "aliases"@.len());
    assert("parse"@ != "aliases"@);
    assert("parse"@.len() != "example"@.len());
    assert("parse"@ != "example"@);
    assert("parse"@.len() != "examples"@.len());
    assert("parse"@ != "examples"@);
    assert("parse"@.len() != "x"@.len());
    assert("parse"@ != "x"@);
    assert("parse"@.len() != "extension"@.len());
    assert("parse"@ != "extension"@);
    assert("parse"@.len() != "source"@.len());
    assert("parse"@ != "source"@);
    assert("parse"@.len() != "default"@.len());
    assert("parse"@ != "default"@);
    assert("parse"@.len() != "default_fn"@.len());
    assert("parse"@ != "default_fn"@);
    assert("parse"@.len() != "default_note"@.len());
    assert("parse"@ != "default_note"@);
    assert("parse"@.len() != "choices"@.len());
    assert("parse"@ != "choices"@);
    assert("parse"@[0] != "merge"@[0]);
    assert("parse"@ != "merge"@);
    assert("parse"@[0] != "scope"@[0]);
    assert("parse"@ != "scope"@);
    assert("hide"@.len() != "flatten"@.len());
    assert("hide"@ != "flatten"@);
    assert("hide"@.len() != "key"@.len());
    assert("hide"@ != "key"@);
    assert("hide"@.len() != "ty"@.len());
    assert("hide"@ != "ty"@);
    assert("hide"@.len() != "env"@.len());
    assert("hide"@ != "env"@);
    assert("hide"@.len() != "deprecated_env"@.len());
    assert("hide"@ != "deprecated_env"@);
    assert("hide"@.len() != "cli"@.len());
    assert("hide"@ != "cli"@);
    assert("hide"@.len() != "alias"@.len());
    assert("hide"@ != "alias"@);
    assert("hide"@.len() != "aliases"@.len());
    assert("hide"@ != "aliases"@);
    assert("hide"@.len() != "example"@.len());
    assert("hide"@ != "example"@);
    assert("hide"@.len() != "examples"@.len());
    assert("hide"@ != "examples"@);
    assert("hide"@.len() != "x"@.len());
    assert("hide"@ != "x"@);
    assert("hide"@.len() != "extension"@.len());
    assert("hide"@ != "extension"@);
    assert("hide"@.len() != "source"@.len());
    assert("hide"@ != "source"@);
    assert("hide"@.len() != "default"@.len());
    assert("hide"@ != "default"@);
    assert("hide"@.len() != "default_fn"@.len());
    assert("hide"@ != "default_fn"@);
    assert("hide"@.len() != "default_note"@.len());
    assert("hide"@ != "default_note"@);
    assert("hide"@.len() != "choices"@.len());
    assert("hide"@ != "choices"@);
    assert("hide"@.len() != "merge"@.len());
    assert("hide"@ != "merge"@);
    assert("hide"@.len() != "scope"@.len());
    assert("hide"@ != "scope"@);
    assert("hide"@.len() != "parse"@.len());
    assert("hide"@ != "parse"@);
    assert("optional"@.len() != "flatten"@.len());
    assert("optional"@ != "flatten"@);
    assert("optional"@.len() != "key"@.len());
    assert("optional"@ != "key"@);
    assert("optional"@.len() != "ty"@.len());
    assert("optional"@ != "ty"@);
    assert("optional"@.len() != "env"@.len());
    assert("optional"@ != "env"@);
    assert("optional"@.len() != "deprecated_env"@.len());
    assert("optional"@ != "deprecated_env"@);
    assert("optional"@.len() != "cli"@.len());
    assert("optional"@ != "cli"@);
    assert("optional"@.len() != "alias"@.len());
    assert("optional"@ != "alias"@);
    assert("optional"@.len() != "aliases"@.len());
    assert("optional"@ != "aliases"@);
    assert("optional"@.len() != "example"@.len());
    assert("optional"@ != "example"@);
    assert("optional"@[0] != "examples"@[0]);
    assert("optional"@ != "examples"@);
    assert("optional"@.len() != "x"@.len());
    assert("optional"@ != "x"@);
    assert("optional"@.len() != "extension"@.len());
    assert("optional"@ != "extension"@);
    assert("optional"@.len() != "source"@.len());
    assert("optional"@ != "source"@);
    assert("optional"@.len() != "default"@.len());
    assert("optional"@ != "default"@);
    assert("optional"@.len() != "default_fn"@.len());
    assert("optional"@ != "default_fn"@);
    assert("optional"@.len() != "default_note"@.len());
    assert("optional"@ != "default_note"@);
    assert("optional"@.len() != "choices"@.len());
    assert("optional"@ != "choices"@);
    assert("optional"@.len() != "merge"@.len());
    assert("optional"@ != "merge"@);
    assert("optional"@.len() != "scope"@.len());
    assert("optional"@ != "scope"@);
    assert("optional"@.len() != "parse"@.len());
    assert("optional"@ != "parse"@);
    assert("optional"@.len() != "hide"@.len());
    assert("optional"@ != "hide"@);
    assert("deprecated"@.len() != "flatten"@.len());
    assert("deprecated"@ != "flatten"@);
    assert("deprecated"@.len() != "key"@.len());
    assert("deprecated"@ != "key"@);
    assert("deprecated"@.len() != "ty"@.len());
    assert("deprecated"@ != "ty"@);
    assert("deprecated"@.len() != "env"@.len());
    assert("deprecated"@ != "env"@);
    assert("deprecated"@.len() != "deprecated_env"@.len());
    assert("deprecated"@ != "deprecated_env"@);
    assert("deprecated"@.len() != "cli"@.len());
    assert("deprecated"@ != "cli"@);
    assert("deprecated"@.len() != "alias"@.len());
    assert("deprecated"@ != "alias"@);
    assert("deprecated"@.len() != "aliases"@.len());
    assert("deprecated"@ != "aliases"@);
    assert("deprecated"@.len() != "example"@.len());
    assert("deprecated"@ != "example"@);
    assert("deprecated"@.len() != "examples"@.len());
    assert("deprecated"@ != "examples"@);
    assert("deprecated"@.len() != "x"@.len());
    assert("deprecated"@ != "x"@);
    assert("deprecated"@.len() != "extension"@.len());
    assert("deprecated"@ != "extension"@);
    assert("deprecated"@.len() != "source"@.len());
    assert("deprecated"@ != "source"@);
    assert("deprecated"@.len() != "default"@.len());
    assert("deprecated"@ != "default"@);
    assert("deprecated"@[2] != "default_fn"@[2]);
    assert("deprecated"@ != "default_fn"@);
    assert("deprecated"@.len() != "default_note"@.len());
    assert("deprecated"@ != "default_note"@);
    assert("deprecated"@.len() != "choices"@.len());
    assert("deprecated"@ != "choices"@);
    assert("deprecated"@.len() != "merge"@.len());
    assert("deprecated"@ != "merge"@);
    assert("deprecated"@.len() != "scope"@.len());
    assert("deprecated"@ != "scope"@);
    assert("deprecated"@.len() != "parse"@.len());
    assert("deprecated"@ != "parse"@);
    assert("deprecated"@.len() != "hide"@.len());
    assert("deprecated"@ != "hide"@);
    assert("deprecated"@.len() != "optional"@.len());
    assert("deprecated"@ != "optional"@);
    assert("deprecated_warn_at"@.len() != "flatten"@.len());
    assert("deprecated_warn_at"@ != "flatten"@);
    assert("deprecated_warn_at"@.len() != "key"@.len());
    assert("deprecated_warn_at"@ != "key"@);
    assert("deprecated_warn_at"@.len() != "ty"@.len());
    assert("deprecated_warn_at"@ != "ty"@);
    assert("deprecated_warn_at"@.len() != "env"@.len());
    assert("deprecated_warn_at"@ != "env"@);
    assert("deprecated_warn_at"@.len() != "deprecated_env"@.len());
    assert("deprecated_warn_at"@ != "deprecated_env"@);
    assert("deprecated_warn_at"@.len() != "cli"@.len());
    assert("deprecated_warn_at"@ != "cli"@);
    assert("deprecated_warn_at"@.len() != "alias"@.len());
    assert("deprecated_warn_at"@ != "alias"@);
    assert("deprecated_warn_at"@.len() != "aliases"@.len());
    assert("deprecated_warn_at"@ != "aliases"@);
    assert("deprecated_warn_at"@.len() != "example"@.len());
    assert("deprecated_warn_at"@ != "example"@);
    assert("deprecated_warn_at"@.len() != "examples"@.len());
    assert("deprecated_warn_at"@ != "examples"@);
    assert("deprecated_warn_at"@.len() != "x"@.len());
    assert("deprecated_warn_at"@ != "x"@);
    assert("deprecated_warn_at"@.len() != "extension"@.len());
    assert("deprecated_warn_at"@ != "extension"@);
    assert("deprecated_warn_at"@.len() != "source"@.len());
    assert("deprecated_warn_at"@ != "source"@);
    assert("deprecated_warn_at"@.len() != "default"@.len());
    assert("deprecated_warn_at"@ != "default"@);
    assert("deprecated_warn_at"@.len() != "default_fn"@.len());
    assert("deprecated_warn_at"@ != "default_fn"@);
    assert("deprecated_warn_at"@.len() != "default_note"@.len());
    assert("deprecated_warn_at"@ != "default_note"@);
    assert("deprecated_warn_at"@.len() != "choices"@.len());
    assert("deprecated_warn_at"@ != "choices"@);
    assert("deprecated_warn_at"@.len() != "merge"@.len());
    assert("deprecated_warn_at"@ != "merge"@);
    assert("deprecated_warn_at"@.len() != "scope"@.len());
    assert("deprecated_warn_at"@ != "scope"@);
    assert("deprecated_warn_at"@.len() != "parse"@.len());
    assert("deprecated_warn_at"@ != "parse"@);
    assert("deprecated_warn_at"@.len() != "hide"@.len());
    assert("deprecated_warn_at"@ != "hide"@);
    assert("deprecated_warn_at"@.len() != "optional"@.len());
    assert("deprecated_warn_at"@ != "optional"@);
    assert("deprecated_warn_at"@.len() != "deprecated"@.len());
    assert("deprecated_warn_at"@ != "deprecated"@);
    assert("deprecated_remove_at"@.len() != "flatten"@.len());
    assert("deprecated_remove_at"@ != "flatten"@);
    assert("deprecated_remove_at"@.len() != "key"@.len());
    assert("deprecated_remove_at"@ != "key"@);
    assert("deprecated_remove_at"@.len() != "ty"@.len());
    assert("deprecated_remove_at"@ != "ty"@);
    assert("deprecated_remove_at"@.len() != "env"@.len());
    assert("deprecated_remove_at"@ != "env"@);
    assert("deprecated_remove_at"@.len() != "deprecated_env"@.len());
    assert("deprecated_remove_at"@ != "deprecated_env"@);
    assert("deprecated_remove_at"@.len() != "cli"@.len());
    assert("deprecated_remove_at"@ != "cli"@);
    assert("deprecated_remove_at"@.len() != "alias"@.len());
    assert("deprecated_remove_at"@ != "alias"@);
    assert("deprecated_remove_at"@.len() != "aliases"@.len());
    assert("deprecated_remove_at"@ != "aliases"@);
    assert("deprecated_remove_at"@.len() != "example"@.len());
    assert("deprecated_remove_at"@ != "example"@);
    assert("deprecated_remove_at"@.len() != "examples"@.len());
    assert("deprecated_remove_at"@ != "examples"@);
    assert("deprecated_remove_at"@.len() != "x"@.len());
    assert("deprecated_remove_at"@ != "x"@);
    assert("deprecated_remove_at"@.len() != "extension"@.len());
    assert("deprecated_remove_at"@ != "extension"@);
    assert("deprecated_remove_at"@.len() != "source"@.len());
    assert("deprecated_remove_at"@ != "source"@);
    assert("deprecated_remove_at"@.len() != "default"@.len());
    assert("deprecated_remove_at"@ != "default"@);
    assert("deprecated_remove_at"@.len() != "default_fn"@.len());
    assert("deprecated_remove_at"@ != "default_fn"@);
    assert("deprecated_remove_at"@.len() != "default_note"@.len());
    assert("deprecated_remove_at"@ != "default_note"@);
    assert("deprecated_remove_at"@.len() != "choices"@.len());
    assert("deprecated_remove_at"@ != "choices"@);
    assert("deprecated_remove_at"@.len() != "merge"@.len());
    assert("deprecated_remove_at"@ != "merge"@);
    assert("deprecated_remove_at"@.len() != "scope"@.len());
    assert("deprecated_remove_at"@ != "scope"@);
    assert("deprecated_remove_at"@.len() != "parse"@.len());
    assert("deprecated_remove_at"@ != "parse"@);
    assert("deprecated_remove_at"@.len() != "hide"@.len());
    assert("deprecated_remove_at"@ != "hide"@);
    assert("deprecated_remove_at"@.len() != "optional"@.len());
    assert("deprecated_remove_at"@ != "optional"@);
    assert("deprecated_remove_at"@.len() != "deprecated"@.len());
    assert("deprecated_remove_at"@ != "deprecated"@);
    assert("deprecated_remove_at"@.len() != "deprecated_warn_at"@.len());
    assert("deprecated_remove_at"@ != "deprecated_warn_at"@);
    assert("since"@.len() != "flatten"@.len());
    assert("since"@ != "flatten"@);
    assert("since"@.len() != "key"@.len());
    assert("since"@ != "key"@);
    assert("since"@.len() != "ty"@.len());
    assert("since"@ != "ty"@);
    assert("since"@.len() != "env"@.len());
    assert("since"@ != "env"@);
    assert("since"@.len() != "deprecated_env"@.len());
    assert("since"@ != "deprecated_env"@);
    assert("since"@.len() != "cli"@.len());
    assert("since"@ != "cli"@);
    assert("since"@[0] != "alias"@[0]);
    assert("since"@ != "alias"@);
    assert("since"@.len() != "aliases"@.len());
    assert("since"@ != "aliases"@);
    assert("since"@.len() != "example"@.len());
    assert("since"@ != "example"@);
    assert("since"@.len() != "examples"@.len());
    assert("since"@ != "examples"@);
    assert("since"@.len() != "x"@.len());
    assert("since"@ != "x"@);
    assert("since"@.len() != "extension"@.len());
    assert("since"@ != "extension"@);
    assert("since"@.len() != "source"@.len());
    assert("since"@ != "source"@);
    assert("since"@.len() != "default"@.len());
    assert("since"@ != "default"@);
    assert("since"@.len() != "default_fn"@.len());
    assert("since"@ != "default_fn"@);
    assert("since"@.len() != "default_note"@.len());
    assert("since"@ != "default_note"@);
    assert("since"@.len() != "choices"@.len());
    assert("since"@ != "choices"@);
    assert("since"@[0] != "merge"@[0]);
    assert("since"@ != "merge"@);
    assert("since"@[1] != "scope"@[1]);
    assert("since"@ != "scope"@);
    assert("since"@[0] != "parse"@[0]);
    assert("since"@ != "parse"@);
    assert("since"@.len() != "hide"@.len());
    assert("since"@ != "hide"@);
    assert("since"@.len() != "optional"@.len());
    assert("since"@ != "optional"@);
    assert("since"@.len() != "deprecated"@.len());
    assert("since"@ != "deprecated"@);
    assert("since"@.len() != "deprecated_warn_at"@.len());
    assert("since"@ != "deprecated_warn_at"@);
    assert("since"@.len() != "deprecated_remove_at"@.len());
    assert("since"@ != "deprecated_remove_at"@);
    assert("help"@.len() != "flatten"@.len());
    assert("help"@ != "flatten"@);
    assert("help"@.len() != "key"@.len());
    assert("help"@ != "key"@);
    assert("help"@.len() != "ty"@.len());
    assert("help"@ != "ty"@);
    assert("help"@.len() != "env"@.len());
    assert("help"@ != "env"@);
    assert("help"@.len() != "deprecated_env"@.len());
    assert("help"@ != "deprecated_env"@);
    assert("help"@.len() != "cli"@.len());
    assert("help"@ != "cli"@);
    assert("help"@.len() != "alias"@.len());
    assert("help"@ != "alias"@);
    assert("help"@.len() != "aliases"@.len());
    assert("help"@ != "aliases"@);
    assert("help"@.len() != "example"@.len());
    assert("help"@ != "example"@);
    assert("help"@.len() != "examples"@.len());
    assert("help"@ != "examples"@);
    assert("help"@.len() != "x"@.len());
    assert("help"@ != "x"@);
    assert("help"@.len() != "extension"@.len());
    assert("help"@ != "extension"@);
    assert("help"@.len() != "source"@.len());
    assert("help"@ != "source"@);
    assert("help"@.len() != "default"@.len());
    assert("help"@ != "default"@);
    assert("help"@.len() != "default_fn"@.len());
    assert("help"@ != "default_fn"@);
    assert("help"@.len() != "default_note"@.len());
    assert("help"@ != "default_note"@);
    assert("help"@.len() != "choices"@.len());
    assert("help"@ != "choices"@);
    assert("help"@.len() != "merge"@.len());
    assert("help"@ != "merge"@);
    assert("help"@.len() != "scope"@.len());
    assert("help"@ != "scope"@);
    assert("help"@.len() != "parse"@.len());
    assert("help"@ != "parse"@);
    assert("help"@[1] != "hide"@[1]);
    assert("help"@ != "hide"@);
    assert("help"@.len() != "optional"@.len());
    assert("help"@ != "optional"@);
    assert("help"@.len() != "deprecated"@.len());
    assert("help"@ != "deprecated"@);
    assert("help"@.len() != "deprecated_warn_at"@.len());
    assert("help"@ != "deprecated_warn_at"@);
    assert("help"@.len() != "deprecated_remove_at"@.len());
    assert("help"@ != "deprecated_remove_at"@);
    assert("help"@.len() != "since"@.len());
    assert("help"@ != "since"@);
    assert("long_help"@.len() != "flatten"@.len());
    assert("long_help"@ != "flatten"@);
    assert("long_help"@.len() != "key"@.len());
    assert("long_help"@ != "key"@);
    assert("long_help"@.len() != "ty"@.len());
    assert("long_help"@ != "ty"@);
    assert("long_help"@.len() != "env"@.len());
    assert("long_help"@ != "env"@);
    assert("long_help"@.len() != "deprecated_env"@.len());
    assert("long_help"@ != "deprecated_env"@);
    assert("long_help"@.len() != "cli"@.len());
    assert("long_help"@ != "cli"@);
    assert("long_help"@.len() != "alias"@.len());
    assert("long_help"@ != "alias"@);
    assert("long_help"@.len() != "aliases"@.len());
    assert("long_help"@ != "aliases"@);
    assert("long_help"@.len() != "example"@.len());
    assert("long_help"@ != "example"@);
    assert("long_help"@.len() != "examples"@.len());
    assert("long_help"@ != "examples"@);
    assert("long_help"@.len() != "x"@.len());
    assert("long_help"@ != "x"@);
    assert("long_help"@[0] != "extension"@[0]);
    assert("long_help"@ != "extension"@);
    assert("long_help"@.len() != "source"@.len());
    assert("long_help"@ != "source"@);
    assert("long_help"@.len() != "default"@.len());
    assert("long_help"@ != "default"@);
    assert("long_help"@.len() != "default_fn"@.len());
    assert("long_help"@ != "default_fn"@);
    assert("long_help"@.len() != "default_note"@.len());
    assert("long_help"@ != "default_note"@);
    assert("long_help"@.len() != "choices"@.len());
    assert("long_help"@ != "choices"@);
    assert("long_help"@.len() != "merge"@.len());
    assert("long_help"@ != "merge"@);
    assert("long_help"@.len() != "scope"@.len());
    assert("long_help"@ != "scope"@);
    assert("long_help"@.len() != "parse"@.len());
    assert("long_help"@ != "parse"@);
    assert("long_help"@.len() != "hide"@.len());
    assert("long_help"@ != "hide"@);
    assert("long_help"@.len() != "optional"@.len());
    assert("long_help"@ != "optional"@);
    assert("long_help"@.len() != "deprecated"@.len());
    assert("long_help"@ != "deprecated"@);
    assert("long_help"@.len() != "deprecated_warn_at"@.len());
    assert("long_help"@ != "deprecated_warn_at"@);
    assert("long_help"@.len() != "deprecated_remove_at"@.len());
    assert("long_help"@ != "deprecated_remove_at"@);
    assert("long_help"@.len() != "since"@.len());
    assert("long_help"@ != "since"@);
    assert("long_help"@.len() != "help"@.len());
    assert("long_help"@ != "help"@);
    assert("help_heading"@.len() != "flatten"@.len());
    assert("help_heading"@ != "flatten"@);
    assert("help_heading"@.len() != "key"@.len());
    assert("help_heading"@ != "key"@);
    assert("help_heading"@.len() != "ty"@.len());
    assert("help_heading"@ != "ty"@);
    assert("help_heading"@.len() != "env"@.len());
    assert("help_heading"@ != "env"@);
    assert("help_heading"@.len() != "deprecated_env"@.len());
    assert("help_heading"@ != "deprecated_env"@);
    assert("help_heading"@.len() != "cli"@.len());
    assert("help_heading"@ != "cli"@);
    assert("help_heading"@.len() != "alias"@.len());
    assert("help_heading"@ != "alias"@);
    assert("help_heading"@.len() != "aliases"@.len());
    assert("help_heading"@ != "aliases"@);
    assert("help_heading"@.len() != "example"@.len());
    assert("help_heading"@ != "example"@);
    assert("help_heading"@.len() != "examples"@.len());
    assert("help_heading"@ != "examples"@);
    assert("help_heading"@.len() != "x"@.len());
    assert("help_heading"@ != "x"@);
    assert("help_heading"@.len() != "extension"@.len());
    assert("help_heading"@ != "extension"@);
    assert("help_heading"@.len() != "source"@.len());
    assert("help_heading"@ != "source"@);
    assert("help_heading"@.len() != "default"@.len());
    assert("help_heading"@ != "default"@);
    assert("help_heading"@.len() != "default_fn"@.len());
    assert("help_heading"@ != "default_fn"@);
    assert("help_heading"@[0] != "default_note"@[0]);
    assert("help_heading"@ != "default_note"@);
    assert("help_heading"@.len() != "choices"@.len());
    assert("help_heading"@ != "choices"@);
    assert("help_heading"@.len() != "merge"@.len());
    assert("help_heading"@ != "merge"@);
    assert("help_heading"@.len() != "scope"@.len());
    assert("help_heading"@ != "scope"@);
    assert("help_heading"@.len() != "parse"@.len());
    assert("help_heading"@ != "parse"@);
    assert("help_heading"@.len() != "hide"@.len());
    assert("help_heading"@ != "hide"@);
    assert("help_heading"@.len() != "optional"@.len());
    assert("help_heading"@ != "optional"@);
    assert("help_heading"@.len() != "deprecated"@.len());
    assert("help_heading"@ != "deprecated"@);
    assert("help_heading"@.len() != "deprecated_warn_at"@.len());
    assert("help_heading"@ != "deprecated_warn_at"@);
    assert("help_heading"@.len() != "deprecated_remove_at"@.len());
    assert("help_heading"@ != "deprecated_remove_at"@);
    assert("help_heading"@.len() != "since"@.len());
    assert("help_heading"@ != "since"@);
    assert("help_heading"@.len() != "help"@.len());
    assert("help_heading"@ != "help"@);
    assert("help_heading"@.len() != "long_help"@.len());
    assert("help_heading"@ != "long_help"@);
    assert("writes_to"@.len() != "flatten"@.len());
    assert("writes_to"@ != "flatten"@);
    assert("writes_to"@.len() != "key"@.len());
    assert("writes_to"@ != "key"@);
    assert("writes_to"@.len() != "ty"@.len());
    assert("writes_to"@ != "ty"@);
    assert("writes_to"@.len() != "env"@.len());
    assert("writes_to"@ != "env"@);
    assert("writes_to"@.len() != "deprecated_env"@.len());
    assert("writes_to"@ != "deprecated_env"@);
    assert("writes_to"@.len() != "cli"@.len());
    assert("writes_to"@ != "cli"@);
    assert("writes_to"@.len() != "alias"@.len());
    assert("writes_to"@ != "alias"@);
    assert("writes_to"@.len() != "aliases"@.len());
    assert("writes_to"@ != "aliases"@);
    assert("writes_to"@.len() != "example"@.len());
    assert("writes_to"@ != "example"@);
    assert("writes_to"@.len() != "examples"@.len());
    assert("writes_to"@ != "examples"@);
    assert("writes_to"@.len() != "x"@.len());
    assert("writes_to"@ != "x"@);
    assert("writes_to"@[0] != "extension"@[0]);
    assert("writes_to"@ != "extension"@);
    assert("writes_to"@.len() != "source"@.len());
    assert("writes_to"@ != "source"@);
    assert("writes_to"@.len() != "default"@.len());
    assert("writes_to"@ != "default"@);
    assert("writes_to"@.len() != "default_fn"@.len());
    assert("writes_to"@ != "default_fn"@);
    assert("writes_to"@.len() != "default_note"@.len());
    assert("writes_to"@ != "default_note"@);
    assert("writes_to"@.len() != "choices"@.len());
    assert("writes_to"@ != "choices"@);
    assert("writes_to"@.len() != "merge"@.len());
    assert("writes_to"@ != "merge"@);
    assert("writes_to"@.len() != "scope"@.len());
    assert("writes_to"@ != "scope"@);
    assert("writes_to"@.len() != "parse"@.len());
    assert("writes_to"@ != "parse"@);
    assert("writes_to"@.len() != "hide"@.len());
    assert("writes_to"@ != "hide"@);
    assert("writes_to"@.len() != "optional"@.len());
    assert("writes_to"@ != "optional"@);
    assert("writes_to"@.len() != "deprecated"@.len());
    assert("writes_to"@ != "deprecated"@);
    assert("writes_to"@.len() != "deprecated_warn_at"@.len());
    assert("writes_to"@ != "deprecated_warn_at"@);
    assert("writes_to"@.len() != "deprecated_remove_at"@.len());
    assert("writes_to"@ != "deprecated_remove_at"@);
    assert("writes_to"@.len() != "since"@.len());
    assert("writes_to"@ != "since"@);
    assert("writes_to"@.len() != "help"@.len());
    assert("writes_to"@ != "help"@);
    assert("writes_to"@[0] != "long_help"@[0]);
    assert("writes_to"@ != "long_help"@);
    assert("writes_to"@.len() != "help_heading"@.len());
    assert("writes_to"@ != "help_heading"@);
}

/// `merge` takes `union` or `deep`; `replace` is refused as the default that goes unsaid, and
/// any other word as unknown. `scope` takes `global` or `env` and nothing else. `parse` names
/// one of the four parsers the spec has. The struct's own attributes are `prefix`, `source` and
/// `file`.
pub proof fn lemma_attribute_values(w: Seq<char>)
    ensures
        merge_spec("union"@) == Ok::<Merge, MergeError>(Merge::Union),
        merge_spec("deep"@) == Ok::<Merge, MergeError>(Merge::Deep),
        merge_spec("replace"@) == Err::<Merge, MergeError>(MergeError::Replace),
        w != "union"@ && w != "deep"@ && w != "replace"@ ==> merge_spec(w) == Err::<Merge, MergeError>(MergeError::Unknown),
        scope_spec("global"@) == Some(SettingScope::Global),
        scope_spec("env"@) == Some(SettingScope::Env),
        w != "global"@ && w != "env"@ ==> scope_spec(w) is None,
        parser_spec(w) <==> (w == "list_by_comma"@ || w == "list_by_colon"@ || w == "list_by_os_path_separator"@
            || w == "set_by_comma"@),
        struct_attribute_spec("prefix"@) == Some(StructAttribute::Prefix),
        struct_attribute_spec("source"@) == Some(StructAttribute::Source),
        struct_attribute_spec("file"@) == Some(StructAttribute::File),
        w != "prefix"@ && w != "source"@ && w != "file"@ ==> struct_attribute_spec(w) is None,
{
    reveal_strlit("union");
    reveal_strlit("deep");
    reveal_strlit("replace");
    assert("deep"@.len() != "union"@.len());
    assert("deep"@ != "union"@);
    assert("replace"@.len() != "union"@.len());
    assert("replace"@ != "union"@);
    assert("replace"@.len() != "deep"@.len());
    assert("replace"@ != "deep"@);
    reveal_strlit("global");
    reveal_strlit("env");
    assert("env"@.len() != "global"@.len());
    assert("env"@ != "global"@);
    reveal_strlit("prefix");
    reveal_strlit("source");
    reveal_strlit("file");
    assert("source"@[0] != "prefix"@[0]);
    assert("source"@ != "prefix"@);
    assert("file"@.len() != "prefix"@.len());
    assert("file"@ != "prefix"@);
    assert("file"@.len() != "source"@.len());
    assert("file"@ != "source"@);
}

} // verus!
