//! What a `Command` derive decides about the struct as a whole and about each field: which
//! fields are flags and which are arguments, their keys, which flags the metadata calls
//! required, how each field's value is built from what the parse collected, and which entry
//! points the command gets.

use vstd::prelude::*;
use vstd::string::*;

use crate::hash::{declaration_hash, fnv1a_32, fnv32_offset, FieldShape};
use crate::layer::{key_suffix, key_suffix_of, KeyKind, KEY_INDEX_LIMIT};
use crate::text::str_eq;

verus! {

/// What a field of a command is.
#[derive(PartialEq, Eq, Structural, Clone, Copy, Debug)]
pub enum FieldKind {
    Flag,
    Arg,
    /// A subcommand field; `optional` for `Option<T>`.
    Subcommand { optional: bool },
    /// A flattened `Args` struct.
    Flatten,
    /// An argument group; `optional` for `Option<T>`.
    ArgGroup { optional: bool },
    /// Not parsed, filled from `Default`.
    Skip,
}

/// What the derive reads of one field.
pub struct CommandField {
    pub kind: FieldKind,
    pub shape: FieldShape,
    /// The type a word is converted to, as written, when the field takes words.
    pub value_ty: Option<String>,
    pub value_enum: bool,
    /// `Option<Option<T>>`: given without a value is `Some(None)`.
    pub optional_value_type: bool,
    /// `Option<Vec<T>>`: never given is `None`.
    pub optional_collection: bool,
    /// A collection the user must give at least one value for.
    pub required_collection: bool,
    /// Whether the field declares a default value.
    pub has_default: bool,
    /// Whether the field names a validation.
    pub validates: bool,
    /// Whether the field is bound to a setting.
    pub bound: bool,
    /// A flag subcommands see too.
    pub global: bool,
    /// A flag with a negative spelling.
    pub negate: bool,
    /// `var`: a value-taking flag that may be given again.
    pub repeatable: bool,
    /// Whether the field lists choices of its own.
    pub has_choices: bool,
    pub allow_unknown_choices: bool,
    /// Whether the field names deprecated environment variables.
    pub deprecated_env: bool,
}

/// What the derive reads of a command struct.
pub struct CommandDecl {
    pub name: String,
    /// The declaration's text, which the command's keys are minted from.
    pub fingerprint: String,
    pub fields: Vec<CommandField>,
    /// `#[usage(settings)]`: resolve settings though no field of its own is bound.
    pub settings: bool,
    /// `#[usage(completion)]`.
    pub completion: bool,
    /// Whether the spec endpoint is kept: on unless the struct says `spec_endpoint = false`.
    pub spec_endpoint: bool,
    /// The binary completion scripts ask, when declared.
    pub runtime_bin: Option<String>,
    /// The runtime name completion scripts ask, when declared and no binary is.
    pub runtime_name: Option<String>,
    /// The later of two occurrences of a flag wins, rather than the second being an error.
    pub args_override_self: bool,
    /// The command composes with others, which makes every flag strict.
    pub composable: bool,
    /// `unknown_flags = "..."`, when the struct says anything.
    pub unknown_flags: Option<String>,
}

/// What a command does with a flag it does not know.
#[derive(PartialEq, Eq, Structural, Clone, Copy, Debug)]
pub enum UnknownFlags {
    /// Refuses it.
    Error,
    /// Takes it as a value.
    Value,
}

/// The table's answer for unknown flags: `None` when the struct says nothing, which leaves it
/// to the enclosing command; `"error"` refuses them, and any other word takes them as values.
pub open spec fn unknown_flags_of(declared: Option<Seq<char>>) -> Option<UnknownFlags> {
    match declared {
        None => None,
        Some(w) => if w == "error"@ {
            Some(UnknownFlags::Error)
        } else {
            Some(UnknownFlags::Value)
        },
    }
}

/// What the partial holds of a field's values while the parse collects them.
#[derive(PartialEq, Eq, Structural, Clone, Copy, Debug)]
pub enum Storage {
    /// Nothing: a subcommand, which has a partial of its own, or a skipped field.
    Nothing,
    /// The flattened struct's own partial.
    Flattened,
    /// The argument group's own partial.
    Group,
    /// A `bool`.
    Switch,
    /// The field's own counter type.
    Counter,
    /// The bytes of at most one word.
    MaybeBytes,
    /// The bytes of one word.
    Bytes,
    /// The bytes of every word.
    AllBytes,
}

/// What the partial holds for one field: its values, and the markers the checks read.
#[derive(PartialEq, Eq, Structural, Clone, Copy, Debug)]
pub struct PartialField {
    pub storage: Storage,
    /// Whether a second occurrence is remembered, because it is refused.
    pub duplicated: bool,
    /// Whether that is remembered per command level, for a global flag.
    pub here: bool,
    /// Whether the negative spelling's use is remembered.
    pub negated: bool,
    /// Whether a global flag's use below is mirrored here.
    pub mirrored: bool,
    /// Whether a word outside the choices is remembered for the check.
    pub invalid_choice: bool,
    /// Whether the environment variable that filled it is remembered.
    pub deprecated_env: bool,
}

/// How a word becomes a value of the field's type.
#[derive(PartialEq, Eq, Structural, Clone, Copy, Debug)]
pub enum ValueConversion {
    /// `PathBuf`, from the platform's bytes, without UTF-8.
    Path,
    /// `OsString`, from the platform's bytes, without UTF-8.
    OsText,
    /// A `ValueEnum`, through `from_choice` on UTF-8 text.
    Choice,
    /// `String`: the UTF-8 check is the whole conversion.
    Text,
    /// Anything else, through `FromStr` on UTF-8 text.
    Parsed,
}

/// Where a field's value comes from when the struct is built.
#[derive(PartialEq, Eq, Structural, Clone, Copy, Debug)]
pub enum ValueSource {
    /// `Default::default()`.
    Default,
    /// The flattened type's own build, for a view when one is being built.
    Flattened,
    /// The group's build; `required` refuses a group with no member given.
    Group { required: bool },
    /// The partial's own value, as collected: a switch or a count.
    Collected,
    /// The one value, converted.
    One(ValueConversion),
    /// `Option<T>`, converted when present.
    Optional(ValueConversion),
    /// `Option<Option<T>>`: `Some(None)` when given without a value.
    OptionalValue(ValueConversion),
    /// Every value, converted one by one.
    Many(ValueConversion),
    /// `Option<Vec<T>>`: `None` only when nothing was given, nothing defaulted and nothing
    /// collected; `defaulted` when a declared default makes it never `None`.
    OptionalMany { conversion: ValueConversion, defaulted: bool },
}

/// Which completion entry points a command gets.
#[derive(Debug)]
pub struct CompletionPlan {
    /// Whether the completion functions and the request intercept are emitted.
    pub emitted: bool,
    /// The program scripts ask, when declared; otherwise the spec's binary or name.
    pub program: Option<String>,
    /// Whether the spec request endpoint and its intercept are emitted.
    pub spec_endpoint: bool,
}

/// What a command's generated code states.
pub struct CommandPlan {
    /// The hash the keys' base is mixed from.
    pub declaration: u32,
    /// The indices of the fields that are flags, in declaration order.
    pub flags: Vec<usize>,
    /// The indices of the fields that are positional arguments, in declaration order.
    pub args: Vec<usize>,
    /// The part of each flag's key the declaration decides.
    pub flag_keys: Vec<u64>,
    /// The part of each argument's key the declaration decides.
    pub arg_keys: Vec<u64>,
    /// Whether each flag's metadata says it is required.
    pub flag_required: Vec<bool>,
    /// Whether each flag's metadata says it counts occurrences.
    pub flag_counts: Vec<bool>,
    /// How each field's value is built, in declaration order.
    pub values: Vec<ValueSource>,
    /// What the partial holds for each field, in declaration order.
    pub partial: Vec<PartialField>,
    /// Whether the validation crate is imported: some field validates.
    pub imports_validation: bool,
    /// Whether the spec says a subcommand is required: some subcommand field is not optional.
    pub subcommand_required: bool,
    /// Whether the command resolves settings: some field is bound, or it asked to.
    pub resolves_settings: bool,
    pub unknown_flags: Option<UnknownFlags>,
    pub completion: CompletionPlan,
}

/// A field as plain values.
pub struct FieldView {
    pub kind: FieldKind,
    pub shape: FieldShape,
    pub value_ty: Option<Seq<char>>,
    pub value_enum: bool,
    pub optional_value_type: bool,
    pub optional_collection: bool,
    pub required_collection: bool,
    pub has_default: bool,
    pub validates: bool,
    pub bound: bool,
    pub global: bool,
    pub negate: bool,
    pub repeatable: bool,
    pub has_choices: bool,
    pub allow_unknown_choices: bool,
    pub deprecated_env: bool,
}

pub open spec fn opt_text(o: Option<String>) -> Option<Seq<char>> {
    match o {
        Some(s) => Some(s@),
        None => None,
    }
}

pub open spec fn field_view(f: CommandField) -> FieldView {
    FieldView {
        kind: f.kind,
        shape: f.shape,
        value_ty: opt_text(f.value_ty),
        value_enum: f.value_enum,
        optional_value_type: f.optional_value_type,
        optional_collection: f.optional_collection,
        required_collection: f.required_collection,
        has_default: f.has_default,
        validates: f.validates,
        bound: f.bound,
        global: f.global,
        negate: f.negate,
        repeatable: f.repeatable,
        has_choices: f.has_choices,
        allow_unknown_choices: f.allow_unknown_choices,
        deprecated_env: f.deprecated_env,
    }
}

/// Whether a second occurrence of `f` is a mistake: for a flag that neither counts, collects
/// nor asked to repeat, when the command does not let the later occurrence win.
pub open spec fn rejects_duplicate_of(args_override_self: bool, composable: bool, f: FieldView) -> bool {
    &&& (!args_override_self || composable)
    &&& f.kind == FieldKind::Flag
    &&& !(f.shape == FieldShape::Count || f.shape == FieldShape::Many)
    &&& !f.repeatable
}

/// What the partial holds for `f`.
pub open spec fn partial_field_of(args_override_self: bool, composable: bool, f: FieldView) -> PartialField {
    let storage = match f.kind {
        FieldKind::Subcommand { .. } | FieldKind::Skip => Storage::Nothing,
        FieldKind::Flatten => Storage::Flattened,
        FieldKind::ArgGroup { .. } => Storage::Group,
        _ => match f.shape {
            FieldShape::Bool => Storage::Switch,
            FieldShape::Count => Storage::Counter,
            FieldShape::Optional => Storage::MaybeBytes,
            FieldShape::Required => Storage::Bytes,
            FieldShape::Many => Storage::AllBytes,
        },
    };
    let own = match f.kind {
        FieldKind::Flag | FieldKind::Arg => true,
        _ => false,
    };
    let flag = f.kind == FieldKind::Flag;
    let duplicated = rejects_duplicate_of(args_override_self, composable, f);
    PartialField {
        storage,
        duplicated: own && duplicated,
        here: own && duplicated && f.global,
        negated: own && flag && f.negate,
        mirrored: own && flag && f.global,
        invalid_choice: own && (f.has_choices || f.value_enum) && !f.allow_unknown_choices,
        deprecated_env: own && f.deprecated_env,
    }
}

pub open spec fn fields_view(fs: Seq<CommandField>) -> Seq<FieldView> {
    fs.map_values(|f: CommandField| field_view(f))
}

/// The spellings of `String` the derive recognizes.
pub open spec fn is_string_type(t: Seq<char>) -> bool {
    t == "String"@ || t == "std::string::String"@ || t == "::std::string::String"@ || t
        == "alloc::string::String"@
}

/// The spellings of `PathBuf` the derive recognizes.
pub open spec fn is_path_type(t: Seq<char>) -> bool {
    t == "PathBuf"@ || t == "std::path::PathBuf"@ || t == "::std::path::PathBuf"@
}

/// The spellings of `OsString` the derive recognizes.
pub open spec fn is_os_string_type(t: Seq<char>) -> bool {
    t == "OsString"@ || t == "std::ffi::OsString"@ || t == "::std::ffi::OsString"@
}

/// How a word becomes a `t`: the byte-holding types first, then a choice, then `String`.
pub open spec fn conversion_of(t: Seq<char>, value_enum: bool) -> ValueConversion {
    if is_path_type(t) {
        ValueConversion::Path
    } else if is_os_string_type(t) {
        ValueConversion::OsText
    } else if value_enum {
        ValueConversion::Choice
    } else if is_string_type(t) {
        ValueConversion::Text
    } else {
        ValueConversion::Parsed
    }
}

/// How the value of `f` is built.
pub open spec fn value_source_of(f: FieldView) -> ValueSource {
    match f.kind {
        FieldKind::Skip => ValueSource::Default,
        FieldKind::Flatten => ValueSource::Flattened,
        FieldKind::ArgGroup { optional } => ValueSource::Group { required: !optional },
        _ => match f.value_ty {
            None => ValueSource::Collected,
            Some(t) => {
                let c = conversion_of(t, f.value_enum);
                match f.shape {
                    FieldShape::Bool | FieldShape::Count => ValueSource::Collected,
                    FieldShape::Required => ValueSource::One(c),
                    FieldShape::Optional => if f.optional_value_type {
                        ValueSource::OptionalValue(c)
                    } else {
                        ValueSource::Optional(c)
                    },
                    FieldShape::Many => if f.optional_collection {
                        ValueSource::OptionalMany { conversion: c, defaulted: f.has_default }
                    } else {
                        ValueSource::Many(c)
                    },
                }
            },
        },
    }
}

/// Whether a flag's metadata calls it required: it must be given, and nothing supplies it.
pub open spec fn flag_required_of(f: FieldView) -> bool {
    (f.shape == FieldShape::Required || f.required_collection) && !f.has_default
}

/// The indices of the first `n` fields whose kind is `kind`.
pub open spec fn indices_of(fs: Seq<FieldView>, kind: FieldKind, n: nat) -> Seq<int>
    decreases n,
{
    if n == 0 {
        seq![]
    } else {
        indices_of(fs, kind, (n - 1) as nat) + if fs[n - 1].kind == kind {
            seq![n - 1]
        } else {
            seq![]
        }
    }
}

pub open spec fn flag_indices_of(fs: Seq<FieldView>) -> Seq<int> {
    indices_of(fs, FieldKind::Flag, fs.len())
}

pub open spec fn arg_indices_of(fs: Seq<FieldView>) -> Seq<int> {
    indices_of(fs, FieldKind::Arg, fs.len())
}

pub open spec fn any_validates(fs: Seq<FieldView>) -> bool {
    exists|i: int| 0 <= i < fs.len() && (#[trigger] fs[i]).validates
}

pub open spec fn any_required_subcommand(fs: Seq<FieldView>) -> bool {
    exists|i: int| 0 <= i < fs.len() && (#[trigger] fs[i]).kind == FieldKind::Subcommand { optional: false }
}

pub open spec fn any_bound(fs: Seq<FieldView>) -> bool {
    exists|i: int| 0 <= i < fs.len() && (#[trigger] fs[i]).bound
}

/// The program completion scripts ask: the declared binary, else the declared runtime name.
pub open spec fn program_of(runtime_bin: Option<Seq<char>>, runtime_name: Option<Seq<char>>) -> Option<
    Seq<char>,
> {
    match runtime_bin {
        Some(b) => Some(b),
        None => runtime_name,
    }
}

pub open spec fn completion_plan_matches(p: CompletionPlan, cli: CommandDecl) -> bool {
    &&& p.emitted == cli.completion
    &&& opt_text(p.program) == program_of(opt_text(cli.runtime_bin), opt_text(cli.runtime_name))
    &&& p.spec_endpoint == cli.spec_endpoint
}

pub open spec fn usizes(s: Seq<usize>) -> Seq<int> {
    s.map_values(|i: usize| i as int)
}

/// Everything the command's generated code states, as the declaration decides it.
pub open spec fn command_plan_matches(p: CommandPlan, cli: CommandDecl) -> bool {
    let fs = fields_view(cli.fields@);
    let flags = flag_indices_of(fs);
    let args = arg_indices_of(fs);
    &&& p.declaration == fnv1a_32(fnv32_offset(), vstd::utf8::encode_utf8(cli.fingerprint@))
    &&& usizes(p.flags@) == flags
    &&& usizes(p.args@) == args
    &&& p.flag_keys@.len() == flags.len()
    &&& p.arg_keys@.len() == args.len()
    &&& (forall|i: int| 0 <= i < flags.len() ==> #[trigger] p.flag_keys@[i] == key_suffix_of(KeyKind::Flag, i as u64))
    &&& (forall|i: int| 0 <= i < args.len() ==> #[trigger] p.arg_keys@[i] == key_suffix_of(KeyKind::Arg, i as u64))
    &&& p.flag_required@.len() == flags.len()
    &&& p.flag_counts@.len() == flags.len()
    &&& (forall|i: int| 0 <= i < flags.len() ==> #[trigger] p.flag_required@[i] == flag_required_of(fs[flags[i]]))
    &&& (forall|i: int| 0 <= i < flags.len() ==> #[trigger] p.flag_counts@[i] == (fs[flags[i]].shape == FieldShape::Count))
    &&& p.values@.len() == fs.len()
    &&& (forall|i: int| 0 <= i < fs.len() ==> #[trigger] p.values@[i] == value_source_of(fs[i]))
    &&& p.partial@.len() == fs.len()
    &&& (forall|i: int| 0 <= i < fs.len() ==> #[trigger] p.partial@[i] == partial_field_of(cli.args_override_self, cli.composable, fs[i]))
    &&& p.imports_validation == any_validates(fs)
    &&& p.subcommand_required == any_required_subcommand(fs)
    &&& p.resolves_settings == (any_bound(fs) || cli.settings)
    &&& p.unknown_flags == unknown_flags_of(opt_text(cli.unknown_flags))
    &&& completion_plan_matches(p.completion, cli)
}

fn copy_opt(o: &Option<String>) -> (res: Option<String>)
    ensures
        opt_text(res) == opt_text(*o),
{
    match o {
        Some(s) => Some(s.clone()),
        None => None,
    }
}

/// Which completion entry points `cli` gets, and the program its scripts ask.
pub fn completion_plan(cli: &CommandDecl) -> (res: CompletionPlan)
    ensures
        completion_plan_matches(res, *cli),
{
    let program = match &cli.runtime_bin {
        Some(b) => Some(b.clone()),
        None => copy_opt(&cli.runtime_name),
    };
    CompletionPlan { emitted: cli.completion, program, spec_endpoint: cli.spec_endpoint }
}

fn conversion(t: &str, value_enum: bool) -> (res: ValueConversion)
    ensures
        res == conversion_of(t@, value_enum),
{
    if str_eq(t, "PathBuf") || str_eq(t, "std::path::PathBuf") || str_eq(t, "::std::path::PathBuf") {
        ValueConversion::Path
    } else if str_eq(t, "OsString") || str_eq(t, "std::ffi::OsString") || str_eq(
        t,
        "::std::ffi::OsString",
    ) {
        ValueConversion::OsText
    } else if value_enum {
        ValueConversion::Choice
    } else if str_eq(t, "String") || str_eq(t, "std::string::String") || str_eq(
        t,
        "::std::string::String",
    ) || str_eq(t, "alloc::string::String") {
        ValueConversion::Text
    } else {
        ValueConversion::Parsed
    }
}

/// How the value of `f` is built when the struct is.
pub fn value_source(f: &CommandField) -> (res: ValueSource)
    ensures
        res == value_source_of(field_view(*f)),
{
    match f.kind {
        FieldKind::Skip => ValueSource::Default,
        FieldKind::Flatten => ValueSource::Flattened,
        FieldKind::ArgGroup { optional } => ValueSource::Group { required: !optional },
        _ => match &f.value_ty {
            None => ValueSource::Collected,
            Some(t) => {
                let c = conversion(t.as_str(), f.value_enum);
                match f.shape {
                    FieldShape::Bool | FieldShape::Count => ValueSource::Collected,
                    FieldShape::Required => ValueSource::One(c),
                    FieldShape::Optional => if f.optional_value_type {
                        ValueSource::OptionalValue(c)
                    } else {
                        ValueSource::Optional(c)
                    },
                    FieldShape::Many => if f.optional_collection {
                        ValueSource::OptionalMany { conversion: c, defaulted: f.has_default }
                    } else {
                        ValueSource::Many(c)
                    },
                }
            },
        },
    }
}

/// What the partial holds for field `f` of a command with the given duplicate policy.
pub fn partial_field(args_override_self: bool, composable: bool, f: &CommandField) -> (res: PartialField)
    ensures
        res == partial_field_of(args_override_self, composable, field_view(*f)),
{
    let storage = match f.kind {
        FieldKind::Subcommand { .. } | FieldKind::Skip => Storage::Nothing,
        FieldKind::Flatten => Storage::Flattened,
        FieldKind::ArgGroup { .. } => Storage::Group,
        _ => match f.shape {
            FieldShape::Bool => Storage::Switch,
            FieldShape::Count => Storage::Counter,
            FieldShape::Optional => Storage::MaybeBytes,
            FieldShape::Required => Storage::Bytes,
            FieldShape::Many => Storage::AllBytes,
        },
    };
    let own = match f.kind {
        FieldKind::Flag | FieldKind::Arg => true,
        _ => false,
    };
    let flag = match f.kind {
        FieldKind::Flag => true,
        _ => false,
    };
    let duplicated = (!args_override_self || composable) && flag && !(f.shape == FieldShape::Count
        || f.shape == FieldShape::Many) && !f.repeatable;
    PartialField {
        storage,
        duplicated: own && duplicated,
        here: own && duplicated && f.global,
        negated: own && flag && f.negate,
        mirrored: own && flag && f.global,
        invalid_choice: own && (f.has_choices || f.value_enum) && !f.allow_unknown_choices,
        deprecated_env: own && f.deprecated_env,
    }
}

/// The table's answer for unknown flags.
pub fn unknown_flags(declared: &Option<String>) -> (res: Option<UnknownFlags>)
    ensures
        res == unknown_flags_of(opt_text(*declared)),
{
    match declared {
        None => None,
        Some(w) => if str_eq(w.as_str(), "error") {
            Some(UnknownFlags::Error)
        } else {
            Some(UnknownFlags::Value)
        },
    }
}

/// Whether the metadata of flag `f` calls it required.
pub fn flag_required(f: &CommandField) -> (res: bool)
    ensures
        res == flag_required_of(field_view(*f)),
{
    (f.shape == FieldShape::Required || f.required_collection) && !f.has_default
}

/// What the generated code of command `cli` states.
pub fn command_plan(cli: &CommandDecl) -> (res: CommandPlan)
    requires
        cli.fields@.len() <= KEY_INDEX_LIMIT,
    ensures
        command_plan_matches(res, *cli),
{
    let ghost fs = fields_view(cli.fields@);
    let declaration = declaration_hash(cli.fingerprint.as_str());
    let mut flags: Vec<usize> = Vec::new();
    let mut args: Vec<usize> = Vec::new();
    let mut flag_keys: Vec<u64> = Vec::new();
    let mut arg_keys: Vec<u64> = Vec::new();
    let mut flag_required_list: Vec<bool> = Vec::new();
    let mut flag_counts: Vec<bool> = Vec::new();
    let mut values: Vec<ValueSource> = Vec::new();
    let mut partial: Vec<PartialField> = Vec::new();
    let mut imports_validation = false;
    let mut subcommand_required = false;
    let mut any_binding = false;
    let mut i: usize = 0;
    while i < cli.fields.len()
        invariant
            i <= cli.fields@.len() <= KEY_INDEX_LIMIT,
            fs == fields_view(cli.fields@),
            fs.len() == cli.fields@.len(),
            usizes(flags@) == indices_of(fs, FieldKind::Flag, i as nat),
            usizes(args@) == indices_of(fs, FieldKind::Arg, i as nat),
            flags@.len() <= i,
            args@.len() <= i,
            flag_keys@.len() == flags@.len(),
            arg_keys@.len() == args@.len(),
            flag_required_list@.len() == flags@.len(),
            flag_counts@.len() == flags@.len(),
            forall|k: int| 0 <= k < flags@.len() ==> #[trigger] flag_keys@[k] == key_suffix_of(KeyKind::Flag, k as u64),
            forall|k: int| 0 <= k < args@.len() ==> #[trigger] arg_keys@[k] == key_suffix_of(KeyKind::Arg, k as u64),
            forall|k: int| 0 <= k < flags@.len() ==> #[trigger] flag_required_list@[k] == flag_required_of(fs[flags@[k] as int]),
            forall|k: int| 0 <= k < flags@.len() ==> #[trigger] flag_counts@[k] == (fs[flags@[k] as int].shape == FieldShape::Count),
            values@.len() == i,
            forall|k: int| 0 <= k < i ==> #[trigger] values@[k] == value_source_of(fs[k]),
            partial@.len() == i,
            forall|k: int| 0 <= k < i ==> #[trigger] partial@[k] == partial_field_of(cli.args_override_self, cli.composable, fs[k]),
            imports_validation == (exists|k: int| 0 <= k < i && (#[trigger] fs[k]).validates),
            subcommand_required == (exists|k: int| 0 <= k < i && (#[trigger] fs[k]).kind == FieldKind::Subcommand { optional: false }),
            any_binding == (exists|k: int| 0 <= k < i && (#[trigger] fs[k]).bound),
        decreases cli.fields.len() - i,
    {
        let f = &cli.fields[i];
        assert(fs[i as int] == field_view(*f));
        let ghost old_flags = flags@;
        let ghost old_args = args@;
        match f.kind {
            FieldKind::Flag => {
                let n = flags.len();
                flag_keys.push(key_suffix(KeyKind::Flag, n as u64));
                flag_required_list.push(flag_required(f));
                flag_counts.push(f.shape == FieldShape::Count);
                flags.push(i);
                assert(usizes(flags@) =~= usizes(old_flags) + seq![i as int]);
                assert(usizes(args@) =~= usizes(old_args) + seq![]);
            },
            FieldKind::Arg => {
                let n = args.len();
                arg_keys.push(key_suffix(KeyKind::Arg, n as u64));
                args.push(i);
                assert(usizes(args@) =~= usizes(old_args) + seq![i as int]);
                assert(usizes(flags@) =~= usizes(old_flags) + seq![]);
            },
            _ => {
                assert(usizes(flags@) =~= usizes(old_flags) + seq![]);
                assert(usizes(args@) =~= usizes(old_args) + seq![]);
            },
        }
        values.push(value_source(f));
        partial.push(partial_field(cli.args_override_self, cli.composable, f));
        if f.validates {
            imports_validation = true;
        }
        if f.kind == (FieldKind::Subcommand { optional: false }) {
            subcommand_required = true;
        }
        if f.bound {
            any_binding = true;
        }
        i = i + 1;
    }
    CommandPlan {
        declaration,
        flags,
        args,
        flag_keys,
        arg_keys,
        flag_required: flag_required_list,
        flag_counts,
        values,
        partial,
        imports_validation,
        subcommand_required,
        resolves_settings: any_binding || cli.settings,
        unknown_flags: unknown_flags(&cli.unknown_flags),
        completion: completion_plan(cli),
    }
}

/// Which conversion each recognized spelling gets, whatever the choice flag says: the three
/// spellings of `PathBuf` are paths and the three of `OsString` are platform text; any other
/// type is a choice when it is a value enum, and the four spellings of `String` are otherwise
/// plain text.
pub proof fn lemma_conversion_by_spelling(t: Seq<char>, value_enum: bool)
    ensures
        conversion_of("PathBuf"@, value_enum) == ValueConversion::Path,
        conversion_of("std::path::PathBuf"@, value_enum) == ValueConversion::Path,
        conversion_of("::std::path::PathBuf"@, value_enum) == ValueConversion::Path,
        conversion_of("OsString"@, value_enum) == ValueConversion::OsText,
        conversion_of("std::ffi::OsString"@, value_enum) == ValueConversion::OsText,
        conversion_of("::std::ffi::OsString"@, value_enum) == ValueConversion::OsText,
        conversion_of("String"@, false) == ValueConversion::Text,
        conversion_of("std::string::String"@, false) == ValueConversion::Text,
        conversion_of("::std::string::String"@, false) == ValueConversion::Text,
        conversion_of("alloc::string::String"@, false) == ValueConversion::Text,
        conversion_of("u32"@, false) == ValueConversion::Parsed,
        !is_path_type(t) && !is_os_string_type(t) ==> (conversion_of(t, true) == ValueConversion::Choice),
        conversion_of(t, value_enum) == ValueConversion::Text ==> !value_enum,
{
    reveal_strlit("PathBuf");
    reveal_strlit("std::path::PathBuf");
    reveal_strlit("::std::path::PathBuf");
    reveal_strlit("OsString");
    reveal_strlit("std::ffi::OsString");
    reveal_strlit("::std::ffi::OsString");
    reveal_strlit("String");
    reveal_strlit("std::string::String");
    reveal_strlit("::std::string::String");
    reveal_strlit("alloc::string::String");
    reveal_strlit("u32");
    assert("OsString"@.len() != "PathBuf"@.len());
    assert("OsString"@.len() != "std::path::PathBuf"@.len());
    assert("OsString"@.len() != "::std::path::PathBuf"@.len());
    assert("std::ffi::OsString"@[5] != "std::path::PathBuf"@[5]);
    assert("std::ffi::OsString"@.len() != "PathBuf"@.len());
    assert("std::ffi::OsString"@.len() != "::std::path::PathBuf"@.len());
    assert(!is_path_type("OsString"@));
    assert(!is_path_type("std::ffi::OsString"@));
    assert("::std::ffi::OsString"@[7] != "::std::path::PathBuf"@[7]);
    assert("::std::ffi::OsString"@.len() != "PathBuf"@.len());
    assert("::std::ffi::OsString"@.len() != "std::path::PathBuf"@.len());
    assert(!is_path_type("::std::ffi::OsString"@));
    assert("u32"@.len() == 3);
    assert("PathBuf"@.len() == 7 && "OsString"@.len() == 8 && "String"@.len() == 6);
    assert(!is_path_type("u32"@));
    assert(!is_os_string_type("u32"@));
    assert(!is_string_type("u32"@));
}

/// How a field that takes words is built follows its declared shape: exactly one value for a
/// required field; `Option` for an optional one, `Some(None)` only for `Option<Option<T>>`;
/// every value for a collection, and for `Option<Vec<T>>` a result that is never `None` exactly
/// when the field declares a default. Switches and counts are what was collected.
pub proof fn lemma_value_follows_the_shape(f: FieldView)
    requires
        f.kind == FieldKind::Flag || f.kind == FieldKind::Arg,
        f.value_ty is Some,
    ensures
        ({
            let c = conversion_of(f.value_ty->0, f.value_enum);
            let v = value_source_of(f);
            &&& (f.shape == FieldShape::Bool || f.shape == FieldShape::Count) ==> v == ValueSource::Collected
            &&& f.shape == FieldShape::Required ==> v == ValueSource::One(c)
            &&& f.shape == FieldShape::Optional ==> (v == ValueSource::OptionalValue(c) <==> f.optional_value_type)
            &&& f.shape == FieldShape::Optional ==> (v == ValueSource::Optional(c) <==> !f.optional_value_type)
            &&& f.shape == FieldShape::Many && !f.optional_collection ==> v == ValueSource::Many(c)
            &&& f.shape == FieldShape::Many && f.optional_collection ==> (v matches ValueSource::OptionalMany { conversion, defaulted }
                && conversion == c && (defaulted <==> f.has_default))
        }),
{
}

/// A field the command line does not fill is built without reading a word: a skipped field
/// from `Default`, a flattened struct by its own build, a group by its own, which refuses an
/// empty non-optional group; and a flag or argument that takes no word is what was collected.
pub proof fn lemma_non_word_fields(f: FieldView)
    ensures
        f.kind == FieldKind::Skip ==> value_source_of(f) == ValueSource::Default,
        f.kind == FieldKind::Flatten ==> value_source_of(f) == ValueSource::Flattened,
        f.kind == (FieldKind::ArgGroup { optional: true }) ==> value_source_of(f) == (ValueSource::Group { required: false }),
        f.kind == (FieldKind::ArgGroup { optional: false }) ==> value_source_of(f) == (ValueSource::Group { required: true }),
        (f.kind == FieldKind::Flag || f.kind == FieldKind::Arg) && f.value_ty is None ==> value_source_of(f) == ValueSource::Collected,
{
}

/// A flag's metadata calls it required exactly when it must be given, by its shape or as a
/// required collection, and declares no default.
pub proof fn lemma_required_means_must_be_given(f: FieldView)
    ensures
        f.has_default ==> !flag_required_of(f),
        !f.has_default && f.shape == FieldShape::Required ==> flag_required_of(f),
        !f.has_default && f.required_collection ==> flag_required_of(f),
        f.shape != FieldShape::Required && !f.required_collection ==> !flag_required_of(f),
{
}

proof fn lemma_indices_upto(fs: Seq<FieldView>, kind: FieldKind, n: nat)
    requires
        n <= fs.len(),
    ensures
        forall|k: int| 0 <= k < indices_of(fs, kind, n).len() ==> 0 <= #[trigger] indices_of(fs, kind, n)[k] < n
            && fs[indices_of(fs, kind, n)[k]].kind == kind,
        forall|k1: int, k2: int|
            0 <= k1 < k2 < indices_of(fs, kind, n).len() ==> #[trigger] indices_of(fs, kind, n)[k1]
                < #[trigger] indices_of(fs, kind, n)[k2],
        forall|j: int| 0 <= j < n && (#[trigger] fs[j]).kind == kind ==> indices_of(fs, kind, n).contains(j),
    decreases n,
{
    if n > 0 {
        lemma_indices_upto(fs, kind, (n - 1) as nat);
        let prev = indices_of(fs, kind, (n - 1) as nat);
        let cur = indices_of(fs, kind, n);
        assert forall|j: int| 0 <= j < n && (#[trigger] fs[j]).kind == kind implies cur.contains(j) by {
            if j == n - 1 {
                assert(cur[prev.len() as int] == j);
            } else {
                assert(prev.contains(j));
                let k = choose|k: int| 0 <= k < prev.len() && prev[k] == j;
                assert(cur[k] == j);
            }
        }
    }
}

/// The flags are exactly the fields declared as flags, and the arguments exactly those
/// declared as arguments, each listed once and in declaration order.
pub proof fn lemma_flags_and_args_are_their_fields_in_order(fs: Seq<FieldView>)
    ensures
        forall|k: int| 0 <= k < flag_indices_of(fs).len() ==> 0 <= #[trigger] flag_indices_of(fs)[k] < fs.len()
            && fs[flag_indices_of(fs)[k]].kind == FieldKind::Flag,
        forall|k1: int, k2: int|
            0 <= k1 < k2 < flag_indices_of(fs).len() ==> #[trigger] flag_indices_of(fs)[k1]
                < #[trigger] flag_indices_of(fs)[k2],
        forall|j: int| 0 <= j < fs.len() && (#[trigger] fs[j]).kind == FieldKind::Flag ==> flag_indices_of(fs).contains(j),
        forall|k: int| 0 <= k < arg_indices_of(fs).len() ==> 0 <= #[trigger] arg_indices_of(fs)[k] < fs.len()
            && fs[arg_indices_of(fs)[k]].kind == FieldKind::Arg,
        forall|k1: int, k2: int|
            0 <= k1 < k2 < arg_indices_of(fs).len() ==> #[trigger] arg_indices_of(fs)[k1]
                < #[trigger] arg_indices_of(fs)[k2],
        forall|j: int| 0 <= j < fs.len() && (#[trigger] fs[j]).kind == FieldKind::Arg ==> arg_indices_of(fs).contains(j),
{
    lemma_indices_upto(fs, FieldKind::Flag, fs.len());
    lemma_indices_upto(fs, FieldKind::Arg, fs.len());
}

/// What the partial remembers of a field: a second occurrence only for a flag of a strict
/// command that neither counts, collects nor repeats, and per level only when it is also
/// global; a negation only for a flag with one; a mirror exactly for a global flag; a
/// rejected word exactly for a field with choices that does not accept unknown ones. Fields the
/// command line does not fill remember nothing.
pub proof fn lemma_partial_markers(aos: bool, composable: bool, f: FieldView)
    ensures
        ({
            let p = partial_field_of(aos, composable, f);
            let own = f.kind == FieldKind::Flag || f.kind == FieldKind::Arg;
            &&& p.duplicated <==> (f.kind == FieldKind::Flag && (!aos || composable) && !f.repeatable
                && (f.shape == FieldShape::Bool || f.shape == FieldShape::Optional || f.shape == FieldShape::Required))
            &&& p.here <==> (p.duplicated && f.global)
            &&& p.negated <==> (f.kind == FieldKind::Flag && f.negate)
            &&& p.mirrored <==> (f.kind == FieldKind::Flag && f.global)
            &&& p.invalid_choice <==> (own && (f.has_choices || f.value_enum) && !f.allow_unknown_choices)
            &&& p.deprecated_env <==> (own && f.deprecated_env)
            &&& !own ==> !p.duplicated && !p.here && !p.negated && !p.mirrored
            &&& (p.storage == Storage::Nothing <==> (f.kind == FieldKind::Skip || f.kind is Subcommand))
            &&& (p.storage == Storage::Flattened <==> f.kind == FieldKind::Flatten)
            &&& (p.storage == Storage::Group <==> f.kind is ArgGroup)
            &&& own ==> (p.storage == Storage::Switch <==> f.shape == FieldShape::Bool)
            &&& own ==> (p.storage == Storage::Counter <==> f.shape == FieldShape::Count)
            &&& own ==> (p.storage == Storage::MaybeBytes <==> f.shape == FieldShape::Optional)
            &&& own ==> (p.storage == Storage::Bytes <==> f.shape == FieldShape::Required)
            &&& own ==> (p.storage == Storage::AllBytes <==> f.shape == FieldShape::Many)
        }),
{
}

/// Completion scripts ask the declared binary when there is one, else the declared runtime
/// name, else nothing is declared and the spec's own name is used.
pub proof fn lemma_the_declared_binary_wins(bin: Option<Seq<char>>, name: Option<Seq<char>>)
    ensures
        bin is Some ==> program_of(bin, name) == bin,
        bin is None ==> program_of(bin, name) == name,
        program_of(bin, name) is None <==> (bin is None && name is None),
{
}

/// Unknown flags: nothing declared defers to the enclosing command, `error` refuses them,
/// and every other word takes them as values.
pub proof fn lemma_unknown_flags_word(w: Seq<char>)
    ensures
        unknown_flags_of(None) is None,
        unknown_flags_of(Some("error"@)) == Some(UnknownFlags::Error),
        w != "error"@ ==> unknown_flags_of(Some(w)) == Some(UnknownFlags::Value),
{
}

/// A command resolves settings when any field is bound or it asked to; it imports validation
/// exactly when some field validates; a subcommand is required exactly when some subcommand
/// field is not optional.
pub proof fn lemma_command_wide_answers(fs: Seq<FieldView>, i: int)
    requires
        0 <= i < fs.len(),
    ensures
        fs[i].bound ==> any_bound(fs),
        fs[i].validates ==> any_validates(fs),
        fs[i].kind == (FieldKind::Subcommand { optional: false }) ==> any_required_subcommand(fs),
        (forall|j: int| 0 <= j < fs.len() ==> !(#[trigger] fs[j]).validates) ==> !any_validates(fs),
        (forall|j: int| 0 <= j < fs.len() ==> !(#[trigger] fs[j]).bound) ==> !any_bound(fs),
        (forall|j: int| 0 <= j < fs.len() ==> (#[trigger] fs[j]).kind != (FieldKind::Subcommand { optional: false }))
            ==> !any_required_subcommand(fs),
{
}

} // verus!
