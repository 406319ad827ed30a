//! What the `usage::Config` registry is made of: the config files a spec lists for the
//! declared files, and how each field is read from the fold and built into the struct.

use vstd::prelude::*;
use vstd::string::*;

use crate::declaration::{File, FileScope, XdgBase};

verus! {

broadcast use vstd::seq_lib::group_seq_properties;

/// A config file as the spec lists it.
pub struct SpecFile {
    pub path: String,
    pub findup: bool,
    pub scope: FileScope,
    pub format: Option<String>,
}

pub open spec fn opt_text(s: Option<String>) -> Option<Seq<char>> {
    match s {
        Some(s) => Some(s@),
        None => None,
    }
}

/// A listed file as plain values.
pub type SpecFileView = (Seq<char>, bool, FileScope, Option<Seq<char>>);

pub open spec fn spec_file_view(f: SpecFile) -> SpecFileView {
    (f.path@, f.findup, f.scope, opt_text(f.format))
}

/// The variable naming the system-wide directories of an XDG base, where it has them.
pub open spec fn xdg_dirs(base: XdgBase) -> Option<Seq<char>> {
    match base {
        XdgBase::Config => Some("$XDG_CONFIG_DIRS"@),
        XdgBase::Data => Some("$XDG_DATA_DIRS"@),
        _ => None,
    }
}

/// The variable naming the user's directory of an XDG base.
pub open spec fn xdg_home(base: XdgBase) -> Seq<char> {
    match base {
        XdgBase::Config => "$XDG_CONFIG_HOME"@,
        XdgBase::Data => "$XDG_DATA_HOME"@,
        XdgBase::State => "$XDG_STATE_HOME"@,
        XdgBase::Cache => "$XDG_CACHE_HOME"@,
        XdgBase::Runtime => "$XDG_RUNTIME_DIR"@,
    }
}

/// The files one declared file stands for. An XDG file is the system-wide one under the
/// base's directories, where the base has them, then the user's; neither is found by
/// walking up. Any other file is itself.
pub open spec fn files_of(f: File) -> Seq<SpecFileView> {
    let format = opt_text(f.format);
    match f.xdg {
        Some(base) => {
            let global = (xdg_home(base) + seq!['/'] + f.path@, false, FileScope::Global, format);
            match xdg_dirs(base) {
                Some(dirs) => seq![(dirs + seq!['/'] + f.path@, false, FileScope::System, format), global],
                None => seq![global],
            }
        },
        None => seq![(f.path@, f.findup, f.scope, format)],
    }
}

pub open spec fn all_files_upto(files: Seq<File>, n: nat) -> Seq<SpecFileView>
    decreases n,
{
    if n == 0 {
        seq![]
    } else {
        all_files_upto(files, (n - 1) as nat) + files_of(files[n - 1])
    }
}

fn copy_text(s: &Option<String>) -> (res: Option<String>)
    ensures
        opt_text(res) == opt_text(*s),
{
    match s {
        Some(s) => Some(s.clone()),
        None => None,
    }
}

fn under(dir: &str, path: &str) -> (res: String)
    ensures
        res@ == dir@ + seq!['/'] + path@,
{
    let mut s = String::from_str(dir);
    s.append("/");
    proof {
        reveal_strlit("/");
    }
    s.append(path);
    s
}

fn push_files(out: &mut Vec<SpecFile>, f: &File)
    ensures
        final(out)@.map_values(|s: SpecFile| spec_file_view(s)) == old(out)@.map_values(
            |s: SpecFile| spec_file_view(s),
        ) + files_of(*f),
{
    let ghost start = out@.map_values(|s: SpecFile| spec_file_view(s));
    match f.xdg {
        Some(base) => {
            let (dirs, home): (Option<&str>, &str) = match base {
                XdgBase::Config => (Some("$XDG_CONFIG_DIRS"), "$XDG_CONFIG_HOME"),
                XdgBase::Data => (Some("$XDG_DATA_DIRS"), "$XDG_DATA_HOME"),
                XdgBase::State => (None, "$XDG_STATE_HOME"),
                XdgBase::Cache => (None, "$XDG_CACHE_HOME"),
                XdgBase::Runtime => (None, "$XDG_RUNTIME_DIR"),
            };
            if let Some(dirs) = dirs {
                out.push(
                    SpecFile {
                        path: under(dirs, f.path.as_str()),
                        findup: false,
                        scope: FileScope::System,
                        format: copy_text(&f.format),
                    },
                );
            }
            out.push(
                SpecFile {
                    path: under(home, f.path.as_str()),
                    findup: false,
                    scope: FileScope::Global,
                    format: copy_text(&f.format),
                },
            );
        },
        None => {
            out.push(
                SpecFile {
                    path: f.path.clone(),
                    findup: f.findup,
                    scope: f.scope,
                    format: copy_text(&f.format),
                },
            );
        },
    }
    assert(out@.map_values(|s: SpecFile| spec_file_view(s)) =~= start + files_of(*f));
}

/// The config files the spec lists for the declared ones, in declaration order.
pub fn spec_files(files: &Vec<File>) -> (res: Vec<SpecFile>)
    ensures
        res@.map_values(|s: SpecFile| spec_file_view(s)) == all_files_upto(files@, files@.len()),
{
    let mut out: Vec<SpecFile> = Vec::new();
    assert(out@.map_values(|s: SpecFile| spec_file_view(s)) =~= all_files_upto(files@, 0));
    let mut i: usize = 0;
    while i < files.len()
        invariant
            i <= files@.len(),
            out@.map_values(|s: SpecFile| spec_file_view(s)) == all_files_upto(files@, i as nat),
        decreases files@.len() - i,
    {
        push_files(&mut out, &files[i]);
        i = i + 1;
    }
    out
}

/// An XDG file is always listed for the user, and for the whole system only where its base
/// has system-wide directories; no listed XDG file is found by walking up.
pub proof fn lemma_an_xdg_file_is_listed_for_the_user(f: File)
    requires
        f.xdg is Some,
    ensures
        files_of(f).last().2 == FileScope::Global,
        files_of(f).len() == if xdg_dirs(f.xdg->0) is Some {
            2int
        } else {
            1int
        },
        forall|k: int| 0 <= k < files_of(f).len() ==> !(#[trigger] files_of(f)[k]).1,
{
}

/// How a setting is read from the fold.
#[derive(Clone, Copy, PartialEq, Eq, Structural, Debug)]
pub enum ReadHow {
    /// Absent is an answer: the field is an `Option`, or a `default_fn` fills it.
    Optional,
    /// Absent is an error.
    Required,
}

/// How the struct's field is built from what was read.
#[derive(Clone, Copy, PartialEq, Eq, Structural, Debug)]
pub enum BuildHow {
    /// The value, else what the `default_fn` gives.
    OrDefaultFn,
    /// The `Option` as read.
    AsOption,
    /// The value, or the error of its absence.
    Present,
}

/// What one field of a config struct is to the registry.
#[derive(Clone, Copy, PartialEq, Eq, Structural, Debug)]
pub enum RegistryField {
    /// A setting: whether the field is an `Option`, and whether a `default_fn` fills it.
    Prop { optional_field: bool, default_fn: bool },
    /// A flattened config struct.
    Flatten,
}

/// How one field is read and built; a flattened struct reads its own props and is built
/// present.
pub open spec fn read_of(f: RegistryField) -> Option<(ReadHow, BuildHow)> {
    match f {
        RegistryField::Prop { optional_field, default_fn } => Some(
            (
                if optional_field || default_fn {
                    ReadHow::Optional
                } else {
                    ReadHow::Required
                },
                if default_fn {
                    BuildHow::OrDefaultFn
                } else if optional_field {
                    BuildHow::AsOption
                } else {
                    BuildHow::Present
                },
            ),
        ),
        RegistryField::Flatten => None,
    }
}

/// How one field is read from the fold and built into the struct.
pub fn read_plan(f: RegistryField) -> (res: Option<(ReadHow, BuildHow)>)
    ensures
        res == read_of(f),
{
    match f {
        RegistryField::Prop { optional_field, default_fn } => {
            let how = if optional_field || default_fn {
                ReadHow::Optional
            } else {
                ReadHow::Required
            };
            let build = if default_fn {
                BuildHow::OrDefaultFn
            } else if optional_field {
                BuildHow::AsOption
            } else {
                BuildHow::Present
            };
            Some((how, build))
        },
        RegistryField::Flatten => None,
    }
}

/// A setting read as required is built present, and one built present was read as
/// required: the read and the build agree on whether absence is an error.
pub proof fn lemma_read_and_build_agree(f: RegistryField)
    requires
        f is Prop,
    ensures
        ({
            let (read, build) = read_of(f)->0;
            (read == ReadHow::Required) <==> (build == BuildHow::Present)
        }),
{
}

/// Where an XDG file is looked for: `config` and `data` also system-wide, under
/// `$XDG_CONFIG_DIRS` and `$XDG_DATA_DIRS`; every base for the user, under
/// `$XDG_CONFIG_HOME`, `$XDG_DATA_HOME`, `$XDG_STATE_HOME`, `$XDG_CACHE_HOME` or
/// `$XDG_RUNTIME_DIR`, the system-wide one listed first. A file that is not XDG is listed as
/// declared, with its own search and scope.
pub proof fn lemma_where_files_are_looked_for(f: File)
    ensures
        xdg_dirs(XdgBase::Config) == Some("$XDG_CONFIG_DIRS"@),
        xdg_dirs(XdgBase::Data) == Some("$XDG_DATA_DIRS"@),
        xdg_dirs(XdgBase::State) is None && xdg_dirs(XdgBase::Cache) is None && xdg_dirs(XdgBase::Runtime) is None,
        xdg_home(XdgBase::Config) == "$XDG_CONFIG_HOME"@,
        xdg_home(XdgBase::Data) == "$XDG_DATA_HOME"@,
        xdg_home(XdgBase::State) == "$XDG_STATE_HOME"@,
        xdg_home(XdgBase::Cache) == "$XDG_CACHE_HOME"@,
        xdg_home(XdgBase::Runtime) == "$XDG_RUNTIME_DIR"@,
        f.xdg is None ==> files_of(f) == seq![(f.path@, f.findup, f.scope, opt_text(f.format))],
        f.xdg matches Some(base) ==> files_of(f).last() == (xdg_home(base) + seq!['/'] + f.path@, false,
            FileScope::Global, opt_text(f.format)),
        f.xdg matches Some(base) ==> (files_of(f).len() == 2 <==> xdg_dirs(base) is Some),
        f.xdg matches Some(base) ==> (xdg_dirs(base) matches Some(dirs) ==> files_of(f)[0] == (dirs + seq!['/']
            + f.path@, false, FileScope::System, opt_text(f.format))),
{
}

/// A field with a `default_fn` is read as optional and built by falling back to it, whatever
/// its type; an `Option` field without one is read as optional and built as the `Option`; any
/// other setting is required and built present. A flattened struct is none of these.
pub proof fn lemma_how_each_field_is_read(optional_field: bool, default_fn: bool)
    ensures
        default_fn ==> read_of(RegistryField::Prop { optional_field, default_fn }) == Some((ReadHow::Optional, BuildHow::OrDefaultFn)),
        optional_field && !default_fn ==> read_of(RegistryField::Prop { optional_field, default_fn }) == Some((ReadHow::Optional, BuildHow::AsOption)),
        !optional_field && !default_fn ==> read_of(RegistryField::Prop { optional_field, default_fn }) == Some((ReadHow::Required, BuildHow::Present)),
        read_of(RegistryField::Flatten) is None,
{
}

} // verus!
