//! How the adopter depended on usage's runtime and derive crates, read from its manifest.
//!
//! Only the dependency forms usage documents are recognised: a bare key, a
//! `{ package = "…", … }` rename, a multi-line `{ … }` table, and a `[dependencies.foo]`
//! header. Reading the manifest file is the caller's part; this module decides from its text.

use vstd::prelude::*;
use vstd::string::*;

use crate::text::{
    contains_char, ends_with, ends_with_char, find_char, first_index, lemma_first_index, lines, lines_of, replace_char, split_char, split_of,
    starts_with, starts_with_char, str_eq, strip_prefix, strip_prefix_char, strip_suffix_char,
    trim, trim_of,
};

verus! {

broadcast use vstd::seq_lib::group_seq_properties;

/// How the searched package appears in the adopter's crate graph.
#[derive(Debug, Clone, PartialEq, Eq)]
pub enum FoundCrate {
    /// The adopter *is* that package (e.g. a derive inside `usage-rs` itself).
    Itself,
    /// The package is a dependency under this rustc crate name (hyphens already folded).
    Name(String),
}

/// `FoundCrate` as chars.
pub enum Found {
    Itself,
    Name(Seq<char>),
}

impl View for FoundCrate {
    type V = Found;

    open spec fn view(&self) -> Found {
        match self {
            FoundCrate::Itself => Found::Itself,
            FoundCrate::Name(name) => Found::Name(name@),
        }
    }
}

pub open spec fn found_view(found: Option<FoundCrate>) -> Option<Found> {
    match found {
        Some(f) => Some(f@),
        None => None,
    }
}

/// An open multi-line dependency table: its key is the rustc rename, and a `package`
/// field may still follow.
pub struct OpenTable {
    pub key: String,
    pub package: Option<String>,
}

pub open spec fn opt_view(s: Option<String>) -> Option<Seq<char>> {
    match s {
        Some(s) => Some(s@),
        None => None,
    }
}

pub open spec fn open_view(open: Option<OpenTable>) -> Option<(Seq<char>, Option<Seq<char>>)> {
    match open {
        Some(t) => Some((t.key@, opt_view(t.package))),
        None => None,
    }
}

/// `line` up to its first `#`.
#[verifier::opaque]
pub open spec fn strip_comment_of(line: Seq<char>) -> Seq<char> {
    if line.contains('#') {
        line.take(first_index(line, '#'))
    } else {
        line
    }
}

/// The name a `[header]` line gives, trimmed.
#[verifier::opaque]
pub open spec fn section_header_of(line: Seq<char>) -> Option<Seq<char>> {
    let t = trim_of(line);
    if t.len() > 0 && t[0] == '[' && t.last() == ']' {
        Some(trim_of(t.subrange(1, t.len() - 1)))
    } else {
        None
    }
}

#[verifier::opaque]
pub open spec fn is_dependencies_section_of(header: Seq<char>) -> bool {
    ||| header == "dependencies"@
    ||| header == "dev-dependencies"@
    ||| header == "build-dependencies"@
    ||| "target."@.is_prefix_of(header) && {
        ||| ".dependencies"@.is_suffix_of(header)
        ||| ".dev-dependencies"@.is_suffix_of(header)
        ||| ".build-dependencies"@.is_suffix_of(header)
    }
}

pub open spec fn is_ident_char(c: char) -> bool {
    ||| '0' <= c <= '9'
    ||| 'a' <= c <= 'z'
    ||| 'A' <= c <= 'Z'
    ||| c == '_'
    ||| c == '-'
}

/// A non-empty run of ASCII alphanumerics, `_` and `-`.
#[verifier::opaque]
pub open spec fn is_ident_key_of(key: Seq<char>) -> bool {
    key.len() > 0 && forall|i: int| 0 <= i < key.len() ==> is_ident_char(#[trigger] key[i])
}

/// The dependency a `[dependencies.foo]`-style header names.
#[verifier::opaque]
pub open spec fn dependency_table_key_of(header: Seq<char>) -> Option<Seq<char>> {
    let p1 = "dependencies."@;
    let p2 = "dev-dependencies."@;
    let p3 = "build-dependencies."@;
    if p1.is_prefix_of(header) && is_ident_key_of(header.skip(p1.len() as int)) {
        Some(header.skip(p1.len() as int))
    } else if p2.is_prefix_of(header) && is_ident_key_of(header.skip(p2.len() as int)) {
        Some(header.skip(p2.len() as int))
    } else if p3.is_prefix_of(header) && is_ident_key_of(header.skip(p3.len() as int)) {
        Some(header.skip(p3.len() as int))
    } else {
        None
    }
}

/// `key = rest`, both trimmed, split at the first `=`.
#[verifier::opaque]
pub open spec fn split_assignment_of(line: Seq<char>) -> Option<(Seq<char>, Seq<char>)> {
    if line.contains('=') {
        let eq = first_index(line, '=');
        Some((trim_of(line.take(eq)), trim_of(line.skip(eq + 1))))
    } else {
        None
    }
}

/// The text of a `"…"` or `'…'` literal.
#[verifier::opaque]
pub open spec fn parse_string_of(value: Seq<char>) -> Option<Seq<char>> {
    let t = trim_of(value);
    if t.len() >= 2 && t[0] == '"' && t.last() == '"' {
        Some(t.subrange(1, t.len() - 1))
    } else if t.len() >= 2 && t[0] == '\'' && t.last() == '\'' {
        Some(t.subrange(1, t.len() - 1))
    } else {
        None
    }
}

/// The string `field = "…"` assigns.
#[verifier::opaque]
pub open spec fn string_assignment_of(line: Seq<char>, field: Seq<char>) -> Option<Seq<char>> {
    match split_assignment_of(line) {
        Some((key, rest)) => if key == field {
            parse_string_of(trim_of(rest))
        } else {
            None
        },
        None => None,
    }
}

/// The first `package = "…"` among `parts`.
pub open spec fn first_package(parts: Seq<Seq<char>>) -> Option<Seq<char>>
    decreases parts.len(),
{
    if parts.len() == 0 {
        None
    } else {
        match string_assignment_of(trim_of(parts[0]), "package"@) {
            Some(p) => Some(p),
            None => first_package(parts.drop_first()),
        }
    }
}

/// The `package` of a `{ … }` table written on one line.
#[verifier::opaque]
pub open spec fn inline_table_package_of(table: Seq<char>) -> Option<Seq<char>> {
    let body = trim_of(table);
    if !(body.len() > 0 && body[0] == '{') {
        None
    } else {
        let inner = trim_of(body.drop_first());
        if !(inner.len() > 0 && inner.last() == '}') {
            None
        } else {
            first_package(split_of(trim_of(inner.drop_last()), ','))
        }
    }
}

pub open spec fn is_version_text(rest: Seq<char>) -> bool {
    forall|i: int| 0 <= i < rest.len() ==> ('0' <= #[trigger] rest[i] <= '9' || rest[i] == '.')
}

/// A dependency declared on one line: its key, and the package it renames if it says.
#[verifier::opaque]
pub open spec fn inline_dependency_of(line: Seq<char>) -> Option<(Seq<char>, Option<Seq<char>>)> {
    match split_assignment_of(line) {
        None => None,
        Some((key, rest)) => if !is_ident_key_of(key) {
            None
        } else {
            let r = trim_of(rest);
            if r.len() > 0 && r[0] == '{' && r.contains('}') {
                Some((key, inline_table_package_of(r)))
            } else if parse_string_of(r) is Some || is_version_text(r) {
                Some((key, None))
            } else {
                None
            }
        },
    }
}

/// The key of a `key = {` line that opens a table continued on later lines.
#[verifier::opaque]
pub open spec fn multiline_table_start_of(line: Seq<char>) -> Option<Seq<char>> {
    match split_assignment_of(line) {
        None => None,
        Some((key, rest)) => if !is_ident_key_of(key) {
            None
        } else {
            let r = trim_of(rest);
            if r == seq!['{'] || (r.len() > 0 && r[0] == '{' && !r.contains('}')) {
                Some(key)
            } else {
                None
            }
        },
    }
}

/// `key` with each `-` folded to `_`, as rustc names a crate.
pub open spec fn rustc_name(key: Seq<char>) -> Seq<char> {
    key.map_values(|c: char| if c == '-' { '_' } else { c })
}

/// The dependency `key` (renaming `package_field` if given), when it is `wanted`.
#[verifier::opaque]
pub open spec fn match_dep_of(
    key: Seq<char>,
    package_field: Option<Seq<char>>,
    wanted: Seq<char>,
) -> Option<Found> {
    let resolved = match package_field {
        Some(p) => p,
        None => key,
    };
    if resolved != wanted {
        None
    } else {
        Some(Found::Name(rustc_name(key)))
    }
}

pub open spec fn finish_open_of(
    open: Option<(Seq<char>, Option<Seq<char>>)>,
    wanted: Seq<char>,
) -> Option<Found> {
    match open {
        Some((key, package)) => match_dep_of(key, package, wanted),
        None => None,
    }
}

/// A line as the scan reads it: the comment cut and the rest trimmed.
pub open spec fn clean_line(raw: Seq<char>) -> Seq<char> {
    trim_of(strip_comment_of(raw))
}

/// The `[package]` scan after `n` lines: whether inside `[package]`, and its name once seen.
pub open spec fn package_scan(ls: Seq<Seq<char>>, n: nat) -> (bool, Option<Seq<char>>)
    decreases n,
{
    if n == 0 {
        (false, None)
    } else {
        let (in_package, name) = package_scan(ls, (n - 1) as nat);
        let line = clean_line(ls[n - 1]);
        if name is Some || line.len() == 0 {
            (in_package, name)
        } else {
            match section_header_of(line) {
                Some(header) => (header == "package"@, None),
                None => if in_package {
                    (in_package, string_assignment_of(line, "name"@))
                } else {
                    (in_package, None)
                },
            }
        }
    }
}

/// The `name` the manifest's `[package]` section gives.
pub open spec fn package_name_of(text: Seq<char>) -> Option<Seq<char>> {
    package_scan(lines_of(text), lines_of(text).len()).1
}

/// Where the dependency scan stands: inside a dependencies section or not, the open
/// multi-line table, and the answer once found.
pub struct ManifestScan {
    pub in_dependencies: bool,
    pub open: Option<(Seq<char>, Option<Seq<char>>)>,
    pub found: Option<Found>,
}

/// A dependency line with no table open.
pub open spec fn dependency_line(st: ManifestScan, line: Seq<char>, wanted: Seq<char>) -> ManifestScan {
    match inline_dependency_of(line) {
        Some((key, value)) => ManifestScan {
            in_dependencies: st.in_dependencies,
            open: st.open,
            found: match_dep_of(key, value, wanted),
        },
        None => match multiline_table_start_of(line) {
            Some(key) => ManifestScan {
                in_dependencies: st.in_dependencies,
                open: Some((key, None)),
                found: None,
            },
            None => st,
        },
    }
}

/// Reading one raw line of the manifest.
pub open spec fn manifest_step(st: ManifestScan, raw: Seq<char>, wanted: Seq<char>) -> ManifestScan {
    let line = clean_line(raw);
    if st.found is Some || line.len() == 0 {
        st
    } else {
        match section_header_of(line) {
            Some(header) => {
                let closed = finish_open_of(st.open, wanted);
                if closed is Some {
                    ManifestScan { in_dependencies: st.in_dependencies, open: None, found: closed }
                } else {
                    match dependency_table_key_of(header) {
                        Some(key) => ManifestScan {
                            in_dependencies: true,
                            open: Some((key, None)),
                            found: None,
                        },
                        None => ManifestScan {
                            in_dependencies: is_dependencies_section_of(header),
                            open: None,
                            found: None,
                        },
                    }
                }
            },
            None => if !st.in_dependencies {
                st
            } else if st.open is Some && line[0] == '}' {
                let closed = finish_open_of(st.open, wanted);
                let after = ManifestScan { in_dependencies: st.in_dependencies, open: None, found: None };
                if closed is Some {
                    ManifestScan { in_dependencies: st.in_dependencies, open: None, found: closed }
                } else {
                    dependency_line(after, line, wanted)
                }
            } else {
                match st.open {
                    Some((key, _)) => match string_assignment_of(line, "package"@) {
                        Some(pkg) => ManifestScan {
                            in_dependencies: st.in_dependencies,
                            open: Some((key, Some(pkg))),
                            found: None,
                        },
                        None => st,
                    },
                    None => dependency_line(st, line, wanted),
                }
            },
        }
    }
}

pub open spec fn manifest_scan(ls: Seq<Seq<char>>, wanted: Seq<char>, n: nat) -> ManifestScan
    decreases n,
{
    if n == 0 {
        ManifestScan { in_dependencies: false, open: None, found: None }
    } else {
        manifest_step(manifest_scan(ls, wanted, (n - 1) as nat), ls[n - 1], wanted)
    }
}

/// How `wanted` appears in the manifest `text`: the package itself, a dependency under a
/// rustc name, or not at all (`Err`, also for a manifest without a `[package]` name).
pub open spec fn manifest_lookup(text: Seq<char>, wanted: Seq<char>) -> Result<Found, ()> {
    match package_name_of(text) {
        None => Err(()),
        Some(name) => if name == wanted {
            Ok(Found::Itself)
        } else {
            let ls = lines_of(text);
            let st = manifest_scan(ls, wanted, ls.len());
            match st.found {
                Some(f) => Ok(f),
                None => match finish_open_of(st.open, wanted) {
                    Some(f) => Ok(f),
                    None => Err(()),
                },
            }
        },
    }
}

/// `line` up to its first `#`.
pub fn strip_comment(line: &str) -> (res: &str)
    ensures
        res@ == strip_comment_of(line@),
{
    proof {
        reveal(strip_comment_of);
    }
    match find_char(line, '#') {
        Some(i) => {
            proof {
                lemma_first_index(line@, '#', i as int);
            }
            line.substring_char(0, i)
        },
        None => line,
    }
}

pub fn section_header(line: &str) -> (res: Option<&str>)
    ensures
        match res {
            Some(h) => section_header_of(line@) == Some(h@),
            None => section_header_of(line@) is None,
        },
{
    proof {
        reveal(section_header_of);
    }
    let line = trim(line);
    if !starts_with_char(line, '[') || !ends_with_char(line, ']') {
        return None;
    }
    let n = line.unicode_len();
    Some(trim(line.substring_char(1, n - 1)))
}

pub fn is_dependencies_section(header: &str) -> (res: bool)
    ensures
        res == is_dependencies_section_of(header@),
{
    proof {
        reveal(is_dependencies_section_of);
    }
    str_eq(header, "dependencies") || str_eq(header, "dev-dependencies") || str_eq(
        header,
        "build-dependencies",
    ) || starts_with(header, "target.") && (ends_with(header, ".dependencies") || ends_with(
        header,
        ".dev-dependencies",
    ) || ends_with(header, ".build-dependencies"))
}

pub fn is_ident_key(key: &str) -> (res: bool)
    ensures
        res == is_ident_key_of(key@),
{
    proof {
        reveal(is_ident_key_of);
    }
    let n = key.unicode_len();
    if n == 0 {
        return false;
    }
    let mut i: usize = 0;
    while i < n
        invariant
            n == key@.len(),
            i <= n,
            forall|k: int| 0 <= k < i ==> is_ident_char(#[trigger] key@[k]),
        decreases n - i,
    {
        let c = key.get_char(i);
        let ok = ('0' <= c && c <= '9') || ('a' <= c && c <= 'z') || ('A' <= c && c <= 'Z')
            || c == '_' || c == '-';
        if !ok {
            proof {
                reveal(is_ident_key_of);
            }
            assert(!is_ident_char(key@[i as int]));
            return false;
        }
        i = i + 1;
    }
    true
}

pub fn dependency_table_key(header: &str) -> (res: Option<&str>)
    ensures
        match res {
            Some(k) => dependency_table_key_of(header@) == Some(k@),
            None => dependency_table_key_of(header@) is None,
        },
{
    proof {
        reveal(dependency_table_key_of);
    }
    let p1 = "dependencies.";
    let p2 = "dev-dependencies.";
    let p3 = "build-dependencies.";
    if let Some(key) = strip_prefix(header, p1) {
        if is_ident_key(key) {
            return Some(key);
        }
    }
    if let Some(key) = strip_prefix(header, p2) {
        if is_ident_key(key) {
            return Some(key);
        }
    }
    if let Some(key) = strip_prefix(header, p3) {
        if is_ident_key(key) {
            return Some(key);
        }
    }
    None
}

pub fn split_assignment(line: &str) -> (res: Option<(&str, &str)>)
    ensures
        match res {
            Some((k, r)) => split_assignment_of(line@) == Some((k@, r@)),
            None => split_assignment_of(line@) is None,
        },
{
    proof {
        reveal(split_assignment_of);
    }
    let eq = match find_char(line, '=') {
        Some(eq) => eq,
        None => return None,
    };
    proof {
        lemma_first_index(line@, '=', eq as int);
    }
    let n = line.unicode_len();
    let key = trim(line.substring_char(0, eq));
    let rest = trim(line.substring_char(eq + 1, n));
    Some((key, rest))
}

pub fn parse_string(value: &str) -> (res: Option<String>)
    ensures
        opt_view(res) == parse_string_of(value@),
{
    proof {
        reveal(parse_string_of);
    }
    let value = trim(value);
    if let Some(v) = strip_prefix_char(value, '"') {
        if let Some(v) = strip_suffix_char(v, '"') {
            return Some(v.to_owned());
        }
    }
    if let Some(v) = strip_prefix_char(value, '\'') {
        if let Some(v) = strip_suffix_char(v, '\'') {
            return Some(v.to_owned());
        }
    }
    None
}

pub fn is_string_literal(value: &str) -> (res: bool)
    ensures
        res == parse_string_of(value@) is Some,
{
    parse_string(value).is_some()
}

pub fn string_assignment(line: &str, field: &str) -> (res: Option<String>)
    ensures
        opt_view(res) == string_assignment_of(line@, field@),
{
    proof {
        reveal(string_assignment_of);
    }
    let (key, rest) = match split_assignment(line) {
        Some(pair) => pair,
        None => return None,
    };
    if !str_eq(key, field) {
        return None;
    }
    parse_string(trim(rest))
}

pub fn inline_table_package(table: &str) -> (res: Option<String>)
    ensures
        opt_view(res) == inline_table_package_of(table@),
{
    proof {
        reveal(inline_table_package_of);
    }
    let body = trim(table);
    let body = match strip_prefix_char(body, '{') {
        Some(b) => trim(b),
        None => return None,
    };
    let body = match strip_suffix_char(body, '}') {
        Some(b) => trim(b),
        None => return None,
    };
    let parts = split_char(body, ',');
    let ghost all = split_of(body@, ',');
    assert(inline_table_package_of(table@) == first_package(all));
    let mut i: usize = 0;
    while i < parts.len()
        invariant
            inline_table_package_of(table@) == first_package(all),
            i <= parts@.len(),
            parts@.len() == all.len(),
            forall|k: int| 0 <= k < parts@.len() ==> #[trigger] parts@[k]@ == all[k],
            first_package(all) == first_package(all.skip(i as int)),
        decreases parts@.len() - i,
    {
        assert(all.skip(i as int).drop_first() =~= all.skip(i + 1));
        assert(all.skip(i as int)[0] == all[i as int]);
        if let Some(pkg) = string_assignment(trim(parts[i]), "package") {
            return Some(pkg);
        }
        i = i + 1;
    }
    None
}

pub fn inline_dependency(line: &str) -> (res: Option<(String, Option<String>)>)
    ensures
        match res {
            Some((k, p)) => inline_dependency_of(line@) == Some((k@, opt_view(p))),
            None => inline_dependency_of(line@) is None,
        },
{
    proof {
        reveal(inline_dependency_of);
    }
    let (key, rest) = match split_assignment(line) {
        Some(pair) => pair,
        None => return None,
    };
    if !is_ident_key(key) {
        return None;
    }
    let rest = trim(rest);
    if starts_with_char(rest, '{') && contains_char(rest, '}') {
        let package = inline_table_package(rest);
        return Some((key.to_owned(), package));
    }
    if is_string_literal(rest) || is_version(rest) {
        return Some((key.to_owned(), None));
    }
    None
}

fn is_version(rest: &str) -> (res: bool)
    ensures
        res == is_version_text(rest@),
{
    let n = rest.unicode_len();
    let mut i: usize = 0;
    while i < n
        invariant
            n == rest@.len(),
            i <= n,
            forall|k: int| 0 <= k < i ==> ('0' <= #[trigger] rest@[k] <= '9' || rest@[k] == '.'),
        decreases n - i,
    {
        let c = rest.get_char(i);
        if !(('0' <= c && c <= '9') || c == '.') {
            return false;
        }
        i = i + 1;
    }
    true
}

pub fn multiline_table_start(line: &str) -> (res: Option<String>)
    ensures
        opt_view(res) == multiline_table_start_of(line@),
{
    proof {
        reveal(multiline_table_start_of);
    }
    let (key, rest) = match split_assignment(line) {
        Some(pair) => pair,
        None => return None,
    };
    if !is_ident_key(key) {
        return None;
    }
    let rest = trim(rest);
    let brace = "{";
    proof {
        reveal_strlit("{");
    }
    assert(brace@ =~= seq!['{']);
    if str_eq(rest, brace) || (starts_with_char(rest, '{') && !contains_char(rest, '}')) {
        return Some(key.to_owned());
    }
    None
}

pub fn match_dep(key: &str, package_field: Option<&str>, wanted: &str) -> (res: Option<
    FoundCrate,
>)
    ensures
        found_view(res) == match_dep_of(
            key@,
            match package_field {
                Some(p) => Some(p@),
                None => None,
            },
            wanted@,
        ),
{
    proof {
        reveal(match_dep_of);
    }
    let resolved = match package_field {
        Some(p) => p,
        None => key,
    };
    if !str_eq(resolved, wanted) {
        return None;
    }
    let name = replace_char(key, '-', '_');
    assert(name@ =~= rustc_name(key@));
    Some(FoundCrate::Name(name))
}

fn package_of(table: &OpenTable) -> (res: Option<&str>)
    ensures
        opt_view(table.package) == match res {
            Some(p) => Some(p@),
            None => None,
        },
{
    match &table.package {
        Some(p) => Some(p.as_str()),
        None => None,
    }
}

pub fn finish_open(open: &mut Option<OpenTable>, wanted: &str) -> (res: Option<FoundCrate>)
    ensures
        *final(open) is None,
        found_view(res) == finish_open_of(open_view(*old(open)), wanted@),
{
    let table = match open.take() {
        Some(t) => t,
        None => return None,
    };
    let package = package_of(&table);
    match_dep(table.key.as_str(), package, wanted)
}

pub fn finish_open_if_closed(open: &mut Option<OpenTable>, wanted: &str, line: &str) -> (res:
    Option<FoundCrate>)
    ensures
        if open_view(*old(open)) is Some && line@.len() > 0 && line@[0] == '}' {
            &&& *final(open) is None
            &&& found_view(res) == finish_open_of(open_view(*old(open)), wanted@)
        } else {
            &&& open_view(*final(open)) == open_view(*old(open))
            &&& res is None
        },
{
    if open.is_none() {
        return None;
    }
    let close = "}";
    proof {
        reveal_strlit("}");
    }
    if str_eq(line, close) || starts_with_char(line, '}') {
        return finish_open(open, wanted);
    }
    None
}

/// The `name` the manifest's `[package]` section gives.
pub fn package_name(text: &str) -> (res: Option<String>)
    ensures
        opt_view(res) == package_name_of(text@),
{
    let ls = lines(text);
    let ghost all = lines_of(text@);
    let mut in_package = false;
    let mut i: usize = 0;
    while i < ls.len()
        invariant
            i <= ls@.len(),
            ls@.len() == all.len(),
            all == lines_of(text@),
            forall|k: int| 0 <= k < ls@.len() ==> #[trigger] ls@[k]@ == all[k],
            package_scan(all, i as nat) == (in_package, None::<Seq<char>>),
        decreases ls@.len() - i,
    {
        let line = trim(strip_comment(ls[i]));
        if line.unicode_len() == 0 {
            i = i + 1;
            continue;
        }
        if let Some(header) = section_header(line) {
            in_package = str_eq(header, "package");
            i = i + 1;
            continue;
        }
        if in_package {
            if let Some(name) = string_assignment(line, "name") {
                proof {
                    lemma_package_scan_stops(all, (i + 1) as nat, all.len());
                }
                return Some(name);
            }
        }
        i = i + 1;
    }
    None
}

/// Once the name is found, later lines change nothing.
proof fn lemma_package_scan_stops(ls: Seq<Seq<char>>, n: nat, m: nat)
    requires
        n <= m,
        package_scan(ls, n).1 is Some,
    ensures
        package_scan(ls, m).1 == package_scan(ls, n).1,
    decreases m - n,
{
    if n < m {
        lemma_package_scan_stops(ls, n, (m - 1) as nat);
    }
}

/// Once the answer is found, later lines change nothing.
proof fn lemma_manifest_scan_stops(ls: Seq<Seq<char>>, wanted: Seq<char>, n: nat, m: nat)
    requires
        n <= m,
        manifest_scan(ls, wanted, n).found is Some,
    ensures
        manifest_scan(ls, wanted, m) == manifest_scan(ls, wanted, n),
    decreases m - n,
{
    if n < m {
        lemma_manifest_scan_stops(ls, wanted, n, (m - 1) as nat);
    }
}

/// Look up `package` in the manifest `text`.
pub fn find_in_manifest(text: &str, package: &str) -> (res: Result<FoundCrate, ()>)
    ensures
        match res {
            Ok(f) => manifest_lookup(text@, package@) == Ok::<Found, ()>(f@),
            Err(()) => manifest_lookup(text@, package@) is Err,
        },
{
    let pkg_name = match package_name(text) {
        Some(name) => name,
        None => return Err(()),
    };
    if str_eq(pkg_name.as_str(), package) {
        return Ok(FoundCrate::Itself);
    }
    let ls = lines(text);
    let ghost all = lines_of(text@);
    let mut in_dependencies = false;
    let mut open: Option<OpenTable> = None;
    let mut i: usize = 0;
    while i < ls.len()
        invariant
            i <= ls@.len(),
            ls@.len() == all.len(),
            all == lines_of(text@),
            package_name_of(text@) == Some(pkg_name@),
            pkg_name@ != package@,
            forall|k: int| 0 <= k < ls@.len() ==> #[trigger] ls@[k]@ == all[k],
            manifest_scan(all, package@, i as nat) == (ManifestScan {
                in_dependencies,
                open: open_view(open),
                found: None,
            }),
        decreases ls@.len() - i,
    {
        let line = trim(strip_comment(ls[i]));
        let ghost st = manifest_scan(all, package@, i as nat);
        let ghost next = manifest_scan(all, package@, (i + 1) as nat);
        assert(next == manifest_step(st, all[i as int], package@));
        if line.unicode_len() == 0 {
            i = i + 1;
            continue;
        }
        if let Some(header) = section_header(line) {
            if let Some(found) = finish_open(&mut open, package) {
                assert(clean_line(all[i as int]) == line@);
                assert(section_header_of(line@) is Some);
                assert(finish_open_of(st.open, package@) == Some(found@));
                assert(next.found == Some(found@));
                proof {
                    lemma_manifest_scan_stops(all, package@, (i + 1) as nat, all.len());
                }
                return Ok(found);
            }
            if let Some(key) = dependency_table_key(header) {
                in_dependencies = true;
                open = Some(OpenTable { key: key.to_owned(), package: None });
                i = i + 1;
                continue;
            }
            in_dependencies = is_dependencies_section(header);
            i = i + 1;
            continue;
        }
        if !in_dependencies {
            i = i + 1;
            continue;
        }
        if let Some(found) = finish_open_if_closed(&mut open, package, line) {
            proof {
                lemma_manifest_scan_stops(all, package@, (i + 1) as nat, all.len());
            }
            return Ok(found);
        }
        if open.is_some() {
            if let Some(pkg) = string_assignment(line, "package") {
                if let Some(t) = open.take() {
                    open = Some(OpenTable { key: t.key, package: Some(pkg) });
                }
            }
            i = i + 1;
            continue;
        }
        if let Some((key, value)) = inline_dependency(line) {
            let value_ref = match &value {
                Some(v) => Some(v.as_str()),
                None => None,
            };
            if let Some(found) = match_dep(key.as_str(), value_ref, package) {
                proof {
                    lemma_manifest_scan_stops(all, package@, (i + 1) as nat, all.len());
                }
                return Ok(found);
            }
            i = i + 1;
            continue;
        }
        if let Some(key) = multiline_table_start(line) {
            open = Some(OpenTable { key, package: None });
        }
        i = i + 1;
    }
    match finish_open(&mut open, package) {
        Some(found) => Ok(found),
        None => Err(()),
    }
}

/// A dependency's rustc name: never the package itself, and never holding a `-`.
pub open spec fn is_rustc_name(found: Found) -> bool {
    match found {
        Found::Name(name) => !name.contains('-'),
        Found::Itself => false,
    }
}

proof fn lemma_match_dep_is_rustc_name(
    key: Seq<char>,
    package_field: Option<Seq<char>>,
    wanted: Seq<char>,
)
    ensures
        match_dep_of(key, package_field, wanted) matches Some(f) ==> is_rustc_name(f),
{
    reveal(match_dep_of);
    if let Some(Found::Name(name)) = match_dep_of(key, package_field, wanted) {
        assert forall|i: int| 0 <= i < name.len() implies name[i] != '-' by {
            assert(name[i] == (if key[i] == '-' { '_' } else { key[i] }));
        }
    }
}

proof fn lemma_scan_finds_rustc_names(ls: Seq<Seq<char>>, wanted: Seq<char>, n: nat)
    ensures
        manifest_scan(ls, wanted, n).found matches Some(f) ==> is_rustc_name(f),
        manifest_scan(ls, wanted, n).open matches Some((key, package)) ==> (
        finish_open_of(Some((key, package)), wanted) matches Some(f) ==> is_rustc_name(f)),
    decreases n,
{
    if n > 0 {
        let prev = manifest_scan(ls, wanted, (n - 1) as nat);
        lemma_scan_finds_rustc_names(ls, wanted, (n - 1) as nat);
        if let Some((key, package)) = prev.open {
            lemma_match_dep_is_rustc_name(key, package, wanted);
        }
        let line = clean_line(ls[n - 1]);
        if let Some((key, value)) = inline_dependency_of(line) {
            lemma_match_dep_is_rustc_name(key, value, wanted);
        }
        let st = manifest_scan(ls, wanted, n);
        if let Some((key, package)) = st.open {
            lemma_match_dep_is_rustc_name(key, package, wanted);
        }
    }
}

/// The manifest answers `Itself` exactly when its own `[package]` name is the one sought.
pub proof fn lemma_itself_exactly_for_own_package(text: Seq<char>, wanted: Seq<char>)
    ensures
        (manifest_lookup(text, wanted) == Ok::<Found, ()>(Found::Itself)) <==> package_name_of(
            text,
        ) == Some(wanted),
{
    let ls = lines_of(text);
    lemma_scan_finds_rustc_names(ls, wanted, ls.len());
}

/// A dependency is reported under its rustc crate name, with every `-` already folded.
pub proof fn lemma_dependency_names_are_folded(text: Seq<char>, wanted: Seq<char>)
    ensures
        manifest_lookup(text, wanted) matches Ok(Found::Name(name)) ==> !name.contains('-'),
{
    let ls = lines_of(text);
    lemma_scan_finds_rustc_names(ls, wanted, ls.len());
}

/// Without a `[package]` name there is nothing to resolve against.
pub proof fn lemma_no_package_name_no_answer(text: Seq<char>, wanted: Seq<char>)
    ensures
        package_name_of(text) is None ==> manifest_lookup(text, wanted) is Err,
{
}

proof fn lemma_least_index(s: Seq<char>, c: char, k: int) -> (i: int)
    requires
        0 <= k <= s.len(),
        s.contains(c),
        forall|j: int| 0 <= j < k ==> s[j] != c,
    ensures
        0 <= i < s.len(),
        s[i] == c,
        forall|j: int| 0 <= j < i ==> s[j] != c,
    decreases s.len() - k,
{
    if k < s.len() && s[k] == c {
        k
    } else {
        if k == s.len() {
            let w = choose|w: int| 0 <= w < s.len() && s[w] == c;
            assert(s[w] != c);
        }
        lemma_least_index(s, c, k + 1)
    }
}

/// A comment is cut at its first `#`: what is left holds no `#` and is the start of the line,
/// and a line without `#` is kept whole.
pub proof fn lemma_a_comment_is_cut(line: Seq<char>)
    ensures
        !strip_comment_of(line).contains('#'),
        strip_comment_of(line).is_prefix_of(line),
        !line.contains('#') ==> strip_comment_of(line) == line,
{
    reveal(strip_comment_of);
    if line.contains('#') {
        let i = lemma_least_index(line, '#', 0);
        lemma_first_index(line, '#', i);
        let t = line.take(i);
        if t.contains('#') {
            let k = choose|k: int| 0 <= k < t.len() && t[k] == '#';
            assert(line[k] == '#');
        }
    }
}

/// A quoted string reads as the text between its quotes, in double or single quotes.
pub proof fn lemma_a_quoted_string_reads_as_its_text(t: Seq<char>)
    ensures
        parse_string_of(seq!['"'] + t + seq!['"']) == Some(t),
        parse_string_of(seq!['\''] + t + seq!['\'']) == Some(t),
{
    reveal(parse_string_of);
    let d = seq!['"'] + t + seq!['"'];
    let q = seq!['\''] + t + seq!['\''];
    crate::text::lemma_trim_unchanged(d);
    crate::text::lemma_trim_unchanged(q);
    assert(d.subrange(1, d.len() - 1) =~= t);
    assert(q.subrange(1, q.len() - 1) =~= t);
}

/// The crate name rustc uses is the key with every `-` folded to `_`, nothing else changed.
pub proof fn lemma_rustc_name_folds_dashes(key: Seq<char>)
    ensures
        rustc_name(key).len() == key.len(),
        !rustc_name(key).contains('-'),
        forall|i: int| 0 <= i < key.len() && key[i] != '-' ==> #[trigger] rustc_name(key)[i] == key[i],
        forall|i: int| 0 <= i < key.len() && key[i] == '-' ==> #[trigger] rustc_name(key)[i] == '_',
{
    if rustc_name(key).contains('-') {
        let i = choose|i: int| 0 <= i < rustc_name(key).len() && rustc_name(key)[i] == '-';
        assert(rustc_name(key)[i] == (if key[i] == '-' { '_' } else { key[i] }));
    }
}

/// A dependency is the one sought exactly when the package it names (its `package` field, else
/// its key) is the one sought, and it is then imported under its key, folded.
pub proof fn lemma_a_dependency_is_found_by_its_package(key: Seq<char>, package_field: Option<Seq<char>>, wanted: Seq<char>)
    ensures
        package_field matches Some(p) ==> (match_dep_of(key, package_field, wanted) is Some <==> p == wanted),
        package_field is None ==> (match_dep_of(key, package_field, wanted) is Some <==> key == wanted),
        match_dep_of(key, package_field, wanted) is Some ==> match_dep_of(key, package_field, wanted) == Some(Found::Name(rustc_name(key))),
{
    reveal(match_dep_of);
}

} // verus!
