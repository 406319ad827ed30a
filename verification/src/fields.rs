//! What one field of a command decides on its own: the selectors it answers to, whether a
//! view of the command carries it, whether giving it twice is a mistake, and how the groups
//! its fields name gather their members.

use vstd::prelude::*;
use vstd::string::*;

use crate::case::{default_kebab_of, to_kebab};
use crate::text::{str_eq, trim, trim_of};
use crate::unicode::push_char;

verus! {

broadcast use vstd::seq_lib::group_seq_properties;

/// What a field is to the command line.
pub enum FieldKind {
    /// A flag, by its long names, the long names it answers to without listing them, its
    /// short names, its negative spelling, and whether subcommands see it too.
    Flag {
        longs: Vec<String>,
        hidden_longs: Vec<String>,
        shorts: Vec<char>,
        negate: Option<String>,
        global: bool,
    },
    /// A positional argument.
    Arg,
    /// Another struct's flags and arguments, in this command.
    Flatten,
    /// A group of arguments declared as a struct of its own.
    ArgGroup,
    /// The subcommand.
    Subcommand,
    /// Nothing the command line fills.
    Skip,
}

/// How many values a field takes from the command line.
#[derive(Clone, Copy, PartialEq, Eq, Structural, Debug)]
pub enum Repetition {
    /// One.
    Single,
    /// A count of how often the flag was given.
    Count,
    /// Any number, collected.
    Many,
}

/// A field of a command, as far as the decisions here read it.
pub struct FieldDecl {
    /// The field's identifier.
    pub ident: String,
    /// The name an argument is shown and selected by.
    pub name: String,
    pub kind: FieldKind,
    pub repetition: Repetition,
    /// `var`: a value-taking flag that may be given again.
    pub repeatable: bool,
}

/// The command's stance on a flag given twice.
#[derive(Clone, Copy, PartialEq, Eq, Structural, Debug)]
pub struct CommandPolicy {
    /// The later of two occurrences wins, rather than the second being an error.
    pub args_override_self: bool,
    /// The command composes with others, which makes every flag strict.
    pub composable: bool,
}

/// A declared view of the command: which root globals it carries.
pub struct ViewDecl {
    pub all_globals: bool,
    /// Globals by selector: `--long` or `-s`.
    pub globals: Vec<String>,
}

/// `--long`.
pub open spec fn long_selector(long: Seq<char>) -> Seq<char> {
    seq!['-', '-'] + long
}

/// `-s`.
pub open spec fn short_selector(short: char) -> Seq<char> {
    seq!['-', short]
}


pub open spec fn longs_of(longs: Seq<String>) -> Seq<Seq<char>> {
    longs.map_values(|l: String| long_selector(l@))
}

pub open spec fn shorts_of(shorts: Seq<char>) -> Seq<Seq<char>> {
    shorts.map_values(|c: char| short_selector(c))
}

pub open spec fn negation_of(negate: Option<String>) -> Seq<Seq<char>> {
    match negate {
        Some(n) => seq![long_selector(n@)],
        None => seq![],
    }
}

/// The selectors a field is named by elsewhere in a declaration: a flag's long names, short
/// names and negation; an argument's name, and its identifier in the default kebab case where that is
/// another name.
pub open spec fn selectors_of(field: FieldDecl) -> Seq<Seq<char>> {
    match field.kind {
        FieldKind::Flag { longs, shorts, negate, .. } => longs_of(longs@) + shorts_of(shorts@)
            + negation_of(negate),
        FieldKind::Arg => {
            let inferred = default_kebab_of(field.ident@);
            if inferred == field.name@ {
                seq![field.name@]
            } else {
                seq![field.name@, inferred]
            }
        },
        _ => seq![],
    }
}

/// A global flag's selectors as a view names them: every long name, listed or not, and the
/// negation, which for a flag that only has a negative spelling is its only name; then the
/// short names.
pub open spec fn view_selectors_of(field: FieldDecl) -> Seq<Seq<char>> {
    match field.kind {
        FieldKind::Flag { longs, hidden_longs, shorts, negate, .. } => longs_of(longs@)
            + longs_of(hidden_longs@) + negation_of(negate) + shorts_of(shorts@),
        _ => seq![],
    }
}

pub open spec fn is_global_flag(field: FieldDecl) -> bool {
    field.kind matches FieldKind::Flag { global, .. } && global
}

/// Whether the view carries the field: it is a root global flag, and the view carries every
/// global or names one of its selectors.
pub open spec fn active_in_view(field: FieldDecl, view: ViewDecl) -> bool {
    &&& is_global_flag(field)
    &&& view.all_globals || exists|i: int, j: int|
        0 <= i < view.globals@.len() && 0 <= j < view_selectors_of(field).len()
            && #[trigger] view.globals@[i]@ == #[trigger] view_selectors_of(field)[j]
}

pub(crate) fn long_selector_string(long: &str) -> (res: String)
    ensures
        res@ == long_selector(long@),
{
    let mut s = String::from_str("--");
    proof {
        reveal_strlit("--");
    }
    s.append(long);
    s
}

pub(crate) fn short_selector_string(short: char) -> (res: String)
    ensures
        res@ == short_selector(short),
{
    let mut s = String::from_str("-");
    proof {
        reveal_strlit("-");
    }
    push_char(&mut s, short);
    s
}

/// The selectors a field is named by, in the order the declaration's lookups try them.
pub fn field_selectors(field: &FieldDecl) -> (res: Vec<String>)
    ensures
        res@.map_values(|s: String| s@) == selectors_of(*field),
{
    let mut out: Vec<String> = Vec::new();
    match &field.kind {
        FieldKind::Flag { longs, shorts, negate, .. } => {
            push_longs(&mut out, longs);
            push_shorts(&mut out, shorts);
            push_negation(&mut out, negate);
            assert(out@.map_values(|s: String| s@) =~= selectors_of(*field));
        },
        FieldKind::Arg => {
            let inferred = to_kebab(field.ident.as_str());
            if str_eq(inferred.as_str(), field.name.as_str()) {
                out.push(field.name.clone());
            } else {
                out.push(field.name.clone());
                out.push(inferred);
            }
            assert(out@.map_values(|s: String| s@) =~= selectors_of(*field));
        },
        _ => {
            assert(out@.map_values(|s: String| s@) =~= selectors_of(*field));
        },
    }
    out
}

fn push_longs(out: &mut Vec<String>, longs: &Vec<String>)
    ensures
        final(out)@.map_values(|s: String| s@) == old(out)@.map_values(|s: String| s@) + longs_of(
            longs@,
        ),
{
    let ghost start = out@.map_values(|s: String| s@);
    let mut i: usize = 0;
    while i < longs.len()
        invariant
            i <= longs@.len(),
            out@.map_values(|s: String| s@) == start + longs_of(longs@.take(i as int)),
        decreases longs@.len() - i,
    {
        let ghost before = out@;
        let selector = long_selector_string(longs[i].as_str());
        out.push(selector);
        assert(longs@.take(i + 1) =~= longs@.take(i as int).push(longs@[i as int]));
        assert(out@.map_values(|s: String| s@) =~= before.map_values(|s: String| s@).push(
            long_selector(longs@[i as int]@),
        ));
        assert(out@.map_values(|s: String| s@) =~= start + longs_of(longs@.take(i + 1)));
        i = i + 1;
    }
    assert(longs@.take(longs@.len() as int) =~= longs@);
}

fn push_shorts(out: &mut Vec<String>, shorts: &Vec<char>)
    ensures
        final(out)@.map_values(|s: String| s@) == old(out)@.map_values(|s: String| s@) + shorts_of(
            shorts@,
        ),
{
    let ghost start = out@.map_values(|s: String| s@);
    let mut j: usize = 0;
    while j < shorts.len()
        invariant
            j <= shorts@.len(),
            out@.map_values(|s: String| s@) == start + shorts_of(shorts@.take(j as int)),
        decreases shorts@.len() - j,
    {
        let ghost before = out@;
        let selector = short_selector_string(shorts[j]);
        out.push(selector);
        assert(shorts@.take(j + 1) =~= shorts@.take(j as int).push(shorts@[j as int]));
        assert(out@.map_values(|s: String| s@) =~= before.map_values(|s: String| s@).push(
            short_selector(shorts@[j as int]),
        ));
        assert(out@.map_values(|s: String| s@) =~= start + shorts_of(shorts@.take(j + 1)));
        j = j + 1;
    }
    assert(shorts@.take(shorts@.len() as int) =~= shorts@);
}

fn push_negation(out: &mut Vec<String>, negate: &Option<String>)
    ensures
        final(out)@.map_values(|s: String| s@) == old(out)@.map_values(|s: String| s@)
            + negation_of(*negate),
{
    let ghost before = out@;
    match negate {
        Some(n) => {
            out.push(long_selector_string(n.as_str()));
            assert(out@.map_values(|s: String| s@) =~= before.map_values(|s: String| s@)
                + negation_of(*negate));
        },
        None => {
            assert(out@.map_values(|s: String| s@) =~= before.map_values(|s: String| s@)
                + negation_of(*negate));
        },
    }
}

/// Whether a declared view carries this root field: only a global flag can be carried, by
/// the view carrying every global or naming one of the flag's spellings.
pub fn field_active_in_view(field: &FieldDecl, view: &ViewDecl) -> (res: bool)
    ensures
        res == active_in_view(*field, *view),
{
    match &field.kind {
        FieldKind::Flag { longs, hidden_longs, shorts, negate, global } => {
            if !*global {
                return false;
            }
            if view.all_globals {
                return true;
            }
            let mut selectors: Vec<String> = Vec::new();
            push_longs(&mut selectors, longs);
            push_longs(&mut selectors, hidden_longs);
            push_negation(&mut selectors, negate);
            push_shorts(&mut selectors, shorts);
            let ghost all = view_selectors_of(*field);
            assert(selectors@.map_values(|s: String| s@) =~= all);
            let mut i: usize = 0;
            while i < view.globals.len()
                invariant
                    i <= view.globals@.len(),
                    is_global_flag(*field),
                    !view.all_globals,
                    all == view_selectors_of(*field),
                    selectors@.map_values(|s: String| s@) == all,
                    forall|a: int, b: int|
                        0 <= a < i && 0 <= b < all.len() ==> #[trigger] view.globals@[a]@
                            != #[trigger] all[b],
                decreases view.globals@.len() - i,
            {
                let mut j: usize = 0;
                while j < selectors.len()
                    invariant
                        i < view.globals@.len(),
                        is_global_flag(*field),
                        all == view_selectors_of(*field),
                        j <= selectors@.len(),
                        selectors@.map_values(|s: String| s@) == all,
                        forall|b: int| 0 <= b < j ==> view.globals@[i as int]@ != #[trigger] all[b],
                    decreases selectors@.len() - j,
                {
                    assert(selectors@[j as int]@ == all[j as int]);
                    if str_eq(view.globals[i].as_str(), selectors[j].as_str()) {
                        assert(view.globals@[i as int]@ == view_selectors_of(*field)[j as int]);
                        return true;
                    }
                    j = j + 1;
                }
                i = i + 1;
            }
            false
        },
        _ => false,
    }
}

pub open spec fn rejects_duplicate_of(policy: CommandPolicy, field: FieldDecl) -> bool {
    &&& !policy.args_override_self || policy.composable
    &&& field.kind is Flag
    &&& field.repetition == Repetition::Single
    &&& !field.repeatable
}

/// Whether another occurrence of the field is a mistake on the command line rather than
/// another value.
///
/// Counts and collections repeat by definition, and `var` opts a value-taking flag into
/// repetition. Every other flag is strict only where the command gives up the permissive
/// default that lets the later occurrence win, or composes with others.
pub fn rejects_duplicate(policy: &CommandPolicy, field: &FieldDecl) -> (res: bool)
    ensures
        res == rejects_duplicate_of(*policy, *field),
{
    (!policy.args_override_self || policy.composable) && match field.kind {
        FieldKind::Flag { .. } => true,
        _ => false,
    } && field.repetition == Repetition::Single && !field.repeatable
}

/// Whether a repeat of this flag is a duplicate only within one level of the command line.
///
/// A global flag is in scope for every subcommand and may be given again on one, the inner
/// occurrence winning; repeating it at one level is still a mistake.
pub fn duplicates_per_level(policy: &CommandPolicy, field: &FieldDecl) -> (res: bool)
    ensures
        res == (rejects_duplicate_of(*policy, *field) && is_global_flag(*field)),
{
    rejects_duplicate(policy, field) && match &field.kind {
        FieldKind::Flag { global, .. } => *global,
        _ => false,
    }
}

/// Whether a boolean flag has a negative spelling that overrides its positive one.
pub fn has_negate(field: &FieldDecl) -> (res: bool)
    ensures
        res == (field.kind matches FieldKind::Flag { negate, .. } && negate is Some),
{
    match &field.kind {
        FieldKind::Flag { negate: Some(_), .. } => true,
        _ => false,
    }
}

/// A view that names a global flag's negative spelling carries the flag: the negation is a
/// spelling of the same flag, and for a flag with only a negative spelling it is the only
/// one a view can name.
pub proof fn lemma_a_view_may_name_the_negation(field: FieldDecl, view: ViewDecl, i: int)
    requires
        is_global_flag(field),
        field.kind->Flag_negate is Some,
        0 <= i < view.globals@.len(),
        view.globals@[i]@ == long_selector(field.kind->Flag_negate->0@),
    ensures
        active_in_view(field, view),
{
    let longs = field.kind->Flag_longs;
    let hidden_longs = field.kind->Flag_hidden_longs;
    let negate = field.kind->Flag_negate;
    let j = (longs@.len() + hidden_longs@.len()) as int;
    assert(view_selectors_of(field)[j] == long_selector(negate->0@));
    assert(view.globals@[i]@ == view_selectors_of(field)[j]);
}

/// A view carries exactly the root's global flags when it carries all globals, and never a
/// field that is not a global flag.
pub proof fn lemma_only_global_flags_are_carried(field: FieldDecl, view: ViewDecl)
    ensures
        view.all_globals ==> (active_in_view(field, view) <==> is_global_flag(field)),
        !is_global_flag(field) ==> !active_in_view(field, view),
{
}


/// A group as the command's struct declares it.
pub struct GroupDecl {
    pub name: String,
    /// One of its members has to be given.
    pub required: bool,
    /// More than one of its members may be given.
    pub multiple: bool,
}

/// What one field says of groups: the selector it is named by, where it has one, and the
/// groups it names, in the order written.
pub struct Membership {
    pub selector: Option<String>,
    pub groups: Vec<String>,
}

/// A group the command has: its properties, and its members by selector, in the order their
/// fields are written.
pub struct DeclaredGroup {
    pub name: String,
    pub required: bool,
    pub multiple: bool,
    pub members: Vec<String>,
}

pub type GroupView = (Seq<char>, bool, bool, Seq<Seq<char>>);

pub open spec fn strings_view(v: Seq<String>) -> Seq<Seq<char>> {
    v.map_values(|s: String| s@)
}

pub open spec fn group_view(g: DeclaredGroup) -> GroupView {
    (g.name@, g.required, g.multiple, strings_view(g.members@))
}

pub open spec fn groups_view(groups: Seq<DeclaredGroup>) -> Seq<GroupView> {
    groups.map_values(|g: DeclaredGroup| group_view(g))
}

/// The properties the first declaration named `name` gives; a group nobody declared is
/// neither required nor multiple, the common "at most one of these".
pub open spec fn decl_flags(decls: Seq<GroupDecl>, name: Seq<char>) -> (bool, bool)
    decreases decls.len(),
{
    if decls.len() == 0 {
        (false, false)
    } else if decls[0].name@ == name {
        (decls[0].required, decls[0].multiple)
    } else {
        decl_flags(decls.drop_first(), name)
    }
}

/// The position of the first group at or after `from` named `name`, or -1.
pub open spec fn group_index(groups: Seq<GroupView>, name: Seq<char>, from: int) -> int
    decreases groups.len() - from,
{
    if from < 0 || from >= groups.len() {
        -1
    } else if groups[from].0 == name {
        from
    } else {
        group_index(groups, name, from + 1)
    }
}

/// The groups once the field named by `selector` joins the group `name`: as a new member
/// of a group already gathered, unless it is one already, or as the first of a new group.
pub open spec fn with_member(
    groups: Seq<GroupView>,
    name: Seq<char>,
    selector: Seq<char>,
    decls: Seq<GroupDecl>,
) -> Seq<GroupView> {
    let k = group_index(groups, name, 0);
    if k >= 0 {
        if groups[k].3.contains(selector) {
            groups
        } else {
            groups.update(k, (groups[k].0, groups[k].1, groups[k].2, groups[k].3.push(selector)))
        }
    } else {
        groups.push((name, decl_flags(decls, name).0, decl_flags(decls, name).1, seq![selector]))
    }
}

/// The groups once the field named by `selector` has joined the first `n` of `names`.
pub open spec fn with_memberships(
    groups: Seq<GroupView>,
    selector: Seq<char>,
    names: Seq<Seq<char>>,
    decls: Seq<GroupDecl>,
    n: nat,
) -> Seq<GroupView>
    decreases n,
{
    if n == 0 {
        groups
    } else {
        with_member(
            with_memberships(groups, selector, names, decls, (n - 1) as nat),
            names[n - 1],
            selector,
            decls,
        )
    }
}

/// The groups the first `n` fields gather; a field with no selector joins none.
pub open spec fn groups_upto(fields: Seq<Membership>, decls: Seq<GroupDecl>, n: nat) -> Seq<
    GroupView,
>
    decreases n,
{
    if n == 0 {
        seq![]
    } else {
        let before = groups_upto(fields, decls, (n - 1) as nat);
        let field = fields[n - 1];
        match field.selector {
            None => before,
            Some(selector) => with_memberships(
                before,
                selector@,
                strings_view(field.groups@),
                decls,
                field.groups@.len(),
            ),
        }
    }
}

/// The groups a command's fields gather, in the order their first member is written.
pub open spec fn groups_of(fields: Seq<Membership>, decls: Seq<GroupDecl>) -> Seq<GroupView> {
    groups_upto(fields, decls, fields.len())
}

proof fn lemma_group_index(groups: Seq<GroupView>, name: Seq<char>, from: int)
    requires
        0 <= from,
    ensures
        group_index(groups, name, from) == -1 || (from <= group_index(groups, name, from)
            < groups.len() && groups[group_index(groups, name, from)].0 == name),
        group_index(groups, name, from) == -1 ==> forall|m: int|
            from <= m < groups.len() ==> #[trigger] groups[m].0 != name,
        forall|m: int| from <= m < group_index(groups, name, from) ==> #[trigger] groups[m].0 != name,
    decreases groups.len() - from,
{
    if from < groups.len() && groups[from].0 != name {
        lemma_group_index(groups, name, from + 1);
    }
}

fn decl_flags_of(decls: &Vec<GroupDecl>, name: &str) -> (res: (bool, bool))
    ensures
        res == decl_flags(decls@, name@),
{
    let mut i: usize = 0;
    while i < decls.len()
        invariant
            i <= decls@.len(),
            decl_flags(decls@.skip(i as int), name@) == decl_flags(decls@, name@),
        decreases decls@.len() - i,
    {
        assert(decls@.skip(i as int)[0] == decls@[i as int]);
        if str_eq(decls[i].name.as_str(), name) {
            return (decls[i].required, decls[i].multiple);
        }
        assert(decls@.skip(i as int).drop_first() =~= decls@.skip(i + 1));
        i = i + 1;
    }
    (false, false)
}

fn find_group(groups: &Vec<DeclaredGroup>, name: &str) -> (res: Option<usize>)
    ensures
        match res {
            Some(k) => group_index(groups_view(groups@), name@, 0) == k as int,
            None => group_index(groups_view(groups@), name@, 0) == -1,
        },
{
    let ghost view = groups_view(groups@);
    let mut k: usize = 0;
    while k < groups.len()
        invariant
            k <= groups@.len(),
            view == groups_view(groups@),
            group_index(view, name@, 0) == group_index(view, name@, k as int),
        decreases groups@.len() - k,
    {
        assert(view[k as int].0 == groups@[k as int].name@);
        if str_eq(groups[k].name.as_str(), name) {
            return Some(k);
        }
        k = k + 1;
    }
    None
}

fn contains_string(v: &Vec<String>, s: &str) -> (res: bool)
    ensures
        res == strings_view(v@).contains(s@),
{
    let mut i: usize = 0;
    while i < v.len()
        invariant
            i <= v@.len(),
            forall|m: int| 0 <= m < i ==> #[trigger] v@[m]@ != s@,
        decreases v@.len() - i,
    {
        if str_eq(v[i].as_str(), s) {
            assert(strings_view(v@)[i as int] == s@);
            return true;
        }
        i = i + 1;
    }
    proof {
        if strings_view(v@).contains(s@) {
            let m = choose|m: int| 0 <= m < v@.len() && strings_view(v@)[m] == s@;
            assert(v@[m]@ == s@);
        }
    }
    false
}

fn add_member(groups: &mut Vec<DeclaredGroup>, name: &str, selector: &str, decls: &Vec<GroupDecl>)
    ensures
        groups_view(final(groups)@) == with_member(groups_view(old(groups)@), name@, selector@, decls@),
{
    let ghost before = groups_view(groups@);
    proof {
        lemma_group_index(before, name@, 0);
    }
    match find_group(groups, name) {
        Some(k) => {
            if !contains_string(&groups[k].members, selector) {
                let mut group = groups.remove(k);
                let ghost old_members = group.members@;
                group.members.push(selector.to_owned());
                assert(strings_view(group.members@) =~= strings_view(old_members).push(selector@));
                groups.insert(k, group);
                assert(groups_view(groups@) =~= with_member(before, name@, selector@, decls@));
            }
        },
        None => {
            let (required, multiple) = decl_flags_of(decls, name);
            let mut members: Vec<String> = Vec::new();
            members.push(selector.to_owned());
            assert(strings_view(members@) =~= seq![selector@]);
            groups.push(DeclaredGroup { name: name.to_owned(), required, multiple, members });
            assert(groups_view(groups@) =~= with_member(before, name@, selector@, decls@));
        },
    }
}

/// The groups a command declares, in the order their first member is written, each with the
/// properties of its declaration and its members by selector.
///
/// Membership is written on the fields and the properties on the struct; this joins them.
pub fn declared_groups(fields: &Vec<Membership>, decls: &Vec<GroupDecl>) -> (res: Vec<DeclaredGroup>)
    ensures
        groups_view(res@) == groups_of(fields@, decls@),
{
    let mut groups: Vec<DeclaredGroup> = Vec::new();
    assert(groups_view(groups@) =~= groups_upto(fields@, decls@, 0));
    let mut i: usize = 0;
    while i < fields.len()
        invariant
            i <= fields@.len(),
            groups_view(groups@) == groups_upto(fields@, decls@, i as nat),
        decreases fields@.len() - i,
    {
        let field = &fields[i];
        match &field.selector {
            None => {},
            Some(selector) => {
                let ghost start = groups_view(groups@);
                let ghost names = strings_view(field.groups@);
                let mut j: usize = 0;
                while j < field.groups.len()
                    invariant
                        j <= field.groups@.len(),
                        names == strings_view(field.groups@),
                        groups_view(groups@) == with_memberships(
                            start,
                            selector@,
                            names,
                            decls@,
                            j as nat,
                        ),
                    decreases field.groups@.len() - j,
                {
                    add_member(&mut groups, field.groups[j].as_str(), selector.as_str(), decls);
                    j = j + 1;
                }
            },
        }
        i = i + 1;
    }
    groups
}

/// No two groups share a name, and every group has at least one member, none of them twice.
pub open spec fn groups_distinct(groups: Seq<GroupView>) -> bool {
    &&& forall|a: int, b: int| 0 <= a < b < groups.len() ==> #[trigger] groups[a].0 != #[trigger] groups[b].0
    &&& forall|k: int| 0 <= k < groups.len() ==> (#[trigger] groups[k]).3.len() >= 1 && groups[k].3.no_duplicates()
}

/// The group named `name` lists `selector` among its members.
pub open spec fn lists_member(groups: Seq<GroupView>, name: Seq<char>, selector: Seq<char>) -> bool {
    exists|k: int| 0 <= k < groups.len() && (#[trigger] groups[k]).0 == name && groups[k].3.contains(selector)
}

proof fn lemma_with_member_keeps_distinct(
    groups: Seq<GroupView>,
    name: Seq<char>,
    selector: Seq<char>,
    decls: Seq<GroupDecl>,
)
    requires
        groups_distinct(groups),
    ensures
        groups_distinct(with_member(groups, name, selector, decls)),
{
    lemma_group_index(groups, name, 0);
    let k = group_index(groups, name, 0);
    let after = with_member(groups, name, selector, decls);
    if k >= 0 {
        if !groups[k].3.contains(selector) {
            let members = groups[k].3.push(selector);
            assert(members.no_duplicates()) by {
                assert forall|a: int, b: int| 0 <= a < members.len() && 0 <= b < members.len() && a != b
                    implies members[a] != members[b] by {
                    if a == members.len() - 1 {
                        assert(groups[k].3[b] != selector);
                    } else if b == members.len() - 1 {
                        assert(groups[k].3[a] != selector);
                    }
                }
            }
            assert(after[k].3 == members);
            assert forall|a: int, b: int| 0 <= a < b < after.len() implies #[trigger] after[a].0
                != #[trigger] after[b].0 by {
                assert(after[a].0 == groups[a].0 && after[b].0 == groups[b].0);
            }
        }
    } else {
        assert forall|a: int, b: int| 0 <= a < b < after.len() implies #[trigger] after[a].0
            != #[trigger] after[b].0 by {
            if b == groups.len() {
                assert(groups[a].0 != name);
            }
        }
        assert(seq![selector].no_duplicates());
    }
}

proof fn lemma_with_member_keeps(
    groups: Seq<GroupView>,
    name: Seq<char>,
    selector: Seq<char>,
    decls: Seq<GroupDecl>,
    g: Seq<char>,
    s: Seq<char>,
)
    requires
        lists_member(groups, g, s),
    ensures
        lists_member(with_member(groups, name, selector, decls), g, s),
{
    lemma_group_index(groups, name, 0);
    let k = group_index(groups, name, 0);
    let after = with_member(groups, name, selector, decls);
    let m = choose|m: int| 0 <= m < groups.len() && (#[trigger] groups[m]).0 == g && groups[m].3.contains(s);
    let i = choose|i: int| 0 <= i < groups[m].3.len() && groups[m].3[i] == s;
    assert(after[m].0 == g);
    assert(after[m].3[i] == s);
}

proof fn lemma_with_member_lists(
    groups: Seq<GroupView>,
    name: Seq<char>,
    selector: Seq<char>,
    decls: Seq<GroupDecl>,
)
    ensures
        lists_member(with_member(groups, name, selector, decls), name, selector),
{
    lemma_group_index(groups, name, 0);
    let k = group_index(groups, name, 0);
    let after = with_member(groups, name, selector, decls);
    if k >= 0 {
        if groups[k].3.contains(selector) {
            assert(after[k].0 == name);
        } else {
            assert(after[k].3[groups[k].3.len() as int] == selector);
        }
    } else {
        assert(after[groups.len() as int].3[0] == selector);
    }
}

proof fn lemma_with_memberships_keeps_distinct(
    groups: Seq<GroupView>,
    selector: Seq<char>,
    names: Seq<Seq<char>>,
    decls: Seq<GroupDecl>,
    n: nat,
)
    requires
        groups_distinct(groups),
    ensures
        groups_distinct(with_memberships(groups, selector, names, decls, n)),
    decreases n,
{
    if n > 0 {
        lemma_with_memberships_keeps_distinct(groups, selector, names, decls, (n - 1) as nat);
        lemma_with_member_keeps_distinct(
            with_memberships(groups, selector, names, decls, (n - 1) as nat),
            names[n - 1],
            selector,
            decls,
        );
    }
}

proof fn lemma_with_memberships_keeps(
    groups: Seq<GroupView>,
    selector: Seq<char>,
    names: Seq<Seq<char>>,
    decls: Seq<GroupDecl>,
    n: nat,
    g: Seq<char>,
    s: Seq<char>,
)
    requires
        lists_member(groups, g, s),
    ensures
        lists_member(with_memberships(groups, selector, names, decls, n), g, s),
    decreases n,
{
    if n > 0 {
        lemma_with_memberships_keeps(groups, selector, names, decls, (n - 1) as nat, g, s);
        lemma_with_member_keeps(
            with_memberships(groups, selector, names, decls, (n - 1) as nat),
            names[n - 1],
            selector,
            decls,
            g,
            s,
        );
    }
}

proof fn lemma_with_memberships_lists(
    groups: Seq<GroupView>,
    selector: Seq<char>,
    names: Seq<Seq<char>>,
    decls: Seq<GroupDecl>,
    n: nat,
    j: int,
)
    requires
        0 <= j < n,
    ensures
        lists_member(with_memberships(groups, selector, names, decls, n), names[j], selector),
    decreases n,
{
    let before = with_memberships(groups, selector, names, decls, (n - 1) as nat);
    if j == n - 1 {
        lemma_with_member_lists(before, names[j], selector, decls);
    } else {
        lemma_with_memberships_lists(groups, selector, names, decls, (n - 1) as nat, j);
        lemma_with_member_keeps(before, names[n - 1], selector, decls, names[j], selector);
    }
}

proof fn lemma_groups_upto_distinct(fields: Seq<Membership>, decls: Seq<GroupDecl>, n: nat)
    requires
        n <= fields.len(),
    ensures
        groups_distinct(groups_upto(fields, decls, n)),
    decreases n,
{
    if n > 0 {
        lemma_groups_upto_distinct(fields, decls, (n - 1) as nat);
        let field = fields[n - 1];
        if let Some(selector) = field.selector {
            lemma_with_memberships_keeps_distinct(
                groups_upto(fields, decls, (n - 1) as nat),
                selector@,
                strings_view(field.groups@),
                decls,
                field.groups@.len(),
            );
        }
    }
}

proof fn lemma_groups_upto_keeps(
    fields: Seq<Membership>,
    decls: Seq<GroupDecl>,
    m: nat,
    n: nat,
    g: Seq<char>,
    s: Seq<char>,
)
    requires
        m <= n <= fields.len(),
        lists_member(groups_upto(fields, decls, m), g, s),
    ensures
        lists_member(groups_upto(fields, decls, n), g, s),
    decreases n,
{
    if m < n {
        lemma_groups_upto_keeps(fields, decls, m, (n - 1) as nat, g, s);
        let field = fields[n - 1];
        if let Some(selector) = field.selector {
            lemma_with_memberships_keeps(
                groups_upto(fields, decls, (n - 1) as nat),
                selector@,
                strings_view(field.groups@),
                decls,
                field.groups@.len(),
                g,
                s,
            );
        }
    }
}

/// The gathered groups are a set of groups: no name twice, and every group has members,
/// none of them listed twice however often its field names the group.
pub proof fn lemma_declared_groups_are_distinct(fields: Seq<Membership>, decls: Seq<GroupDecl>)
    ensures
        groups_distinct(groups_of(fields, decls)),
{
    lemma_groups_upto_distinct(fields, decls, fields.len());
}

/// Every group a field with a selector names lists that field among its members.
pub proof fn lemma_every_membership_is_gathered(
    fields: Seq<Membership>,
    decls: Seq<GroupDecl>,
    i: int,
    j: int,
)
    requires
        0 <= i < fields.len(),
        fields[i].selector is Some,
        0 <= j < fields[i].groups@.len(),
    ensures
        lists_member(groups_of(fields, decls), fields[i].groups@[j]@, fields[i].selector->0@),
{
    let field = fields[i];
    let selector = field.selector->0@;
    let names = strings_view(field.groups@);
    lemma_with_memberships_lists(
        groups_upto(fields, decls, i as nat),
        selector,
        names,
        decls,
        field.groups@.len(),
        j,
    );
    assert(groups_upto(fields, decls, (i + 1) as nat) == with_memberships(
        groups_upto(fields, decls, i as nat),
        selector,
        names,
        decls,
        field.groups@.len(),
    ));
    lemma_groups_upto_keeps(fields, decls, (i + 1) as nat, fields.len(), names[j], selector);
}

/// Among the first `n` fields, one with selector `selector` names the group `name`.
pub open spec fn named_by(fields: Seq<Membership>, n: int, name: Seq<char>, selector: Seq<char>) -> bool {
    exists|i: int, j: int|
        0 <= i < n && (#[trigger] fields[i]).selector is Some && fields[i].selector->0@ == selector
            && 0 <= j < fields[i].groups@.len() && (#[trigger] fields[i].groups@[j])@ == name
}

/// Every member of every group is one of the first `n` fields, and names that group.
pub open spec fn all_named(groups: Seq<GroupView>, fields: Seq<Membership>, n: int) -> bool {
    forall|k: int, m: int|
        0 <= k < groups.len() && 0 <= m < groups[k].3.len() ==> named_by(
            fields,
            n,
            groups[k].0,
            #[trigger] groups[k].3[m],
        )
}

proof fn lemma_with_member_keeps_named(
    groups: Seq<GroupView>,
    name: Seq<char>,
    selector: Seq<char>,
    decls: Seq<GroupDecl>,
    fields: Seq<Membership>,
    n: int,
)
    requires
        all_named(groups, fields, n),
        named_by(fields, n, name, selector),
    ensures
        all_named(with_member(groups, name, selector, decls), fields, n),
{
    lemma_group_index(groups, name, 0);
    let k = group_index(groups, name, 0);
    let after = with_member(groups, name, selector, decls);
    assert forall|a: int, m: int| 0 <= a < after.len() && 0 <= m < after[a].3.len() implies named_by(
        fields,
        n,
        after[a].0,
        #[trigger] after[a].3[m],
    ) by {
        if a < groups.len() && m < groups[a].3.len() {
            assert(after[a].0 == groups[a].0 && after[a].3[m] == groups[a].3[m]);
        }
    }
}

proof fn lemma_named_by_grows(fields: Seq<Membership>, m: int, n: int, name: Seq<char>, selector: Seq<char>)
    requires
        m <= n,
        named_by(fields, m, name, selector),
    ensures
        named_by(fields, n, name, selector),
{
    let (i, j) = choose|i: int, j: int|
        0 <= i < m && (#[trigger] fields[i]).selector is Some && fields[i].selector->0@ == selector
            && 0 <= j < fields[i].groups@.len() && (#[trigger] fields[i].groups@[j])@ == name;
    assert(fields[i].groups@[j]@ == name);
}

proof fn lemma_with_memberships_keeps_named(
    groups: Seq<GroupView>,
    fields: Seq<Membership>,
    decls: Seq<GroupDecl>,
    i: int,
    n: nat,
)
    requires
        0 <= i < fields.len(),
        fields[i].selector is Some,
        n <= fields[i].groups@.len(),
        all_named(groups, fields, i + 1),
    ensures
        all_named(
            with_memberships(
                groups,
                fields[i].selector->0@,
                strings_view(fields[i].groups@),
                decls,
                n,
            ),
            fields,
            i + 1,
        ),
    decreases n,
{
    if n > 0 {
        let selector = fields[i].selector->0@;
        let names = strings_view(fields[i].groups@);
        lemma_with_memberships_keeps_named(groups, fields, decls, i, (n - 1) as nat);
        assert(fields[i].groups@[n - 1]@ == names[n - 1]);
        assert(named_by(fields, i + 1, names[n - 1], selector));
        lemma_with_member_keeps_named(
            with_memberships(groups, selector, names, decls, (n - 1) as nat),
            names[n - 1],
            selector,
            decls,
            fields,
            i + 1,
        );
    }
}

proof fn lemma_groups_upto_named(fields: Seq<Membership>, decls: Seq<GroupDecl>, n: nat)
    requires
        n <= fields.len(),
    ensures
        all_named(groups_upto(fields, decls, n), fields, n as int),
    decreases n,
{
    if n > 0 {
        let before = groups_upto(fields, decls, (n - 1) as nat);
        lemma_groups_upto_named(fields, decls, (n - 1) as nat);
        assert forall|k: int, m: int| 0 <= k < before.len() && 0 <= m < before[k].3.len() implies named_by(
            fields,
            n as int,
            before[k].0,
            #[trigger] before[k].3[m],
        ) by {
            lemma_named_by_grows(fields, n - 1, n as int, before[k].0, before[k].3[m]);
        }
        if fields[n - 1].selector is Some {
            lemma_with_memberships_keeps_named(before, fields, decls, n - 1, fields[n - 1].groups@.len());
        }
    }
}

/// Every member of a gathered group is a field that names the group: nothing is gathered
/// that no field declared.
pub proof fn lemma_every_member_names_its_group(
    fields: Seq<Membership>,
    decls: Seq<GroupDecl>,
    k: int,
    m: int,
)
    requires
        0 <= k < groups_of(fields, decls).len(),
        0 <= m < groups_of(fields, decls)[k].3.len(),
    ensures
        named_by(fields, fields.len() as int, groups_of(fields, decls)[k].0, groups_of(fields, decls)[k].3[m]),
{
    lemma_groups_upto_named(fields, decls, fields.len());
    let groups = groups_of(fields, decls);
    assert(groups[k].3[m] == groups[k].3[m]);
}

/// Whether the command enforces a group, and so lists it: a group of one member constrains
/// nothing, and neither does one that is optional and lets several be given.
pub fn group_enforced(group: &DeclaredGroup) -> (res: bool)
    ensures
        res == (group.members@.len() >= 2 && (group.required || !group.multiple)),
{
    group.members.len() >= 2 && (group.required || !group.multiple)
}

/// Where the last `::` in `s` before `end` starts, or -1.
pub open spec fn last_path_separator(s: Seq<char>, end: int) -> int
    decreases end,
{
    if end < 2 || end > s.len() {
        -1
    } else if s[end - 2] == ':' && s[end - 1] == ':' {
        end - 2
    } else {
        last_path_separator(s, end - 1)
    }
}

/// What follows the last `::`, or all of `s` where there is none.
pub open spec fn last_path_segment(s: Seq<char>) -> Seq<char> {
    let k = last_path_separator(s, s.len() as int);
    if k < 0 {
        s
    } else {
        s.skip(k + 2)
    }
}

fn last_segment(s: &str) -> (res: &str)
    ensures
        res@ == last_path_segment(s@),
{
    let n = s.unicode_len();
    let mut end = n;
    while end >= 2
        invariant
            n == s@.len(),
            end <= n,
            last_path_separator(s@, n as int) == last_path_separator(s@, end as int),
        decreases end,
    {
        if s.get_char(end - 2) == ':' && s.get_char(end - 1) == ':' {
            assert(s@.skip(end as int) =~= s@.subrange(end as int, n as int));
            return s.substring_char(end, n);
        }
        end = end - 1;
    }
    s
}

/// The name a flattened struct's flags are grouped under: the last segment of its type as
/// written, in the default kebab case. Two structs whose names end alike share it.
pub fn flagset_name(rendered_type: &str) -> (res: String)
    ensures
        res@ == default_kebab_of(trim_of(last_path_segment(rendered_type@))),
{
    let last = trim(last_segment(rendered_type));
    to_kebab(last)
}

/// A value delimiter as the parser tables hold it: its byte, for an ASCII delimiter. A char
/// that is one byte as a scalar and two in UTF-8 would match inside unrelated characters.
pub fn delimiter_byte(delimiter: Option<char>) -> (res: Option<u8>)
    ensures
        res == match delimiter {
            Some(c) => if (c as u32) < 128 {
                Some(c as u8)
            } else {
                None::<u8>
            },
            None => None,
        },
{
    match delimiter {
        Some(c) => if (c as u32) < 128 {
            Some(c as u8)
        } else {
            None
        },
        None => None,
    }
}

/// Where a relationship lookup by selector is answered: by one of the command's own flags or
/// arguments, or else by asking its flattened structs, then its argument groups, in order.
pub enum Lookup {
    /// The own field at this index answers.
    Own(usize),
    /// No own field answers; these flattened and group fields are asked, in this order.
    Nested(Vec<usize>),
}

/// The first field, from index `i` on, that answers to `selector`.
pub open spec fn answering_from(fs: Seq<FieldDecl>, selector: Seq<char>, i: int) -> Option<int>
    decreases fs.len() - i,
{
    if i < 0 || i >= fs.len() {
        None
    } else if selectors_of(fs[i]).contains(selector) {
        Some(i)
    } else {
        answering_from(fs, selector, i + 1)
    }
}

/// The indices of the first `n` fields that are flattened structs (`groups` false) or
/// argument groups (`groups` true).
pub open spec fn nested_upto(fs: Seq<FieldDecl>, groups: bool, n: nat) -> Seq<int>
    decreases n,
{
    if n == 0 {
        seq![]
    } else {
        let hit = if groups {
            fs[n - 1].kind is ArgGroup
        } else {
            fs[n - 1].kind is Flatten
        };
        nested_upto(fs, groups, (n - 1) as nat) + if hit {
            seq![n - 1]
        } else {
            seq![]
        }
    }
}

/// The order nested declarations are asked in: every flattened struct, then every group.
pub open spec fn nested_order_of(fs: Seq<FieldDecl>) -> Seq<int> {
    nested_upto(fs, false, fs.len()) + nested_upto(fs, true, fs.len())
}

fn answers(field: &FieldDecl, selector: &str) -> (res: bool)
    ensures
        res == selectors_of(*field).contains(selector@),
{
    let sels = field_selectors(field);
    let ghost views = sels@.map_values(|s: String| s@);
    let mut k: usize = 0;
    while k < sels.len()
        invariant
            k <= sels@.len(),
            views == sels@.map_values(|s: String| s@),
            views == selectors_of(*field),
            forall|j: int| 0 <= j < k ==> views[j] != selector@,
        decreases sels.len() - k,
    {
        if str_eq(sels[k].as_str(), selector) {
            assert(views[k as int] == selector@);
            return true;
        }
        k = k + 1;
    }
    false
}

fn nested_indices(fields: &Vec<FieldDecl>, groups: bool, out: &mut Vec<usize>)
    ensures
        final(out)@.map_values(|i: usize| i as int) == old(out)@.map_values(|i: usize| i as int)
            + nested_upto(fields@, groups, fields@.len()),
{
    let ghost start = out@.map_values(|i: usize| i as int);
    let mut i: usize = 0;
    while i < fields.len()
        invariant
            i <= fields@.len(),
            out@.map_values(|i: usize| i as int) == start + nested_upto(fields@, groups, i as nat),
        decreases fields.len() - i,
    {
        let hit = match fields[i].kind {
            FieldKind::ArgGroup => groups,
            FieldKind::Flatten => !groups,
            _ => false,
        };
        let ghost before = out@.map_values(|i: usize| i as int);
        if hit {
            out.push(i);
            assert(out@.map_values(|i: usize| i as int) =~= before + seq![i as int]);
        } else {
            assert(out@.map_values(|i: usize| i as int) =~= before + seq![]);
        }
        i = i + 1;
    }
}

/// Where `argument_state`, `argument_matches` and `displace` answer a lookup by `selector`.
pub fn argument_lookup(fields: &Vec<FieldDecl>, selector: &str) -> (res: Lookup)
    ensures
        match res {
            Lookup::Own(i) => answering_from(fields@, selector@, 0) == Some(i as int),
            Lookup::Nested(order) => answering_from(fields@, selector@, 0) is None && order@.map_values(
                |i: usize| i as int,
            ) == nested_order_of(fields@),
        },
{
    let mut i: usize = 0;
    while i < fields.len()
        invariant
            i <= fields@.len(),
            answering_from(fields@, selector@, 0) == answering_from(fields@, selector@, i as int),
        decreases fields.len() - i,
    {
        if answers(&fields[i], selector) {
            return Lookup::Own(i);
        }
        i = i + 1;
    }
    Lookup::Nested(nested_order(fields))
}

/// The flattened structs, then the argument groups, that a lookup no own field answers asks.
pub fn nested_order(fields: &Vec<FieldDecl>) -> (res: Vec<usize>)
    ensures
        res@.map_values(|i: usize| i as int) == nested_order_of(fields@),
{
    let mut order: Vec<usize> = Vec::new();
    assert(order@.map_values(|i: usize| i as int) =~= Seq::<int>::empty());
    nested_indices(fields, false, &mut order);
    nested_indices(fields, true, &mut order);
    assert(order@.map_values(|i: usize| i as int) =~= nested_order_of(fields@));
    order
}

/// How a warning names a deprecated flag: its first long name, else its first short name,
/// else the field's name; `None` for a field that is not a flag.
pub open spec fn deprecation_spelling_of(field: FieldDecl) -> Option<Seq<char>> {
    match field.kind {
        FieldKind::Flag { longs, shorts, .. } => Some(
            if longs@.len() > 0 {
                long_selector(longs@[0]@)
            } else if shorts@.len() > 0 {
                short_selector(shorts@[0])
            } else {
                field.name@
            },
        ),
        _ => None,
    }
}

/// The spelling a deprecation warning names flag `field` by.
pub fn deprecation_spelling(field: &FieldDecl) -> (res: Option<String>)
    ensures
        match res {
            Some(s) => deprecation_spelling_of(*field) == Some(s@),
            None => deprecation_spelling_of(*field) is None,
        },
{
    match &field.kind {
        FieldKind::Flag { longs, shorts, .. } => {
            if longs.len() > 0 {
                Some(long_selector_string(longs[0].as_str()))
            } else if shorts.len() > 0 {
                Some(short_selector_string(shorts[0]))
            } else {
                Some(field.name.clone())
            }
        },
        _ => None,
    }
}

proof fn lemma_answering_from(fs: Seq<FieldDecl>, selector: Seq<char>, i: int)
    requires
        0 <= i,
    ensures
        match answering_from(fs, selector, i) {
            Some(j) => i <= j < fs.len() && selectors_of(fs[j]).contains(selector) && forall|k: int|
                i <= k < j ==> !selectors_of(#[trigger] fs[k]).contains(selector),
            None => forall|k: int| i <= k < fs.len() ==> !selectors_of(#[trigger] fs[k]).contains(selector),
        },
    decreases fs.len() - i,
{
    if i < fs.len() && !selectors_of(fs[i]).contains(selector) {
        lemma_answering_from(fs, selector, i + 1);
    }
}

proof fn lemma_nested_upto(fs: Seq<FieldDecl>, groups: bool, n: nat)
    requires
        n <= fs.len(),
    ensures
        forall|k: int| 0 <= k < nested_upto(fs, groups, n).len() ==> 0 <= #[trigger] nested_upto(fs, groups, n)[k] < n
            && (if groups { fs[nested_upto(fs, groups, n)[k]].kind is ArgGroup } else { fs[nested_upto(fs, groups, n)[k]].kind is Flatten }),
        forall|k1: int, k2: int|
            0 <= k1 < k2 < nested_upto(fs, groups, n).len() ==> #[trigger] nested_upto(fs, groups, n)[k1]
                < #[trigger] nested_upto(fs, groups, n)[k2],
        forall|j: int|
            0 <= j < n && (if groups { (#[trigger] fs[j]).kind is ArgGroup } else { fs[j].kind is Flatten })
                ==> nested_upto(fs, groups, n).contains(j),
    decreases n,
{
    if n > 0 {
        lemma_nested_upto(fs, groups, (n - 1) as nat);
        let prev = nested_upto(fs, groups, (n - 1) as nat);
        let cur = nested_upto(fs, groups, n);
        assert forall|j: int|
            0 <= j < n && (if groups { (#[trigger] fs[j]).kind is ArgGroup } else { fs[j].kind is Flatten }) implies cur.contains(j) by {
            if j == n - 1 {
                assert(cur[prev.len() as int] == j);
            } else {
                let k = choose|k: int| 0 <= k < prev.len() && prev[k] == j;
                assert(cur[k] == j);
            }
        }
    }
}

/// A lookup by selector is answered by the first field, in declaration order, that answers to
/// the selector; when no own field does, every flattened struct is asked, in order, and then
/// every argument group, in order, each once and nothing else.
pub proof fn lemma_lookup_order(fs: Seq<FieldDecl>, selector: Seq<char>)
    ensures
        match answering_from(fs, selector, 0) {
            Some(j) => 0 <= j < fs.len() && selectors_of(fs[j]).contains(selector) && forall|k: int|
                0 <= k < j ==> !selectors_of(#[trigger] fs[k]).contains(selector),
            None => forall|k: int| 0 <= k < fs.len() ==> !selectors_of(#[trigger] fs[k]).contains(selector),
        },
        forall|k: int| 0 <= k < nested_upto(fs, false, fs.len()).len() ==> (fs[#[trigger] nested_upto(fs, false, fs.len())[k]].kind is Flatten),
        forall|k: int| 0 <= k < nested_upto(fs, true, fs.len()).len() ==> (fs[#[trigger] nested_upto(fs, true, fs.len())[k]].kind is ArgGroup),
        forall|j: int| 0 <= j < fs.len() && (#[trigger] fs[j]).kind is Flatten ==> nested_upto(fs, false, fs.len()).contains(j),
        forall|j: int| 0 <= j < fs.len() && (#[trigger] fs[j]).kind is ArgGroup ==> nested_upto(fs, true, fs.len()).contains(j),
        forall|k1: int, k2: int|
            0 <= k1 < k2 < nested_upto(fs, false, fs.len()).len() ==> #[trigger] nested_upto(fs, false, fs.len())[k1]
                < #[trigger] nested_upto(fs, false, fs.len())[k2],
        forall|k1: int, k2: int|
            0 <= k1 < k2 < nested_upto(fs, true, fs.len()).len() ==> #[trigger] nested_upto(fs, true, fs.len())[k1]
                < #[trigger] nested_upto(fs, true, fs.len())[k2],
        nested_order_of(fs) == nested_upto(fs, false, fs.len()) + nested_upto(fs, true, fs.len()),
{
    lemma_answering_from(fs, selector, 0);
    lemma_nested_upto(fs, false, fs.len());
    lemma_nested_upto(fs, true, fs.len());
}

/// A deprecation warning names a flag by a spelling the flag answers to: its first long name
/// when it has one, else its first short name; only a flag with neither falls back to its name.
pub proof fn lemma_deprecation_names_an_own_spelling(field: FieldDecl)
    ensures
        deprecation_spelling_of(field) is Some <==> field.kind is Flag,
        field.kind matches FieldKind::Flag { longs, shorts, .. } ==> (longs@.len() > 0 || shorts@.len() > 0)
            ==> selectors_of(field).contains(deprecation_spelling_of(field)->0),
        field.kind matches FieldKind::Flag { longs, .. } ==> longs@.len() > 0 ==> deprecation_spelling_of(field)
            == Some(seq!['-', '-'] + longs@[0]@),
{
    if let FieldKind::Flag { longs, shorts, negate, .. } = field.kind {
        let sels = selectors_of(field);
        if longs@.len() > 0 {
            assert(sels[0] == long_selector(longs@[0]@));
        } else if shorts@.len() > 0 {
            assert(longs_of(longs@).len() == 0);
            assert(sels[0] == short_selector(shorts@[0]));
        }
    }
}

} // verus!
