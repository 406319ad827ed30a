//! An `ArgGroup` derive: one switch per variant, of which at most one may be given.
//!
//! The group's tables have the shape of a command's own, so a holding command splices them in
//! as it splices a flattened `Args`. Which member was given, and which two conflict, is decided
//! here; whether a member is required is the holding command's business.

use vstd::prelude::*;
use vstd::string::*;

use crate::fields::{long_selector, long_selector_string, short_selector, short_selector_string};
use crate::hash::{declaration_hash, fnv1a_32, fnv32_offset};
use crate::layer::{key_suffix, key_suffix_of, KeyKind, KEY_INDEX_LIMIT};
use crate::text::str_eq;

verus! {

/// How a member's value is turned from bytes into its type.
#[derive(PartialEq, Eq, Structural, Clone, Copy, Debug)]
pub enum Conversion {
    /// A unit variant: presence is the value.
    Switch,
    /// `PathBuf`, from the platform's bytes.
    Path,
    /// `OsString`, from the platform's bytes.
    OsText,
    /// A `ValueEnum`, through its `from_choice`.
    Choice,
    /// Anything else, through `FromStr` on UTF-8 text.
    Parsed,
}

/// One variant of an argument group.
pub struct GroupMember {
    /// The Rust name of the variant.
    pub ident: String,
    /// Its long name, without dashes.
    pub name: String,
    pub short: Option<char>,
    /// The payload's type as written, when the variant has one.
    pub value_ty: Option<String>,
    /// Whether the payload is a `ValueEnum`.
    pub value_enum: bool,
    pub help: Option<String>,
    pub long_help: Option<String>,
    pub hide: bool,
    pub value_name: Option<String>,
}

/// A `#[derive(ArgGroup)]` enum.
pub struct ArgGroupDecl {
    pub ident: String,
    /// The name the group is reported under.
    pub name: String,
    /// The declaration's text, which the group's keys are minted from.
    pub fingerprint: String,
    pub members: Vec<GroupMember>,
}

/// What the generated code states for one member.
pub struct MemberPlan {
    /// The part of the member's flag key the declaration decides.
    pub key: u64,
    /// `--name`, then `-s` when the member has a short name.
    pub selectors: Vec<String>,
    /// Whether the flag takes a value.
    pub takes_value: bool,
    /// Whether the flag's metadata lists the choices of a `ValueEnum`.
    pub lists_choices: bool,
    pub conversion: Conversion,
}

/// What the generated `ArgGroup` impl states.
pub struct GroupPlan {
    /// The hash the keys' base is mixed from.
    pub declaration: u32,
    pub members: Vec<MemberPlan>,
}

/// A member as plain values: long name, short name, payload type, and whether it is a choice.
pub struct MemberView {
    pub name: Seq<char>,
    pub short: Option<char>,
    pub value_ty: Option<Seq<char>>,
    pub value_enum: bool,
}

pub open spec fn opt_text(o: Option<String>) -> Option<Seq<char>> {
    match o {
        Some(s) => Some(s@),
        None => None,
    }
}

pub open spec fn member_view(m: GroupMember) -> MemberView {
    MemberView { name: m.name@, short: m.short, value_ty: opt_text(m.value_ty), value_enum: m.value_enum }
}

impl View for ArgGroupDecl {
    type V = Seq<MemberView>;

    open spec fn view(&self) -> Seq<MemberView> {
        self.members@.map_values(|m: GroupMember| member_view(m))
    }
}

/// The spellings of `PathBuf` the derive recognizes.
pub open spec fn is_path_type(t: Seq<char>) -> bool {
    t == "PathBuf"@ || t == "std::path::PathBuf"@ || t == "::std::path::PathBuf"@
}

/// The spellings of `OsString` the derive recognizes.
pub open spec fn is_os_string_type(t: Seq<char>) -> bool {
    t == "OsString"@ || t == "std::ffi::OsString"@ || t == "::std::ffi::OsString"@
}

/// How a payload of type `value_ty` is converted; the type is checked before the choice flag.
pub open spec fn conversion_of(value_ty: Option<Seq<char>>, value_enum: bool) -> Conversion {
    match value_ty {
        None => Conversion::Switch,
        Some(t) => if is_path_type(t) {
            Conversion::Path
        } else if is_os_string_type(t) {
            Conversion::OsText
        } else if value_enum {
            Conversion::Choice
        } else {
            Conversion::Parsed
        },
    }
}

/// The selectors a member answers to.
pub open spec fn member_selectors_of(m: MemberView) -> Seq<Seq<char>> {
    seq![long_selector(m.name)] + match m.short {
        Some(c) => seq![short_selector(c)],
        None => seq![],
    }
}

/// What is stated for the member at index `i`.
pub open spec fn member_plan_matches(p: MemberPlan, i: int, m: MemberView) -> bool {
    &&& p.key == key_suffix_of(KeyKind::Flag, i as u64)
    &&& p.selectors@.map_values(|s: String| s@) == member_selectors_of(m)
    &&& p.takes_value == m.value_ty is Some
    &&& p.lists_choices == (m.value_ty is Some && m.value_enum)
    &&& p.conversion == conversion_of(m.value_ty, m.value_enum)
}

/// The group's plan: the declaration hash, and one plan per member in declaration order.
pub open spec fn group_plan_matches(p: GroupPlan, fingerprint: Seq<u8>, ms: Seq<MemberView>) -> bool {
    &&& p.declaration == fnv1a_32(fnv32_offset(), fingerprint)
    &&& p.members@.len() == ms.len()
    &&& forall|i: int| 0 <= i < ms.len() ==> member_plan_matches(#[trigger] p.members@[i], i, ms[i])
}

fn conversion(value_ty: &Option<String>, value_enum: bool) -> (res: Conversion)
    ensures
        res == conversion_of(opt_text(*value_ty), value_enum),
{
    match value_ty {
        None => Conversion::Switch,
        Some(t) => {
            let t = t.as_str();
            if str_eq(t, "PathBuf") || str_eq(t, "std::path::PathBuf") || str_eq(
                t,
                "::std::path::PathBuf",
            ) {
                Conversion::Path
            } else if str_eq(t, "OsString") || str_eq(t, "std::ffi::OsString") || str_eq(
                t,
                "::std::ffi::OsString",
            ) {
                Conversion::OsText
            } else if value_enum {
                Conversion::Choice
            } else {
                Conversion::Parsed
            }
        },
    }
}

fn member_selectors(m: &GroupMember) -> (res: Vec<String>)
    ensures
        res@.map_values(|s: String| s@) == member_selectors_of(member_view(*m)),
{
    let mut out: Vec<String> = Vec::new();
    out.push(long_selector_string(m.name.as_str()));
    if let Some(c) = m.short {
        out.push(short_selector_string(c));
    }
    assert(out@.map_values(|s: String| s@) =~= member_selectors_of(member_view(*m)));
    out
}

/// What the `ArgGroup` impl of `g` states, member by member.
pub fn arg_group_plan(g: &ArgGroupDecl) -> (res: GroupPlan)
    requires
        g.members@.len() <= KEY_INDEX_LIMIT,
    ensures
        group_plan_matches(res, vstd::utf8::encode_utf8(g.fingerprint@), g@),
{
    let declaration = declaration_hash(g.fingerprint.as_str());
    let ghost ms = g@;
    let mut members: Vec<MemberPlan> = Vec::new();
    let mut i: usize = 0;
    while i < g.members.len()
        invariant
            i <= g.members@.len() <= KEY_INDEX_LIMIT,
            ms == g@,
            members@.len() == i,
            forall|k: int| 0 <= k < i ==> member_plan_matches(#[trigger] members@[k], k, ms[k]),
        decreases g.members.len() - i,
    {
        let m = &g.members[i];
        assert(ms[i as int] == member_view(*m));
        let takes_value = m.value_ty.is_some();
        let p = MemberPlan {
            key: key_suffix(KeyKind::Flag, i as u64),
            selectors: member_selectors(m),
            takes_value,
            lists_choices: takes_value && m.value_enum,
            conversion: conversion(&m.value_ty, m.value_enum),
        };
        members.push(p);
        i = i + 1;
    }
    GroupPlan { declaration, members }
}

/// The first member given, in declaration order.
pub open spec fn first_given_from(given: Seq<bool>, i: int) -> Option<int>
    decreases given.len() - i,
{
    if i < 0 || i >= given.len() {
        None
    } else if given[i] {
        Some(i)
    } else {
        first_given_from(given, i + 1)
    }
}

/// The member `any_given` reports: the first given, in declaration order.
pub open spec fn any_given_of(given: Seq<bool>) -> Option<int> {
    first_given_from(given, 0)
}

/// The pair `conflict` reports: the first two members given, in declaration order.
pub open spec fn conflict_of(given: Seq<bool>) -> Option<(int, int)> {
    match first_given_from(given, 0) {
        None => None,
        Some(a) => match first_given_from(given, a + 1) {
            None => None,
            Some(b) => Some((a, b)),
        },
    }
}

fn first_given(given: &Vec<bool>, from: usize) -> (res: Option<usize>)
    ensures
        match res {
            Some(i) => i < given@.len() && first_given_from(given@, from as int) == Some(i as int),
            None => first_given_from(given@, from as int) is None,
        },
{
    let mut i = from;
    while i < given.len()
        invariant
            from <= i,
            first_given_from(given@, from as int) == first_given_from(given@, i as int),
        decreases given.len() - i,
    {
        if given[i] {
            return Some(i);
        }
        i = i + 1;
    }
    None
}

/// Which member of the group was given, by index, where `given[i]` says whether member `i`
/// was.
pub fn any_given(given: &Vec<bool>) -> (res: Option<usize>)
    ensures
        match res {
            Some(i) => any_given_of(given@) == Some(i as int),
            None => any_given_of(given@) is None,
        },
{
    first_given(given, 0)
}

/// The two members the user has to choose between, when more than one was given.
pub fn conflict(given: &Vec<bool>) -> (res: Option<(usize, usize)>)
    ensures
        match res {
            Some((a, b)) => conflict_of(given@) == Some((a as int, b as int)),
            None => conflict_of(given@) is None,
        },
{
    match first_given(given, 0) {
        None => None,
        Some(a) => {
            let n = given.len();
            assert(a < n);
            match first_given(given, a + 1) {
                None => None,
                Some(b) => Some((a, b)),
            }
        },
    }
}

/// The first member, from index `i` on, that answers to `selector`.
pub open spec fn member_for_from(ms: Seq<MemberView>, selector: Seq<char>, i: int) -> Option<int>
    decreases ms.len() - i,
{
    if i < 0 || i >= ms.len() {
        None
    } else if member_selectors_of(ms[i]).contains(selector) {
        Some(i)
    } else {
        member_for_from(ms, selector, i + 1)
    }
}

/// The member a relationship lookup by `selector` reaches: the first that answers to it.
pub open spec fn member_for_of(ms: Seq<MemberView>, selector: Seq<char>) -> Option<int> {
    member_for_from(ms, selector, 0)
}

fn answers_to(m: &GroupMember, selector: &str) -> (res: bool)
    ensures
        res == member_selectors_of(member_view(*m)).contains(selector@),
{
    let sels = member_selectors(m);
    let ghost views = sels@.map_values(|s: String| s@);
    let mut k: usize = 0;
    while k < sels.len()
        invariant
            k <= sels@.len(),
            views == sels@.map_values(|s: String| s@),
            views == member_selectors_of(member_view(*m)),
            forall|j: int| 0 <= j < k ==> views[j] != selector@,
        decreases sels.len() - k,
    {
        if str_eq(sels[k].as_str(), selector) {
            assert(views[k as int] == selector@);
            return true;
        }
        k = k + 1;
    }
    false
}

/// Which member of `g` a lookup by `selector` (`--name` or `-s`) reaches.
pub fn member_for(g: &ArgGroupDecl, selector: &str) -> (res: Option<usize>)
    ensures
        match res {
            Some(i) => member_for_of(g@, selector@) == Some(i as int),
            None => member_for_of(g@, selector@) is None,
        },
{
    let ghost ms = g@;
    let mut i: usize = 0;
    while i < g.members.len()
        invariant
            i <= g.members@.len(),
            ms == g@,
            ms.len() == g.members@.len(),
            member_for_of(ms, selector@) == member_for_from(ms, selector@, i as int),
        decreases g.members.len() - i,
    {
        assert(ms[i as int] == member_view(g.members@[i as int]));
        if answers_to(&g.members[i], selector) {
            return Some(i);
        }
        i = i + 1;
    }
    None
}

proof fn lemma_first_given_from(given: Seq<bool>, i: int)
    requires
        0 <= i,
    ensures
        match first_given_from(given, i) {
            Some(j) => i <= j < given.len() && given[j] && forall|k: int| i <= k < j ==> !given[k],
            None => forall|k: int| i <= k < given.len() ==> !given[k],
        },
    decreases given.len() - i,
{
    if i < given.len() && !given[i] {
        lemma_first_given_from(given, i + 1);
    }
}

/// The pair a conflict reports starts with the member `any_given` reports, and both were
/// given; without a conflict, at most one member was given.
pub proof fn lemma_conflict_starts_at_the_first_given(given: Seq<bool>)
    ensures
        match conflict_of(given) {
            Some((a, b)) => any_given_of(given) == Some(a) && a < b < given.len() && given[a]
                && given[b],
            None => forall|a: int, b: int| 0 <= a < b < given.len() && given[a] ==> !given[b],
        },
{
    lemma_first_given_from(given, 0);
    match first_given_from(given, 0) {
        Some(a) => lemma_first_given_from(given, a + 1),
        None => {},
    }
}

/// How a member's payload is converted, by the type's spelling: a unit variant is a switch;
/// the three spellings of `PathBuf` are paths and the three of `OsString` platform text,
/// whether or not the member is marked a choice; any other type is a choice when marked so
/// and parsed from UTF-8 text otherwise.
pub proof fn lemma_conversion_by_spelling(t: Seq<char>, value_enum: bool)
    ensures
        conversion_of(None, value_enum) == Conversion::Switch,
        conversion_of(Some("PathBuf"@), value_enum) == Conversion::Path,
        conversion_of(Some("std::path::PathBuf"@), value_enum) == Conversion::Path,
        conversion_of(Some("::std::path::PathBuf"@), value_enum) == Conversion::Path,
        conversion_of(Some("OsString"@), value_enum) == Conversion::OsText,
        conversion_of(Some("std::ffi::OsString"@), value_enum) == Conversion::OsText,
        conversion_of(Some("::std::ffi::OsString"@), value_enum) == Conversion::OsText,
        conversion_of(Some("String"@), false) == Conversion::Parsed,
        conversion_of(Some("String"@), true) == Conversion::Choice,
        !is_path_type(t) && !is_os_string_type(t) ==> conversion_of(Some(t), value_enum) == (if value_enum {
            Conversion::Choice
        } else {
            Conversion::Parsed
        }),
        conversion_of(Some(t), value_enum) != Conversion::Switch,
{
    reveal_strlit("PathBuf");
    reveal_strlit("std::path::PathBuf");
    reveal_strlit("::std::path::PathBuf");
    reveal_strlit("OsString");
    reveal_strlit("std::ffi::OsString");
    reveal_strlit("::std::ffi::OsString");
    reveal_strlit("String");
    assert("OsString"@.len() != "PathBuf"@.len());
    assert("OsString"@.len() != "std::path::PathBuf"@.len());
    assert("OsString"@.len() != "::std::path::PathBuf"@.len());
    assert("std::ffi::OsString"@[5] != "std::path::PathBuf"@[5]);
    assert("std::ffi::OsString"@.len() != "PathBuf"@.len());
    assert("std::ffi::OsString"@.len() != "::std::path::PathBuf"@.len());
    assert("::std::ffi::OsString"@[7] != "::std::path::PathBuf"@[7]);
    assert("::std::ffi::OsString"@.len() != "PathBuf"@.len());
    assert("::std::ffi::OsString"@.len() != "std::path::PathBuf"@.len());
    assert(!is_path_type("OsString"@));
    assert(!is_path_type("std::ffi::OsString"@));
    assert(!is_path_type("::std::ffi::OsString"@));
    assert("String"@.len() == 6);
    assert(!is_path_type("String"@));
    assert(!is_os_string_type("String"@));
}

/// What is stated of each member: its key is the flag key of its position, distinct from every
/// other member's; it answers to `--name`, and to `-s` exactly when it has a short name; it
/// takes a value exactly when its variant holds one, and lists choices exactly when that value
/// is a value enum.
pub proof fn lemma_member_plans(p: GroupPlan, fingerprint: Seq<u8>, ms: Seq<MemberView>, i: int, j: int)
    requires
        group_plan_matches(p, fingerprint, ms),
        0 <= i < ms.len(),
        0 <= j < ms.len(),
        ms.len() <= KEY_INDEX_LIMIT,
    ensures
        ({
            let m = p.members@[i];
            let sels = m.selectors@.map_values(|s: String| s@);
            &&& m.key == key_suffix_of(KeyKind::Flag, i as u64)
            &&& i != j ==> m.key != p.members@[j].key
            &&& sels[0] == seq!['-', '-'] + ms[i].name
            &&& sels.len() == (if ms[i].short is Some { 2int } else { 1int })
            &&& ms[i].short matches Some(c) ==> sels[1] == seq!['-', c]
            &&& m.takes_value <==> ms[i].value_ty is Some
            &&& m.lists_choices <==> (ms[i].value_ty is Some && ms[i].value_enum)
            &&& (m.conversion == Conversion::Switch <==> ms[i].value_ty is None)
        }),
{
    assert(member_plan_matches(p.members@[i], i, ms[i]));
    assert(member_plan_matches(p.members@[j], j, ms[j]));
    if i != j {
        assert(0u64 & 0xffff_ffffu64 == 0) by (bit_vector);
        crate::layer::lemma_keys_are_distinct(0, KeyKind::Flag, i as u64, KeyKind::Flag, j as u64);
        let x: u64 = key_suffix_of(KeyKind::Flag, i as u64);
        let y: u64 = key_suffix_of(KeyKind::Flag, j as u64);
        assert(0u64 | x == x) by (bit_vector);
        assert(0u64 | y == y) by (bit_vector);
    }
    if ms[i].value_ty is Some {
        lemma_conversion_by_spelling(ms[i].value_ty->0, ms[i].value_enum);
    }
}

proof fn lemma_member_for_from(ms: Seq<MemberView>, selector: Seq<char>, i: int)
    requires
        0 <= i,
    ensures
        match member_for_from(ms, selector, i) {
            Some(j) => i <= j < ms.len() && member_selectors_of(ms[j]).contains(selector) && forall|k: int|
                i <= k < j ==> !member_selectors_of(#[trigger] ms[k]).contains(selector),
            None => forall|k: int| i <= k < ms.len() ==> !member_selectors_of(#[trigger] ms[k]).contains(selector),
        },
    decreases ms.len() - i,
{
    if i < ms.len() && !member_selectors_of(ms[i]).contains(selector) {
        lemma_member_for_from(ms, selector, i + 1);
    }
}

/// A lookup reaches the first member, in declaration order, that answers to the selector by
/// `--name` or `-s`, and none when no member does.
pub proof fn lemma_lookup_reaches_the_first_answering_member(ms: Seq<MemberView>, selector: Seq<char>, i: int)
    ensures
        match member_for_of(ms, selector) {
            Some(j) => 0 <= j < ms.len() && member_selectors_of(ms[j]).contains(selector) && forall|k: int|
                0 <= k < j ==> !member_selectors_of(#[trigger] ms[k]).contains(selector),
            None => forall|k: int| 0 <= k < ms.len() ==> !member_selectors_of(#[trigger] ms[k]).contains(selector),
        },
        0 <= i < ms.len() ==> member_selectors_of(ms[i]).contains(seq!['-', '-'] + ms[i].name),
        0 <= i < ms.len() && ms[i].short is Some ==> member_selectors_of(ms[i]).contains(seq!['-', ms[i].short->0]),
{
    lemma_member_for_from(ms, selector, 0);
    if 0 <= i < ms.len() {
        assert(member_selectors_of(ms[i])[0] == seq!['-', '-'] + ms[i].name);
        if ms[i].short is Some {
            assert(member_selectors_of(ms[i])[1] == seq!['-', ms[i].short->0]);
        }
    }
}

} // verus!
