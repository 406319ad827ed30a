//! The checks a `usage::Config` struct's declaration has to pass as a whole: every name a
//! setting answers to is unique, a source is declared once and a config file's attributes
//! agree; and the shape of an extension `x(key, value)`.

use vstd::prelude::*;
use vstd::string::*;

use crate::config::Const;
use crate::text::str_eq;

verus! {

broadcast use vstd::seq_lib::group_seq_properties;

/// The names one setting answers to: its key and its aliases.
pub struct SettingNames {
    pub key: String,
    pub aliases: Vec<String>,
}

/// One name a setting answers to: the name, the setting's position, and whether it is one
/// of its aliases.
pub type NameEntry = (Seq<char>, int, bool);

pub open spec fn names_of(s: SettingNames, at: int) -> Seq<NameEntry> {
    seq![(s.key@, at, false)] + s.aliases@.map_values(|a: String| (a@, at, true))
}

pub open spec fn names_upto(settings: Seq<SettingNames>, n: nat) -> Seq<NameEntry>
    decreases n,
{
    if n == 0 {
        seq![]
    } else {
        names_upto(settings, (n - 1) as nat) + names_of(settings[n - 1], n - 1)
    }
}

/// Every name, setting by setting in declaration order, key before aliases.
pub open spec fn all_names(settings: Seq<SettingNames>) -> Seq<NameEntry> {
    names_upto(settings, settings.len())
}

/// The `p`th name is the first to repeat an earlier one, and the `q`th is the first it
/// repeats.
pub open spec fn first_repeat(names: Seq<NameEntry>, p: int, q: int) -> bool {
    &&& 0 <= q < p < names.len()
    &&& names[q].0 == names[p].0
    &&& forall|k: int| 0 <= k < q ==> #[trigger] names[k].0 != names[p].0
    &&& forall|a: int, b: int| 0 <= b < a < p ==> #[trigger] names[b].0 != #[trigger] names[a].0
}

/// Every name differs from every other.
pub open spec fn names_unique(names: Seq<NameEntry>) -> bool {
    forall|a: int, b: int| 0 <= b < a < names.len() ==> #[trigger] names[b].0 != #[trigger] names[a].0
}

/// The kind of mistake a repeated name is.
#[derive(Clone, Copy, PartialEq, Eq, Structural, Debug)]
pub enum Clash {
    /// A setting lists its own key as an alias, which nothing would ever reach.
    OwnKey,
    /// A setting lists one alias twice.
    AliasTwice,
    /// Two settings answer to one name, and a lookup reaches only the first.
    Between,
}

/// A name that more than one entry answers to: where it is repeated and where it was first.
#[derive(Debug)]
pub struct NameCollision {
    pub setting: usize,
    pub name: String,
    pub is_alias: bool,
    pub first: usize,
    pub first_is_alias: bool,
}

/// `c` describes the `p`th name, and the `q`th as the one it repeats.
pub open spec fn reports(c: NameCollision, names: Seq<NameEntry>, p: int, q: int) -> bool {
    &&& c.name@ == names[p].0
    &&& c.setting == names[p].1
    &&& c.is_alias == names[p].2
    &&& c.first == names[q].1
    &&& c.first_is_alias == names[q].2
}

pub open spec fn clash_of(setting: int, first: int, first_is_alias: bool) -> Clash {
    if setting != first {
        Clash::Between
    } else if first_is_alias {
        Clash::AliasTwice
    } else {
        Clash::OwnKey
    }
}

impl NameCollision {
    /// Which mistake this is: one setting colliding with itself, by which of its own names
    /// came first, or two settings fighting over a name.
    pub fn clash(&self) -> (res: Clash)
        ensures
            res == clash_of(self.setting as int, self.first as int, self.first_is_alias),
    {
        if self.setting != self.first {
            Clash::Between
        } else if self.first_is_alias {
            Clash::AliasTwice
        } else {
            Clash::OwnKey
        }
    }
}

proof fn lemma_names_upto_prefix(settings: Seq<SettingNames>, m: nat, n: nat)
    requires
        m <= n <= settings.len(),
    ensures
        names_upto(settings, m).len() <= names_upto(settings, n).len(),
        forall|k: int|
            0 <= k < names_upto(settings, m).len() ==> names_upto(settings, n)[k] == #[trigger] names_upto(
                settings,
                m,
            )[k],
    decreases n,
{
    if m < n {
        lemma_names_upto_prefix(settings, m, (n - 1) as nat);
    }
}

pub open spec fn seen_matches(seen: Seq<(&str, usize, bool)>, names: Seq<NameEntry>) -> bool {
    &&& seen.len() <= names.len()
    &&& forall|k: int|
        0 <= k < seen.len() ==> ((#[trigger] seen[k]).0@, seen[k].1 as int, seen[k].2) == names[k]
    &&& forall|a: int, b: int| 0 <= b < a < seen.len() ==> #[trigger] names[b].0 != #[trigger] names[a].0
}

/// Take the next name: report it if it repeats one already seen, else remember it.
fn visit<'a>(
    seen: &mut Vec<(&'a str, usize, bool)>,
    name: &'a str,
    setting: usize,
    is_alias: bool,
    Ghost(names): Ghost<Seq<NameEntry>>,
) -> (res: Option<NameCollision>)
    requires
        seen_matches(old(seen)@, names),
        old(seen)@.len() < names.len(),
        names[old(seen)@.len() as int] == (name@, setting as int, is_alias),
    ensures
        match res {
            Some(c) => exists|q: int|
                #[trigger] first_repeat(names, old(seen)@.len() as int, q) && reports(
                    c,
                    names,
                    old(seen)@.len() as int,
                    q,
                ),
            None => final(seen)@ == old(seen)@.push((name, setting, is_alias)) && seen_matches(
                final(seen)@,
                names,
            ),
        },
{
    let ghost p = seen@.len() as int;
    let mut k: usize = 0;
    while k < seen.len()
        invariant
            k <= seen@.len(),
            seen@.len() == p,
            seen_matches(seen@, names),
            p < names.len(),
            names[p] == (name@, setting as int, is_alias),
            forall|m: int| 0 <= m < k ==> #[trigger] names[m].0 != names[p].0,
        decreases seen@.len() - k,
    {
        if str_eq(seen[k].0, name) {
            let collision = NameCollision {
                setting,
                name: name.to_owned(),
                is_alias,
                first: seen[k].1,
                first_is_alias: seen[k].2,
            };
            assert(first_repeat(names, p, k as int));
            assert(reports(collision, names, p, k as int));
            return Some(collision);
        }
        k = k + 1;
    }
    seen.push((name, setting, is_alias));
    None
}

/// The first name that repeats an earlier one, if any.
///
/// A lookup checks keys and aliases together and takes the first match, so a collision
/// does not fail: it makes one setting unreachable by that name. Every name has to be
/// unique among all of them, not just the keys among the keys.
pub fn name_collision(settings: &Vec<SettingNames>) -> (res: Option<NameCollision>)
    ensures
        match res {
            Some(c) => exists|p: int, q: int|
                #[trigger] first_repeat(all_names(settings@), p, q) && reports(
                    c,
                    all_names(settings@),
                    p,
                    q,
                ),
            None => names_unique(all_names(settings@)),
        },
{
    let ghost names = all_names(settings@);
    let mut seen: Vec<(&str, usize, bool)> = Vec::new();
    let mut i: usize = 0;
    while i < settings.len()
        invariant
            i <= settings@.len(),
            names == all_names(settings@),
            seen@.len() == names_upto(settings@, i as nat).len(),
            seen_matches(seen@, names),
        decreases settings@.len() - i,
    {
        let setting = &settings[i];
        let ghost base = seen@.len() as int;
        let ghost own = names_of(settings@[i as int], i as int);
        proof {
            lemma_names_upto_prefix(settings@, (i + 1) as nat, settings@.len());
            assert(names_upto(settings@, (i + 1) as nat) == names_upto(settings@, i as nat) + own);
            assert forall|k: int| 0 <= k < own.len() implies names[base + k] == #[trigger] own[k] by {
                assert(names_upto(settings@, (i + 1) as nat)[base + k] == own[k]);
            }
        }
        assert(own[0] == (setting.key@, i as int, false));
        if let Some(c) = visit(&mut seen, setting.key.as_str(), i, false, Ghost(names)) {
            return Some(c);
        }
        let mut j: usize = 0;
        while j < setting.aliases.len()
            invariant
                i < settings@.len(),
                setting == settings@[i as int],
                own == names_of(settings@[i as int], i as int),
                j <= setting.aliases@.len(),
                names == all_names(settings@),
                base + own.len() <= names.len(),
                seen@.len() == base + 1 + j,
                forall|k: int| 0 <= k < own.len() ==> names[base + k] == #[trigger] own[k],
                seen_matches(seen@, names),
            decreases setting.aliases@.len() - j,
        {
            assert(own[1 + j] == (setting.aliases@[j as int]@, i as int, true));
            assert(names[base + 1 + j] == own[1 + j]);
            if let Some(c) = visit(&mut seen, setting.aliases[j].as_str(), i, true, Ghost(names)) {
                return Some(c);
            }
            j = j + 1;
        }
        i = i + 1;
    }
    assert(names_upto(settings@, settings@.len()) == names);
    None
}

/// A reported repeat is a real one: with a repeat, the names are not unique. So the
/// check reports a collision exactly when some name is answered to twice.
pub proof fn lemma_a_repeat_breaks_uniqueness(settings: Seq<SettingNames>, p: int, q: int)
    requires
        first_repeat(all_names(settings), p, q),
    ensures
        !names_unique(all_names(settings)),
{
    let names = all_names(settings);
    assert(names[q].0 == names[p].0);
}

/// A `source(...)` declaration's attributes, in order: the attribute's name and its value,
/// `None` where the value is not a string.
pub type SourceItem = (String, Option<String>);

/// Why a `source(...)` declaration is refused; a position is the offending attribute's.
#[derive(Clone, Copy, PartialEq, Eq, Structural, Debug)]
pub enum SourceError {
    /// An attribute other than `kind`, `name`, `doc_hint` or `set_hint`.
    Unknown(usize),
    /// An attribute given a second time.
    GivenTwice(usize),
    /// An attribute whose value is not a string.
    NotAString(usize),
    /// No `kind`.
    NoKind,
    /// An empty `kind`.
    EmptyKind,
}

/// A config source, as declared.
#[derive(Debug)]
pub struct Source {
    pub kind: String,
    pub name: Option<String>,
    pub doc_hint: Option<String>,
    pub set_hint: Option<String>,
}

/// The slot an attribute of a source fills: `kind`, `name`, `doc_hint`, `set_hint`, or none.
pub open spec fn source_slot(attribute: Seq<char>) -> Option<int> {
    if attribute == "kind"@ {
        Some(0)
    } else if attribute == "name"@ {
        Some(1)
    } else if attribute == "doc_hint"@ {
        Some(2)
    } else if attribute == "set_hint"@ {
        Some(3)
    } else {
        None
    }
}

/// The four slots once `n` attributes are read, or the first problem among them.
pub open spec fn source_scan(items: Seq<(Seq<char>, Option<Seq<char>>)>, n: nat) -> Result<
    Seq<Option<Seq<char>>>,
    SourceError,
>
    decreases n,
{
    if n == 0 {
        Ok(seq![None, None, None, None])
    } else {
        match source_scan(items, (n - 1) as nat) {
            Err(e) => Err(e),
            Ok(slots) => match source_slot(items[n - 1].0) {
                None => Err(SourceError::Unknown((n - 1) as usize)),
                Some(slot) => if slots[slot] is Some {
                    Err(SourceError::GivenTwice((n - 1) as usize))
                } else {
                    match items[n - 1].1 {
                        None => Err(SourceError::NotAString((n - 1) as usize)),
                        Some(value) => Ok(slots.update(slot, Some(value))),
                    }
                },
            },
        }
    }
}

pub open spec fn opt_view(s: Option<String>) -> Option<Seq<char>> {
    match s {
        Some(s) => Some(s@),
        None => None,
    }
}

pub open spec fn source_items(items: Seq<SourceItem>) -> Seq<(Seq<char>, Option<Seq<char>>)> {
    items.map_values(|item: SourceItem| (item.0@, opt_view(item.1)))
}

/// A source's attributes, each at most once, with a `kind` that is not empty.
pub open spec fn source_of(items: Seq<SourceItem>) -> Result<Seq<Option<Seq<char>>>, SourceError> {
    match source_scan(source_items(items), items.len()) {
        Err(e) => Err(e),
        Ok(slots) => if slots[0] is None {
            Err(SourceError::NoKind)
        } else if slots[0]->0.len() == 0 {
            Err(SourceError::EmptyKind)
        } else {
            Ok(slots)
        },
    }
}

fn source_slot_of(attribute: &str) -> (res: Option<usize>)
    ensures
        match res {
            Some(k) => source_slot(attribute@) == Some(k as int),
            None => source_slot(attribute@) is None,
        },
{
    if str_eq(attribute, "kind") {
        Some(0)
    } else if str_eq(attribute, "name") {
        Some(1)
    } else if str_eq(attribute, "doc_hint") {
        Some(2)
    } else if str_eq(attribute, "set_hint") {
        Some(3)
    } else {
        None
    }
}

proof fn lemma_source_scan_stops(items: Seq<(Seq<char>, Option<Seq<char>>)>, n: nat, m: nat)
    requires
        n <= m,
        source_scan(items, n) is Err,
    ensures
        source_scan(items, m) == source_scan(items, n),
    decreases m - n,
{
    if n < m {
        lemma_source_scan_stops(items, n, (m - 1) as nat);
    }
}

/// A `source(kind = "git", name = "git config", ...)` declaration, from its attributes.
pub fn source_decl(items: &Vec<SourceItem>) -> (res: Result<Source, SourceError>)
    ensures
        match res {
            Ok(s) => source_of(items@) == Ok::<Seq<Option<Seq<char>>>, SourceError>(
                seq![Some(s.kind@), opt_view(s.name), opt_view(s.doc_hint), opt_view(s.set_hint)],
            ),
            Err(e) => source_of(items@) == Err::<Seq<Option<Seq<char>>>, SourceError>(e),
        },
{
    let ghost all = source_items(items@);
    let mut slots: Vec<Option<String>> = Vec::new();
    slots.push(None);
    slots.push(None);
    slots.push(None);
    slots.push(None);
    assert(slots@.map_values(|s: Option<String>| opt_view(s)) =~= seq![None, None, None, None]);
    let mut i: usize = 0;
    while i < items.len()
        invariant
            i <= items@.len(),
            all == source_items(items@),
            all.len() == items@.len(),
            slots@.len() == 4,
            source_scan(all, i as nat) == Ok::<Seq<Option<Seq<char>>>, SourceError>(
                slots@.map_values(|s: Option<String>| opt_view(s)),
            ),
        decreases items@.len() - i,
    {
        let slot = match source_slot_of(items[i].0.as_str()) {
            Some(slot) => slot,
            None => {
                proof {
                    lemma_source_scan_stops(all, (i + 1) as nat, all.len());
                }
                return Err(SourceError::Unknown(i));
            },
        };
        if slots[slot].is_some() {
            proof {
                lemma_source_scan_stops(all, (i + 1) as nat, all.len());
            }
            return Err(SourceError::GivenTwice(i));
        }
        let value = match &items[i].1 {
            Some(value) => value.clone(),
            None => {
                proof {
                    lemma_source_scan_stops(all, (i + 1) as nat, all.len());
                }
                return Err(SourceError::NotAString(i));
            },
        };
        slots.set(slot, Some(value));
        assert(slots@.map_values(|s: Option<String>| opt_view(s)) =~= source_scan(all, i as nat)->Ok_0.update(
            slot as int,
            all[i as int].1,
        ));
        i = i + 1;
    }
    let ghost last = slots@;
    assert(source_scan(all, all.len()) == Ok::<Seq<Option<Seq<char>>>, SourceError>(
        last.map_values(|s: Option<String>| opt_view(s)),
    ));
    let set_hint = slots.pop().unwrap();
    let doc_hint = slots.pop().unwrap();
    let name = slots.pop().unwrap();
    let kind = slots.pop().unwrap();
    assert(opt_view(kind) == source_scan(all, all.len())->Ok_0[0]);
    assert(opt_view(name) == source_scan(all, all.len())->Ok_0[1]);
    assert(opt_view(doc_hint) == source_scan(all, all.len())->Ok_0[2]);
    assert(opt_view(set_hint) == source_scan(all, all.len())->Ok_0[3]);
    assert(source_scan(source_items(items@), items@.len()) == source_scan(all, all.len()));
    match kind {
        None => Err(SourceError::NoKind),
        Some(kind) => if kind.as_str().unicode_len() == 0 {
            Err(SourceError::EmptyKind)
        } else {
            assert(source_scan(all, all.len())->Ok_0 =~= seq![
                Some(kind@),
                opt_view(name),
                opt_view(doc_hint),
                opt_view(set_hint),
            ]);
            Ok(Source { kind, name, doc_hint, set_hint })
        },
    }
}

/// `a` sorts before `b`: the first char where they differ is the smaller code point, or `a`
/// is a proper prefix of `b`. This is how `String`s sort, since UTF-8 keeps code point order.
pub open spec fn chars_lt(a: Seq<char>, b: Seq<char>) -> bool
    decreases a.len(),
{
    if a.len() == 0 {
        b.len() > 0
    } else if b.len() == 0 {
        false
    } else if a[0] != b[0] {
        (a[0] as int) < (b[0] as int)
    } else {
        chars_lt(a.drop_first(), b.drop_first())
    }
}

proof fn lemma_chars_lt_transitive(a: Seq<char>, b: Seq<char>, c: Seq<char>)
    requires
        chars_lt(a, b),
        chars_lt(b, c),
    ensures
        chars_lt(a, c),
    decreases a.len(),
{
    if a.len() > 0 && b.len() > 0 && c.len() > 0 && a[0] == b[0] && b[0] == c[0] {
        lemma_chars_lt_transitive(a.drop_first(), b.drop_first(), c.drop_first());
    }
}

proof fn lemma_chars_lt_irreflexive(a: Seq<char>)
    ensures
        !chars_lt(a, a),
    decreases a.len(),
{
    if a.len() > 0 {
        lemma_chars_lt_irreflexive(a.drop_first());
    }
}

/// Whether `a` sorts before `b`.
fn chars_before(a: &str, b: &str) -> (res: bool)
    ensures
        res == chars_lt(a@, b@),
{
    let n = a.unicode_len();
    let m = b.unicode_len();
    let mut i: usize = 0;
    while i < n && i < m
        invariant
            n == a@.len(),
            m == b@.len(),
            i <= n,
            i <= m,
            chars_lt(a@, b@) == chars_lt(a@.skip(i as int), b@.skip(i as int)),
        decreases n - i,
    {
        let x = a.get_char(i);
        let y = b.get_char(i);
        if x != y {
            return (x as u32) < (y as u32);
        }
        assert(a@.skip(i as int).drop_first() =~= a@.skip(i + 1));
        assert(b@.skip(i as int).drop_first() =~= b@.skip(i + 1));
        i = i + 1;
    }
    i == n && i < m
}

proof fn lemma_chars_lt_total(a: Seq<char>, b: Seq<char>)
    requires
        a != b,
        !chars_lt(b, a),
    ensures
        chars_lt(a, b),
    decreases a.len(),
{
    if a.len() > 0 && b.len() > 0 && a[0] == b[0] {
        if a.drop_first() == b.drop_first() {
            assert(a =~= seq![a[0]] + a.drop_first());
            assert(b =~= seq![b[0]] + b.drop_first());
        }
        lemma_chars_lt_total(a.drop_first(), b.drop_first());
    } else if a.len() == 0 && b.len() == 0 {
        assert(a =~= b);
    } else if a.len() > 0 && b.len() > 0 {
        assert((a[0] as int) != (b[0] as int));
    }
}

proof fn lemma_chars_lt_asymmetric(a: Seq<char>, b: Seq<char>)
    requires
        chars_lt(a, b),
    ensures
        !chars_lt(b, a),
{
    if chars_lt(b, a) {
        lemma_chars_lt_transitive(a, b, a);
        lemma_chars_lt_irreflexive(a);
    }
}

/// No source sorts before one ahead of it.
pub open spec fn sorted_by_kind(s: Seq<Source>) -> bool {
    forall|i: int, j: int| 0 <= i < j < s.len() ==> !chars_lt(#[trigger] s[j].kind@, #[trigger] s[i].kind@)
}

/// Where `s` goes in sorted `out`: after every source whose kind does not sort after it.
fn insertion_point(out: &Vec<Source>, s: &Source) -> (res: usize)
    requires
        sorted_by_kind(out@),
    ensures
        res <= out@.len(),
        forall|i: int| 0 <= i < res ==> !chars_lt(s.kind@, #[trigger] out@[i].kind@),
        forall|j: int| res <= j < out@.len() ==> chars_lt(s.kind@, #[trigger] out@[j].kind@),
{
    let mut p: usize = 0;
    while p < out.len()
        invariant
            p <= out@.len(),
            sorted_by_kind(out@),
            forall|i: int| 0 <= i < p ==> !chars_lt(s.kind@, #[trigger] out@[i].kind@),
        decreases out.len() - p,
    {
        if chars_before(s.kind.as_str(), out[p].kind.as_str()) {
            assert forall|j: int| p <= j < out@.len() implies chars_lt(s.kind@, #[trigger] out@[j].kind@) by {
                if j > p {
                    let a = out@[p as int].kind@;
                    let b = out@[j].kind@;
                    assert(!chars_lt(out@[j].kind@, out@[p as int].kind@));
                    if a != b {
                        lemma_chars_lt_total(a, b);
                        lemma_chars_lt_transitive(s.kind@, a, b);
                    }
                }
            }
            return p;
        }
        p = p + 1;
    }
    p
}

/// The sources in the order the registry lists them, by kind; sources of one kind keep the
/// order they were declared in.
pub fn sort_sources(sources: Vec<Source>) -> (res: Vec<Source>)
    ensures
        sorted_by_kind(res@),
        res@.to_multiset() == sources@.to_multiset(),
{
    broadcast use vstd::seq_lib::to_multiset_insert, vstd::seq_lib::to_multiset_remove;
    broadcast use vstd::multiset::group_multiset_axioms;

    let ghost all = sources@;
    let mut rest = sources;
    let mut out: Vec<Source> = Vec::new();
    assert(out@.to_multiset() =~= vstd::multiset::Multiset::<Source>::empty()) by {
        broadcast use vstd::seq_lib::to_multiset_len;
    }
    while rest.len() > 0
        invariant
            sorted_by_kind(out@),
            out@.to_multiset().add(rest@.to_multiset()) == all.to_multiset(),
        decreases rest.len(),
    {
        let ghost before_rest = rest@;
        let ghost before_out = out@;
        let s = rest.remove(0);
        let p = insertion_point(&out, &s);
        proof {
            assert(before_rest[0] == s);
            assert(rest@ == before_rest.remove(0));
        }
        out.insert(p, s);
        proof {
            assert(out@ == before_out.insert(p as int, s));
            assert forall|i: int, j: int| 0 <= i < j < out@.len() implies !chars_lt(
                #[trigger] out@[j].kind@,
                #[trigger] out@[i].kind@,
            ) by {
                if i < p && j == p {
                    assert(out@[i] == before_out[i]);
                } else if i == p && j > p {
                    assert(out@[j] == before_out[j - 1]);
                    lemma_chars_lt_asymmetric(s.kind@, before_out[j - 1].kind@);
                } else if j < p {
                    assert(out@[i] == before_out[i] && out@[j] == before_out[j]);
                } else if i > p {
                    assert(out@[i] == before_out[i - 1] && out@[j] == before_out[j - 1]);
                } else {
                    assert(out@[i] == before_out[i] && out@[j] == before_out[j - 1]);
                }
            }
            assert(out@.to_multiset() == before_out.to_multiset().insert(s));
            assert(rest@.to_multiset() == before_rest.to_multiset().remove(s));
            assert(before_rest.to_multiset().count(s) > 0) by {
                broadcast use vstd::seq_lib::to_multiset_contains;
                assert(before_rest.contains(s));
            }
            assert(out@.to_multiset().add(rest@.to_multiset()) =~= before_out.to_multiset().add(
                before_rest.to_multiset(),
            ));
        }
    }
    assert(rest@.to_multiset() =~= vstd::multiset::Multiset::<Source>::empty()) by {
        broadcast use vstd::seq_lib::to_multiset_len;
        assert(rest@.len() == 0);
    }
    assert(out@.to_multiset().add(rest@.to_multiset()) =~= out@.to_multiset());
    out
}

/// `k` is the kind of two different sources.
pub open spec fn repeated_kind(kinds: Seq<Seq<char>>, k: Seq<char>) -> bool {
    exists|i: int, j: int| 0 <= i < j < kinds.len() && #[trigger] kinds[i] == k && #[trigger] kinds[j] == k
}

pub open spec fn kinds_of(sources: Seq<Source>) -> Seq<Seq<char>> {
    sources.map_values(|s: Source| s.kind@)
}

/// The kind declared by more than one source, the first of them in sorted order, as the
/// message names it; `None` when every kind is declared once.
pub fn duplicate_source(sources: &Vec<Source>) -> (res: Option<String>)
    ensures
        match res {
            Some(k) => repeated_kind(kinds_of(sources@), k@) && forall|other: Seq<char>|
                #[trigger] repeated_kind(kinds_of(sources@), other) ==> !chars_lt(other, k@),
            None => forall|i: int, j: int|
                0 <= i < j < sources@.len() ==> #[trigger] kinds_of(sources@)[i] != #[trigger] kinds_of(
                    sources@,
                )[j],
        },
{
    let ghost kinds = kinds_of(sources@);
    let n = sources.len();
    let mut best: Option<&str> = None;
    let mut i: usize = 0;
    while i < n
        invariant
            n == sources@.len(),
            kinds == kinds_of(sources@),
            i <= n,
            match best {
                Some(b) => repeated_kind(kinds, b@),
                None => true,
            },
            forall|a: int, c: int|
                0 <= a < c < n && a < i && #[trigger] kinds[a] == #[trigger] kinds[c] ==> match best {
                    Some(b) => !chars_lt(kinds[a], b@),
                    None => false,
                },
        decreases n - i,
    {
        let mut j: usize = i + 1;
        while j < n
            invariant
                n == sources@.len(),
                kinds == kinds_of(sources@),
                i < n,
                i + 1 <= j <= n,
                match best {
                    Some(b) => repeated_kind(kinds, b@),
                    None => true,
                },
                forall|a: int, c: int|
                    0 <= a < c < n && (a < i || (a == i && c < j)) && #[trigger] kinds[a]
                        == #[trigger] kinds[c] ==> match best {
                        Some(b) => !chars_lt(kinds[a], b@),
                        None => false,
                    },
            decreases n - j,
        {
            let here = sources[i].kind.as_str();
            assert(here@ == kinds[i as int]);
            assert(sources[j as int].kind@ == kinds[j as int]);
            if str_eq(here, sources[j].kind.as_str()) {
                assert(repeated_kind(kinds, here@));
                let replace = match best {
                    None => true,
                    Some(b) => chars_before(here, b),
                };
                if replace {
                    proof {
                        assert forall|a: int, c: int|
                            0 <= a < c < n && (a < i || (a == i && c < j + 1)) && #[trigger] kinds[a]
                                == #[trigger] kinds[c] implies !chars_lt(kinds[a], here@) by {
                            if a == i {
                                lemma_chars_lt_irreflexive(here@);
                            } else if let Some(b) = best {
                                if chars_lt(kinds[a], here@) {
                                    lemma_chars_lt_transitive(kinds[a], here@, b@);
                                }
                            }
                        }
                    }
                    best = Some(here);
                }
            }
            j = j + 1;
        }
        i = i + 1;
    }
    match best {
        Some(b) => {
            proof {
                assert forall|other: Seq<char>| #[trigger] repeated_kind(kinds, other) implies !chars_lt(
                    other,
                    b@,
                ) by {
                    let (a, c) = choose|a: int, c: int|
                        0 <= a < c < kinds.len() && #[trigger] kinds[a] == other && #[trigger] kinds[c]
                            == other;
                    assert(kinds[a] == kinds[c]);
                }
            }
            Some(b.to_owned())
        },
        None => None,
    }
}

/// A base directory of the XDG layout.
#[derive(Clone, Copy, PartialEq, Eq, Structural, Debug)]
pub enum XdgBase {
    Config,
    Data,
    State,
    Cache,
    Runtime,
}

/// Whose a config file is.
#[derive(Clone, Copy, PartialEq, Eq, Structural, Debug)]
pub enum FileScope {
    Project,
    Global,
    System,
}

/// One attribute of a `file(...)` declaration, with its value; `None` where the value is not
/// of the kind the attribute takes (a string, or for `findup` a flag).
pub enum FileItem {
    Path(Option<String>),
    Findup(Option<bool>),
    Xdg(Option<String>),
    Scope(Option<String>),
    Format(Option<String>),
    /// An attribute `file` does not have, by its name.
    Unknown(String),
}

/// Why a `file(...)` declaration is refused; a position is the offending attribute's.
#[derive(Clone, Copy, PartialEq, Eq, Structural, Debug)]
pub enum FileError {
    Unknown(usize),
    GivenTwice(usize),
    /// An attribute whose value is not of the kind it takes.
    BadValue(usize),
    NotXdgBase(usize),
    NotAScope(usize),
    NoPath,
    EmptyPath,
    /// `xdg` together with `findup` or `scope`: the base decides the scope.
    XdgDecidesScope,
    /// An XDG file whose path is absolute: it is relative to the XDG directories.
    XdgPathAbsolute,
}

/// A config file, as declared.
pub struct File {
    pub path: String,
    pub findup: bool,
    pub xdg: Option<XdgBase>,
    pub scope: FileScope,
    pub format: Option<String>,
}

/// What the attributes read so far say.
pub struct FileScan {
    pub path: Option<Seq<char>>,
    pub findup: bool,
    pub saw_findup: bool,
    pub xdg: Option<XdgBase>,
    pub scope: FileScope,
    pub saw_scope: bool,
    pub format: Option<Seq<char>>,
}

pub open spec fn xdg_base_of(name: Seq<char>) -> Option<XdgBase> {
    if name == "config"@ {
        Some(XdgBase::Config)
    } else if name == "data"@ {
        Some(XdgBase::Data)
    } else if name == "state"@ {
        Some(XdgBase::State)
    } else if name == "cache"@ {
        Some(XdgBase::Cache)
    } else if name == "runtime"@ {
        Some(XdgBase::Runtime)
    } else {
        None
    }
}

pub open spec fn file_scope_of(name: Seq<char>) -> Option<FileScope> {
    if name == "project"@ {
        Some(FileScope::Project)
    } else if name == "global"@ {
        Some(FileScope::Global)
    } else if name == "system"@ {
        Some(FileScope::System)
    } else {
        None
    }
}

/// Reading the `at`th attribute.
pub open spec fn file_step(st: FileScan, item: FileItem, at: int) -> Result<FileScan, FileError> {
    match item {
        FileItem::Path(p) => if st.path is Some {
            Err(FileError::GivenTwice(at as usize))
        } else {
            match p {
                Some(p) => Ok(FileScan { path: Some(p@), ..st }),
                None => Err(FileError::BadValue(at as usize)),
            }
        },
        FileItem::Findup(f) => if st.saw_findup {
            Err(FileError::GivenTwice(at as usize))
        } else {
            match f {
                Some(f) => Ok(FileScan { findup: f, saw_findup: true, ..st }),
                None => Err(FileError::BadValue(at as usize)),
            }
        },
        FileItem::Xdg(x) => if st.xdg is Some {
            Err(FileError::GivenTwice(at as usize))
        } else {
            match x {
                None => Err(FileError::BadValue(at as usize)),
                Some(x) => match xdg_base_of(x@) {
                    Some(base) => Ok(FileScan { xdg: Some(base), ..st }),
                    None => Err(FileError::NotXdgBase(at as usize)),
                },
            }
        },
        FileItem::Scope(x) => if st.saw_scope {
            Err(FileError::GivenTwice(at as usize))
        } else {
            match x {
                None => Err(FileError::BadValue(at as usize)),
                Some(x) => match file_scope_of(x@) {
                    Some(scope) => Ok(FileScan { scope, saw_scope: true, ..st }),
                    None => Err(FileError::NotAScope(at as usize)),
                },
            }
        },
        FileItem::Format(f) => if st.format is Some {
            Err(FileError::GivenTwice(at as usize))
        } else {
            match f {
                Some(f) => Ok(FileScan { format: Some(f@), ..st }),
                None => Err(FileError::BadValue(at as usize)),
            }
        },
        FileItem::Unknown(_) => Err(FileError::Unknown(at as usize)),
    }
}

pub open spec fn file_scan(items: Seq<FileItem>, n: nat) -> Result<FileScan, FileError>
    decreases n,
{
    if n == 0 {
        Ok(
            FileScan {
                path: None,
                findup: false,
                saw_findup: false,
                xdg: None,
                scope: FileScope::Project,
                saw_scope: false,
                format: None,
            },
        )
    } else {
        match file_scan(items, (n - 1) as nat) {
            Err(e) => Err(e),
            Ok(st) => file_step(st, items[n - 1], n - 1),
        }
    }
}

/// The declaration the attributes make: each at most once, a known XDG base and scope, a
/// path that is not empty, and no `findup` or `scope` beside an `xdg` base.
pub open spec fn file_of(items: Seq<FileItem>) -> Result<FileScan, FileError> {
    match file_scan(items, items.len()) {
        Err(e) => Err(e),
        Ok(st) => if st.path is None {
            Err(FileError::NoPath)
        } else if st.path->0.len() == 0 {
            Err(FileError::EmptyPath)
        } else if st.xdg is Some && (st.saw_findup || st.saw_scope) {
            Err(FileError::XdgDecidesScope)
        } else {
            Ok(st)
        },
    }
}

proof fn lemma_file_scan_stops(items: Seq<FileItem>, n: nat, m: nat)
    requires
        n <= m,
        file_scan(items, n) is Err,
    ensures
        file_scan(items, m) == file_scan(items, n),
    decreases m - n,
{
    if n < m {
        lemma_file_scan_stops(items, n, (m - 1) as nat);
    }
}

fn xdg_base(name: &str) -> (res: Option<XdgBase>)
    ensures
        res == xdg_base_of(name@),
{
    if str_eq(name, "config") {
        Some(XdgBase::Config)
    } else if str_eq(name, "data") {
        Some(XdgBase::Data)
    } else if str_eq(name, "state") {
        Some(XdgBase::State)
    } else if str_eq(name, "cache") {
        Some(XdgBase::Cache)
    } else if str_eq(name, "runtime") {
        Some(XdgBase::Runtime)
    } else {
        None
    }
}

fn file_scope(name: &str) -> (res: Option<FileScope>)
    ensures
        res == file_scope_of(name@),
{
    if str_eq(name, "project") {
        Some(FileScope::Project)
    } else if str_eq(name, "global") {
        Some(FileScope::Global)
    } else if str_eq(name, "system") {
        Some(FileScope::System)
    } else {
        None
    }
}

/// Calls `std::path::Path::is_absolute` on `path`. Whether a path is absolute depends on the
/// platform, so nothing is claimed of the answer.
#[verifier::external_body]
fn path_is_absolute(path: &str) -> bool {
    std::path::Path::new(path).is_absolute()
}

/// A `file(path = "ex.toml", findup, scope = "project")` declaration, from its attributes.
///
/// Whether an XDG file's path is absolute is the platform's answer, so of that last check
/// the contract says only when it can have refused.
pub fn file_decl(items: &Vec<FileItem>) -> (res: Result<File, FileError>)
    ensures
        match res {
            Ok(f) => file_of(items@) == Ok::<FileScan, FileError>(
                FileScan {
                    path: Some(f.path@),
                    findup: f.findup,
                    saw_findup: file_of(items@)->Ok_0.saw_findup,
                    xdg: f.xdg,
                    scope: f.scope,
                    saw_scope: file_of(items@)->Ok_0.saw_scope,
                    format: opt_view(f.format),
                },
            ),
            Err(FileError::XdgPathAbsolute) => file_of(items@) is Ok && file_of(items@)->Ok_0.xdg is Some,
            Err(e) => file_of(items@) == Err::<FileScan, FileError>(e),
        },
{
    let mut path: Option<String> = None;
    let mut findup = false;
    let mut saw_findup = false;
    let mut xdg: Option<XdgBase> = None;
    let mut scope = FileScope::Project;
    let mut saw_scope = false;
    let mut format: Option<String> = None;
    let mut i: usize = 0;
    while i < items.len()
        invariant
            i <= items@.len(),
            file_scan(items@, i as nat) == Ok::<FileScan, FileError>(
                FileScan {
                    path: opt_view(path),
                    findup,
                    saw_findup,
                    xdg,
                    scope,
                    saw_scope,
                    format: opt_view(format),
                },
            ),
        decreases items@.len() - i,
    {
        let stop = match &items[i] {
            FileItem::Path(p) => if path.is_some() {
                Some(FileError::GivenTwice(i))
            } else {
                match p {
                    Some(p) => {
                        path = Some(p.clone());
                        None
                    },
                    None => Some(FileError::BadValue(i)),
                }
            },
            FileItem::Findup(f) => if saw_findup {
                Some(FileError::GivenTwice(i))
            } else {
                match f {
                    Some(f) => {
                        findup = *f;
                        saw_findup = true;
                        None
                    },
                    None => Some(FileError::BadValue(i)),
                }
            },
            FileItem::Xdg(x) => if xdg.is_some() {
                Some(FileError::GivenTwice(i))
            } else {
                match x {
                    None => Some(FileError::BadValue(i)),
                    Some(x) => match xdg_base(x.as_str()) {
                        Some(base) => {
                            xdg = Some(base);
                            None
                        },
                        None => Some(FileError::NotXdgBase(i)),
                    },
                }
            },
            FileItem::Scope(x) => if saw_scope {
                Some(FileError::GivenTwice(i))
            } else {
                match x {
                    None => Some(FileError::BadValue(i)),
                    Some(x) => match file_scope(x.as_str()) {
                        Some(s) => {
                            scope = s;
                            saw_scope = true;
                            None
                        },
                        None => Some(FileError::NotAScope(i)),
                    },
                }
            },
            FileItem::Format(f) => if format.is_some() {
                Some(FileError::GivenTwice(i))
            } else {
                match f {
                    Some(f) => {
                        format = Some(f.clone());
                        None
                    },
                    None => Some(FileError::BadValue(i)),
                }
            },
            FileItem::Unknown(_) => Some(FileError::Unknown(i)),
        };
        if let Some(e) = stop {
            proof {
                lemma_file_scan_stops(items@, (i + 1) as nat, items@.len());
            }
            return Err(e);
        }
        i = i + 1;
    }
    let path = match path {
        Some(p) => p,
        None => return Err(FileError::NoPath),
    };
    if path.as_str().unicode_len() == 0 {
        return Err(FileError::EmptyPath);
    }
    if xdg.is_some() && (saw_findup || saw_scope) {
        return Err(FileError::XdgDecidesScope);
    }
    if xdg.is_some() && path_is_absolute(path.as_str()) {
        return Err(FileError::XdgPathAbsolute);
    }
    Ok(File { path, findup, xdg, scope, format })
}

/// Why an extension `x("tool.key", value)` is refused.
#[derive(Clone, Copy, PartialEq, Eq, Structural, Debug)]
pub enum ExtensionError {
    /// Not exactly a key and a value.
    NotAPair,
    /// The key is not a string literal.
    KeyNotAString,
    /// The key is empty.
    EmptyKey,
    /// The value is not a literal a registry can hold.
    ValueNotALiteral,
    /// The value is a list, where one scalar belongs.
    ValueIsAList,
}

/// An extension is exactly a string key that is not empty and one scalar value, checked in
/// that order. Each argument is the constant it reads as, or `None` where it is not one.
pub open spec fn extension_of(args: Seq<Option<Const>>) -> Result<(Seq<char>, Const), ExtensionError> {
    if args.len() != 2 {
        Err(ExtensionError::NotAPair)
    } else {
        match args[0] {
            Some(Const::Str(key)) => if key@.len() == 0 {
                Err(ExtensionError::EmptyKey)
            } else {
                match args[1] {
                    None => Err(ExtensionError::ValueNotALiteral),
                    Some(Const::List(_)) => Err(ExtensionError::ValueIsAList),
                    Some(value) => Ok((key@, value)),
                }
            },
            _ => Err(ExtensionError::KeyNotAString),
        }
    }
}

/// `x("mise.rust_type", "Duration")`: one tool-private key and one scalar value.
pub fn extension(args: Vec<Option<Const>>) -> (res: Result<(String, Const), ExtensionError>)
    ensures
        match res {
            Ok((key, value)) => extension_of(args@) == Ok::<(Seq<char>, Const), ExtensionError>(
                (key@, value),
            ),
            Err(e) => extension_of(args@) == Err::<(Seq<char>, Const), ExtensionError>(e),
        },
{
    if args.len() != 2 {
        return Err(ExtensionError::NotAPair);
    }
    let ghost all = args@;
    let mut args = args;
    let value = args.pop().unwrap();
    let key = args.pop().unwrap();
    assert(key == all[0] && value == all[1]);
    let key = match key {
        Some(Const::Str(key)) => key,
        _ => return Err(ExtensionError::KeyNotAString),
    };
    if key.as_str().unicode_len() == 0 {
        return Err(ExtensionError::EmptyKey);
    }
    match value {
        None => Err(ExtensionError::ValueNotALiteral),
        Some(Const::List(_)) => Err(ExtensionError::ValueIsAList),
        Some(value) => Ok((key, value)),
    }
}


/// How a name is spoken of in a collision message.
pub open spec fn what_of(is_alias: bool) -> Seq<char> {
    if is_alias {
        "an alias"@
    } else {
        "the key"@
    }
}

/// What the author reads of a name collision; `idents` are the settings' fields, in order.
pub open spec fn collision_message_of(c: NameCollision, idents: Seq<String>) -> Seq<char> {
    match clash_of(c.setting as int, c.first as int, c.first_is_alias) {
        Clash::OwnKey => "`"@ + idents[c.setting as int]@ + "` lists `"@ + c.name@ + "` as an alias of its own key, which nothing would ever reach"@,
        Clash::AliasTwice => "`"@ + idents[c.setting as int]@ + "` lists the alias `"@ + c.name@ + "` twice"@,
        Clash::Between => "`"@ + c.name@ + "` is "@ + what_of(c.is_alias) + " of `"@ + idents[c.setting as int]@ + "` and "@ + what_of(c.first_is_alias) + " of `"@ + idents[c.first as int]@ + "`, and a lookup takes the first of them: one of the two could never be reached by that name"@,
    }
}

/// The message for a name collision.
pub fn collision_message(c: &NameCollision, idents: &Vec<String>) -> (res: String)
    requires
        c.setting < idents@.len(),
        c.first < idents@.len(),
    ensures
        res@ == collision_message_of(*c, idents@),
{
    let what = if c.is_alias {
        "an alias"
    } else {
        "the key"
    };
    let first_what = if c.first_is_alias {
        "an alias"
    } else {
        "the key"
    };
    match c.clash() {
        Clash::OwnKey => {
            let mut s = String::from_str("`");
            s.append(idents[c.setting].as_str());
            s.append("` lists `");
            s.append(c.name.as_str());
            s.append("` as an alias of its own key, which nothing would ever reach");
            s
        },
        Clash::AliasTwice => {
            let mut s = String::from_str("`");
            s.append(idents[c.setting].as_str());
            s.append("` lists the alias `");
            s.append(c.name.as_str());
            s.append("` twice");
            s
        },
        Clash::Between => {
            let mut s = String::from_str("`");
            s.append(c.name.as_str());
            s.append("` is ");
            s.append(what);
            s.append(" of `");
            s.append(idents[c.setting].as_str());
            s.append("` and ");
            s.append(first_what);
            s.append(" of `");
            s.append(idents[c.first].as_str());
            s.append("`, and a lookup takes the first of them: one of the two could never be reached by that name");
            s
        },
    }
}

pub open spec fn duplicate_source_message_of(kind: Seq<char>) -> Seq<char> {
    "config source `"@ + kind + "` is declared more than once; combine its metadata into one `source(...)`"@
}

/// The message for a source kind declared twice.
pub fn duplicate_source_message(kind: &str) -> (res: String)
    ensures
        res@ == duplicate_source_message_of(kind@),
{
    let mut s = String::from_str("config source `");
    s.append(kind);
    s.append("` is declared more than once; combine its metadata into one `source(...)`");
    s
}

/// Where a source error points into the attributes, that position is one of them.
pub open spec fn source_error_in(e: SourceError, n: int) -> bool {
    match e {
        SourceError::Unknown(i) | SourceError::GivenTwice(i) | SourceError::NotAString(i) => i < n,
        _ => true,
    }
}

/// What the author reads of a refused source, by the attributes' names; `None` for a value
/// that is not a string, which the value's own reader reports.
pub open spec fn source_message_of(e: SourceError, names: Seq<String>) -> Option<Seq<char>> {
    match e {
        SourceError::Unknown(i) => Some("a config source does not understand `"@ + names[i as int]@ + "`; use `kind`, `name`, `doc_hint`, or `set_hint`"@),
        SourceError::GivenTwice(i) => Some("`"@ + names[i as int]@ + "` is given twice in this config source"@),
        SourceError::NoKind => Some("a config source needs `kind = \"...\"`"@),
        SourceError::EmptyKind => Some("a config source kind cannot be empty"@),
        SourceError::NotAString(_) => None,
    }
}

/// The message for a refused source.
pub fn source_message(e: SourceError, names: &Vec<String>) -> (res: Option<String>)
    requires
        source_error_in(e, names@.len() as int),
    ensures
        opt_view(res) == source_message_of(e, names@),
{
    match e {
        SourceError::Unknown(i) => {
            let mut s = String::from_str("a config source does not understand `");
            s.append(names[i].as_str());
            s.append("`; use `kind`, `name`, `doc_hint`, or `set_hint`");
            Some(s)
        },
        SourceError::GivenTwice(i) => {
            let mut s = String::from_str("`");
            s.append(names[i].as_str());
            s.append("` is given twice in this config source");
            Some(s)
        },
        SourceError::NoKind => {
            let mut s = String::from_str("a config source needs `kind = \"...\"`");
            Some(s)
        },
        SourceError::EmptyKind => {
            let mut s = String::from_str("a config source kind cannot be empty");
            Some(s)
        },
        SourceError::NotAString(_) => None,
    }
}

/// The name an attribute of a `file(...)` declaration is written with.
pub open spec fn file_item_name_of(item: FileItem) -> Seq<char> {
    match item {
        FileItem::Path(_) => "path"@,
        FileItem::Findup(_) => "findup"@,
        FileItem::Xdg(_) => "xdg"@,
        FileItem::Scope(_) => "scope"@,
        FileItem::Format(_) => "format"@,
        FileItem::Unknown(name) => name@,
    }
}

fn file_item_name(item: &FileItem) -> (res: &str)
    ensures
        res@ == file_item_name_of(*item),
{
    match item {
        FileItem::Path(_) => "path",
        FileItem::Findup(_) => "findup",
        FileItem::Xdg(_) => "xdg",
        FileItem::Scope(_) => "scope",
        FileItem::Format(_) => "format",
        FileItem::Unknown(name) => name.as_str(),
    }
}

/// The string an `xdg` or `scope` attribute was given.
pub open spec fn file_item_value_of(item: FileItem) -> Seq<char> {
    match item {
        FileItem::Xdg(Some(v)) | FileItem::Scope(Some(v)) => v@,
        _ => seq![],
    }
}

fn file_item_value(item: &FileItem) -> (res: &str)
    ensures
        res@ == file_item_value_of(*item),
{
    proof {
        reveal_strlit("");
    }
    match item {
        FileItem::Xdg(Some(v)) | FileItem::Scope(Some(v)) => v.as_str(),
        _ => "",
    }
}

/// Where a file error points into the attributes, that position is one of them.
pub open spec fn file_error_in(e: FileError, n: int) -> bool {
    match e {
        FileError::Unknown(i) | FileError::GivenTwice(i) | FileError::BadValue(i)
        | FileError::NotXdgBase(i) | FileError::NotAScope(i) => i < n,
        _ => true,
    }
}

/// What the author reads of a refused config file; `None` for a value of the wrong kind,
/// which the value's own reader reports.
pub open spec fn file_message_of(e: FileError, items: Seq<FileItem>) -> Option<Seq<char>> {
    match e {
        FileError::Unknown(i) => Some("a config file does not understand `"@ + file_item_name_of(items[i as int]) + "`; use `path`, `findup`, `xdg`, `scope`, or `format`"@),
        FileError::GivenTwice(i) => Some("`"@ + file_item_name_of(items[i as int]) + "` is given twice"@),
        FileError::NotXdgBase(i) => Some("`"@ + file_item_value_of(items[i as int]) + "` is not an XDG base; use `config`, `data`, `state`, `cache`, or `runtime`"@),
        FileError::NotAScope(i) => Some("`"@ + file_item_value_of(items[i as int]) + "` is not a config file scope; use `project`, `global`, or `system`"@),
        FileError::NoPath => Some("a config file needs `path = \"...\"`"@),
        FileError::EmptyPath => Some("a config file path cannot be empty"@),
        FileError::XdgDecidesScope => Some("an XDG file's base decides its scope; do not combine `xdg` with `findup` or `scope`"@),
        FileError::XdgPathAbsolute => Some("an XDG config file path must be relative to the XDG config directories"@),
        FileError::BadValue(_) => None,
    }
}

/// The message for a refused config file.
pub fn file_message(e: FileError, items: &Vec<FileItem>) -> (res: Option<String>)
    requires
        file_error_in(e, items@.len() as int),
    ensures
        opt_view(res) == file_message_of(e, items@),
{
    match e {
        FileError::Unknown(i) => {
            let mut s = String::from_str("a config file does not understand `");
            s.append(file_item_name(&items[i]));
            s.append("`; use `path`, `findup`, `xdg`, `scope`, or `format`");
            Some(s)
        },
        FileError::GivenTwice(i) => {
            let mut s = String::from_str("`");
            s.append(file_item_name(&items[i]));
            s.append("` is given twice");
            Some(s)
        },
        FileError::NotXdgBase(i) => {
            let mut s = String::from_str("`");
            s.append(file_item_value(&items[i]));
            s.append("` is not an XDG base; use `config`, `data`, `state`, `cache`, or `runtime`");
            Some(s)
        },
        FileError::NotAScope(i) => {
            let mut s = String::from_str("`");
            s.append(file_item_value(&items[i]));
            s.append("` is not a config file scope; use `project`, `global`, or `system`");
            Some(s)
        },
        FileError::NoPath => {
            let mut s = String::from_str("a config file needs `path = \"...\"`");
            Some(s)
        },
        FileError::EmptyPath => {
            let mut s = String::from_str("a config file path cannot be empty");
            Some(s)
        },
        FileError::XdgDecidesScope => {
            let mut s = String::from_str("an XDG file's base decides its scope; do not combine `xdg` with `findup` or `scope`");
            Some(s)
        },
        FileError::XdgPathAbsolute => {
            let mut s = String::from_str("an XDG config file path must be relative to the XDG config directories");
            Some(s)
        },
        FileError::BadValue(_) => None,
    }
}

/// What the author reads of a refused extension; `None` for a value that is not a literal,
/// which the literal's own reader reports.
pub open spec fn extension_message_of(e: ExtensionError) -> Option<Seq<char>> {
    match e {
        ExtensionError::NotAPair => Some("an extension takes exactly a string key and one scalar value, as in `x(\"tool.key\", \"value\")`"@),
        ExtensionError::KeyNotAString => Some("an extension key must be a string"@),
        ExtensionError::EmptyKey => Some("an extension key cannot be empty"@),
        ExtensionError::ValueIsAList => Some("an extension value is one scalar, not a list"@),
        ExtensionError::ValueNotALiteral => None,
    }
}

/// The message for a refused extension.
pub fn extension_message(e: ExtensionError) -> (res: Option<String>)
    ensures
        opt_view(res) == extension_message_of(e),
{
    match e {
        ExtensionError::NotAPair => {
            let mut s = String::from_str("an extension takes exactly a string key and one scalar value, as in `x(\"tool.key\", \"value\")`");
            Some(s)
        },
        ExtensionError::KeyNotAString => {
            let mut s = String::from_str("an extension key must be a string");
            Some(s)
        },
        ExtensionError::EmptyKey => {
            let mut s = String::from_str("an extension key cannot be empty");
            Some(s)
        },
        ExtensionError::ValueIsAList => {
            let mut s = String::from_str("an extension value is one scalar, not a list");
            Some(s)
        },
        ExtensionError::ValueNotALiteral => None,
    }
}

proof fn lemma_source_scan(items: Seq<(Seq<char>, Option<Seq<char>>)>, n: nat)
    requires
        n <= items.len(),
    ensures
        source_scan(items, n) is Ok <==> ((forall|j: int| 0 <= j < n ==> source_slot((#[trigger] items[j]).0) is Some
            && items[j].1 is Some) && forall|j1: int, j2: int|
            0 <= j1 < j2 < n ==> source_slot((#[trigger] items[j1]).0) != source_slot((#[trigger] items[j2]).0)),
        source_scan(items, n) matches Ok(slots) ==> slots.len() == 4 && (forall|j: int|
            0 <= j < n ==> slots[source_slot((#[trigger] items[j]).0)->0] == items[j].1) && (forall|k: int|
            0 <= k < 4 && (#[trigger] slots[k]) is Some ==> exists|j: int|
                0 <= j < n && source_slot(items[j].0) == Some(k)),
    decreases n,
{
    if n > 0 {
        lemma_source_scan(items, (n - 1) as nat);
        match source_scan(items, (n - 1) as nat) {
            Err(_) => {},
            Ok(slots) => {
                match source_slot(items[n - 1].0) {
                    None => {},
                    Some(slot) => {
                        if slots[slot] is Some {
                            let j = choose|j: int| 0 <= j < n - 1 && source_slot(items[j].0) == Some(slot);
                            assert(source_slot(items[j].0) == source_slot(items[n - 1].0));
                        } else if items[n - 1].1 is Some {
                            assert forall|j: int| 0 <= j < n - 1 implies source_slot((#[trigger] items[j]).0) != source_slot(items[n - 1].0) by {
                                assert(slots[source_slot(items[j].0)->0] == items[j].1);
                            }
                            let new = slots.update(slot, items[n - 1].1);
                            assert forall|k: int| 0 <= k < 4 && (#[trigger] new[k]) is Some implies exists|j: int|
                                0 <= j < n && source_slot(items[j].0) == Some(k) by {
                                if k == slot {
                                    assert(source_slot(items[n - 1].0) == Some(k));
                                } else {
                                    assert(slots[k] is Some);
                                }
                            }
                        }
                    },
                }
            },
        }
    }
}

/// A `source(...)` is accepted exactly when every attribute is `kind`, `name`, `doc_hint` or
/// `set_hint` with a string value, none of them is given twice, and a `kind` that is not
/// empty is given; each slot then holds the value its attribute was given, and a slot whose
/// attribute was not given stays empty.
pub proof fn lemma_a_source_is_its_attributes(items: Seq<SourceItem>)
    ensures
        source_slot("kind"@) == Some(0int),
        source_slot("name"@) == Some(1int),
        source_slot("doc_hint"@) == Some(2int),
        source_slot("set_hint"@) == Some(3int),
        ({
            let its = source_items(items);
            &&& source_of(items) is Ok <==> ((forall|j: int| 0 <= j < its.len() ==> source_slot((#[trigger] its[j]).0) is Some
                && its[j].1 is Some) && (forall|j1: int, j2: int|
                0 <= j1 < j2 < its.len() ==> source_slot((#[trigger] its[j1]).0) != source_slot((#[trigger] its[j2]).0))
                && exists|j: int| 0 <= j < its.len() && (#[trigger] its[j]).0 == "kind"@ && its[j].1 is Some && its[j].1->0.len() > 0)
            &&& source_of(items) matches Ok(slots) ==> forall|j: int| 0 <= j < its.len() ==> slots[source_slot((#[trigger] its[j]).0)->0] == its[j].1
        }),
{
    reveal_strlit("kind");
    reveal_strlit("name");
    reveal_strlit("doc_hint");
    reveal_strlit("set_hint");
    assert("name"@[0] != "kind"@[0]);
    assert("name"@ != "kind"@);
    assert("doc_hint"@.len() != "kind"@.len());
    assert("doc_hint"@ != "kind"@);
    assert("doc_hint"@.len() != "name"@.len());
    assert("doc_hint"@ != "name"@);
    assert("set_hint"@.len() != "kind"@.len());
    assert("set_hint"@ != "kind"@);
    assert("set_hint"@.len() != "name"@.len());
    assert("set_hint"@ != "name"@);
    assert("set_hint"@[0] != "doc_hint"@[0]);
    assert("set_hint"@ != "doc_hint"@);
    let its = source_items(items);
    lemma_source_scan(its, its.len());
    match source_scan(its, its.len()) {
        Ok(slots) => {
            if slots[0] matches Some(v) && v.len() > 0 {
                let j = choose|j: int| 0 <= j < its.len() && source_slot(its[j].0) == Some(0int);
                assert(slots[0] == its[j].1);
                assert(its[j].0 == "kind"@);
            }
            if exists|j: int| 0 <= j < its.len() && (#[trigger] its[j]).0 == "kind"@ && its[j].1 is Some && its[j].1->0.len() > 0 {
                let j = choose|j: int| 0 <= j < its.len() && (#[trigger] its[j]).0 == "kind"@ && its[j].1 is Some && its[j].1->0.len() > 0;
                assert(slots[source_slot(its[j].0)->0] == its[j].1);
            }
        },
        Err(_) => {},
    }
}

/// An accepted `file(...)` has a path that is not empty, and an XDG base decides scope and
/// search alone: it is never accepted beside `findup` or `scope`. The XDG bases are
/// `config`, `data`, `state`, `cache` and `runtime`; the scopes `project`, `global` and
/// `system`, and a file whose scope is not given is the project's.
pub proof fn lemma_an_accepted_file(items: Seq<FileItem>, w: Seq<char>)
    ensures
        file_of(items) matches Ok(st) ==> (st.path matches Some(p) && p.len() > 0) && !(st.xdg is Some
            && (st.saw_findup || st.saw_scope)),
        xdg_base_of("config"@) == Some(XdgBase::Config),
        xdg_base_of("data"@) == Some(XdgBase::Data),
        xdg_base_of("state"@) == Some(XdgBase::State),
        xdg_base_of("cache"@) == Some(XdgBase::Cache),
        xdg_base_of("runtime"@) == Some(XdgBase::Runtime),
        w != "config"@ && w != "data"@ && w != "state"@ && w != "cache"@ && w != "runtime"@ ==> xdg_base_of(w) is None,
        file_scope_of("project"@) == Some(FileScope::Project),
        file_scope_of("global"@) == Some(FileScope::Global),
        file_scope_of("system"@) == Some(FileScope::System),
        w != "project"@ && w != "global"@ && w != "system"@ ==> file_scope_of(w) is None,
{
    reveal_strlit("config");
    reveal_strlit("data");
    reveal_strlit("state");
    reveal_strlit("cache");
    reveal_strlit("runtime");
    assert("data"@.len() != "config"@.len());
    assert("data"@ != "config"@);
    assert("state"@.len() != "config"@.len());
    assert("state"@ != "config"@);
    assert("state"@.len() != "data"@.len());
    assert("state"@ != "data"@);
    assert("cache"@.len() != "config"@.len());
    assert("cache"@ != "config"@);
    assert("cache"@.len() != "data"@.len());
    assert("cache"@ != "data"@);
    assert("cache"@[0] != "state"@[0]);
    assert("cache"@ != "state"@);
    assert("runtime"@.len() != "config"@.len());
    assert("runtime"@ != "config"@);
    assert("runtime"@.len() != "data"@.len());
    assert("runtime"@ != "data"@);
    assert("runtime"@.len() != "state"@.len());
    assert("runtime"@ != "state"@);
    assert("runtime"@.len() != "cache"@.len());
    assert("runtime"@ != "cache"@);
    reveal_strlit("project");
    reveal_strlit("global");
    reveal_strlit("system");
    assert("global"@.len() != "project"@.len());
    assert("global"@ != "project"@);
    assert("system"@.len() != "project"@.len());
    assert("system"@ != "project"@);
    assert("system"@[0] != "global"@[0]);
    assert("system"@ != "global"@);
}

/// An extension is accepted exactly when it is two arguments, a string key that is not empty
/// and a literal value that is not a list; it then is that key and that value.
pub proof fn lemma_an_extension_is_a_key_and_a_scalar(args: Seq<Option<Const>>)
    ensures
        extension_of(args) matches Ok((k, v)) ==> args.len() == 2 && (args[0] matches Some(Const::Str(key)) && key@
            == k) && k.len() > 0 && args[1] == Some(v) && !(v is List),
        (args.len() == 2 && (args[0] matches Some(Const::Str(key)) && key@.len() > 0) && (args[1] matches Some(v)
            && !(v is List))) ==> extension_of(args) is Ok,
{
}

} // verus!
