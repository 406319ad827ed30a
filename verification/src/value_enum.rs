//! What a `ValueEnum` derive states about its choices: the words help and completion show,
//! the words a parse accepts, the aliases, and which variant a word selects.
//!
//! A hidden variant or alias is still accepted; it is only left out of what is shown.

use vstd::prelude::*;

verus! {

/// One alias of a choice.
pub struct ChoiceAlias {
    pub name: String,
    pub hide: bool,
}

/// One variant of a value enum: its canonical word, its help, and its aliases.
pub struct ChoiceDecl {
    /// The Rust name of the variant.
    pub ident: String,
    /// The canonical word.
    pub name: String,
    pub help: Option<String>,
    pub hide: bool,
    pub aliases: Vec<ChoiceAlias>,
}

/// A `#[derive(ValueEnum)]` enum, its variants in declaration order.
pub struct ValueEnumDecl {
    pub ident: String,
    pub variants: Vec<ChoiceDecl>,
    /// Whether a word matches a choice regardless of ASCII case.
    pub ignore_case: bool,
}

/// A word of the enum and the variant it belongs to.
pub struct ChoiceWord {
    pub variant: usize,
    pub text: String,
}

/// An alias together with the canonical word of its variant.
pub struct AliasPair {
    pub variant: usize,
    pub canonical: String,
    pub alias: String,
}

/// What the generated `ValueEnum` impl lists.
pub struct ValueEnumPlan {
    /// The words shown: every canonical word and alias that is not hidden.
    pub choices: Vec<ChoiceWord>,
    /// The words accepted: every canonical word and alias.
    pub accepted: Vec<ChoiceWord>,
    /// Every alias with its canonical word.
    pub aliases: Vec<AliasPair>,
    pub ignore_case: bool,
}

/// The variant as a plain value: its canonical word, whether it is hidden, and its aliases.
pub struct ChoiceView {
    pub name: Seq<char>,
    pub hide: bool,
    pub aliases: Seq<(Seq<char>, bool)>,
}

pub open spec fn choice_view(c: ChoiceDecl) -> ChoiceView {
    ChoiceView {
        name: c.name@,
        hide: c.hide,
        aliases: c.aliases@.map_values(|a: ChoiceAlias| (a.name@, a.hide)),
    }
}

impl View for ValueEnumDecl {
    type V = Seq<ChoiceView>;

    open spec fn view(&self) -> Seq<ChoiceView> {
        self.variants@.map_values(|c: ChoiceDecl| choice_view(c))
    }
}

pub open spec fn words_view(ws: Seq<ChoiceWord>) -> Seq<(int, Seq<char>)> {
    ws.map_values(|w: ChoiceWord| (w.variant as int, w.text@))
}

pub open spec fn pairs_view(ps: Seq<AliasPair>) -> Seq<(int, Seq<char>, Seq<char>)> {
    ps.map_values(|p: AliasPair| (p.variant as int, p.canonical@, p.alias@))
}

/// The first `n` aliases of variant `i`, leaving out hidden ones when `visible` is asked for.
pub open spec fn alias_words(i: int, aliases: Seq<(Seq<char>, bool)>, n: nat, visible: bool) -> Seq<
    (int, Seq<char>),
>
    decreases n,
{
    if n == 0 {
        seq![]
    } else {
        let a = aliases[n - 1];
        alias_words(i, aliases, (n - 1) as nat, visible) + if visible && a.1 {
            seq![]
        } else {
            seq![(i, a.0)]
        }
    }
}

/// The words of variant `i`: its canonical word, then its aliases.
pub open spec fn variant_words(i: int, v: ChoiceView, visible: bool) -> Seq<(int, Seq<char>)> {
    (if visible && v.hide {
        seq![]
    } else {
        seq![(i, v.name)]
    }) + alias_words(i, v.aliases, v.aliases.len(), visible)
}

/// The words of the first `n` variants.
pub open spec fn enum_words(vs: Seq<ChoiceView>, n: nat, visible: bool) -> Seq<(int, Seq<char>)>
    decreases n,
{
    if n == 0 {
        seq![]
    } else {
        enum_words(vs, (n - 1) as nat, visible) + variant_words(n - 1, vs[n - 1], visible)
    }
}

/// The words help and completion show.
pub open spec fn visible_names_of(vs: Seq<ChoiceView>) -> Seq<(int, Seq<char>)> {
    enum_words(vs, vs.len(), true)
}

/// The words a parse accepts.
pub open spec fn all_names_of(vs: Seq<ChoiceView>) -> Seq<(int, Seq<char>)> {
    enum_words(vs, vs.len(), false)
}

pub open spec fn variant_pairs(i: int, v: ChoiceView, n: nat) -> Seq<(int, Seq<char>, Seq<char>)>
    decreases n,
{
    if n == 0 {
        seq![]
    } else {
        variant_pairs(i, v, (n - 1) as nat) + seq![(i, v.name, v.aliases[n - 1].0)]
    }
}

pub open spec fn enum_pairs(vs: Seq<ChoiceView>, n: nat) -> Seq<(int, Seq<char>, Seq<char>)>
    decreases n,
{
    if n == 0 {
        seq![]
    } else {
        enum_pairs(vs, (n - 1) as nat) + variant_pairs(n - 1, vs[n - 1], vs[n - 1].aliases.len())
    }
}

/// Every alias, paired with the canonical word of its variant.
pub open spec fn alias_pairs_of(vs: Seq<ChoiceView>) -> Seq<(int, Seq<char>, Seq<char>)> {
    enum_pairs(vs, vs.len())
}

fn copy_string(s: &String) -> (res: String)
    ensures
        res@ == s@,
{
    s.clone()
}

fn push_words(out: &mut Vec<ChoiceWord>, i: usize, v: &ChoiceDecl, visible: bool)
    ensures
        words_view(final(out)@) == words_view(old(out)@) + variant_words(
            i as int,
            choice_view(*v),
            visible,
        ),
{
    let ghost start = words_view(out@);
    let ghost cv = choice_view(*v);
    if !(visible && v.hide) {
        out.push(ChoiceWord { variant: i, text: copy_string(&v.name) });
    }
    assert(words_view(out@) =~= start + (if visible && cv.hide {
        seq![]
    } else {
        seq![(i as int, cv.name)]
    }));
    let ghost head = words_view(out@);
    let mut k: usize = 0;
    while k < v.aliases.len()
        invariant
            k <= v.aliases@.len(),
            cv == choice_view(*v),
            words_view(out@) == head + alias_words(i as int, cv.aliases, k as nat, visible),
        decreases v.aliases.len() - k,
    {
        let a = &v.aliases[k];
        assert(cv.aliases[k as int] == (a.name@, a.hide));
        let ghost before = words_view(out@);
        if !(visible && a.hide) {
            out.push(ChoiceWord { variant: i, text: copy_string(&a.name) });
            assert(words_view(out@) =~= before + seq![(i as int, a.name@)]);
        } else {
            assert(words_view(out@) =~= before + seq![]);
        }
        assert(alias_words(i as int, cv.aliases, (k + 1) as nat, visible) == alias_words(
            i as int,
            cv.aliases,
            k as nat,
            visible,
        ) + if visible && a.hide {
            seq![]
        } else {
            seq![(i as int, a.name@)]
        });
        assert(words_view(out@) =~= head + alias_words(i as int, cv.aliases, (k + 1) as nat, visible));
        k = k + 1;
    }
    assert(words_view(out@) =~= start + variant_words(i as int, cv, visible));
}

fn enum_word_list(variants: &Vec<ChoiceDecl>, visible: bool) -> (res: Vec<ChoiceWord>)
    ensures
        words_view(res@) == enum_words(
            variants@.map_values(|c: ChoiceDecl| choice_view(c)),
            variants@.len(),
            visible,
        ),
{
    let ghost vs = variants@.map_values(|c: ChoiceDecl| choice_view(c));
    let mut out: Vec<ChoiceWord> = Vec::new();
    let mut i: usize = 0;
    while i < variants.len()
        invariant
            i <= variants@.len(),
            vs == variants@.map_values(|c: ChoiceDecl| choice_view(c)),
            words_view(out@) == enum_words(vs, i as nat, visible),
        decreases variants.len() - i,
    {
        push_words(&mut out, i, &variants[i], visible);
        assert(vs[i as int] == choice_view(variants@[i as int]));
        i = i + 1;
    }
    out
}

fn alias_pair_list(variants: &Vec<ChoiceDecl>) -> (res: Vec<AliasPair>)
    ensures
        pairs_view(res@) == enum_pairs(
            variants@.map_values(|c: ChoiceDecl| choice_view(c)),
            variants@.len(),
        ),
{
    let ghost vs = variants@.map_values(|c: ChoiceDecl| choice_view(c));
    let mut out: Vec<AliasPair> = Vec::new();
    let mut i: usize = 0;
    while i < variants.len()
        invariant
            i <= variants@.len(),
            vs == variants@.map_values(|c: ChoiceDecl| choice_view(c)),
            pairs_view(out@) == enum_pairs(vs, i as nat),
        decreases variants.len() - i,
    {
        let v = &variants[i];
        let ghost cv = choice_view(*v);
        assert(vs[i as int] == cv);
        let ghost start = pairs_view(out@);
        let mut k: usize = 0;
        while k < v.aliases.len()
            invariant
                k <= v.aliases@.len(),
                cv == choice_view(*v),
                pairs_view(out@) == start + variant_pairs(i as int, cv, k as nat),
            decreases v.aliases.len() - k,
        {
            assert(cv.aliases[k as int].0 == v.aliases@[k as int].name@);
            let ghost before = pairs_view(out@);
            out.push(
                AliasPair {
                    variant: i,
                    canonical: copy_string(&v.name),
                    alias: copy_string(&v.aliases[k].name),
                },
            );
            assert(pairs_view(out@) =~= before + seq![(i as int, cv.name, cv.aliases[k as int].0)]);
            assert(variant_pairs(i as int, cv, (k + 1) as nat) == variant_pairs(i as int, cv, k as nat)
                + seq![(i as int, cv.name, cv.aliases[k as int].0)]);
            assert(pairs_view(out@) =~= start + variant_pairs(i as int, cv, (k + 1) as nat));
            k = k + 1;
        }
        i = i + 1;
    }
    out
}

/// What the `ValueEnum` impl of `ve` lists.
pub fn value_enum_plan(ve: &ValueEnumDecl) -> (res: ValueEnumPlan)
    ensures
        words_view(res.choices@) == visible_names_of(ve@),
        words_view(res.accepted@) == all_names_of(ve@),
        pairs_view(res.aliases@) == alias_pairs_of(ve@),
        res.ignore_case == ve.ignore_case,
{
    ValueEnumPlan {
        choices: enum_word_list(&ve.variants, true),
        accepted: enum_word_list(&ve.variants, false),
        aliases: alias_pair_list(&ve.variants),
        ignore_case: ve.ignore_case,
    }
}

/// `c` with an ASCII uppercase letter taken to its lowercase code.
pub open spec fn ascii_folded(c: char) -> u32 {
    if 'A' <= c && c <= 'Z' {
        (c as u32 + 32) as u32
    } else {
        c as u32
    }
}

/// Whether `a` and `b` are the same text up to ASCII case.
pub open spec fn equal_ignoring_ascii_case(a: Seq<char>, b: Seq<char>) -> bool {
    a.len() == b.len() && forall|k: int| 0 <= k < a.len() ==> ascii_folded(a[k]) == ascii_folded(b[k])
}

/// Whether `candidate` is the word `w`, or equal to it up to ASCII case when case is ignored.
pub open spec fn word_matches(candidate: Seq<char>, w: Seq<char>, ignore_case: bool) -> bool {
    candidate == w || (ignore_case && equal_ignoring_ascii_case(candidate, w))
}

/// Whether `w` names variant `v`, by its canonical word or an alias.
pub open spec fn names_variant(v: ChoiceView, w: Seq<char>, ignore_case: bool) -> bool {
    word_matches(v.name, w, ignore_case) || exists|k: int|
        0 <= k < v.aliases.len() && word_matches(#[trigger] v.aliases[k].0, w, ignore_case)
}

/// The first variant from index `i` on that `w` names.
pub open spec fn choice_from(vs: Seq<ChoiceView>, w: Seq<char>, ignore_case: bool, i: int) -> Option<
    int,
>
    decreases vs.len() - i,
{
    if i < 0 || i >= vs.len() {
        None
    } else if names_variant(vs[i], w, ignore_case) {
        Some(i)
    } else {
        choice_from(vs, w, ignore_case, i + 1)
    }
}

/// The variant a parse selects for `w`: the first, in declaration order, that `w` names.
pub open spec fn choice_of(vs: Seq<ChoiceView>, w: Seq<char>, ignore_case: bool) -> Option<int> {
    choice_from(vs, w, ignore_case, 0)
}

fn text_matches(candidate: &str, w: &str, ignore_case: bool) -> (res: bool)
    ensures
        res == word_matches(candidate@, w@, ignore_case),
{
    let n = candidate.unicode_len();
    if n != w.unicode_len() {
        return false;
    }
    let mut same = true;
    let mut folded = true;
    let mut k: usize = 0;
    while k < n
        invariant
            n == candidate@.len(),
            n == w@.len(),
            k <= n,
            same == (forall|j: int| 0 <= j < k ==> candidate@[j] == w@[j]),
            folded == (forall|j: int|
                0 <= j < k ==> ascii_folded(candidate@[j]) == ascii_folded(w@[j])),
        decreases n - k,
    {
        let a = candidate.get_char(k);
        let b = w.get_char(k);
        let fa: u32 = if 'A' <= a && a <= 'Z' {
            (a as u32) + 32
        } else {
            a as u32
        };
        let fb: u32 = if 'A' <= b && b <= 'Z' {
            (b as u32) + 32
        } else {
            b as u32
        };
        same = same && a == b;
        folded = folded && fa == fb;
        k = k + 1;
    }
    if same {
        assert(candidate@ =~= w@);
    }
    if folded && !same {
        assert(equal_ignoring_ascii_case(candidate@, w@));
    }
    same || (ignore_case && folded)
}

fn names(v: &ChoiceDecl, w: &str, ignore_case: bool) -> (res: bool)
    ensures
        res == names_variant(choice_view(*v), w@, ignore_case),
{
    let ghost cv = choice_view(*v);
    if text_matches(v.name.as_str(), w, ignore_case) {
        return true;
    }
    let mut k: usize = 0;
    while k < v.aliases.len()
        invariant
            k <= v.aliases@.len(),
            cv == choice_view(*v),
            !word_matches(cv.name, w@, ignore_case),
            forall|j: int| 0 <= j < k ==> !word_matches(#[trigger] cv.aliases[j].0, w@, ignore_case),
        decreases v.aliases.len() - k,
    {
        assert(cv.aliases[k as int].0 == v.aliases@[k as int].name@);
        if text_matches(v.aliases[k].name.as_str(), w, ignore_case) {
            return true;
        }
        k = k + 1;
    }
    false
}

/// The variant index the generated `from_choice` returns for `w`.
pub fn choice_for(ve: &ValueEnumDecl, w: &str) -> (res: Option<usize>)
    ensures
        match res {
            Some(i) => choice_of(ve@, w@, ve.ignore_case) == Some(i as int),
            None => choice_of(ve@, w@, ve.ignore_case) is None,
        },
{
    let ghost vs = ve@;
    let mut i: usize = 0;
    while i < ve.variants.len()
        invariant
            i <= ve.variants@.len(),
            vs == ve@,
            vs.len() == ve.variants@.len(),
            choice_of(vs, w@, ve.ignore_case) == choice_from(vs, w@, ve.ignore_case, i as int),
        decreases ve.variants.len() - i,
    {
        assert(vs[i as int] == choice_view(ve.variants@[i as int]));
        if names(&ve.variants[i], w, ve.ignore_case) {
            return Some(i);
        }
        i = i + 1;
    }
    None
}

proof fn lemma_visible_aliases_accepted(i: int, aliases: Seq<(Seq<char>, bool)>, n: nat, w: (int, Seq<char>))
    requires
        n <= aliases.len(),
        alias_words(i, aliases, n, true).contains(w),
    ensures
        alias_words(i, aliases, n, false).contains(w),
    decreases n,
{
    if n > 0 {
        let prev = alias_words(i, aliases, (n - 1) as nat, true);
        let a = aliases[n - 1];
        let tail = if a.1 { seq![] } else { seq![(i, a.0)] };
        let idx = choose|k: int| 0 <= k < alias_words(i, aliases, n, true).len() && alias_words(i, aliases, n, true)[k] == w;
        if idx < prev.len() {
            assert(prev[idx] == w);
            assert(prev.contains(w));
            lemma_visible_aliases_accepted(i, aliases, (n - 1) as nat, w);
            let all_prev = alias_words(i, aliases, (n - 1) as nat, false);
            let j = choose|k: int| 0 <= k < all_prev.len() && all_prev[k] == w;
            assert(alias_words(i, aliases, n, false)[j] == w);
        } else {
            assert(w == (i, a.0));
            let all_prev = alias_words(i, aliases, (n - 1) as nat, false);
            assert(alias_words(i, aliases, n, false)[all_prev.len() as int] == w);
        }
    }
}

proof fn lemma_visible_words_accepted(vs: Seq<ChoiceView>, n: nat, w: (int, Seq<char>))
    requires
        n <= vs.len(),
        enum_words(vs, n, true).contains(w),
    ensures
        enum_words(vs, n, false).contains(w),
    decreases n,
{
    if n > 0 {
        let prev = enum_words(vs, (n - 1) as nat, true);
        let all_prev = enum_words(vs, (n - 1) as nat, false);
        let v = vs[n - 1];
        let shown = variant_words(n - 1, v, true);
        let all = variant_words(n - 1, v, false);
        let idx = choose|k: int| 0 <= k < enum_words(vs, n, true).len() && enum_words(vs, n, true)[k] == w;
        if idx < prev.len() {
            assert(prev[idx] == w);
            lemma_visible_words_accepted(vs, (n - 1) as nat, w);
            let j = choose|k: int| 0 <= k < all_prev.len() && all_prev[k] == w;
            assert(enum_words(vs, n, false)[j] == w);
        } else {
            let r = idx - prev.len();
            assert(shown[r] == w);
            let head = if v.hide { seq![] } else { seq![(n - 1, v.name)] };
            let als = alias_words(n - 1, v.aliases, v.aliases.len(), true);
            let all_als = alias_words(n - 1, v.aliases, v.aliases.len(), false);
            if r < head.len() {
                assert(w == (n - 1, v.name));
                assert(enum_words(vs, n, false)[all_prev.len() as int] == w);
            } else {
                assert(als[r - head.len()] == w);
                assert(als.contains(w));
                lemma_visible_aliases_accepted(n - 1, v.aliases, v.aliases.len(), w);
                let j = choose|k: int| 0 <= k < all_als.len() && all_als[k] == w;
                assert(all[1 + j] == w);
                assert(enum_words(vs, n, false)[all_prev.len() + 1 + j] == w);
            }
        }
    }
}

/// Every word help and completion show is one a parse accepts, for the same variant.
pub proof fn lemma_shown_words_are_accepted(vs: Seq<ChoiceView>, w: (int, Seq<char>))
    requires
        visible_names_of(vs).contains(w),
    ensures
        all_names_of(vs).contains(w),
{
    lemma_visible_words_accepted(vs, vs.len(), w);
}

/// Whether `w` is a word of variant `v`: its canonical word or one of its aliases, leaving out
/// hidden ones when only visible words are asked for.
pub open spec fn is_word_of(v: ChoiceView, w: Seq<char>, visible: bool) -> bool {
    (v.name == w && !(visible && v.hide)) || exists|k: int|
        0 <= k < v.aliases.len() && (#[trigger] v.aliases[k]).0 == w && !(visible && v.aliases[k].1)
}

proof fn lemma_alias_words_members(i: int, aliases: Seq<(Seq<char>, bool)>, n: nat, visible: bool, x: (int, Seq<char>))
    requires
        n <= aliases.len(),
    ensures
        alias_words(i, aliases, n, visible).contains(x) <==> (x.0 == i && exists|k: int|
            0 <= k < n && (#[trigger] aliases[k]).0 == x.1 && !(visible && aliases[k].1)),
    decreases n,
{
    if n > 0 {
        lemma_alias_words_members(i, aliases, (n - 1) as nat, visible, x);
        let prev = alias_words(i, aliases, (n - 1) as nat, visible);
        let a = aliases[n - 1];
        let tail = if visible && a.1 { seq![] } else { seq![(i, a.0)] };
        let cur = alias_words(i, aliases, n, visible);
        assert(cur == prev + tail);
        if cur.contains(x) {
            let idx = choose|m: int| 0 <= m < cur.len() && cur[m] == x;
            if idx < prev.len() {
                assert(prev[idx] == x);
                let k = choose|k: int| 0 <= k < n - 1 && (#[trigger] aliases[k]).0 == x.1 && !(visible && aliases[k].1);
                assert(0 <= k < n && aliases[k].0 == x.1);
            } else {
                assert(tail[idx - prev.len()] == x);
                assert(aliases[n - 1].0 == x.1);
            }
        }
        if x.0 == i && exists|k: int| 0 <= k < n && (#[trigger] aliases[k]).0 == x.1 && !(visible && aliases[k].1) {
            let k = choose|k: int| 0 <= k < n && (#[trigger] aliases[k]).0 == x.1 && !(visible && aliases[k].1);
            if k < n - 1 {
                assert(prev.contains(x));
                let m = choose|m: int| 0 <= m < prev.len() && prev[m] == x;
                assert(cur[m] == x);
            } else {
                assert(x == (i, a.0));
                assert(cur[prev.len() as int] == x);
            }
        }
    }
}

proof fn lemma_enum_words_members(vs: Seq<ChoiceView>, n: nat, visible: bool, x: (int, Seq<char>))
    requires
        n <= vs.len(),
    ensures
        enum_words(vs, n, visible).contains(x) <==> (0 <= x.0 < n && is_word_of(vs[x.0], x.1, visible)),
    decreases n,
{
    if n > 0 {
        lemma_enum_words_members(vs, (n - 1) as nat, visible, x);
        let i = n - 1;
        let v = vs[i];
        lemma_alias_words_members(i, v.aliases, v.aliases.len(), visible, x);
        let prev = enum_words(vs, (n - 1) as nat, visible);
        let head = if visible && v.hide { seq![] } else { seq![(i, v.name)] };
        let als = alias_words(i, v.aliases, v.aliases.len(), visible);
        let cur = enum_words(vs, n, visible);
        assert(cur == prev + (head + als));
        if cur.contains(x) {
            let idx = choose|m: int| 0 <= m < cur.len() && cur[m] == x;
            if idx < prev.len() {
                assert(prev[idx] == x);
            } else if idx < prev.len() + head.len() {
                assert(head[idx - prev.len()] == x);
            } else {
                assert(als[idx - prev.len() - head.len()] == x);
                assert(als.contains(x));
            }
        }
        if 0 <= x.0 < n && is_word_of(vs[x.0], x.1, visible) {
            if x.0 < n - 1 {
                assert(prev.contains(x));
                let m = choose|m: int| 0 <= m < prev.len() && prev[m] == x;
                assert(cur[m] == x);
            } else if v.name == x.1 && !(visible && v.hide) {
                assert(cur[prev.len() as int] == x);
            } else {
                assert(als.contains(x));
                let m = choose|m: int| 0 <= m < als.len() && als[m] == x;
                assert(cur[prev.len() + head.len() + m] == x);
            }
        }
    }
}

/// The words shown are exactly every variant's canonical word and aliases that are not hidden,
/// tagged with their variant; the words accepted are all of them, hidden ones included.
pub proof fn lemma_words_are_each_variants_names(vs: Seq<ChoiceView>, i: int, w: Seq<char>)
    ensures
        visible_names_of(vs).contains((i, w)) <==> (0 <= i < vs.len() && is_word_of(vs[i], w, true)),
        all_names_of(vs).contains((i, w)) <==> (0 <= i < vs.len() && is_word_of(vs[i], w, false)),
{
    lemma_enum_words_members(vs, vs.len(), true, (i, w));
    lemma_enum_words_members(vs, vs.len(), false, (i, w));
}

/// ASCII case folding: two chars match ignoring case exactly when they are equal, or one is an
/// ASCII capital and the other its small letter.
pub proof fn lemma_ascii_folding(c: char, d: char)
    ensures
        ascii_folded(c) == ascii_folded(d) <==> (c == d || ('A' <= c <= 'Z' && d as int == c as int + 32) || (
        'A' <= d <= 'Z' && c as int == d as int + 32)),
{
    if ascii_folded(c) == ascii_folded(d) && c != d {
        if !('A' <= c <= 'Z') && !('A' <= d <= 'Z') {
            assert(c as int == d as int);
        }
    }
}

proof fn lemma_choice_from(vs: Seq<ChoiceView>, w: Seq<char>, ic: bool, i: int)
    requires
        0 <= i,
    ensures
        match choice_from(vs, w, ic, i) {
            Some(j) => i <= j < vs.len() && names_variant(vs[j], w, ic) && forall|k: int|
                i <= k < j ==> !names_variant(#[trigger] vs[k], w, ic),
            None => forall|k: int| i <= k < vs.len() ==> !names_variant(#[trigger] vs[k], w, ic),
        },
    decreases vs.len() - i,
{
    if i < vs.len() && !names_variant(vs[i], w, ic) {
        lemma_choice_from(vs, w, ic, i + 1);
    }
}

/// A word selects the first variant, in declaration order, that it names by its canonical word
/// or an alias (hidden ones included), up to ASCII case when case is ignored; a word no variant
/// names selects none. So every variant's own canonical word selects that variant or an earlier
/// one that shares the word.
pub proof fn lemma_a_word_selects_the_first_variant_it_names(vs: Seq<ChoiceView>, w: Seq<char>, ic: bool, i: int)
    ensures
        match choice_of(vs, w, ic) {
            Some(j) => 0 <= j < vs.len() && names_variant(vs[j], w, ic) && forall|k: int|
                0 <= k < j ==> !names_variant(#[trigger] vs[k], w, ic),
            None => forall|k: int| 0 <= k < vs.len() ==> !names_variant(#[trigger] vs[k], w, ic),
        },
        0 <= i < vs.len() ==> (choice_of(vs, vs[i].name, ic) matches Some(j) && j <= i),
        names_variant(vs[i], w, false) <==> is_word_of(vs[i], w, false),
{
    lemma_choice_from(vs, w, ic, 0);
    lemma_choice_from(vs, vs[i].name, ic, 0);
    if 0 <= i < vs.len() {
        assert(names_variant(vs[i], vs[i].name, ic));
    }
    if names_variant(vs[i], w, false) && !(vs[i].name == w) {
        let k = choose|k: int| 0 <= k < vs[i].aliases.len() && word_matches(#[trigger] vs[i].aliases[k].0, w, false);
        assert(vs[i].aliases[k].0 == w);
    }
    if is_word_of(vs[i], w, false) && !(vs[i].name == w) {
        let k = choose|k: int| 0 <= k < vs[i].aliases.len() && (#[trigger] vs[i].aliases[k]).0 == w && !(false && vs[i].aliases[k].1);
        assert(word_matches(vs[i].aliases[k].0, w, false));
    }
}

} // verus!
