//! A `Subcommands` derive: which variants are commands of the enum's tables, which one is
//! handled outside it, which need an `Args` struct written for them, and where each command's
//! metadata comes from.

use vstd::prelude::*;

use crate::text::starts_with;

verus! {

/// One variant of a `Subcommands` enum.
pub struct SubVariant {
    /// The Rust name of the variant.
    pub ident: String,
    /// The command's name.
    pub name: String,
    /// The type the variant holds, as written; for a unit or inline variant, the struct the
    /// derive writes for it.
    pub ty: String,
    /// A unit variant, which gets an empty `Args` struct.
    pub unit: bool,
    /// A variant with inline fields, which get an `Args` struct of their own.
    pub inline: bool,
    /// Handled outside the derive: the words after it are handed over as they are.
    pub external: bool,
    pub aliases: Vec<String>,
    pub hidden_aliases: Vec<String>,
    /// The variant's doc comment, which wins over the struct's.
    pub help: Option<String>,
    pub long_help: Option<String>,
    /// Whether the variant declares examples of its own.
    pub has_examples: bool,
    pub surface: Option<String>,
    /// Whether the variant declares availability conditions of its own.
    pub has_available_if: bool,
    pub hide: bool,
}

/// A `#[derive(Subcommands)]` enum, its variants in declaration order.
pub struct SubcommandsDecl {
    pub ident: String,
    pub variants: Vec<SubVariant>,
}

/// An `Args` struct the derive writes for a unit or inline variant.
pub struct GeneratedArgs {
    pub variant: usize,
    /// Whether its doc is hidden: the struct's name is one the derive made up.
    pub doc_hidden: bool,
}

/// What the generated tables state of one command variant.
pub struct CommandVariantPlan {
    pub variant: usize,
    /// The names the parser matches besides the command's: visible aliases, then hidden ones.
    pub table_aliases: Vec<String>,
    /// Whether `about` and `long_about` are the variant's rather than the struct's.
    pub about_from_variant: bool,
    pub long_about_from_variant: bool,
    pub examples_from_variant: bool,
    pub surface_from_variant: bool,
    pub available_if_from_variant: bool,
}

/// What the generated `Subcommands` impl states.
pub struct DispatchPlan {
    /// The `Args` structs written for unit and inline variants, in declaration order.
    pub generated: Vec<GeneratedArgs>,
    /// The variants that are commands of the tables, in declaration order.
    pub commands: Vec<CommandVariantPlan>,
    /// The first variant handled outside the derive, if any.
    pub external: Option<usize>,
}

/// A variant as plain values.
pub struct SubView {
    pub ty: Seq<char>,
    pub unit: bool,
    pub inline: bool,
    pub external: bool,
    pub aliases: Seq<Seq<char>>,
    pub hidden_aliases: Seq<Seq<char>>,
    pub help: bool,
    pub long_help: bool,
    pub has_examples: bool,
    pub surface: bool,
    pub has_available_if: bool,
}

pub open spec fn texts(v: Seq<String>) -> Seq<Seq<char>> {
    v.map_values(|s: String| s@)
}

pub open spec fn sub_view(v: SubVariant) -> SubView {
    SubView {
        ty: v.ty@,
        unit: v.unit,
        inline: v.inline,
        external: v.external,
        aliases: texts(v.aliases@),
        hidden_aliases: texts(v.hidden_aliases@),
        help: v.help is Some,
        long_help: v.long_help is Some,
        has_examples: v.has_examples,
        surface: v.surface is Some,
        has_available_if: v.has_available_if,
    }
}

impl View for SubcommandsDecl {
    type V = Seq<SubView>;

    open spec fn view(&self) -> Seq<SubView> {
        self.variants@.map_values(|v: SubVariant| sub_view(v))
    }
}

/// Whether `needle` occurs in `s`.
pub open spec fn contains_text(s: Seq<char>, needle: Seq<char>) -> bool {
    exists|i: int| 0 <= i && i + needle.len() <= s.len() && #[trigger] s.subrange(i, i + needle.len()) == needle
}

/// The marker the derive puts in the names of the structs it makes up.
pub open spec fn made_up_marker() -> Seq<char> {
    "__Usage"@
}

/// The `Args` structs written for the first `n` variants.
pub open spec fn generated_upto(vs: Seq<SubView>, n: nat) -> Seq<(int, bool)>
    decreases n,
{
    if n == 0 {
        seq![]
    } else {
        let v = vs[n - 1];
        generated_upto(vs, (n - 1) as nat) + if v.unit || v.inline {
            seq![(n - 1, contains_text(v.ty, made_up_marker()))]
        } else {
            seq![]
        }
    }
}

/// What is stated of the command variant at index `i`.
pub open spec fn command_matches(p: CommandVariantPlan, i: int, v: SubView) -> bool {
    &&& p.variant == i
    &&& texts(p.table_aliases@) == v.aliases + v.hidden_aliases
    &&& p.about_from_variant == v.help
    &&& p.long_about_from_variant == v.long_help
    &&& p.examples_from_variant == v.has_examples
    &&& p.surface_from_variant == v.surface
    &&& p.available_if_from_variant == v.has_available_if
}

/// The indices of the first `n` variants that are commands of the tables.
pub open spec fn command_indices(vs: Seq<SubView>, n: nat) -> Seq<int>
    decreases n,
{
    if n == 0 {
        seq![]
    } else {
        command_indices(vs, (n - 1) as nat) + if vs[n - 1].external {
            seq![]
        } else {
            seq![n - 1]
        }
    }
}

/// The first variant, from `i` on, handled outside the derive.
pub open spec fn external_from(vs: Seq<SubView>, i: int) -> Option<int>
    decreases vs.len() - i,
{
    if i < 0 || i >= vs.len() {
        None
    } else if vs[i].external {
        Some(i)
    } else {
        external_from(vs, i + 1)
    }
}

pub open spec fn generated_view(g: Seq<GeneratedArgs>) -> Seq<(int, bool)> {
    g.map_values(|a: GeneratedArgs| (a.variant as int, a.doc_hidden))
}

/// The dispatch plan of an enum whose variants are `vs`.
pub open spec fn dispatch_plan_matches(p: DispatchPlan, vs: Seq<SubView>) -> bool {
    let cmds = command_indices(vs, vs.len());
    &&& generated_view(p.generated@) == generated_upto(vs, vs.len())
    &&& p.commands@.len() == cmds.len()
    &&& (forall|k: int| 0 <= k < cmds.len() ==> command_matches(#[trigger] p.commands@[k], cmds[k], vs[cmds[k]]))
    &&& match p.external {
        Some(i) => external_from(vs, 0) == Some(i as int),
        None => external_from(vs, 0) is None,
    }
}

fn contains_marker(s: &str) -> (res: bool)
    ensures
        res == contains_text(s@, made_up_marker()),
{
    let marker = "__Usage";
    proof {
        reveal_strlit("__Usage");
    }
    let n = s.unicode_len();
    let m = marker.unicode_len();
    if m > n {
        assert forall|i: int| 0 <= i && i + m <= n implies #[trigger] s@.subrange(i, i + m) != marker@ by {}
        return false;
    }
    let mut i: usize = 0;
    while i <= n - m
        invariant
            n == s@.len(),
            m == marker@.len(),
            marker@ == made_up_marker(),
            m <= n,
            i <= n - m + 1,
            forall|j: int| 0 <= j < i ==> #[trigger] s@.subrange(j, j + m) != marker@,
        decreases n - i,
    {
        let rest = s.substring_char(i, n);
        if starts_with(rest, marker) {
            assert(s@.subrange(i as int, i + m) =~= rest@.subrange(0, m as int));
            return true;
        }
        assert(s@.subrange(i as int, i + m) =~= rest@.subrange(0, m as int));
        i = i + 1;
    }
    false
}

fn copy_strings(v: &Vec<String>, out: &mut Vec<String>)
    ensures
        texts(final(out)@) == texts(old(out)@) + texts(v@),
{
    let ghost start = texts(out@);
    let mut k: usize = 0;
    while k < v.len()
        invariant
            k <= v@.len(),
            texts(out@) == start + texts(v@.subrange(0, k as int)),
        decreases v.len() - k,
    {
        let item = v[k].clone();
        assert(item@ == v@[k as int]@);
        let ghost before = texts(out@);
        out.push(item);
        assert(texts(out@) =~= before + seq![item@]);
        assert(texts(v@.subrange(0, k + 1)) =~= texts(v@.subrange(0, k as int)) + seq![v@[k as int]@]);
        assert(texts(out@) =~= start + texts(v@.subrange(0, k + 1)));
        k = k + 1;
    }
    assert(v@.subrange(0, v@.len() as int) =~= v@);
}

/// What the generated `Subcommands` impl of `subs` states.
pub fn subcommands_plan(subs: &SubcommandsDecl) -> (res: DispatchPlan)
    ensures
        dispatch_plan_matches(res, subs@),
{
    let ghost vs = subs@;
    let mut generated: Vec<GeneratedArgs> = Vec::new();
    let mut commands: Vec<CommandVariantPlan> = Vec::new();
    let mut external: Option<usize> = None;
    let ghost mut cmds: Seq<int> = seq![];
    let mut i: usize = 0;
    while i < subs.variants.len()
        invariant
            i <= subs.variants@.len(),
            vs == subs@,
            vs.len() == subs.variants@.len(),
            generated_view(generated@) == generated_upto(vs, i as nat),
            cmds == command_indices(vs, i as nat),
            commands@.len() == cmds.len(),
            forall|k: int| 0 <= k < cmds.len() ==> 0 <= #[trigger] cmds[k] < i,
            forall|k: int| 0 <= k < cmds.len() ==> command_matches(#[trigger] commands@[k], cmds[k], vs[cmds[k]]),
            match external {
                Some(e) => external_from(vs, 0) == Some(e as int),
                None => external_from(vs, 0) == external_from(vs, i as int),
            },
        decreases subs.variants.len() - i,
    {
        let v = &subs.variants[i];
        assert(vs[i as int] == sub_view(*v));
        let ghost old_generated = generated_view(generated@);
        if v.unit || v.inline {
            let hidden = contains_marker(v.ty.as_str());
            generated.push(GeneratedArgs { variant: i, doc_hidden: hidden });
            assert(generated_view(generated@) =~= old_generated + seq![(i as int, hidden)]);
        } else {
            assert(generated_view(generated@) =~= old_generated + seq![]);
        }
        if v.external {
            if external.is_none() {
                external = Some(i);
            }
            proof {
                assert(command_indices(vs, (i + 1) as nat) =~= cmds + seq![]);
                cmds = command_indices(vs, (i + 1) as nat);
            }
        } else {
            let mut table_aliases: Vec<String> = Vec::new();
            copy_strings(&v.aliases, &mut table_aliases);
            copy_strings(&v.hidden_aliases, &mut table_aliases);
            assert(texts(table_aliases@) =~= vs[i as int].aliases + vs[i as int].hidden_aliases);
            let p = CommandVariantPlan {
                variant: i,
                table_aliases,
                about_from_variant: v.help.is_some(),
                long_about_from_variant: v.long_help.is_some(),
                examples_from_variant: v.has_examples,
                surface_from_variant: v.surface.is_some(),
                available_if_from_variant: v.has_available_if,
            };
            commands.push(p);
            proof {
                assert(command_indices(vs, (i + 1) as nat) =~= cmds + seq![i as int]);
                cmds = command_indices(vs, (i + 1) as nat);
            }
        }
        i = i + 1;
    }
    DispatchPlan { generated, commands, external }
}

proof fn lemma_command_indices_upto(vs: Seq<SubView>, n: nat)
    requires
        n <= vs.len(),
    ensures
        forall|k: int| 0 <= k < command_indices(vs, n).len() ==> 0 <= #[trigger] command_indices(vs, n)[k] < n
            && !vs[command_indices(vs, n)[k]].external,
        forall|k1: int, k2: int|
            0 <= k1 < k2 < command_indices(vs, n).len() ==> #[trigger] command_indices(vs, n)[k1]
                < #[trigger] command_indices(vs, n)[k2],
        forall|j: int| 0 <= j < n && !(#[trigger] vs[j]).external ==> command_indices(vs, n).contains(j),
    decreases n,
{
    if n > 0 {
        lemma_command_indices_upto(vs, (n - 1) as nat);
        let prev = command_indices(vs, (n - 1) as nat);
        let cur = command_indices(vs, n);
        assert forall|j: int| 0 <= j < n && !(#[trigger] vs[j]).external implies cur.contains(j) by {
            if j == n - 1 {
                assert(cur[prev.len() as int] == j);
            } else {
                let k = choose|k: int| 0 <= k < prev.len() && prev[k] == j;
                assert(cur[k] == j);
            }
        }
    }
}

proof fn lemma_external_from(vs: Seq<SubView>, i: int)
    requires
        0 <= i,
    ensures
        match external_from(vs, i) {
            Some(j) => i <= j < vs.len() && vs[j].external && forall|k: int| i <= k < j ==> !(#[trigger] vs[k]).external,
            None => forall|k: int| i <= k < vs.len() ==> !(#[trigger] vs[k]).external,
        },
    decreases vs.len() - i,
{
    if i < vs.len() && !vs[i].external {
        lemma_external_from(vs, i + 1);
    }
}

proof fn lemma_generated_upto(vs: Seq<SubView>, n: nat, x: (int, bool))
    requires
        n <= vs.len(),
    ensures
        generated_upto(vs, n).contains(x) <==> (0 <= x.0 < n && (vs[x.0].unit || vs[x.0].inline) && x.1
            == contains_text(vs[x.0].ty, made_up_marker())),
    decreases n,
{
    if n > 0 {
        lemma_generated_upto(vs, (n - 1) as nat, x);
        let prev = generated_upto(vs, (n - 1) as nat);
        let v = vs[n - 1];
        let tail = if v.unit || v.inline { seq![(n - 1, contains_text(v.ty, made_up_marker()))] } else { seq![] };
        let cur = generated_upto(vs, n);
        assert(cur == prev + tail);
        if cur.contains(x) {
            let m = choose|m: int| 0 <= m < cur.len() && cur[m] == x;
            if m < prev.len() {
                assert(prev[m] == x);
            } else {
                assert(tail[m - prev.len()] == x);
            }
        }
        if 0 <= x.0 < n && (vs[x.0].unit || vs[x.0].inline) && x.1 == contains_text(vs[x.0].ty, made_up_marker()) {
            if x.0 < n - 1 {
                let m = choose|m: int| 0 <= m < prev.len() && prev[m] == x;
                assert(cur[m] == x);
            } else {
                assert(cur[prev.len() as int] == x);
            }
        }
    }
}

/// The tables' commands are exactly the variants not handled outside the derive, each once and
/// in declaration order; the external variant reported is the first external one, and none is
/// reported when no variant is external.
pub proof fn lemma_commands_are_the_dispatched_variants(vs: Seq<SubView>)
    ensures
        forall|k: int| 0 <= k < command_indices(vs, vs.len()).len() ==> 0 <= #[trigger] command_indices(vs, vs.len())[k]
            < vs.len() && !vs[command_indices(vs, vs.len())[k]].external,
        forall|k1: int, k2: int|
            0 <= k1 < k2 < command_indices(vs, vs.len()).len() ==> #[trigger] command_indices(vs, vs.len())[k1]
                < #[trigger] command_indices(vs, vs.len())[k2],
        forall|j: int| 0 <= j < vs.len() && !(#[trigger] vs[j]).external ==> command_indices(vs, vs.len()).contains(j),
        match external_from(vs, 0) {
            Some(j) => 0 <= j < vs.len() && vs[j].external && forall|k: int| 0 <= k < j ==> !(#[trigger] vs[k]).external,
            None => forall|k: int| 0 <= k < vs.len() ==> !(#[trigger] vs[k]).external,
        },
{
    lemma_command_indices_upto(vs, vs.len());
    lemma_external_from(vs, 0);
}

/// An `Args` struct is written exactly for each unit or inline variant, and its doc is hidden
/// exactly when its name holds the marker of a made-up name.
pub proof fn lemma_structs_are_written_for_unit_and_inline_variants(vs: Seq<SubView>, i: int, hidden: bool)
    ensures
        generated_upto(vs, vs.len()).contains((i, hidden)) <==> (0 <= i < vs.len() && (vs[i].unit || vs[i].inline)
            && hidden == contains_text(vs[i].ty, made_up_marker())),
{
    lemma_generated_upto(vs, vs.len(), (i, hidden));
}

/// A name holds a text wherever in it the text stands, and never holds a text longer than
/// itself.
pub proof fn lemma_contains_text_anywhere(p: Seq<char>, needle: Seq<char>, q: Seq<char>)
    ensures
        contains_text(p + needle + q, needle),
        needle.len() > p.len() ==> !contains_text(p, needle),
{
    let s = p + needle + q;
    assert(s.subrange(p.len() as int, (p.len() + needle.len()) as int) =~= needle);
}

/// Each command of the tables is a dispatched variant; the parser matches its visible aliases
/// and its hidden ones, and nothing else; and its help, long help, examples, surface and
/// availability are the variant's own exactly when the variant declares them.
pub proof fn lemma_a_command_keeps_its_variants_declarations(p: DispatchPlan, vs: Seq<SubView>, k: int, a: Seq<char>)
    requires
        dispatch_plan_matches(p, vs),
        0 <= k < p.commands@.len(),
    ensures
        ({
            let c = p.commands@[k];
            let j = c.variant as int;
            &&& 0 <= j < vs.len()
            &&& !vs[j].external
            &&& texts(c.table_aliases@).contains(a) <==> (vs[j].aliases.contains(a) || vs[j].hidden_aliases.contains(a))
            &&& c.table_aliases@.len() == vs[j].aliases.len() + vs[j].hidden_aliases.len()
            &&& c.about_from_variant <==> vs[j].help
            &&& c.long_about_from_variant <==> vs[j].long_help
            &&& c.examples_from_variant <==> vs[j].has_examples
            &&& c.surface_from_variant <==> vs[j].surface
            &&& c.available_if_from_variant <==> vs[j].has_available_if
        }),
{
    lemma_command_indices_upto(vs, vs.len());
    let cmds = command_indices(vs, vs.len());
    assert(command_matches(p.commands@[k], cmds[k], vs[cmds[k]]));
    let c = p.commands@[k];
    let j = c.variant as int;
    let all = vs[j].aliases + vs[j].hidden_aliases;
    assert(texts(c.table_aliases@) == all);
    if all.contains(a) {
        let m = choose|m: int| 0 <= m < all.len() && all[m] == a;
        if m < vs[j].aliases.len() {
            assert(vs[j].aliases[m] == a);
        } else {
            assert(vs[j].hidden_aliases[m - vs[j].aliases.len()] == a);
        }
    }
    if vs[j].aliases.contains(a) {
        let m = choose|m: int| 0 <= m < vs[j].aliases.len() && vs[j].aliases[m] == a;
        assert(all[m] == a);
    }
    if vs[j].hidden_aliases.contains(a) {
        let m = choose|m: int| 0 <= m < vs[j].hidden_aliases.len() && vs[j].hidden_aliases[m] == a;
        assert(all[vs[j].aliases.len() + m] == a);
    }
}

} // verus!
