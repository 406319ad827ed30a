//! The four dispatch traits, and which one each subcommand's arm implements.
//!
//! They differ in two bits, whether the command is handed a context and whether it is
//! awaited, and in nothing else, so they are described here rather than written out four
//! times over.

use vstd::prelude::*;

verus! {

/// Which dispatch traits the enum or struct asked for.
#[derive(Clone, Copy, Debug)]
pub struct Dispatch {
    pub run: bool,
    pub run_with: bool,
    pub run_async: bool,
    pub run_async_with: bool,
}

/// What dispatch reads of one subcommand variant.
#[derive(Clone, Copy, Debug)]
pub struct Variant {
    /// `#[usage(run)]`: synchronous even in an async enum.
    pub run_sync: bool,
    /// `#[usage(no_ctx)]`: not handed the context the rest of the match is.
    pub no_ctx: bool,
    /// Handled outside the derive, so not a command it dispatches.
    pub external: bool,
}

/// The variants of a `Subcommands` enum, in declaration order.
pub struct Subcommands {
    pub variants: Vec<Variant>,
}

/// One of the four dispatch traits, as the generated code needs to speak about it.
#[derive(Debug)]
pub struct DispatchTrait {
    /// Whether the enum or struct asked for this one.
    pub wanted: bool,
    /// `Run`, `RunWith`, `RunAsync`, `RunAsyncWith`.
    pub name: &'static str,
    /// `run`, `run_with`, `run_async`, `run_async_with`.
    pub method: &'static str,
    /// Whether the trait takes a context.
    pub ctx: bool,
    /// Whether the implementation is an `async fn` whose arms are awaited.
    pub is_async: bool,
}

/// The trait's name for the two bits.
pub open spec fn trait_name(ctx: bool, is_async: bool) -> Seq<char> {
    if is_async {
        if ctx {
            "RunAsyncWith"@
        } else {
            "RunAsync"@
        }
    } else {
        if ctx {
            "RunWith"@
        } else {
            "Run"@
        }
    }
}

/// The trait's method for the two bits.
pub open spec fn trait_method(ctx: bool, is_async: bool) -> Seq<char> {
    if is_async {
        if ctx {
            "run_async_with"@
        } else {
            "run_async"@
        }
    } else {
        if ctx {
            "run_with"@
        } else {
            "run"@
        }
    }
}

/// A trait whose name and method are the ones its two bits call for.
pub open spec fn named_by_bits(t: DispatchTrait) -> bool {
    t.name@ == trait_name(t.ctx, t.is_async) && t.method@ == trait_method(t.ctx, t.is_async)
}

pub open spec fn is_trait(t: DispatchTrait, wanted: bool, ctx: bool, is_async: bool) -> bool {
    &&& t.wanted == wanted
    &&& t.ctx == ctx
    &&& t.is_async == is_async
    &&& named_by_bits(t)
}

fn make(wanted: bool, ctx: bool, is_async: bool) -> (res: DispatchTrait)
    ensures
        is_trait(res, wanted, ctx, is_async),
{
    match (is_async, ctx) {
        (false, false) => DispatchTrait { wanted, name: "Run", method: "run", ctx, is_async },
        (false, true) => DispatchTrait {
            wanted,
            name: "RunWith",
            method: "run_with",
            ctx,
            is_async,
        },
        (true, false) => DispatchTrait {
            wanted,
            name: "RunAsync",
            method: "run_async",
            ctx,
            is_async,
        },
        (true, true) => DispatchTrait {
            wanted,
            name: "RunAsyncWith",
            method: "run_async_with",
            ctx,
            is_async,
        },
    }
}

impl DispatchTrait {
    /// The four, in the order a CLI meets them: `Run`, `RunWith`, `RunAsync`, `RunAsyncWith`.
    pub fn all(dispatch: Dispatch) -> (res: [Self; 4])
        ensures
            is_trait(res[0], dispatch.run, false, false),
            is_trait(res[1], dispatch.run_with, true, false),
            is_trait(res[2], dispatch.run_async, false, true),
            is_trait(res[3], dispatch.run_async_with, true, true),
    {
        [
            DispatchTrait {
                wanted: dispatch.run,
                name: "Run",
                method: "run",
                ctx: false,
                is_async: false,
            },
            DispatchTrait {
                wanted: dispatch.run_with,
                name: "RunWith",
                method: "run_with",
                ctx: true,
                is_async: false,
            },
            DispatchTrait {
                wanted: dispatch.run_async,
                name: "RunAsync",
                method: "run_async",
                ctx: false,
                is_async: true,
            },
            DispatchTrait {
                wanted: dispatch.run_async_with,
                name: "RunAsyncWith",
                method: "run_async_with",
                ctx: true,
                is_async: true,
            },
        ]
    }
}

/// Which trait one variant actually implements, which may differ from the enum's.
///
/// A `#[usage(run)]` variant in an async enum is synchronous; `#[usage(no_ctx)]` skips the
/// context the rest of the match is handed. The generated arm and its bound both read this,
/// so they cannot disagree.
pub fn arm_kind(kind: &DispatchTrait, v: &Variant) -> (res: DispatchTrait)
    ensures
        is_trait(res, true, kind.ctx && !v.no_ctx, kind.is_async && !v.run_sync),
{
    let is_async = kind.is_async && !v.run_sync;
    let ctx = kind.ctx && !v.no_ctx;
    make(true, ctx, is_async)
}

/// A variant that overrides nothing implements the trait it was asked for.
pub proof fn lemma_plain_arm_keeps_its_trait(kind: DispatchTrait, v: Variant)
    requires
        named_by_bits(kind),
        !v.run_sync,
        !v.no_ctx,
    ensures
        forall|res: DispatchTrait|
            is_trait(res, true, kind.ctx && !v.no_ctx, kind.is_async && !v.run_sync) ==> (
            res.name@ == kind.name@ && res.method@ == kind.method@ && res.ctx == kind.ctx
                && res.is_async == kind.is_async),
{
}

/// The four traits are told apart by their two bits alone.
pub proof fn lemma_four_traits_are_distinct()
    ensures
        forall|c1: bool, a1: bool, c2: bool, a2: bool|
            #![trigger trait_name(c1, a1), trait_name(c2, a2)]
            trait_name(c1, a1) == trait_name(c2, a2) ==> c1 == c2 && a1 == a2,
{
    reveal_strlit("Run");
    reveal_strlit("RunWith");
    reveal_strlit("RunAsync");
    reveal_strlit("RunAsyncWith");
    assert("Run"@.len() != "RunWith"@.len());
    assert("Run"@.len() != "RunAsync"@.len());
    assert("Run"@.len() != "RunAsyncWith"@.len());
    assert("RunWith"@.len() != "RunAsync"@.len());
    assert("RunWith"@.len() != "RunAsyncWith"@.len());
    assert("RunAsync"@.len() != "RunAsyncWith"@.len());
}

/// The first variant the derive dispatches, skipping external ones.
pub fn first_command(subs: &Subcommands) -> (res: Option<&Variant>)
    ensures
        match res {
            Some(v) => exists|i: int|
                0 <= i < subs.variants@.len() && subs.variants@[i] == *v && !v.external && forall|
                    j: int,
                | 0 <= j < i ==> (#[trigger] subs.variants@[j]).external,
            None => forall|j: int|
                0 <= j < subs.variants@.len() ==> (#[trigger] subs.variants@[j]).external,
        },
{
    let mut i: usize = 0;
    while i < subs.variants.len()
        invariant
            i <= subs.variants@.len(),
            forall|j: int| 0 <= j < i ==> (#[trigger] subs.variants@[j]).external,
        decreases subs.variants@.len() - i,
    {
        if !subs.variants[i].external {
            return Some(&subs.variants[i]);
        }
        i = i + 1;
    }
    None
}

/// How one variant's arm of one dispatch trait is written.
#[derive(Debug)]
pub struct ArmPlan {
    /// Handed to the enum's external function rather than to a trait.
    pub external: bool,
    /// The trait the variant's own type implements for this arm.
    pub arm: DispatchTrait,
    /// The context is handed to the match but not to this variant, so the arm drops it.
    pub drops_ctx: bool,
    /// The variant's bound names the output type; only the first dispatched variant of an
    /// enum without a declared output leaves it to inference.
    pub bound_with_output: bool,
}

/// The index of the first variant the derive dispatches, or 0 when there is none.
pub open spec fn first_command_index_from(vs: Seq<Variant>, i: int) -> int
    decreases vs.len() - i,
{
    if i < 0 || i >= vs.len() {
        0
    } else if !vs[i].external {
        i
    } else {
        first_command_index_from(vs, i + 1)
    }
}

/// What is written for the arm of variant `i`, `v`, of trait `kind`.
pub open spec fn arm_plan_matches(
    p: ArmPlan,
    kind: DispatchTrait,
    i: int,
    v: Variant,
    first: int,
    named_output: bool,
) -> bool {
    &&& p.external == v.external
    &&& is_trait(p.arm, true, kind.ctx && !v.no_ctx, kind.is_async && !v.run_sync)
    &&& p.drops_ctx == (kind.ctx && v.no_ctx)
    &&& p.bound_with_output == (named_output || i != first)
}

/// Whether the enum gets the lazy entry points: some variant takes no context and a trait
/// that hands one over was asked for.
pub open spec fn wants_lazy_of(d: Dispatch, vs: Seq<Variant>) -> bool {
    (exists|i: int| 0 <= i < vs.len() && (#[trigger] vs[i]).no_ctx) && (d.run_with || d.run_async_with)
}

/// Whether the enum gets `run_with_lazy` and `run_async_with_lazy`.
pub fn wants_lazy(d: Dispatch, subs: &Subcommands) -> (res: bool)
    ensures
        res == wants_lazy_of(d, subs.variants@),
{
    let mut any = false;
    let mut i: usize = 0;
    while i < subs.variants.len()
        invariant
            i <= subs.variants@.len(),
            any == (exists|k: int| 0 <= k < i && (#[trigger] subs.variants@[k]).no_ctx),
        decreases subs.variants.len() - i,
    {
        if subs.variants[i].no_ctx {
            any = true;
        }
        i = i + 1;
    }
    any && (d.run_with || d.run_async_with)
}

/// The arms of trait `kind`'s `match`, one per variant in declaration order.
pub fn dispatch_arms(kind: &DispatchTrait, subs: &Subcommands, named_output: bool) -> (res: Vec<
    ArmPlan,
>)
    ensures
        res@.len() == subs.variants@.len(),
        forall|i: int|
            0 <= i < res@.len() ==> arm_plan_matches(
                #[trigger] res@[i],
                *kind,
                i,
                subs.variants@[i],
                first_command_index_from(subs.variants@, 0),
                named_output,
            ),
{
    let ghost vs = subs.variants@;
    let mut k: usize = 0;
    while k < subs.variants.len() && subs.variants[k].external
        invariant
            k <= vs.len(),
            vs == subs.variants@,
            first_command_index_from(vs, 0) == first_command_index_from(vs, k as int),
        decreases subs.variants.len() - k,
    {
        k = k + 1;
    }
    let first: usize = if k < subs.variants.len() {
        k
    } else {
        0
    };
    assert(first == first_command_index_from(vs, 0));
    let mut out: Vec<ArmPlan> = Vec::new();
    let mut i: usize = 0;
    while i < subs.variants.len()
        invariant
            i <= vs.len(),
            vs == subs.variants@,
            first == first_command_index_from(vs, 0),
            out@.len() == i,
            forall|j: int|
                0 <= j < i ==> arm_plan_matches(#[trigger] out@[j], *kind, j, vs[j], first as int, named_output),
        decreases subs.variants.len() - i,
    {
        let v = &subs.variants[i];
        out.push(
            ArmPlan {
                external: v.external,
                arm: arm_kind(kind, v),
                drops_ctx: kind.ctx && v.no_ctx,
                bound_with_output: named_output || i != first,
            },
        );
        i = i + 1;
    }
    out
}

proof fn lemma_first_command_index(vs: Seq<Variant>, i: int)
    requires
        0 <= i,
    ensures
        (exists|k: int| i <= k < vs.len() && !(#[trigger] vs[k]).external) ==> (i <= first_command_index_from(vs, i)
            < vs.len() && !vs[first_command_index_from(vs, i)].external && forall|k: int|
            i <= k < first_command_index_from(vs, i) ==> (#[trigger] vs[k]).external),
        (forall|k: int| i <= k < vs.len() ==> (#[trigger] vs[k]).external) ==> first_command_index_from(vs, i) == 0,
    decreases vs.len() - i,
{
    if i < vs.len() && vs[i].external {
        lemma_first_command_index(vs, i + 1);
        if exists|k: int| i <= k < vs.len() && !(#[trigger] vs[k]).external {
            let k = choose|k: int| i <= k < vs.len() && !(#[trigger] vs[k]).external;
            assert(k != i);
            assert(i + 1 <= k);
        }
    }
}

/// An arm calls its variant through the trait the enum's trait becomes once the variant drops
/// what it opted out of: it takes the context only when both the trait and the variant do, and
/// is awaited only when the trait is async and the variant did not ask to run synchronously.
/// The context is dropped exactly when the trait has one and the arm does not take it; an
/// external variant stays external. Only the first dispatched variant of an enum without a
/// declared output leaves its output type to inference.
pub proof fn lemma_arm_plans(
    p: ArmPlan,
    kind: DispatchTrait,
    vs: Seq<Variant>,
    i: int,
    named_output: bool,
)
    requires
        0 <= i < vs.len(),
        arm_plan_matches(p, kind, i, vs[i], first_command_index_from(vs, 0), named_output),
    ensures
        p.arm.ctx <==> (kind.ctx && !vs[i].no_ctx),
        p.arm.is_async <==> (kind.is_async && !vs[i].run_sync),
        p.arm.name@ == trait_name(p.arm.ctx, p.arm.is_async),
        p.drops_ctx <==> (kind.ctx && !p.arm.ctx),
        p.external <==> vs[i].external,
        !vs[i].external ==> (!p.bound_with_output <==> (!named_output && forall|k: int|
            0 <= k < i ==> (#[trigger] vs[k]).external)),
{
    lemma_first_command_index(vs, 0);
    let first = first_command_index_from(vs, 0);
    if !named_output && !vs[i].external && forall|k: int| 0 <= k < i ==> (#[trigger] vs[k]).external {
        assert(exists|k: int| 0 <= k < vs.len() && !(#[trigger] vs[k]).external) by {
            assert(!vs[i].external);
        }
        if first < i {
            assert(vs[first].external);
        }
        if first > i {
            assert(vs[i].external);
        }
    }
    if !p.bound_with_output {
        assert(i == first);
        if exists|k: int| 0 <= k < vs.len() && !(#[trigger] vs[k]).external {
        } else {
            assert(vs[i].external);
            assert(first == 0);
        }
    }
}

/// The lazy entry points come exactly when some variant takes no context and a context-taking
/// trait was asked for.
pub proof fn lemma_lazy_needs_a_context_free_variant(d: Dispatch, vs: Seq<Variant>, i: int)
    requires
        0 <= i < vs.len(),
    ensures
        vs[i].no_ctx && (d.run_with || d.run_async_with) ==> wants_lazy_of(d, vs),
        !d.run_with && !d.run_async_with ==> !wants_lazy_of(d, vs),
        (forall|k: int| 0 <= k < vs.len() ==> !(#[trigger] vs[k]).no_ctx) ==> !wants_lazy_of(d, vs),
{
}

} // verus!
