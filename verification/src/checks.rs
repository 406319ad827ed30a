//! What a command checks once the last token has been read, and in which order.
//!
//! The environment fills what the command line left out, so it runs before required-ness: a
//! flag with `env` set is not missing. Then what the user typed wrong (a flag given twice,
//! two flags that conflict, an exclusive flag beside another), because that is the more
//! useful answer when a mistake has also left something unfilled. Required-ness is skipped
//! when an exclusive flag was given or a selected subcommand answers for the command. Choices,
//! validation and bounds come last, since they judge a value however it arrived.

use vstd::prelude::*;

verus! {

broadcast use vstd::seq_lib::group_seq_properties;

/// How many values a field holds.
#[derive(Clone, Copy, PartialEq, Eq, Structural, Debug)]
pub enum CheckShape {
    Bool,
    Count,
    Optional,
    Required,
    Many,
}

/// What the checks read of one field of a command.
#[derive(Clone, Copy, PartialEq, Eq, Structural, Debug)]
pub struct CheckField {
    pub is_flag: bool,
    pub is_flatten: bool,
    /// A flag whose one occurrence takes several values.
    pub variadic: bool,
    pub shape: CheckShape,
    /// `var`: a value-taking flag that may be given again.
    pub repeatable: bool,
    /// A collection declared `required`.
    pub required_collection: bool,
    pub has_default: bool,
    pub has_choices: bool,
    pub value_enum: bool,
    pub allow_unknown_choices: bool,
    /// `validate = "..."`.
    pub validate: bool,
    /// A bound on how many values the field takes.
    pub var_bounds: bool,
    /// A bound on how many values one occurrence of a variadic flag takes.
    pub value_var_bounds: bool,
    /// How many `conflicts_with`, `requires` and `requires_if` it declares.
    pub conflicts: usize,
    pub requires: usize,
    pub requires_if: usize,
    pub exclusive: bool,
    /// Any of `required_if`, `required_if_eq`, `required_if_eq_all`, `required_unless`,
    /// `required_unless_all`.
    pub required_relations: bool,
}

/// What the checks read of a command.
pub struct CheckDecl {
    pub fields: Vec<CheckField>,
    /// The later of two occurrences wins rather than the second being an error.
    pub args_override_self: bool,
    pub composable: bool,
    pub has_subcommand: bool,
    /// How many declared groups check exclusivity, and how many check required-ness.
    pub exclusive_groups: usize,
    pub required_groups: usize,
}

/// One check, naming the field by position, and a relationship by its position among that
/// field's declarations of that kind.
#[derive(Clone, Copy, PartialEq, Eq, Structural, Debug)]
pub enum BindingStep {
    EnvFallbacks,
    DeclaredDefaults,
    Duplicate(usize),
    Conflict(usize, usize),
    Exclusive(usize),
    ExclusiveCross,
    GroupExclusivity(usize),
    Flattened(usize),
    Requirement(usize, usize),
    ConditionalRequirement(usize, usize),
    Required(usize),
    GroupRequired(usize),
    RelationshipRequired(usize),
    Choice(usize),
    Validation(usize),
    Bound(usize),
    Subcommand,
}

/// The checks in order: those that always run, those skipped when an exclusive flag or a
/// selected subcommand answers for the command, and those that judge values.
pub struct BindingPlan {
    pub before: Vec<BindingStep>,
    pub gated: Vec<BindingStep>,
    pub after: Vec<BindingStep>,
}

/// Which kind of check, field by field.
#[derive(Clone, Copy, PartialEq, Eq, Structural, Debug)]
pub enum CheckKind {
    Duplicates,
    FlagConflicts,
    OtherConflicts,
    Exclusives,
    Flattened,
    Requirements,
    ConditionalRequirements,
    Required,
    RelationshipRequired,
    Choices,
    Validations,
    Bounds,
}

pub open spec fn rejects_duplicate_of(args_override_self: bool, composable: bool, f: CheckField) -> bool {
    &&& !args_override_self || composable
    &&& f.is_flag
    &&& f.shape != CheckShape::Count && f.shape != CheckShape::Many
    &&& !f.repeatable
}

/// A field is required: by its shape, or as a collection declared so; a default fills it.
pub open spec fn required_of(f: CheckField) -> bool {
    (f.shape == CheckShape::Required || f.required_collection) && !f.has_default
}

pub open spec fn one(when: bool, step: BindingStep) -> Seq<BindingStep> {
    if when {
        seq![step]
    } else {
        seq![]
    }
}

/// The checks of kind `kind` for the field `f` at position `j`.
pub open spec fn steps_of(kind: CheckKind, args_override_self: bool, composable: bool, j: int, f: CheckField) -> Seq<
    BindingStep,
> {
    let j = j as usize;
    match kind {
        CheckKind::Duplicates => one(
            rejects_duplicate_of(args_override_self, composable, f),
            BindingStep::Duplicate(j),
        ),
        CheckKind::FlagConflicts => if f.is_flag {
            Seq::new(f.conflicts as nat, |k: int| BindingStep::Conflict(j, k as usize))
        } else {
            seq![]
        },
        CheckKind::OtherConflicts => if !f.is_flag {
            Seq::new(f.conflicts as nat, |k: int| BindingStep::Conflict(j, k as usize))
        } else {
            seq![]
        },
        CheckKind::Exclusives => one(f.exclusive, BindingStep::Exclusive(j)),
        CheckKind::Flattened => one(f.is_flatten, BindingStep::Flattened(j)),
        CheckKind::Requirements => Seq::new(
            f.requires as nat,
            |k: int| BindingStep::Requirement(j, k as usize),
        ),
        CheckKind::ConditionalRequirements => Seq::new(
            f.requires_if as nat,
            |k: int| BindingStep::ConditionalRequirement(j, k as usize),
        ),
        CheckKind::Required => one(required_of(f), BindingStep::Required(j)),
        CheckKind::RelationshipRequired => one(
            f.required_relations && !f.has_default,
            BindingStep::RelationshipRequired(j),
        ),
        CheckKind::Choices => one(
            (f.has_choices || f.value_enum) && !f.allow_unknown_choices,
            BindingStep::Choice(j),
        ),
        CheckKind::Validations => one(f.validate, BindingStep::Validation(j)),
        CheckKind::Bounds => one(
            f.shape == CheckShape::Many && (if f.is_flag && f.variadic {
                f.value_var_bounds
            } else {
                f.var_bounds
            }),
            BindingStep::Bound(j),
        ),
    }
}

/// The checks of one kind for the first `n` fields, field by field.
pub open spec fn each(fields: Seq<CheckField>, kind: CheckKind, aos: bool, composable: bool, n: nat) -> Seq<
    BindingStep,
>
    decreases n,
{
    if n == 0 {
        seq![]
    } else {
        each(fields, kind, aos, composable, (n - 1) as nat) + steps_of(
            kind,
            aos,
            composable,
            n - 1,
            fields[n - 1],
        )
    }
}

pub open spec fn all_of(d: CheckDecl, kind: CheckKind) -> Seq<BindingStep> {
    each(d.fields@, kind, d.args_override_self, d.composable, d.fields@.len())
}

pub open spec fn numbered(n: nat, step: spec_fn(int) -> BindingStep) -> Seq<BindingStep> {
    Seq::new(n, step)
}

pub open spec fn has_flatten(fields: Seq<CheckField>) -> bool {
    exists|i: int| 0 <= i < fields.len() && (#[trigger] fields[i]).is_flatten
}

/// The checks that always run, in order.
pub open spec fn before_of(d: CheckDecl) -> Seq<BindingStep> {
    seq![BindingStep::EnvFallbacks, BindingStep::DeclaredDefaults] + all_of(
        d,
        CheckKind::Duplicates,
    ) + all_of(d, CheckKind::FlagConflicts) + all_of(d, CheckKind::OtherConflicts) + all_of(
        d,
        CheckKind::Exclusives,
    ) + one(has_flatten(d.fields@) || d.has_subcommand, BindingStep::ExclusiveCross) + numbered(
        d.exclusive_groups as nat,
        |g: int| BindingStep::GroupExclusivity(g as usize),
    ) + all_of(d, CheckKind::Flattened)
}

/// The checks of what is missing, in order.
pub open spec fn gated_of(d: CheckDecl) -> Seq<BindingStep> {
    all_of(d, CheckKind::Requirements) + all_of(d, CheckKind::ConditionalRequirements) + all_of(
        d,
        CheckKind::Required,
    ) + numbered(d.required_groups as nat, |g: int| BindingStep::GroupRequired(g as usize))
        + all_of(d, CheckKind::RelationshipRequired)
}

/// The checks of values, in order, and the subcommand's own.
pub open spec fn after_of(d: CheckDecl) -> Seq<BindingStep> {
    all_of(d, CheckKind::Choices) + all_of(d, CheckKind::Validations) + all_of(d, CheckKind::Bounds)
        + one(d.has_subcommand, BindingStep::Subcommand)
}

fn push_steps(
    out: &mut Vec<BindingStep>,
    kind: CheckKind,
    aos: bool,
    composable: bool,
    j: usize,
    f: &CheckField,
)
    ensures
        final(out)@ == old(out)@ + steps_of(kind, aos, composable, j as int, *f),
{
    let ghost start = out@;
    let per_count: Option<(usize, bool)> = match kind {
        CheckKind::FlagConflicts => Some((f.conflicts, f.is_flag)),
        CheckKind::OtherConflicts => Some((f.conflicts, !f.is_flag)),
        CheckKind::Requirements => Some((f.requires, true)),
        CheckKind::ConditionalRequirements => Some((f.requires_if, true)),
        _ => None,
    };
    match per_count {
        Some((count, applies)) => {
            if applies {
                let mut k: usize = 0;
                while k < count
                    invariant
                        k <= count,
                        out@ == start + Seq::new(
                            k as nat,
                            |m: int| match kind {
                                CheckKind::Requirements => BindingStep::Requirement(j, m as usize),
                                CheckKind::ConditionalRequirements => BindingStep::ConditionalRequirement(
                                    j,
                                    m as usize,
                                ),
                                _ => BindingStep::Conflict(j, m as usize),
                            },
                        ),
                    decreases count - k,
                {
                    let step = match kind {
                        CheckKind::Requirements => BindingStep::Requirement(j, k),
                        CheckKind::ConditionalRequirements => BindingStep::ConditionalRequirement(j, k),
                        _ => BindingStep::Conflict(j, k),
                    };
                    out.push(step);
                    k = k + 1;
                }
            }
            assert(out@ =~= start + steps_of(kind, aos, composable, j as int, *f));
        },
        None => {
            let when = match kind {
                CheckKind::Duplicates => (!aos || composable) && f.is_flag && f.shape
                    != CheckShape::Count && f.shape != CheckShape::Many && !f.repeatable,
                CheckKind::Exclusives => f.exclusive,
                CheckKind::Flattened => f.is_flatten,
                CheckKind::Required => (f.shape == CheckShape::Required || f.required_collection)
                    && !f.has_default,
                CheckKind::RelationshipRequired => f.required_relations && !f.has_default,
                CheckKind::Choices => (f.has_choices || f.value_enum) && !f.allow_unknown_choices,
                CheckKind::Validations => f.validate,
                _ => f.shape == CheckShape::Many && (if f.is_flag && f.variadic {
                    f.value_var_bounds
                } else {
                    f.var_bounds
                }),
            };
            if when {
                let step = match kind {
                    CheckKind::Duplicates => BindingStep::Duplicate(j),
                    CheckKind::Exclusives => BindingStep::Exclusive(j),
                    CheckKind::Flattened => BindingStep::Flattened(j),
                    CheckKind::Required => BindingStep::Required(j),
                    CheckKind::RelationshipRequired => BindingStep::RelationshipRequired(j),
                    CheckKind::Choices => BindingStep::Choice(j),
                    CheckKind::Validations => BindingStep::Validation(j),
                    _ => BindingStep::Bound(j),
                };
                out.push(step);
            }
            assert(out@ =~= start + steps_of(kind, aos, composable, j as int, *f));
        },
    }
}

fn push_kind(out: &mut Vec<BindingStep>, d: &CheckDecl, kind: CheckKind)
    ensures
        final(out)@ == old(out)@ + all_of(*d, kind),
{
    let ghost start = out@;
    let mut i: usize = 0;
    while i < d.fields.len()
        invariant
            i <= d.fields@.len(),
            out@ == start + each(d.fields@, kind, d.args_override_self, d.composable, i as nat),
        decreases d.fields@.len() - i,
    {
        push_steps(out, kind, d.args_override_self, d.composable, i, &d.fields[i]);
        assert(out@ =~= start + each(d.fields@, kind, d.args_override_self, d.composable, (i + 1) as nat));
        i = i + 1;
    }
}

fn push_groups(out: &mut Vec<BindingStep>, count: usize, exclusivity: bool)
    ensures
        final(out)@ == old(out)@ + if exclusivity {
            numbered(count as nat, |g: int| BindingStep::GroupExclusivity(g as usize))
        } else {
            numbered(count as nat, |g: int| BindingStep::GroupRequired(g as usize))
        },
{
    let ghost start = out@;
    let mut g: usize = 0;
    while g < count
        invariant
            g <= count,
            out@ == start + if exclusivity {
                numbered(g as nat, |m: int| BindingStep::GroupExclusivity(m as usize))
            } else {
                numbered(g as nat, |m: int| BindingStep::GroupRequired(m as usize))
            },
        decreases count - g,
    {
        if exclusivity {
            out.push(BindingStep::GroupExclusivity(g));
        } else {
            out.push(BindingStep::GroupRequired(g));
        }
        g = g + 1;
        proof {
            if exclusivity {
                assert(out@ =~= start + numbered(g as nat, |m: int| BindingStep::GroupExclusivity(m as usize)));
            } else {
                assert(out@ =~= start + numbered(g as nat, |m: int| BindingStep::GroupRequired(m as usize)));
            }
        }
    }
}

/// The checks a command runs once the last token has been read, in the order it runs them.
pub fn post_binding_plan(d: &CheckDecl) -> (res: BindingPlan)
    ensures
        res.before@ == before_of(*d),
        res.gated@ == gated_of(*d),
        res.after@ == after_of(*d),
{
    let mut before: Vec<BindingStep> = Vec::new();
    before.push(BindingStep::EnvFallbacks);
    before.push(BindingStep::DeclaredDefaults);
    push_kind(&mut before, d, CheckKind::Duplicates);
    push_kind(&mut before, d, CheckKind::FlagConflicts);
    push_kind(&mut before, d, CheckKind::OtherConflicts);
    push_kind(&mut before, d, CheckKind::Exclusives);
    let mut flattened = false;
    let mut i: usize = 0;
    while i < d.fields.len()
        invariant
            i <= d.fields@.len(),
            flattened <==> exists|k: int| 0 <= k < i && (#[trigger] d.fields@[k]).is_flatten,
        decreases d.fields@.len() - i,
    {
        if d.fields[i].is_flatten {
            flattened = true;
        }
        i = i + 1;
    }
    let ghost mid = before@;
    if flattened || d.has_subcommand {
        before.push(BindingStep::ExclusiveCross);
    }
    assert(before@ =~= mid + one(has_flatten(d.fields@) || d.has_subcommand, BindingStep::ExclusiveCross));
    push_groups(&mut before, d.exclusive_groups, true);
    push_kind(&mut before, d, CheckKind::Flattened);
    assert(before@ =~= before_of(*d));

    let mut gated: Vec<BindingStep> = Vec::new();
    push_kind(&mut gated, d, CheckKind::Requirements);
    push_kind(&mut gated, d, CheckKind::ConditionalRequirements);
    push_kind(&mut gated, d, CheckKind::Required);
    push_groups(&mut gated, d.required_groups, false);
    push_kind(&mut gated, d, CheckKind::RelationshipRequired);
    assert(gated@ =~= gated_of(*d));

    let mut after: Vec<BindingStep> = Vec::new();
    push_kind(&mut after, d, CheckKind::Choices);
    push_kind(&mut after, d, CheckKind::Validations);
    push_kind(&mut after, d, CheckKind::Bounds);
    let ghost last = after@;
    if d.has_subcommand {
        after.push(BindingStep::Subcommand);
    }
    assert(after@ =~= last + one(d.has_subcommand, BindingStep::Subcommand));
    assert(after@ =~= after_of(*d));
    BindingPlan { before, gated, after }
}

proof fn lemma_each_from_a_field(
    fields: Seq<CheckField>,
    kind: CheckKind,
    aos: bool,
    composable: bool,
    n: nat,
    step: BindingStep,
)
    requires
        n <= fields.len(),
        each(fields, kind, aos, composable, n).contains(step),
    ensures
        exists|j: int| 0 <= j < n && #[trigger] steps_of(kind, aos, composable, j, fields[j]).contains(step),
    decreases n,
{
    let prev = each(fields, kind, aos, composable, (n - 1) as nat);
    let last = steps_of(kind, aos, composable, n - 1, fields[n - 1]);
    let k = choose|k: int| 0 <= k < prev.len() + last.len() && (prev + last)[k] == step;
    if k < prev.len() {
        assert(prev[k] == step);
        lemma_each_from_a_field(fields, kind, aos, composable, (n - 1) as nat, step);
    } else {
        assert(last[k - prev.len()] == step);
        assert(steps_of(kind, aos, composable, n - 1, fields[n - 1]).contains(step));
    }
}

proof fn lemma_concat_contains(a: Seq<BindingStep>, b: Seq<BindingStep>, step: BindingStep)
    requires
        (a + b).contains(step),
    ensures
        a.contains(step) || b.contains(step),
{
    let k = choose|k: int| 0 <= k < (a + b).len() && (a + b)[k] == step;
    if k < a.len() {
        assert(a[k] == step);
    } else {
        assert(b[k - a.len()] == step);
    }
}

proof fn lemma_kind_yields(d: CheckDecl, kind: CheckKind, step: BindingStep)
    requires
        all_of(d, kind).contains(step),
    ensures
        exists|j: int|
            0 <= j < d.fields@.len() && #[trigger] steps_of(
                kind,
                d.args_override_self,
                d.composable,
                j,
                d.fields@[j],
            ).contains(step),
{
    lemma_each_from_a_field(d.fields@, kind, d.args_override_self, d.composable, d.fields@.len(), step);
}

/// A field with a default is filled, so it is never reported missing: neither its own
/// required-ness nor any `required_if`-style relation checks it.
pub proof fn lemma_a_defaulted_field_is_never_missing(d: CheckDecl, i: usize)
    requires
        i < d.fields@.len(),
        d.fields@[i as int].has_default,
    ensures
        !gated_of(d).contains(BindingStep::Required(i)),
        !gated_of(d).contains(BindingStep::RelationshipRequired(i)),
{
    assert(d.fields@.len() == d.fields.len());
    let reqs = all_of(d, CheckKind::Requirements);
    let conds = all_of(d, CheckKind::ConditionalRequirements);
    let required = all_of(d, CheckKind::Required);
    let groups = numbered(d.required_groups as nat, |g: int| BindingStep::GroupRequired(g as usize));
    let relations = all_of(d, CheckKind::RelationshipRequired);
    assert forall|step: BindingStep|
        step == BindingStep::Required(i) || step == BindingStep::RelationshipRequired(i) implies !gated_of(
        d,
    ).contains(step) by {
        if gated_of(d).contains(step) {
            lemma_concat_contains(reqs + conds + required + groups, relations, step);
            if relations.contains(step) {
                lemma_kind_yields(d, CheckKind::RelationshipRequired, step);
                let j = choose|j: int|
                    0 <= j < d.fields@.len() && #[trigger] steps_of(
                        CheckKind::RelationshipRequired,
                        d.args_override_self,
                        d.composable,
                        j,
                        d.fields@[j],
                    ).contains(step);
                let seq = steps_of(CheckKind::RelationshipRequired, d.args_override_self, d.composable, j, d.fields@[j]);
                let k = choose|k: int| 0 <= k < seq.len() && seq[k] == step;
                assert(seq[k] == BindingStep::RelationshipRequired(j as usize));
                assert(j == i as int);
            } else {
                lemma_concat_contains(reqs + conds + required, groups, step);
                if groups.contains(step) {
                    let k = choose|k: int| 0 <= k < groups.len() && groups[k] == step;
                    assert(groups[k] == BindingStep::GroupRequired(k as usize));
                } else {
                    lemma_concat_contains(reqs + conds, required, step);
                    if required.contains(step) {
                        lemma_kind_yields(d, CheckKind::Required, step);
                        let j = choose|j: int|
                            0 <= j < d.fields@.len() && #[trigger] steps_of(
                                CheckKind::Required,
                                d.args_override_self,
                                d.composable,
                                j,
                                d.fields@[j],
                            ).contains(step);
                        let seq = steps_of(CheckKind::Required, d.args_override_self, d.composable, j, d.fields@[j]);
                        let k = choose|k: int| 0 <= k < seq.len() && seq[k] == step;
                        assert(seq[k] == BindingStep::Required(j as usize));
                        assert(j == i as int);
                    } else {
                        lemma_concat_contains(reqs, conds, step);
                        if reqs.contains(step) {
                            lemma_kind_yields(d, CheckKind::Requirements, step);
                            let j = choose|j: int|
                                0 <= j < d.fields@.len() && #[trigger] steps_of(
                                    CheckKind::Requirements,
                                    d.args_override_self,
                                    d.composable,
                                    j,
                                    d.fields@[j],
                                ).contains(step);
                            let seq = steps_of(CheckKind::Requirements, d.args_override_self, d.composable, j, d.fields@[j]);
                            let k = choose|k: int| 0 <= k < seq.len() && seq[k] == step;
                            assert(seq[k] == BindingStep::Requirement(j as usize, k as usize));
                        } else {
                            lemma_kind_yields(d, CheckKind::ConditionalRequirements, step);
                            let j = choose|j: int|
                                0 <= j < d.fields@.len() && #[trigger] steps_of(
                                    CheckKind::ConditionalRequirements,
                                    d.args_override_self,
                                    d.composable,
                                    j,
                                    d.fields@[j],
                                ).contains(step);
                            let seq = steps_of(CheckKind::ConditionalRequirements, d.args_override_self, d.composable, j, d.fields@[j]);
                            let k = choose|k: int| 0 <= k < seq.len() && seq[k] == step;
                            assert(seq[k] == BindingStep::ConditionalRequirement(j as usize, k as usize));
                        }
                    }
                }
            }
        }
    }
}

/// The environment and the declared defaults fill the command first, so nothing they fill
/// is reported missing and every later check sees them.
pub proof fn lemma_the_environment_fills_first(d: CheckDecl)
    ensures
        before_of(d)[0] == BindingStep::EnvFallbacks,
        before_of(d)[1] == BindingStep::DeclaredDefaults,
{
}

proof fn lemma_each_includes(
    fields: Seq<CheckField>,
    kind: CheckKind,
    aos: bool,
    composable: bool,
    n: nat,
    i: int,
    step: BindingStep,
)
    requires
        0 <= i < n <= fields.len(),
        steps_of(kind, aos, composable, i, fields[i]).contains(step),
    ensures
        each(fields, kind, aos, composable, n).contains(step),
    decreases n,
{
    let prev = each(fields, kind, aos, composable, (n - 1) as nat);
    let last = steps_of(kind, aos, composable, n - 1, fields[n - 1]);
    if i < n - 1 {
        lemma_each_includes(fields, kind, aos, composable, (n - 1) as nat, i, step);
        let k = choose|k: int| 0 <= k < prev.len() && prev[k] == step;
        assert((prev + last)[k] == step);
    } else {
        let k = choose|k: int| 0 <= k < last.len() && last[k] == step;
        assert((prev + last)[prev.len() + k] == step);
    }
}

/// Whether the spec and help call a field required: the same expression the required check
/// is made from, so what is documented and what runs cannot disagree.
pub fn meta_required(f: &CheckField) -> (res: bool)
    ensures
        res == required_of(*f),
{
    (f.shape == CheckShape::Required || f.required_collection) && !f.has_default
}

/// The metadata calls a field required exactly when the command checks that it was given.
pub proof fn lemma_metadata_agrees_with_the_check(d: CheckDecl, i: usize)
    requires
        i < d.fields@.len(),
    ensures
        required_of(d.fields@[i as int]) <==> gated_of(d).contains(BindingStep::Required(i)),
{
    assert(d.fields@.len() == d.fields.len());
    if required_of(d.fields@[i as int]) {
        let reqs = all_of(d, CheckKind::Requirements);
        let conds = all_of(d, CheckKind::ConditionalRequirements);
        let required = all_of(d, CheckKind::Required);
        let groups = numbered(d.required_groups as nat, |g: int| BindingStep::GroupRequired(g as usize));
        let relations = all_of(d, CheckKind::RelationshipRequired);
        assert(steps_of(CheckKind::Required, d.args_override_self, d.composable, i as int, d.fields@[i as int])[0]
            == BindingStep::Required(i));
        lemma_each_includes(
            d.fields@,
            CheckKind::Required,
            d.args_override_self,
            d.composable,
            d.fields@.len(),
            i as int,
            BindingStep::Required(i),
        );
        let k = choose|k: int| 0 <= k < required.len() && required[k] == BindingStep::Required(i);
        assert((reqs + conds + required + groups + relations)[reqs.len() + conds.len() + k]
            == BindingStep::Required(i));
    } else {
        if gated_of(d).contains(BindingStep::Required(i)) {
            let reqs = all_of(d, CheckKind::Requirements);
            let conds = all_of(d, CheckKind::ConditionalRequirements);
            let required = all_of(d, CheckKind::Required);
            let groups = numbered(d.required_groups as nat, |g: int| BindingStep::GroupRequired(g as usize));
            let relations = all_of(d, CheckKind::RelationshipRequired);
            let step = BindingStep::Required(i);
            lemma_concat_contains(reqs + conds + required + groups, relations, step);
            if relations.contains(step) {
                lemma_kind_yields(d, CheckKind::RelationshipRequired, step);
                let j = choose|j: int|
                    0 <= j < d.fields@.len() && #[trigger] steps_of(
                        CheckKind::RelationshipRequired,
                        d.args_override_self,
                        d.composable,
                        j,
                        d.fields@[j],
                    ).contains(step);
                let seq = steps_of(CheckKind::RelationshipRequired, d.args_override_self, d.composable, j, d.fields@[j]);
                let k = choose|k: int| 0 <= k < seq.len() && seq[k] == step;
                assert(seq[k] == BindingStep::RelationshipRequired(j as usize));
            } else {
                lemma_concat_contains(reqs + conds + required, groups, step);
                if groups.contains(step) {
                    let k = choose|k: int| 0 <= k < groups.len() && groups[k] == step;
                    assert(groups[k] == BindingStep::GroupRequired(k as usize));
                } else {
                    lemma_concat_contains(reqs + conds, required, step);
                    if required.contains(step) {
                        lemma_kind_yields(d, CheckKind::Required, step);
                        let j = choose|j: int|
                            0 <= j < d.fields@.len() && #[trigger] steps_of(
                                CheckKind::Required,
                                d.args_override_self,
                                d.composable,
                                j,
                                d.fields@[j],
                            ).contains(step);
                        let seq = steps_of(CheckKind::Required, d.args_override_self, d.composable, j, d.fields@[j]);
                        let k = choose|k: int| 0 <= k < seq.len() && seq[k] == step;
                        assert(seq[k] == BindingStep::Required(j as usize));
                        assert(j == i as int);
                    } else {
                        lemma_concat_contains(reqs, conds, step);
                        if reqs.contains(step) {
                            lemma_kind_yields(d, CheckKind::Requirements, step);
                            let j = choose|j: int|
                                0 <= j < d.fields@.len() && #[trigger] steps_of(
                                    CheckKind::Requirements,
                                    d.args_override_self,
                                    d.composable,
                                    j,
                                    d.fields@[j],
                                ).contains(step);
                            let seq = steps_of(CheckKind::Requirements, d.args_override_self, d.composable, j, d.fields@[j]);
                            let k = choose|k: int| 0 <= k < seq.len() && seq[k] == step;
                            assert(seq[k] == BindingStep::Requirement(j as usize, k as usize));
                        } else {
                            lemma_kind_yields(d, CheckKind::ConditionalRequirements, step);
                            let j = choose|j: int|
                                0 <= j < d.fields@.len() && #[trigger] steps_of(
                                    CheckKind::ConditionalRequirements,
                                    d.args_override_self,
                                    d.composable,
                                    j,
                                    d.fields@[j],
                                ).contains(step);
                            let seq = steps_of(CheckKind::ConditionalRequirements, d.args_override_self, d.composable, j, d.fields@[j]);
                            let k = choose|k: int| 0 <= k < seq.len() && seq[k] == step;
                            assert(seq[k] == BindingStep::ConditionalRequirement(j as usize, k as usize));
                        }
                    }
                }
            }
        }
    }
}

proof fn lemma_field_step_is_planned(
    fields: Seq<CheckField>,
    kind: CheckKind,
    aos: bool,
    composable: bool,
    n: nat,
    i: int,
    step: BindingStep,
)
    requires
        0 <= i < n <= fields.len(),
        steps_of(kind, aos, composable, i, fields[i]).contains(step),
    ensures
        each(fields, kind, aos, composable, n).contains(step),
    decreases n,
{
    let prev = each(fields, kind, aos, composable, (n - 1) as nat);
    let last = steps_of(kind, aos, composable, n - 1, fields[n - 1]);
    if i == n - 1 {
        let k = choose|k: int| 0 <= k < last.len() && last[k] == step;
        assert((prev + last)[prev.len() + k] == step);
    } else {
        lemma_field_step_is_planned(fields, kind, aos, composable, (n - 1) as nat, i, step);
        let k = choose|k: int| 0 <= k < prev.len() && prev[k] == step;
        assert((prev + last)[k] == step);
    }
}

proof fn lemma_in_left(a: Seq<BindingStep>, b: Seq<BindingStep>, step: BindingStep)
    requires
        a.contains(step),
    ensures
        (a + b).contains(step),
{
    let k = choose|k: int| 0 <= k < a.len() && a[k] == step;
    assert((a + b)[k] == step);
}

proof fn lemma_in_right(a: Seq<BindingStep>, b: Seq<BindingStep>, step: BindingStep)
    requires
        b.contains(step),
    ensures
        (a + b).contains(step),
{
    let k = choose|k: int| 0 <= k < b.len() && b[k] == step;
    assert((a + b)[a.len() + k] == step);
}

/// A field that a `required_if`-style relation makes required, and that no default fills, is
/// checked for it, flag or argument alike.
pub proof fn lemma_every_unfilled_relation_is_checked(d: CheckDecl, i: usize)
    requires
        i < d.fields@.len(),
        d.fields@[i as int].required_relations,
        !d.fields@[i as int].has_default,
    ensures
        gated_of(d).contains(BindingStep::RelationshipRequired(i)),
{
    let step = BindingStep::RelationshipRequired(i);
    let f = d.fields@[i as int];
    assert(steps_of(CheckKind::RelationshipRequired, d.args_override_self, d.composable, i as int, f)[0] == step);
    lemma_field_step_is_planned(
        d.fields@,
        CheckKind::RelationshipRequired,
        d.args_override_self,
        d.composable,
        d.fields@.len(),
        i as int,
        step,
    );
    let reqs = all_of(d, CheckKind::Requirements);
    let conds = all_of(d, CheckKind::ConditionalRequirements);
    let required = all_of(d, CheckKind::Required);
    let groups = numbered(d.required_groups as nat, |g: int| BindingStep::GroupRequired(g as usize));
    lemma_in_right(reqs + conds + required + groups, all_of(d, CheckKind::RelationshipRequired), step);
}

/// A field that must be given, by its shape or as a required collection, and that no default
/// fills, is checked for being missing.
pub proof fn lemma_every_unfilled_required_field_is_checked(d: CheckDecl, i: usize)
    requires
        i < d.fields@.len(),
        d.fields@[i as int].shape == CheckShape::Required || d.fields@[i as int].required_collection,
        !d.fields@[i as int].has_default,
    ensures
        gated_of(d).contains(BindingStep::Required(i)),
{
    let step = BindingStep::Required(i);
    let f = d.fields@[i as int];
    assert(steps_of(CheckKind::Required, d.args_override_self, d.composable, i as int, f)[0] == step);
    lemma_field_step_is_planned(
        d.fields@,
        CheckKind::Required,
        d.args_override_self,
        d.composable,
        d.fields@.len(),
        i as int,
        step,
    );
    let reqs = all_of(d, CheckKind::Requirements);
    let conds = all_of(d, CheckKind::ConditionalRequirements);
    let groups = numbered(d.required_groups as nat, |g: int| BindingStep::GroupRequired(g as usize));
    lemma_in_right(reqs + conds, all_of(d, CheckKind::Required), step);
    lemma_in_left(reqs + conds + all_of(d, CheckKind::Required), groups, step);
    lemma_in_left(reqs + conds + all_of(d, CheckKind::Required) + groups, all_of(d, CheckKind::RelationshipRequired), step);
}

/// A field with choices, or a value enum, that does not accept unknown words has its words
/// checked; a field that names a validation is validated.
pub proof fn lemma_choices_and_validations_are_checked(d: CheckDecl, i: usize)
    requires
        i < d.fields@.len(),
    ensures
        (d.fields@[i as int].has_choices || d.fields@[i as int].value_enum)
            && !d.fields@[i as int].allow_unknown_choices ==> after_of(d).contains(BindingStep::Choice(i)),
        d.fields@[i as int].validate ==> after_of(d).contains(BindingStep::Validation(i)),
{
    let f = d.fields@[i as int];
    let choices = all_of(d, CheckKind::Choices);
    let validations = all_of(d, CheckKind::Validations);
    let bounds = all_of(d, CheckKind::Bounds);
    let sub = one(d.has_subcommand, BindingStep::Subcommand);
    if (f.has_choices || f.value_enum) && !f.allow_unknown_choices {
        let step = BindingStep::Choice(i);
        assert(steps_of(CheckKind::Choices, d.args_override_self, d.composable, i as int, f)[0] == step);
        lemma_field_step_is_planned(d.fields@, CheckKind::Choices, d.args_override_self, d.composable, d.fields@.len(), i as int, step);
        lemma_in_left(choices, validations, step);
        lemma_in_left(choices + validations, bounds, step);
        lemma_in_left(choices + validations + bounds, sub, step);
    }
    if f.validate {
        let step = BindingStep::Validation(i);
        assert(steps_of(CheckKind::Validations, d.args_override_self, d.composable, i as int, f)[0] == step);
        lemma_field_step_is_planned(d.fields@, CheckKind::Validations, d.args_override_self, d.composable, d.fields@.len(), i as int, step);
        lemma_in_right(choices, validations, step);
        lemma_in_left(choices + validations, bounds, step);
        lemma_in_left(choices + validations + bounds, sub, step);
    }
}

/// Under a strict command, a flag that takes one value or is a switch, and did not ask to
/// repeat, refuses a second occurrence; a permissive command that does not compose refuses
/// none.
pub proof fn lemma_strict_flags_refuse_a_second_occurrence(d: CheckDecl, i: usize)
    requires
        i < d.fields@.len(),
    ensures
        (!d.args_override_self || d.composable) && d.fields@[i as int].is_flag && !d.fields@[i as int].repeatable
            && (d.fields@[i as int].shape == CheckShape::Bool || d.fields@[i as int].shape == CheckShape::Optional
            || d.fields@[i as int].shape == CheckShape::Required) ==> before_of(d).contains(BindingStep::Duplicate(i)),
        d.args_override_self && !d.composable ==> !before_of(d).contains(BindingStep::Duplicate(i)),
{
    let f = d.fields@[i as int];
    let head = seq![BindingStep::EnvFallbacks, BindingStep::DeclaredDefaults];
    let dups = all_of(d, CheckKind::Duplicates);
    let fc = all_of(d, CheckKind::FlagConflicts);
    let oc = all_of(d, CheckKind::OtherConflicts);
    let ex = all_of(d, CheckKind::Exclusives);
    let cross = one(has_flatten(d.fields@) || d.has_subcommand, BindingStep::ExclusiveCross);
    let groups = numbered(d.exclusive_groups as nat, |g: int| BindingStep::GroupExclusivity(g as usize));
    let fl = all_of(d, CheckKind::Flattened);
    let step = BindingStep::Duplicate(i);
    if (!d.args_override_self || d.composable) && f.is_flag && !f.repeatable && (f.shape == CheckShape::Bool
        || f.shape == CheckShape::Optional || f.shape == CheckShape::Required) {
        assert(steps_of(CheckKind::Duplicates, d.args_override_self, d.composable, i as int, f)[0] == step);
        lemma_field_step_is_planned(d.fields@, CheckKind::Duplicates, d.args_override_self, d.composable, d.fields@.len(), i as int, step);
        lemma_in_right(head, dups, step);
        lemma_in_left(head + dups, fc, step);
        lemma_in_left(head + dups + fc, oc, step);
        lemma_in_left(head + dups + fc + oc, ex, step);
        lemma_in_left(head + dups + fc + oc + ex, cross, step);
        lemma_in_left(head + dups + fc + oc + ex + cross, groups, step);
        lemma_in_left(head + dups + fc + oc + ex + cross + groups, fl, step);
    }
    if d.args_override_self && !d.composable && before_of(d).contains(step) {
        lemma_concat_contains(head + dups + fc + oc + ex + cross + groups, fl, step);
        if fl.contains(step) {
            lemma_kind_yields(d, CheckKind::Flattened, step);
            let j = choose|j: int| 0 <= j < d.fields@.len() && #[trigger] steps_of(CheckKind::Flattened, d.args_override_self, d.composable, j, d.fields@[j]).contains(step);
            let sq = steps_of(CheckKind::Flattened, d.args_override_self, d.composable, j, d.fields@[j]);
            let k = choose|k: int| 0 <= k < sq.len() && sq[k] == step;
            assert(sq[k] == BindingStep::Flattened(j as usize));
        } else {
            lemma_concat_contains(head + dups + fc + oc + ex + cross, groups, step);
            if groups.contains(step) {
                let k = choose|k: int| 0 <= k < groups.len() && groups[k] == step;
                assert(groups[k] == BindingStep::GroupExclusivity(k as usize));
            } else {
                lemma_concat_contains(head + dups + fc + oc + ex, cross, step);
                if cross.contains(step) {
                    let k = choose|k: int| 0 <= k < cross.len() && cross[k] == step;
                    assert(cross[k] == BindingStep::ExclusiveCross);
                } else {
                    lemma_concat_contains(head + dups + fc + oc, ex, step);
                    if ex.contains(step) {
                        lemma_kind_yields(d, CheckKind::Exclusives, step);
                        let j = choose|j: int| 0 <= j < d.fields@.len() && #[trigger] steps_of(CheckKind::Exclusives, d.args_override_self, d.composable, j, d.fields@[j]).contains(step);
                        let sq = steps_of(CheckKind::Exclusives, d.args_override_self, d.composable, j, d.fields@[j]);
                        let k = choose|k: int| 0 <= k < sq.len() && sq[k] == step;
                        assert(sq[k] == BindingStep::Exclusive(j as usize));
                    } else {
                        lemma_concat_contains(head + dups + fc, oc, step);
                        if oc.contains(step) {
                            lemma_kind_yields(d, CheckKind::OtherConflicts, step);
                            let j = choose|j: int| 0 <= j < d.fields@.len() && #[trigger] steps_of(CheckKind::OtherConflicts, d.args_override_self, d.composable, j, d.fields@[j]).contains(step);
                            let sq = steps_of(CheckKind::OtherConflicts, d.args_override_self, d.composable, j, d.fields@[j]);
                            let k = choose|k: int| 0 <= k < sq.len() && sq[k] == step;
                            assert(sq[k] == BindingStep::Conflict(j as usize, k as usize));
                        } else {
                            lemma_concat_contains(head + dups, fc, step);
                            if fc.contains(step) {
                                lemma_kind_yields(d, CheckKind::FlagConflicts, step);
                                let j = choose|j: int| 0 <= j < d.fields@.len() && #[trigger] steps_of(CheckKind::FlagConflicts, d.args_override_self, d.composable, j, d.fields@[j]).contains(step);
                                let sq = steps_of(CheckKind::FlagConflicts, d.args_override_self, d.composable, j, d.fields@[j]);
                                let k = choose|k: int| 0 <= k < sq.len() && sq[k] == step;
                                assert(sq[k] == BindingStep::Conflict(j as usize, k as usize));
                            } else {
                                lemma_concat_contains(head, dups, step);
                                if dups.contains(step) {
                                    lemma_kind_yields(d, CheckKind::Duplicates, step);
                                    let j = choose|j: int| 0 <= j < d.fields@.len() && #[trigger] steps_of(CheckKind::Duplicates, d.args_override_self, d.composable, j, d.fields@[j]).contains(step);
                                    let sq = steps_of(CheckKind::Duplicates, d.args_override_self, d.composable, j, d.fields@[j]);
                                    assert(sq.len() == 0);
                                } else {
                                    let k = choose|k: int| 0 <= k < head.len() && head[k] == step;
                                }
                            }
                        }
                    }
                }
            }
        }
    }
}

proof fn lemma_planned_step(d: CheckDecl, kind: CheckKind, i: int, step: BindingStep)
    requires
        0 <= i < d.fields@.len(),
        steps_of(kind, d.args_override_self, d.composable, i, d.fields@[i]).contains(step),
    ensures
        all_of(d, kind).contains(step),
{
    lemma_field_step_is_planned(d.fields@, kind, d.args_override_self, d.composable, d.fields@.len(), i, step);
}

/// Every relationship a field declares is checked where the command runs it: each of its
/// conflicts and its exclusivity with the checks that always run, each `requires` and
/// `requires_if` with the checks of what is missing; a flattened field's own checks always run;
/// and a collection with a bound on how many values it takes has the bound checked, for a
/// variadic flag the bound on one occurrence.
pub proof fn lemma_every_declared_relationship_is_checked(d: CheckDecl, i: usize, k: usize)
    requires
        i < d.fields@.len(),
    ensures
        k < d.fields@[i as int].conflicts ==> before_of(d).contains(BindingStep::Conflict(i, k)),
        d.fields@[i as int].exclusive ==> before_of(d).contains(BindingStep::Exclusive(i)),
        d.fields@[i as int].is_flatten ==> before_of(d).contains(BindingStep::Flattened(i)),
        k < d.fields@[i as int].requires ==> gated_of(d).contains(BindingStep::Requirement(i, k)),
        k < d.fields@[i as int].requires_if ==> gated_of(d).contains(BindingStep::ConditionalRequirement(i, k)),
        d.fields@[i as int].shape == CheckShape::Many && (if d.fields@[i as int].is_flag && d.fields@[i as int].variadic {
            d.fields@[i as int].value_var_bounds
        } else {
            d.fields@[i as int].var_bounds
        }) ==> after_of(d).contains(BindingStep::Bound(i)),
{
    let f = d.fields@[i as int];
    let head = seq![BindingStep::EnvFallbacks, BindingStep::DeclaredDefaults];
    let dups = all_of(d, CheckKind::Duplicates);
    let fc = all_of(d, CheckKind::FlagConflicts);
    let oc = all_of(d, CheckKind::OtherConflicts);
    let ex = all_of(d, CheckKind::Exclusives);
    let cross = one(has_flatten(d.fields@) || d.has_subcommand, BindingStep::ExclusiveCross);
    let groups = numbered(d.exclusive_groups as nat, |g: int| BindingStep::GroupExclusivity(g as usize));
    let fl = all_of(d, CheckKind::Flattened);
    let reqs = all_of(d, CheckKind::Requirements);
    let conds = all_of(d, CheckKind::ConditionalRequirements);
    let required = all_of(d, CheckKind::Required);
    let rgroups = numbered(d.required_groups as nat, |g: int| BindingStep::GroupRequired(g as usize));
    let rel = all_of(d, CheckKind::RelationshipRequired);
    let choices = all_of(d, CheckKind::Choices);
    let validations = all_of(d, CheckKind::Validations);
    let bounds = all_of(d, CheckKind::Bounds);
    let sub = one(d.has_subcommand, BindingStep::Subcommand);
    if k < f.conflicts {
        let step = BindingStep::Conflict(i, k);
        if f.is_flag {
            assert(steps_of(CheckKind::FlagConflicts, d.args_override_self, d.composable, i as int, f)[k as int] == step);
            lemma_planned_step(d, CheckKind::FlagConflicts, i as int, step);
            lemma_in_right(head + dups, fc, step);
            lemma_in_left(head + dups + fc, oc, step);
        } else {
            assert(steps_of(CheckKind::OtherConflicts, d.args_override_self, d.composable, i as int, f)[k as int] == step);
            lemma_planned_step(d, CheckKind::OtherConflicts, i as int, step);
            lemma_in_right(head + dups + fc, oc, step);
        }
        lemma_in_left(head + dups + fc + oc, ex, step);
        lemma_in_left(head + dups + fc + oc + ex, cross, step);
        lemma_in_left(head + dups + fc + oc + ex + cross, groups, step);
        lemma_in_left(head + dups + fc + oc + ex + cross + groups, fl, step);
    }
    if f.exclusive {
        let step = BindingStep::Exclusive(i);
        assert(steps_of(CheckKind::Exclusives, d.args_override_self, d.composable, i as int, f)[0] == step);
        lemma_planned_step(d, CheckKind::Exclusives, i as int, step);
        lemma_in_right(head + dups + fc + oc, ex, step);
        lemma_in_left(head + dups + fc + oc + ex, cross, step);
        lemma_in_left(head + dups + fc + oc + ex + cross, groups, step);
        lemma_in_left(head + dups + fc + oc + ex + cross + groups, fl, step);
    }
    if f.is_flatten {
        let step = BindingStep::Flattened(i);
        assert(steps_of(CheckKind::Flattened, d.args_override_self, d.composable, i as int, f)[0] == step);
        lemma_planned_step(d, CheckKind::Flattened, i as int, step);
        lemma_in_right(head + dups + fc + oc + ex + cross + groups, fl, step);
    }
    if k < f.requires {
        let step = BindingStep::Requirement(i, k);
        assert(steps_of(CheckKind::Requirements, d.args_override_self, d.composable, i as int, f)[k as int] == step);
        lemma_planned_step(d, CheckKind::Requirements, i as int, step);
        lemma_in_left(reqs, conds, step);
        lemma_in_left(reqs + conds, required, step);
        lemma_in_left(reqs + conds + required, rgroups, step);
        lemma_in_left(reqs + conds + required + rgroups, rel, step);
    }
    if k < f.requires_if {
        let step = BindingStep::ConditionalRequirement(i, k);
        assert(steps_of(CheckKind::ConditionalRequirements, d.args_override_self, d.composable, i as int, f)[k as int] == step);
        lemma_planned_step(d, CheckKind::ConditionalRequirements, i as int, step);
        lemma_in_right(reqs, conds, step);
        lemma_in_left(reqs + conds, required, step);
        lemma_in_left(reqs + conds + required, rgroups, step);
        lemma_in_left(reqs + conds + required + rgroups, rel, step);
    }
    if f.shape == CheckShape::Many && (if f.is_flag && f.variadic { f.value_var_bounds } else { f.var_bounds }) {
        let step = BindingStep::Bound(i);
        assert(steps_of(CheckKind::Bounds, d.args_override_self, d.composable, i as int, f)[0] == step);
        lemma_planned_step(d, CheckKind::Bounds, i as int, step);
        lemma_in_right(choices + validations, bounds, step);
        lemma_in_left(choices + validations + bounds, sub, step);
    }
}

/// The flattened structs and the subcommand answer for themselves: exclusivity across them is
/// checked exactly when the command has either, and a command with a subcommand runs the
/// subcommand's checks last.
pub proof fn lemma_nested_commands_are_checked(d: CheckDecl, i: usize)
    requires
        i < d.fields@.len(),
    ensures
        d.has_subcommand ==> before_of(d).contains(BindingStep::ExclusiveCross),
        d.fields@[i as int].is_flatten ==> before_of(d).contains(BindingStep::ExclusiveCross),
        d.has_subcommand ==> after_of(d).last() == BindingStep::Subcommand,
        !d.has_subcommand ==> !after_of(d).contains(BindingStep::Subcommand),
{
    let head = seq![BindingStep::EnvFallbacks, BindingStep::DeclaredDefaults];
    let dups = all_of(d, CheckKind::Duplicates);
    let fc = all_of(d, CheckKind::FlagConflicts);
    let oc = all_of(d, CheckKind::OtherConflicts);
    let ex = all_of(d, CheckKind::Exclusives);
    let cross = one(has_flatten(d.fields@) || d.has_subcommand, BindingStep::ExclusiveCross);
    let groups = numbered(d.exclusive_groups as nat, |g: int| BindingStep::GroupExclusivity(g as usize));
    let fl = all_of(d, CheckKind::Flattened);
    let choices = all_of(d, CheckKind::Choices);
    let validations = all_of(d, CheckKind::Validations);
    let bounds = all_of(d, CheckKind::Bounds);
    let sub = one(d.has_subcommand, BindingStep::Subcommand);
    let step = BindingStep::ExclusiveCross;
    if d.fields@[i as int].is_flatten {
        assert(has_flatten(d.fields@));
    }
    if has_flatten(d.fields@) || d.has_subcommand {
        assert(cross[0] == step);
        lemma_in_right(head + dups + fc + oc + ex, cross, step);
        lemma_in_left(head + dups + fc + oc + ex + cross, groups, step);
        lemma_in_left(head + dups + fc + oc + ex + cross + groups, fl, step);
    }
    if !d.has_subcommand && after_of(d).contains(BindingStep::Subcommand) {
        let s2 = BindingStep::Subcommand;
        lemma_concat_contains(choices + validations + bounds, sub, s2);
        if (choices + validations + bounds).contains(s2) {
            lemma_concat_contains(choices + validations, bounds, s2);
            if (choices + validations).contains(s2) {
                lemma_concat_contains(choices, validations, s2);
            }
        }
        if choices.contains(s2) {
            lemma_kind_yields(d, CheckKind::Choices, s2);
            let j = choose|j: int| 0 <= j < d.fields@.len() && #[trigger] steps_of(CheckKind::Choices, d.args_override_self, d.composable, j, d.fields@[j]).contains(s2);
            let sq = steps_of(CheckKind::Choices, d.args_override_self, d.composable, j, d.fields@[j]);
            let m = choose|m: int| 0 <= m < sq.len() && sq[m] == s2;
            assert(sq[m] == BindingStep::Choice(j as usize));
        } else if validations.contains(s2) {
            lemma_kind_yields(d, CheckKind::Validations, s2);
            let j = choose|j: int| 0 <= j < d.fields@.len() && #[trigger] steps_of(CheckKind::Validations, d.args_override_self, d.composable, j, d.fields@[j]).contains(s2);
            let sq = steps_of(CheckKind::Validations, d.args_override_self, d.composable, j, d.fields@[j]);
            let m = choose|m: int| 0 <= m < sq.len() && sq[m] == s2;
            assert(sq[m] == BindingStep::Validation(j as usize));
        } else if bounds.contains(s2) {
            lemma_kind_yields(d, CheckKind::Bounds, s2);
            let j = choose|j: int| 0 <= j < d.fields@.len() && #[trigger] steps_of(CheckKind::Bounds, d.args_override_self, d.composable, j, d.fields@[j]).contains(s2);
            let sq = steps_of(CheckKind::Bounds, d.args_override_self, d.composable, j, d.fields@[j]);
            let m = choose|m: int| 0 <= m < sq.len() && sq[m] == s2;
            assert(sq[m] == BindingStep::Bound(j as usize));
        } else {
            let m = choose|m: int| 0 <= m < sub.len() && sub[m] == s2;
        }
    }
}

} // verus!
