use usage_derive::checks::{meta_required, post_binding_plan, BindingStep, CheckDecl, CheckField, CheckShape};

fn field(shape: CheckShape) -> CheckField {
    CheckField {
        is_flag: true,
        is_flatten: false,
        variadic: false,
        shape,
        repeatable: false,
        required_collection: false,
        has_default: false,
        has_choices: false,
        value_enum: false,
        allow_unknown_choices: false,
        validate: false,
        var_bounds: false,
        value_var_bounds: false,
        conflicts: 0,
        requires: 0,
        requires_if: 0,
        exclusive: false,
        required_relations: false,
    }
}

fn decl(fields: Vec<CheckField>) -> CheckDecl {
    CheckDecl {
        fields,
        args_override_self: false,
        composable: false,
        has_subcommand: false,
        exclusive_groups: 0,
        required_groups: 0,
    }
}

#[test]
fn mistakes_come_before_what_is_missing_and_values_come_last() {
    let file = CheckField { conflicts: 1, ..field(CheckShape::Required) };
    let format = CheckField { has_choices: true, is_flag: false, conflicts: 1, ..field(CheckShape::Optional) };
    let items = CheckField { shape: CheckShape::Many, var_bounds: true, validate: true, ..field(CheckShape::Many) };
    let plan = post_binding_plan(&CheckDecl { has_subcommand: true, required_groups: 1, ..decl(vec![file, format, items]) });
    assert_eq!(
        plan.before,
        vec![
            BindingStep::EnvFallbacks,
            BindingStep::DeclaredDefaults,
            BindingStep::Duplicate(0),
            BindingStep::Conflict(0, 0),
            BindingStep::Conflict(1, 0),
            BindingStep::ExclusiveCross,
        ]
    );
    assert_eq!(plan.gated, vec![BindingStep::Required(0), BindingStep::GroupRequired(0)]);
    assert_eq!(
        plan.after,
        vec![
            BindingStep::Choice(1),
            BindingStep::Validation(2),
            BindingStep::Bound(2),
            BindingStep::Subcommand,
        ]
    );
}

#[test]
fn a_default_answers_required_ness() {
    let filled = CheckField { has_default: true, required_relations: true, ..field(CheckShape::Required) };
    let collection = CheckField { required_collection: true, ..field(CheckShape::Many) };
    let plan = post_binding_plan(&decl(vec![filled, collection]));
    assert_eq!(plan.gated, vec![BindingStep::Required(1)]);
}

#[test]
fn a_permissive_command_lets_a_later_flag_win() {
    let mut d = decl(vec![field(CheckShape::Optional), field(CheckShape::Count)]);
    d.args_override_self = true;
    assert_eq!(post_binding_plan(&d).before, vec![BindingStep::EnvFallbacks, BindingStep::DeclaredDefaults]);
    d.composable = true;
    assert_eq!(post_binding_plan(&d).before[2..], [BindingStep::Duplicate(0)]);
}

#[test]
fn relationships_are_checked_one_by_one_under_the_gate() {
    let f = CheckField { requires: 2, requires_if: 1, exclusive: true, is_flatten: false, ..field(CheckShape::Bool) };
    let flat = CheckField { is_flatten: true, is_flag: false, ..field(CheckShape::Bool) };
    let plan = post_binding_plan(&CheckDecl { exclusive_groups: 1, ..decl(vec![f, flat]) });
    assert_eq!(
        plan.before[3..],
        [
            BindingStep::Exclusive(0),
            BindingStep::ExclusiveCross,
            BindingStep::GroupExclusivity(0),
            BindingStep::Flattened(1),
        ]
    );
    assert_eq!(
        plan.gated,
        vec![
            BindingStep::Requirement(0, 0),
            BindingStep::Requirement(0, 1),
            BindingStep::ConditionalRequirement(0, 0),
        ]
    );
}

#[test]
fn the_metadata_and_the_check_agree_on_required() {
    let fields = vec![
        field(CheckShape::Required),
        CheckField { has_default: true, ..field(CheckShape::Required) },
        CheckField { required_collection: true, ..field(CheckShape::Many) },
        field(CheckShape::Optional),
    ];
    let plan = post_binding_plan(&decl(fields.clone()));
    for (i, f) in fields.iter().enumerate() {
        assert_eq!(meta_required(f), plan.gated.contains(&BindingStep::Required(i)), "field {i}");
    }
}
