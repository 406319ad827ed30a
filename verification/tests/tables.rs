use usage_derive::tables::{table_plan, Piece, TableKind, Term};

#[test]
fn without_a_splice_each_table_is_one_run() {
    let plan = table_plan(&vec![TableKind::Flag, TableKind::Arg, TableKind::Flag, TableKind::Other]);
    assert!(!plan.flattened);
    assert_eq!(plan.flag_count, 2);
    assert_eq!(plan.arg_count, 1);
    assert_eq!(plan.flags, vec![Piece::Own { first: 0, count: 2 }]);
    assert_eq!(plan.args, vec![Piece::Own { first: 0, count: 1 }]);
    assert!(plan.flatten_starts.is_empty());
}

#[test]
fn a_flattened_struct_is_spliced_where_its_field_is_written() {
    // flag, arg, flatten, flag, group, flatten, arg, flag
    let kinds = vec![
        TableKind::Flag,
        TableKind::Arg,
        TableKind::Flatten,
        TableKind::Flag,
        TableKind::ArgGroup,
        TableKind::Flatten,
        TableKind::Arg,
        TableKind::Flag,
    ];
    let plan = table_plan(&kinds);
    assert!(plan.flattened);
    assert_eq!(plan.flag_count, 3);
    assert_eq!(plan.arg_count, 2);
    assert_eq!(
        plan.flags,
        vec![
            Piece::Own { first: 0, count: 1 },
            Piece::Flattened(2),
            Piece::Own { first: 1, count: 1 },
            Piece::Grouped(4),
            Piece::Flattened(5),
            Piece::Own { first: 2, count: 1 },
        ]
    );
    assert_eq!(
        plan.args,
        vec![
            Piece::Own { first: 0, count: 1 },
            Piece::Flattened(2),
            Piece::Flattened(5),
            Piece::Own { first: 1, count: 1 },
        ]
    );
    assert_eq!(plan.flatten_starts.len(), 2);
    assert_eq!(plan.flatten_starts[0].field, 2);
    assert_eq!(plan.flatten_starts[0].start, vec![Term::Own(1)]);
    assert_eq!(plan.flatten_starts[1].field, 5);
    assert_eq!(
        plan.flatten_starts[1].start,
        vec![Term::Own(1), Term::Flattened(2), Term::Own(1), Term::Grouped(4)]
    );
}

#[test]
fn a_leading_flatten_starts_at_zero() {
    let plan = table_plan(&vec![TableKind::Flatten, TableKind::Flatten]);
    assert_eq!(plan.flatten_starts[0].start, vec![]);
    assert_eq!(plan.flatten_starts[1].start, vec![Term::Flattened(0)]);
    assert_eq!(plan.flags, vec![Piece::Flattened(0), Piece::Flattened(1)]);
}

#[test]
fn an_argument_group_splices_flags_only() {
    let plan = table_plan(&vec![TableKind::Arg, TableKind::ArgGroup, TableKind::Arg]);
    assert!(plan.flattened);
    assert_eq!(plan.flags, vec![Piece::Grouped(1)]);
    assert_eq!(plan.args, vec![Piece::Own { first: 0, count: 2 }]);
    assert!(plan.flatten_starts.is_empty());
}
