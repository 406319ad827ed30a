//! How a command's flag and argument tables are laid out.
//!
//! A command's own flags and arguments are numbered in the order they are written. A
//! flattened struct's flags and arguments, and an argument group's switches, are spliced in
//! at the position their field is written, because for positional arguments the position
//! is the meaning. So a table is a sequence of pieces: runs of the command's own entries,
//! and the children's whole tables. Where a flattened struct's flags start in the joined
//! table is written as a sum of what precedes it, since the children's lengths belong to
//! other expansions.

use vstd::prelude::*;

verus! {

broadcast use vstd::seq_lib::group_seq_properties;

/// What a field contributes to the tables.
#[derive(Clone, Copy, PartialEq, Eq, Structural, Debug)]
pub enum TableKind {
    /// One flag of the command's own.
    Flag,
    /// One positional argument of the command's own.
    Arg,
    /// A flattened struct: its flags and its arguments.
    Flatten,
    /// An argument group: its switches, which are flags.
    ArgGroup,
    /// Nothing: a subcommand, or a skipped field.
    Other,
}

/// One piece of a table.
#[derive(Clone, Copy, PartialEq, Eq, Structural, Debug)]
pub enum Piece {
    /// The command's own entries `first .. first + count`, in order.
    Own { first: usize, count: usize },
    /// The whole table of the flattened struct at this field position.
    Flattened(usize),
    /// The switches of the argument group at this field position.
    Grouped(usize),
}

/// One term of the sum that says where a flattened struct's flags start.
#[derive(Clone, Copy, PartialEq, Eq, Structural, Debug)]
pub enum Term {
    /// A number of the command's own flags.
    Own(usize),
    /// The length of the flag table of the flattened struct at this field position.
    Flattened(usize),
    /// The number of switches of the argument group at this field position.
    Grouped(usize),
}

/// Where a flattened struct's flags start: its field position and the sum's terms.
pub struct FlattenStart {
    pub field: usize,
    pub start: Vec<Term>,
}

/// The layout of a command's tables.
pub struct TablePlan {
    /// Whether anything was spliced in; without that, each table is the command's own entries.
    pub flattened: bool,
    pub flag_count: usize,
    pub arg_count: usize,
    pub flags: Vec<Piece>,
    pub args: Vec<Piece>,
    pub flatten_starts: Vec<FlattenStart>,
}

/// The layout once some fields are read: the pieces so far, the own entries read since the
/// last piece, how many own entries there are, and the start sums.
#[verifier::ext_equal]
pub struct PlanState {
    pub flags: Seq<Piece>,
    pub args: Seq<Piece>,
    pub flag_run: nat,
    pub arg_run: nat,
    pub flag_at: nat,
    pub arg_at: nat,
    pub flattened: bool,
    pub starts: Seq<(int, Seq<Term>)>,
    pub offset: Seq<Term>,
    pub own_since: nat,
}

pub open spec fn empty_plan() -> PlanState {
    PlanState {
        flags: seq![],
        args: seq![],
        flag_run: 0,
        arg_run: 0,
        flag_at: 0,
        arg_at: 0,
        flattened: false,
        starts: seq![],
        offset: seq![],
        own_since: 0,
    }
}

/// The own flags read since the last piece become a piece of their own.
pub open spec fn flush_flags(st: PlanState) -> PlanState {
    if st.flag_run == 0 {
        st
    } else {
        PlanState {
            flags: st.flags.push(
                Piece::Own { first: (st.flag_at - st.flag_run) as usize, count: st.flag_run as usize },
            ),
            flag_run: 0,
            ..st
        }
    }
}

/// The own arguments read since the last piece become a piece of their own.
pub open spec fn flush_args(st: PlanState) -> PlanState {
    if st.arg_run == 0 {
        st
    } else {
        PlanState {
            args: st.args.push(
                Piece::Own { first: (st.arg_at - st.arg_run) as usize, count: st.arg_run as usize },
            ),
            arg_run: 0,
            ..st
        }
    }
}

/// The own flags counted since the last child become a term of the start sum.
pub open spec fn count_own_flags(st: PlanState) -> PlanState {
    if st.own_since > 0 {
        PlanState { offset: st.offset.push(Term::Own(st.own_since as usize)), own_since: 0, ..st }
    } else {
        st
    }
}

/// Reading the field at position `i`.
pub open spec fn plan_step(st: PlanState, kind: TableKind, i: int) -> PlanState {
    match kind {
        TableKind::Flag => PlanState {
            flag_run: st.flag_run + 1,
            flag_at: st.flag_at + 1,
            own_since: st.own_since + 1,
            ..st
        },
        TableKind::Arg => PlanState { arg_run: st.arg_run + 1, arg_at: st.arg_at + 1, ..st },
        TableKind::Flatten => {
            let counted = count_own_flags(st);
            let started = PlanState {
                flattened: true,
                starts: counted.starts.push((i, counted.offset)),
                offset: counted.offset.push(Term::Flattened(i as usize)),
                ..counted
            };
            let flushed = flush_args(flush_flags(started));
            PlanState {
                flags: flushed.flags.push(Piece::Flattened(i as usize)),
                args: flushed.args.push(Piece::Flattened(i as usize)),
                ..flushed
            }
        },
        TableKind::ArgGroup => {
            let counted = count_own_flags(st);
            let grouped = PlanState {
                flattened: true,
                offset: counted.offset.push(Term::Grouped(i as usize)),
                ..counted
            };
            let flushed = flush_flags(grouped);
            PlanState { flags: flushed.flags.push(Piece::Grouped(i as usize)), ..flushed }
        },
        TableKind::Other => st,
    }
}

pub open spec fn plan_upto(kinds: Seq<TableKind>, n: nat) -> PlanState
    decreases n,
{
    if n == 0 {
        empty_plan()
    } else {
        plan_step(plan_upto(kinds, (n - 1) as nat), kinds[n - 1], n - 1)
    }
}

/// The layout of a command whose fields are `kinds`, in the order written.
pub open spec fn plan_of(kinds: Seq<TableKind>) -> PlanState {
    flush_args(flush_flags(plan_upto(kinds, kinds.len())))
}

pub open spec fn starts_view(starts: Seq<FlattenStart>) -> Seq<(int, Seq<Term>)> {
    starts.map_values(|s: FlattenStart| (s.field as int, s.start@))
}

/// The plan says what `plan` says of the layout.
pub open spec fn plan_matches(plan: TablePlan, st: PlanState) -> bool {
    &&& plan.flattened == st.flattened
    &&& plan.flag_count == st.flag_at
    &&& plan.arg_count == st.arg_at
    &&& plan.flags@ == st.flags
    &&& plan.args@ == st.args
    &&& starts_view(plan.flatten_starts@) == st.starts
}

pub open spec fn state_of(
    flags: Seq<Piece>,
    args: Seq<Piece>,
    flag_run: usize,
    arg_run: usize,
    flag_at: usize,
    arg_at: usize,
    flattened: bool,
    starts: Seq<FlattenStart>,
    offset: Seq<Term>,
    own_since: usize,
) -> PlanState {
    PlanState {
        flags,
        args,
        flag_run: flag_run as nat,
        arg_run: arg_run as nat,
        flag_at: flag_at as nat,
        arg_at: arg_at as nat,
        flattened,
        starts: starts_view(starts),
        offset,
        own_since: own_since as nat,
    }
}

fn copy_terms(terms: &Vec<Term>) -> (res: Vec<Term>)
    ensures
        res@ == terms@,
{
    let mut out: Vec<Term> = Vec::new();
    let mut k: usize = 0;
    while k < terms.len()
        invariant
            k <= terms@.len(),
            out@ == terms@.take(k as int),
        decreases terms@.len() - k,
    {
        out.push(terms[k]);
        assert(terms@.take(k + 1) =~= terms@.take(k as int).push(terms@[k as int]));
        k = k + 1;
    }
    assert(terms@.take(terms@.len() as int) =~= terms@);
    out
}

/// The layout of a command's tables, from what each field contributes, in the order written.
pub fn table_plan(kinds: &Vec<TableKind>) -> (res: TablePlan)
    ensures
        plan_matches(res, plan_of(kinds@)),
{
    let mut flags: Vec<Piece> = Vec::new();
    let mut args: Vec<Piece> = Vec::new();
    let mut flag_run: usize = 0;
    let mut arg_run: usize = 0;
    let mut flag_at: usize = 0;
    let mut arg_at: usize = 0;
    let mut flattened = false;
    let mut starts: Vec<FlattenStart> = Vec::new();
    let mut offset: Vec<Term> = Vec::new();
    let mut own_since: usize = 0;
    assert(state_of(flags@, args@, 0, 0, 0, 0, false, starts@, offset@, 0) =~= plan_upto(kinds@, 0));
    let mut i: usize = 0;
    while i < kinds.len()
        invariant
            i <= kinds@.len(),
            flag_at <= i,
            arg_at <= i,
            flag_run <= flag_at,
            arg_run <= arg_at,
            own_since <= flag_at,
            state_of(
                flags@,
                args@,
                flag_run,
                arg_run,
                flag_at,
                arg_at,
                flattened,
                starts@,
                offset@,
                own_since,
            ) == plan_upto(kinds@, i as nat),
        decreases kinds@.len() - i,
    {
        let ghost before = plan_upto(kinds@, i as nat);
        match kinds[i] {
            TableKind::Flag => {
                flag_run = flag_run + 1;
                flag_at = flag_at + 1;
                own_since = own_since + 1;
            },
            TableKind::Arg => {
                arg_run = arg_run + 1;
                arg_at = arg_at + 1;
            },
            TableKind::Flatten => {
                if own_since > 0 {
                    offset.push(Term::Own(own_since));
                    own_since = 0;
                }
                flattened = true;
                let ghost counted_starts = starts@;
                starts.push(FlattenStart { field: i, start: copy_terms(&offset) });
                assert(starts_view(starts@) =~= starts_view(counted_starts).push((i as int, offset@)));
                offset.push(Term::Flattened(i));
                if flag_run > 0 {
                    flags.push(Piece::Own { first: flag_at - flag_run, count: flag_run });
                    flag_run = 0;
                }
                if arg_run > 0 {
                    args.push(Piece::Own { first: arg_at - arg_run, count: arg_run });
                    arg_run = 0;
                }
                flags.push(Piece::Flattened(i));
                args.push(Piece::Flattened(i));
            },
            TableKind::ArgGroup => {
                if own_since > 0 {
                    offset.push(Term::Own(own_since));
                    own_since = 0;
                }
                flattened = true;
                offset.push(Term::Grouped(i));
                if flag_run > 0 {
                    flags.push(Piece::Own { first: flag_at - flag_run, count: flag_run });
                    flag_run = 0;
                }
                flags.push(Piece::Grouped(i));
            },
            TableKind::Other => {},
        }
        assert(state_of(
            flags@,
            args@,
            flag_run,
            arg_run,
            flag_at,
            arg_at,
            flattened,
            starts@,
            offset@,
            own_since,
        ) =~= plan_step(before, kinds@[i as int], i as int));
        i = i + 1;
    }
    if flag_run > 0 {
        flags.push(Piece::Own { first: flag_at - flag_run, count: flag_run });
    }
    if arg_run > 0 {
        args.push(Piece::Own { first: arg_at - arg_run, count: arg_run });
    }
    TablePlan { flattened, flag_count: flag_at, arg_count: arg_at, flags, args, flatten_starts: starts }
}

/// The command's own entries a sequence of pieces lists, in order.
pub open spec fn own_entries(pieces: Seq<Piece>) -> Seq<int>
    decreases pieces.len(),
{
    if pieces.len() == 0 {
        seq![]
    } else {
        own_entries(pieces.drop_last()) + match pieces.last() {
            Piece::Own { first, count } => Seq::new(count as nat, |k: int| first + k),
            _ => seq![],
        }
    }
}

/// `0, 1, ..., n - 1`.
pub open spec fn upto(n: int) -> Seq<int> {
    Seq::new(n as nat, |k: int| k)
}

/// The field positions of the children a sequence of pieces splices in, in order.
pub open spec fn children(pieces: Seq<Piece>) -> Seq<int>
    decreases pieces.len(),
{
    if pieces.len() == 0 {
        seq![]
    } else {
        children(pieces.drop_last()) + match pieces.last() {
            Piece::Own { .. } => seq![],
            Piece::Flattened(i) => seq![i as int],
            Piece::Grouped(i) => seq![i as int],
        }
    }
}

/// The positions among the first `n` fields whose flags are spliced in: flattened structs
/// and argument groups.
pub open spec fn flag_children_upto(kinds: Seq<TableKind>, n: nat) -> Seq<int>
    decreases n,
{
    if n == 0 {
        seq![]
    } else {
        flag_children_upto(kinds, (n - 1) as nat) + if kinds[n - 1] == TableKind::Flatten
            || kinds[n - 1] == TableKind::ArgGroup {
            seq![n - 1]
        } else {
            seq![]
        }
    }
}

/// The positions among the first `n` fields whose arguments are spliced in: flattened
/// structs.
pub open spec fn arg_children_upto(kinds: Seq<TableKind>, n: nat) -> Seq<int>
    decreases n,
{
    if n == 0 {
        seq![]
    } else {
        arg_children_upto(kinds, (n - 1) as nat) + if kinds[n - 1] == TableKind::Flatten {
            seq![n - 1]
        } else {
            seq![]
        }
    }
}

/// The term a piece adds to the position of whatever follows it.
pub open spec fn term_of(piece: Piece) -> Term {
    match piece {
        Piece::Own { count, .. } => Term::Own(count),
        Piece::Flattened(i) => Term::Flattened(i),
        Piece::Grouped(i) => Term::Grouped(i),
    }
}

pub open spec fn terms_of(pieces: Seq<Piece>) -> Seq<Term> {
    pieces.map_values(|p: Piece| term_of(p))
}

/// The start sum of a flattened struct is exactly the pieces before it in the flag table.
pub open spec fn start_is_position(flags: Seq<Piece>, start: (int, Seq<Term>)) -> bool {
    exists|p: int|
        0 <= p < flags.len() && #[trigger] flags[p] == Piece::Flattened(start.0 as usize) && start.1
            == terms_of(flags.take(p))
}

/// What holds of the layout after every field read.
pub open spec fn plan_invariant(kinds: Seq<TableKind>, n: nat, st: PlanState) -> bool {
    &&& st.flag_at <= n && st.arg_at <= n
    &&& st.flag_run <= st.flag_at && st.arg_run <= st.arg_at
    &&& own_entries(st.flags) == upto(st.flag_at - st.flag_run)
    &&& own_entries(st.args) == upto(st.arg_at - st.arg_run)
    &&& children(st.flags) == flag_children_upto(kinds, n)
    &&& children(st.args) == arg_children_upto(kinds, n)
    &&& st.own_since == st.flag_run
    &&& st.offset == terms_of(st.flags)
    &&& forall|k: int| 0 <= k < st.starts.len() ==> start_is_position(st.flags, #[trigger] st.starts[k])
}

proof fn lemma_own_run(pieces: Seq<Piece>, first: nat, count: nat)
    requires
        own_entries(pieces) == upto(first as int),
        first + count <= usize::MAX,
    ensures
        own_entries(pieces.push(Piece::Own { first: first as usize, count: count as usize })) == upto(
            (first + count) as int,
        ),
{
    let pushed = pieces.push(Piece::Own { first: first as usize, count: count as usize });
    assert(pushed.drop_last() =~= pieces);
    assert(own_entries(pushed) =~= upto((first + count) as int));
}

proof fn lemma_push_child(pieces: Seq<Piece>, child: Piece)
    requires
        !(child is Own),
    ensures
        own_entries(pieces.push(child)) == own_entries(pieces),
        children(pieces.push(child)) == children(pieces) + seq![
            match child {
                Piece::Flattened(i) => i as int,
                Piece::Grouped(i) => i as int,
                _ => 0,
            },
        ],
{
    let pushed = pieces.push(child);
    assert(pushed.drop_last() =~= pieces);
    assert(own_entries(pushed) =~= own_entries(pieces));
}

proof fn lemma_push_own(pieces: Seq<Piece>, first: usize, count: usize)
    ensures
        children(pieces.push(Piece::Own { first, count })) == children(pieces),
{
    let pushed = pieces.push(Piece::Own { first, count });
    assert(pushed.drop_last() =~= pieces);
    assert(children(pushed) =~= children(pieces));
}

proof fn lemma_starts_survive_push(flags: Seq<Piece>, starts: Seq<(int, Seq<Term>)>, piece: Piece)
    requires
        forall|k: int| 0 <= k < starts.len() ==> start_is_position(flags, #[trigger] starts[k]),
    ensures
        forall|k: int| 0 <= k < starts.len() ==> start_is_position(flags.push(piece), #[trigger] starts[k]),
{
    assert forall|k: int| 0 <= k < starts.len() implies start_is_position(
        flags.push(piece),
        #[trigger] starts[k],
    ) by {
        let p = choose|p: int|
            0 <= p < flags.len() && #[trigger] flags[p] == Piece::Flattened(starts[k].0 as usize)
                && starts[k].1 == terms_of(flags.take(p));
        assert(flags.push(piece).take(p) =~= flags.take(p));
        assert(flags.push(piece)[p] == flags[p]);
    }
}

proof fn lemma_flush_flags(kinds: Seq<TableKind>, n: nat, st: PlanState)
    requires
        plan_invariant(kinds, n, st),
        n <= usize::MAX,
    ensures
        ({
            let f = flush_flags(st);
            &&& f.flag_run == 0 && f.own_since == st.own_since && f.flag_at == st.flag_at
            &&& own_entries(f.flags) == upto(st.flag_at as int)
            &&& children(f.flags) == children(st.flags)
            &&& f.offset == st.offset
            &&& f.args == st.args && f.starts == st.starts && f.arg_run == st.arg_run
            &&& f.arg_at == st.arg_at
            &&& st.flag_run > 0 ==> f.flags == st.flags.push(
                Piece::Own { first: (st.flag_at - st.flag_run) as usize, count: st.flag_run as usize },
            )
            &&& st.flag_run == 0 ==> f.flags == st.flags
            &&& forall|k: int| 0 <= k < f.starts.len() ==> start_is_position(f.flags, #[trigger] f.starts[k])
        }),
{
    if st.flag_run > 0 {
        let piece = Piece::Own {
            first: (st.flag_at - st.flag_run) as usize,
            count: st.flag_run as usize,
        };
        lemma_own_run(st.flags, (st.flag_at - st.flag_run) as nat, st.flag_run);
        lemma_push_own(st.flags, piece->first, piece->count);
        lemma_starts_survive_push(st.flags, st.starts, piece);
    }
}

proof fn lemma_flush_args(kinds: Seq<TableKind>, n: nat, st: PlanState)
    requires
        st.arg_at <= n,
        st.arg_run <= st.arg_at,
        own_entries(st.args) == upto(st.arg_at - st.arg_run),
        n <= usize::MAX,
    ensures
        ({
            let f = flush_args(st);
            &&& f.arg_run == 0 && f.arg_at == st.arg_at
            &&& own_entries(f.args) == upto(st.arg_at as int)
            &&& children(f.args) == children(st.args)
            &&& f.flags == st.flags && f.offset == st.offset && f.starts == st.starts
            &&& f.flag_run == st.flag_run && f.flag_at == st.flag_at && f.own_since == st.own_since
            &&& f.flattened == st.flattened
        }),
{
    if st.arg_run > 0 {
        lemma_own_run(st.args, (st.arg_at - st.arg_run) as nat, st.arg_run);
        lemma_push_own(st.args, (st.arg_at - st.arg_run) as usize, st.arg_run as usize);
    }
}

proof fn lemma_plan_invariant(kinds: Seq<TableKind>, n: nat)
    requires
        n <= kinds.len(),
        kinds.len() <= usize::MAX,
    ensures
        plan_invariant(kinds, n, plan_upto(kinds, n)),
    decreases n,
{
    if n == 0 {
        assert(own_entries(seq![]) =~= upto(0));
        assert(terms_of(seq![]) =~= seq![]);
    } else {
        let m = (n - 1) as nat;
        lemma_plan_invariant(kinds, m);
        let st = plan_upto(kinds, m);
        let i = m as int;
        let after = plan_upto(kinds, n);
        assert(after == plan_step(st, kinds[i], i));
        match kinds[i] {
            TableKind::Flag => {},
            TableKind::Arg => {},
            TableKind::Flatten => {
                let counted = count_own_flags(st);
                let started = PlanState {
                    flattened: true,
                    starts: counted.starts.push((i, counted.offset)),
                    offset: counted.offset.push(Term::Flattened(i as usize)),
                    ..counted
                };
                lemma_flush_flags(kinds, m, st);
                let ff = flush_flags(started);
                assert(ff.flags == flush_flags(st).flags);
                assert(counted.offset == terms_of(ff.flags)) by {
                    if st.flag_run > 0 {
                        assert(terms_of(ff.flags) =~= terms_of(st.flags).push(Term::Own(st.flag_run as usize)));
                    }
                }
                let fa = flush_args(ff);
                lemma_flush_args(kinds, m, ff);
                let flat = Piece::Flattened(i as usize);
                lemma_push_child(fa.flags, flat);
                lemma_push_child(fa.args, flat);
                lemma_starts_survive_push(fa.flags, st.starts, flat);
                assert(after.flags == fa.flags.push(flat));
                assert(after.args == fa.args.push(flat));
                assert(after.flags.take(fa.flags.len() as int) =~= fa.flags);
                assert(after.flags[fa.flags.len() as int] == flat);
                assert(start_is_position(after.flags, (i, counted.offset)));
                assert forall|k: int| 0 <= k < after.starts.len() implies start_is_position(
                    after.flags,
                    #[trigger] after.starts[k],
                ) by {
                    if k < st.starts.len() {
                        assert(after.starts[k] == st.starts[k]);
                    }
                }
                assert(terms_of(after.flags) =~= terms_of(fa.flags).push(Term::Flattened(i as usize)));
                assert(flag_children_upto(kinds, n) == flag_children_upto(kinds, m) + seq![i]);
                assert(arg_children_upto(kinds, n) == arg_children_upto(kinds, m) + seq![i]);
            },
            TableKind::ArgGroup => {
                let counted = count_own_flags(st);
                let grouped = PlanState {
                    flattened: true,
                    offset: counted.offset.push(Term::Grouped(i as usize)),
                    ..counted
                };
                lemma_flush_flags(kinds, m, st);
                let ff = flush_flags(grouped);
                assert(ff.flags == flush_flags(st).flags);
                assert(counted.offset == terms_of(ff.flags)) by {
                    if st.flag_run > 0 {
                        assert(terms_of(ff.flags) =~= terms_of(st.flags).push(Term::Own(st.flag_run as usize)));
                    }
                }
                let grp = Piece::Grouped(i as usize);
                lemma_push_child(ff.flags, grp);
                lemma_starts_survive_push(ff.flags, st.starts, grp);
                assert(after.flags == ff.flags.push(grp));
                assert(terms_of(after.flags) =~= terms_of(ff.flags).push(Term::Grouped(i as usize)));
                assert(flag_children_upto(kinds, n) == flag_children_upto(kinds, m) + seq![i]);
                assert(arg_children_upto(kinds, n) =~= arg_children_upto(kinds, m));
            },
            TableKind::Other => {
                assert(flag_children_upto(kinds, n) =~= flag_children_upto(kinds, m));
                assert(arg_children_upto(kinds, n) =~= arg_children_upto(kinds, m));
            },
        }
    }
}

/// The tables list the command's own flags, and its own arguments, each exactly once and in
/// the order written: the runs between the spliced children number them `0, 1, ...`.
pub proof fn lemma_own_entries_in_order(kinds: Seq<TableKind>)
    requires
        kinds.len() <= usize::MAX,
    ensures
        own_entries(plan_of(kinds).flags) == upto(plan_of(kinds).flag_at as int),
        own_entries(plan_of(kinds).args) == upto(plan_of(kinds).arg_at as int),
{
    let n = kinds.len();
    lemma_plan_invariant(kinds, n);
    let st = plan_upto(kinds, n);
    lemma_flush_flags(kinds, n, st);
    lemma_flush_args(kinds, n, flush_flags(st));
}

/// Each flattened struct and argument group is spliced into the flag table once, at the
/// position its field is written; each flattened struct likewise into the argument table.
pub proof fn lemma_children_spliced_in_place(kinds: Seq<TableKind>)
    requires
        kinds.len() <= usize::MAX,
    ensures
        children(plan_of(kinds).flags) == flag_children_upto(kinds, kinds.len()),
        children(plan_of(kinds).args) == arg_children_upto(kinds, kinds.len()),
{
    let n = kinds.len();
    lemma_plan_invariant(kinds, n);
    let st = plan_upto(kinds, n);
    lemma_flush_flags(kinds, n, st);
    lemma_flush_args(kinds, n, flush_flags(st));
}

/// Where a flattened struct's flags start is the sum of exactly the pieces that precede it
/// in the joined flag table: so its flags are found where they were spliced.
pub proof fn lemma_flatten_starts_where_spliced(kinds: Seq<TableKind>, k: int)
    requires
        kinds.len() <= usize::MAX,
        0 <= k < plan_of(kinds).starts.len(),
    ensures
        start_is_position(plan_of(kinds).flags, plan_of(kinds).starts[k]),
{
    let n = kinds.len();
    lemma_plan_invariant(kinds, n);
    let st = plan_upto(kinds, n);
    lemma_flush_flags(kinds, n, st);
    lemma_flush_args(kinds, n, flush_flags(st));
    assert(plan_of(kinds).starts[k] == st.starts[k]);
}

} // verus!
