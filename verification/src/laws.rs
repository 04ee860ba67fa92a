//! What holds of every program, every file and every store.

use vstd::prelude::*;

use crate::ast::{
    array_get, array_has, array_set, assign, eval, eval_var, exec_statement,
    exec_statements, expr_needs_metadata, exprs_need_metadata, print_text, routines_need_metadata,
    run_routine, run_routines_inner_spec, run_routines_spec, run_spec, statements_need_metadata,
    var_needs_metadata, ActionView, ExprView, OpKind, RoutineView, StatementView, StoreView,
    VarView,
};
use crate::errors::ErrorView;
use crate::file::{eval_attr, FileView};
use crate::program_state::StateView;
use crate::treewalk::{
    entry_file, finish_spec, is_directory, is_dot, launch_spec, walk_entries,
    walk_entries_single, EntryView, WalkMode,
};
use crate::types::{binary_op, to_integer, wrap64, Attribute, ValueView};
use crate::variables::{empty_arrays, lemma_array_missing};

verus! {

/// Whether two files differ in nothing but their metadata.
pub open spec fn same_but_metadata(f1: Option<FileView>, f2: Option<FileView>) -> bool {
    match (f1, f2) {
        (None, None) => true,
        (Some(a), Some(b)) => a.path == b.path && a.name == b.name,
        _ => false,
    }
}

/// The name and the path of a file do not depend on its metadata: they
/// evaluate to the same strings whether `stat` was made or not and whatever
/// it returned.
pub proof fn name_and_path_ignore_metadata(a: Attribute, f1: FileView, f2: FileView)
    requires
        a == Attribute::Name || a == Attribute::Path,
        f1.path == f2.path,
        f1.name == f2.name,
    ensures
        eval_attr(a, Some(f1)) == eval_attr(a, Some(f2)),
        a == Attribute::Name ==> eval_attr(a, Some(f1)) == Ok::<ValueView, ErrorView>(
            ValueView::String(f1.name),
        ),
        a == Attribute::Path ==> eval_attr(a, Some(f1)) == Ok::<ValueView, ErrorView>(
            ValueView::String(f1.path),
        ),
{
}

/// An expression that mentions no attribute that is read from the metadata
/// has the same value whatever the metadata of the file.
pub proof fn expression_ignores_metadata(
    e: ExprView,
    f1: Option<FileView>,
    f2: Option<FileView>,
    s: StoreView,
)
    requires
        same_but_metadata(f1, f2),
        !expr_needs_metadata(e),
    ensures
        eval(e, f1, s) == eval(e, f2, s),
    decreases e,
{
    match e {
        ExprView::Bin(_, l, r) => {
            expression_ignores_metadata(*l, f1, f2, s);
            expression_ignores_metadata(*r, f1, f2, s);
        },
        ExprView::Var(v) => {
            variable_ignores_metadata(v, f1, f2, s);
        },
        _ => {},
    }
}

/// A variable whose subscript mentions no attribute that is read from the
/// metadata has the same value whatever the metadata of the file.
pub proof fn variable_ignores_metadata(
    v: VarView,
    f1: Option<FileView>,
    f2: Option<FileView>,
    s: StoreView,
)
    requires
        same_but_metadata(f1, f2),
        !var_needs_metadata(v),
    ensures
        eval_var(v, f1, s) == eval_var(v, f2, s),
    decreases v,
{
    match v {
        VarView::ArrSub(_, sub) => {
            expression_ignores_metadata(*sub, f1, f2, s);
        },
        _ => {},
    }
}

pub proof fn print_ignores_metadata(
    es: Seq<ExprView>,
    f1: Option<FileView>,
    f2: Option<FileView>,
    s: StoreView,
)
    requires
        same_but_metadata(f1, f2),
        !exprs_need_metadata(es),
    ensures
        print_text(es, f1, s) == print_text(es, f2, s),
    decreases es.len(),
{
    if es.len() > 0 {
        expression_ignores_metadata(es[0], f1, f2, s);
        print_ignores_metadata(es.drop_first(), f1, f2, s);
    }
}

pub proof fn statements_ignore_metadata(
    sts: Seq<StatementView>,
    f1: Option<FileView>,
    f2: Option<FileView>,
    sv: StateView,
)
    requires
        same_but_metadata(f1, f2),
        !statements_need_metadata(sts),
    ensures
        exec_statements(sts, f1, sv) == exec_statements(sts, f2, sv),
    decreases sts.len(),
{
    if sts.len() > 0 {
        match sts[0] {
            StatementView::Assignment(lhs, rhs) => {
                expression_ignores_metadata(rhs, f1, f2, sv.store);
                match lhs {
                    VarView::ArrSub(_, sub) => {
                        expression_ignores_metadata(*sub, f1, f2, sv.store);
                    },
                    _ => {},
                }
            },
            StatementView::Print(es) => {
                print_ignores_metadata(es, f1, f2, sv.store);
            },
        }
        assert(exec_statement(sts[0], f1, sv) == exec_statement(sts[0], f2, sv));
        statements_ignore_metadata(sts.drop_first(), f1, f2, exec_statement(sts[0], f1, sv).0);
    }
}

proof fn routines_inner_ignore_metadata(
    rs: Seq<RoutineView>,
    f1: FileView,
    f2: FileView,
    sv: StateView,
)
    requires
        f1.path == f2.path,
        f1.name == f2.name,
        !routines_need_metadata(rs),
    ensures
        run_routines_inner_spec(rs, f1, sv) == run_routines_inner_spec(rs, f2, sv),
    decreases rs.len(),
{
    if rs.len() > 0 {
        let r = rs[0];
        match r.cond {
            Some(c) => {
                expression_ignores_metadata(c, Some(f1), Some(f2), sv.store);
            },
            None => {},
        }
        match r.action.statements {
            Some(sts) => {
                statements_ignore_metadata(sts, Some(f1), Some(f2), sv);
            },
            None => {},
        }
        assert(run_routine(r, f1, sv) == run_routine(r, f2, sv));
        routines_inner_ignore_metadata(rs.drop_first(), f1, f2, run_routine(r, f1, sv).0);
    }
}

/// Routines that mention no attribute that is read from the metadata do the
/// same on a file whatever its metadata: what they write, what they assign
/// and how they end is the same whether `stat` was made or not. So for such
/// routines no `stat` has to be made.
pub proof fn routines_ignore_metadata_unless_mentioned(
    rs: Seq<RoutineView>,
    f1: FileView,
    f2: FileView,
    sv: StateView,
)
    requires
        f1.path == f2.path,
        f1.name == f2.name,
        !routines_need_metadata(rs),
    ensures
        run_routines_spec(rs, f1, sv) == run_routines_spec(rs, f2, sv),
{
    routines_inner_ignore_metadata(rs, f1, f2, sv);
}

/// A key that was never assigned in an array reads as zero there.
pub proof fn unassigned_key_reads_zero(a: Seq<(ValueView, int)>, k: ValueView)
    requires
        !array_has(a, k),
    ensures
        array_get(a, k) == 0,
{
    lemma_array_missing(a, k, 0);
}

/// In a store that was just made, every entry of every array reads as zero.
pub proof fn new_array_reads_zero(
    num_arrays: nat,
    id: int,
    sub: ExprView,
    f: Option<FileView>,
    scalars: Seq<int>,
    k: ValueView,
)
    requires
        0 <= id < num_arrays,
        eval(sub, f, StoreView { scalars: scalars, arrays: empty_arrays(num_arrays) }) == Ok::<
            ValueView,
            ErrorView,
        >(k),
    ensures
        eval_var(
            VarView::ArrSub(id, Box::new(sub)),
            f,
            StoreView { scalars: scalars, arrays: empty_arrays(num_arrays) },
        ) == Ok::<ValueView, ErrorView>(ValueView::Int(0)),
{
}

/// After an assignment to a key, the key reads as what was assigned, and
/// every other key reads as before.
pub proof fn array_get_after_set(a: Seq<(ValueView, int)>, k: ValueView, v: int, other: ValueView)
    ensures
        array_get(array_set(a, k, v), k) == v,
        other != k ==> array_get(array_set(a, k, v), other) == array_get(a, other),
        array_has(array_set(a, k, v), k),
        other != k ==> (array_has(array_set(a, k, v), other) <==> array_has(a, other)),
    decreases a.len(),
{
    let b = array_set(a, k, v);
    if a.len() == 0 {
        assert(b[0] == (k, v));
        assert(b.drop_first() =~= a);
    } else if a[0].0 == k {
        assert(b[0] == (k, v));
        assert(b.drop_first() =~= a.drop_first());
        if other != k {
            if array_has(b, other) {
                let i = choose|i: int| 0 <= i < b.len() && (#[trigger] b[i]).0 == other;
                assert(a[i].0 == other);
            }
            if array_has(a, other) {
                let i = choose|i: int| 0 <= i < a.len() && (#[trigger] a[i]).0 == other;
                assert(b[i].0 == other);
            }
        }
    } else {
        let rest = a.drop_first();
        array_get_after_set(rest, k, v, other);
        let br = array_set(rest, k, v);
        assert(b[0] == a[0]);
        assert(b.drop_first() =~= br);
        let i = choose|i: int| 0 <= i < br.len() && (#[trigger] br[i]).0 == k;
        assert(b[i + 1] == br[i]);
        if other != k {
            if array_has(b, other) {
                let j = choose|j: int| 0 <= j < b.len() && (#[trigger] b[j]).0 == other;
                if j > 0 {
                    assert(br[j - 1] == b[j]);
                    assert(array_has(br, other));
                    let m = choose|m: int| 0 <= m < rest.len() && (#[trigger] rest[m]).0 == other;
                    assert(a[m + 1] == rest[m]);
                } else {
                    assert(a[0].0 == other);
                }
            }
            if array_has(a, other) {
                let j = choose|j: int| 0 <= j < a.len() && (#[trigger] a[j]).0 == other;
                if j > 0 {
                    assert(rest[j - 1] == a[j]);
                    assert(array_has(rest, other));
                    let m = choose|m: int| 0 <= m < br.len() && (#[trigger] br[m]).0 == other;
                    assert(b[m + 1] == br[m]);
                } else {
                    assert(b[0].0 == other);
                }
            }
        }
    }
}

/// Within one assignment, every read of a variable on the right-hand side
/// sees the value from before the assignment, the target included: the
/// value that is stored is that of the right-hand side in the store as it
/// was, and no other slot changes.
pub proof fn assignment_reads_the_store_before_it(
    id: int,
    rhs: ExprView,
    f: Option<FileView>,
    s: StoreView,
    v: ValueView,
    i: int,
)
    requires
        0 <= id < s.scalars.len(),
        eval(rhs, f, s) == Ok::<ValueView, ErrorView>(v),
        to_integer(v) == Ok::<int, Seq<char>>(i),
    ensures
        assign(VarView::Scalar(id), rhs, f, s).1 is Ok,
        assign(VarView::Scalar(id), rhs, f, s).0.scalars == s.scalars.update(id, i),
        assign(VarView::Scalar(id), rhs, f, s).0.arrays == s.arrays,
{
}

/// The routine that counts: no condition, and the one statement
/// `v = v + 1`, which is also what `v += 1` stands for.
pub open spec fn counting_routine(slot: int) -> RoutineView {
    RoutineView {
        cond: None,
        action: ActionView {
            statements: Some(
                seq![
                    StatementView::Assignment(
                        VarView::Scalar(slot),
                        ExprView::Bin(
                            OpKind::Plus,
                            Box::new(ExprView::Var(VarView::Scalar(slot))),
                            Box::new(ExprView::Atom(ValueView::Int(1))),
                        ),
                    ),
                ],
            ),
        },
    }
}

/// The state after the routines were run on each of the files, in order,
/// whatever errors they ended with.
pub open spec fn visit_all(rs: Seq<RoutineView>, files: Seq<FileView>, sv: StateView) -> StateView
    decreases files.len(),
{
    if files.len() == 0 {
        sv
    } else {
        visit_all(rs, files.drop_first(), run_routines_spec(rs, files[0], sv).0)
    }
}

/// The counting routine on one file adds one to its slot, and does nothing
/// else.
pub proof fn counting_routine_adds_one(slot: int, f: FileView, sv: StateView)
    requires
        0 <= slot < sv.store.scalars.len(),
        i64::MIN <= sv.store.scalars[slot] < i64::MAX,
    ensures
        run_routines_spec(seq![counting_routine(slot)], f, sv) == (
            StateView {
                store: StoreView {
                    scalars: sv.store.scalars.update(slot, sv.store.scalars[slot] + 1),
                    arrays: sv.store.arrays,
                },
                ..sv
            },
            Ok::<(), Seq<char>>(()),
        ),
{
    let rs = seq![counting_routine(slot)];
    let st = counting_routine(slot).action.statements->0[0];
    let sts = seq![st];
    let x = sv.store.scalars[slot];
    let target = ExprView::Var(VarView::Scalar(slot));
    let one = ExprView::Atom(ValueView::Int(1));
    let rhs = ExprView::Bin(OpKind::Plus, Box::new(target), Box::new(one));
    assert(eval_var(VarView::Scalar(slot), Some(f), sv.store) == Ok::<ValueView, ErrorView>(
        ValueView::Int(x),
    ));
    assert(eval(target, Some(f), sv.store) == Ok::<ValueView, ErrorView>(ValueView::Int(x)));
    assert(eval(one, Some(f), sv.store) == Ok::<ValueView, ErrorView>(ValueView::Int(1)));
    assert(wrap64(x + 1) == x + 1);
    assert(binary_op(ValueView::Int(x), ValueView::Int(1), OpKind::Plus) == Ok::<
        ValueView,
        Seq<char>,
    >(ValueView::Int(x + 1)));
    assert(eval(rhs, Some(f), sv.store) == Ok::<ValueView, ErrorView>(ValueView::Int(x + 1)));
    assert(st == StatementView::Assignment(VarView::Scalar(slot), rhs));
    let sv1 = exec_statement(st, Some(f), sv).0;
    assert(exec_statement(st, Some(f), sv).1 is Ok);
    assert(sts.drop_first().len() == 0);
    assert(exec_statements(sts.drop_first(), Some(f), sv1) == (sv1, Ok::<(), ErrorView>(())));
    assert(exec_statements(sts, Some(f), sv) == (sv1, Ok::<(), ErrorView>(())));
    assert(rs.drop_first().len() == 0);
    assert(run_routines_inner_spec(rs.drop_first(), f, sv1) == (sv1, Ok::<(), ErrorView>(())));
    assert(run_routine(rs[0], f, sv) == (sv1, Ok::<(), ErrorView>(())));
}

/// A counter counts the files: after the counting routine was run on a
/// number of files, its slot holds that number more than before, whatever the
/// files and whatever the order in which they were visited. Nothing else has
/// changed.
pub proof fn counter_counts_the_files_visited(slot: int, files: Seq<FileView>, sv: StateView)
    requires
        0 <= slot < sv.store.scalars.len(),
        i64::MIN <= sv.store.scalars[slot],
        sv.store.scalars[slot] + files.len() <= i64::MAX,
    ensures
        visit_all(seq![counting_routine(slot)], files, sv) == (StateView {
            store: StoreView {
                scalars: sv.store.scalars.update(slot, sv.store.scalars[slot] + files.len()),
                arrays: sv.store.arrays,
            },
            ..sv
        }),
    decreases files.len(),
{
    if files.len() == 0 {
        assert(sv.store.scalars.update(slot, sv.store.scalars[slot] + 0) =~= sv.store.scalars);
    } else {
        counting_routine_adds_one(slot, files[0], sv);
        let sv1 = run_routines_spec(seq![counting_routine(slot)], files[0], sv).0;
        counter_counts_the_files_visited(slot, files.drop_first(), sv1);
        assert(sv1.store.scalars.update(slot, sv1.store.scalars[slot] + files.len() - 1)
            =~= sv.store.scalars.update(slot, sv.store.scalars[slot] + files.len()));
    }
}


/// The files among the entries of a directory that a walker runs the
/// routines on: all but `.` and `..`, in order.
pub open spec fn visited(entries: Seq<EntryView>) -> Seq<FileView>
    decreases entries.len(),
{
    if entries.len() == 0 {
        Seq::empty()
    } else if is_dot(entries[0].name) {
        visited(entries.drop_first())
    } else {
        seq![entry_file(entries[0])] + visited(entries.drop_first())
    }
}

/// The directories among the entries of a directory that a walker is to
/// read next: those entries but `.` and `..` that are known to be
/// directories, in order.
pub open spec fn subdirectories(entries: Seq<EntryView>) -> Seq<Seq<char>>
    decreases entries.len(),
{
    if entries.len() == 0 {
        Seq::empty()
    } else if !is_dot(entries[0].name) && entries[0].is_dir == Some(true) {
        seq![entries[0].path] + subdirectories(entries.drop_first())
    } else {
        subdirectories(entries.drop_first())
    }
}

/// The walk with one worker runs the routines on every entry of a
/// directory but `.` and `..`, once and in order, and finds every
/// subdirectory.
pub proof fn single_walk_visits_every_entry(
    entries: Seq<EntryView>,
    rs: Seq<RoutineView>,
    sv: StateView,
    dirs: Seq<Seq<char>>,
)
    ensures
        walk_entries_single(entries, rs, sv, dirs).1 == visit_all(rs, visited(entries), sv),
        walk_entries_single(entries, rs, sv, dirs).0 == dirs + subdirectories(entries),
    decreases entries.len(),
{
    if entries.len() == 0 {
        assert(dirs + subdirectories(entries) =~= dirs);
    } else {
        let e = entries[0];
        let rest = entries.drop_first();
        if is_dot(e.name) {
            single_walk_visits_every_entry(rest, rs, sv, dirs);
        } else {
            let sv1 = run_routines_spec(rs, entry_file(e), sv).0;
            let dirs1 = if e.is_dir == Some(true) {
                dirs.push(e.path)
            } else {
                dirs
            };
            single_walk_visits_every_entry(rest, rs, sv1, dirs1);
            assert(visited(entries).drop_first() =~= visited(rest));
            assert(dirs1 + subdirectories(rest) =~= dirs + subdirectories(entries));
        }
    }
}

/// A worker of a walk with several workers, unless a runtime error stops
/// it, runs the routines on every entry of a directory but `.` and `..`,
/// once and in order, and finds every subdirectory.
pub proof fn parallel_walk_visits_every_entry(
    entries: Seq<EntryView>,
    rs: Seq<RoutineView>,
    sv: StateView,
    dirs: Seq<Seq<char>>,
)
    requires
        walk_entries(entries, rs, sv, dirs).2 is Ok,
    ensures
        walk_entries(entries, rs, sv, dirs).1 == visit_all(rs, visited(entries), sv),
        walk_entries(entries, rs, sv, dirs).0 == dirs + subdirectories(entries),
    decreases entries.len(),
{
    if entries.len() == 0 {
        assert(dirs + subdirectories(entries) =~= dirs);
    } else {
        let e = entries[0];
        let rest = entries.drop_first();
        if is_dot(e.name) {
            parallel_walk_visits_every_entry(rest, rs, sv, dirs);
        } else {
            let sv1 = run_routines_spec(rs, entry_file(e), sv).0;
            let dirs1 = if e.is_dir == Some(true) {
                dirs.push(e.path)
            } else {
                dirs
            };
            parallel_walk_visits_every_entry(rest, rs, sv1, dirs1);
            assert(visited(entries).drop_first() =~= visited(rest));
            assert(dirs1 + subdirectories(rest) =~= dirs + subdirectories(entries));
        }
    }
}


/// On a root that is no directory the launch is the whole run: BEGIN once,
/// the routines on the root, END once, and a runtime error ends it where it
/// occurs. Nothing is left to walk.
pub proof fn launch_on_a_file_is_the_whole_run(
    begin: Option<ActionView>,
    routines: Seq<RoutineView>,
    end: Option<ActionView>,
    n_threads: usize,
    f: FileView,
    sv: StateView,
)
    requires
        !is_directory(f),
    ensures
        launch_spec(begin, routines, end, n_threads, f, sv).0 == run_spec(
            begin,
            routines,
            end,
            f,
            sv,
        ).0,
        launch_spec(begin, routines, end, n_threads, f, sv).1 == (match run_spec(
            begin,
            routines,
            end,
            f,
            sv,
        ).1 {
            Ok(_) => Ok::<Option<WalkMode>, Seq<char>>(None),
            Err(m) => Err(m),
        }),
{
}

/// On a root that is a directory the launch runs BEGIN once and the
/// routines on the root, and does not run END: the result says that a walk
/// is owed, or is the runtime error that ended the run. After the walk,
/// `finish_spec` runs END once, and only if the walk ended well.
pub proof fn launch_on_a_directory_leaves_end_to_the_finish(
    begin: Option<ActionView>,
    routines: Seq<RoutineView>,
    end: Option<ActionView>,
    n_threads: usize,
    f: FileView,
    sv: StateView,
    after_walk: StateView,
    m: Seq<char>,
)
    requires
        is_directory(f),
    ensures
        launch_spec(begin, routines, end, n_threads, f, sv) == crate::treewalk::start_spec(
            begin,
            routines,
            n_threads,
            f,
            sv,
        ),
        !(launch_spec(begin, routines, end, n_threads, f, sv).1 matches Ok(None)),
        finish_spec(end, Ok(()), after_walk) == crate::ast::begin_or_end_spec(end, after_walk),
        finish_spec(end, Err(m), after_walk) == (after_walk, Err::<(), Seq<char>>(m)),
{
}


/// To run the routines on the files of one list and then on those of
/// another is to run them on the files of the two lists joined.
pub proof fn visits_compose(
    rs: Seq<RoutineView>,
    a: Seq<FileView>,
    b: Seq<FileView>,
    sv: StateView,
)
    ensures
        visit_all(rs, a + b, sv) == visit_all(rs, b, visit_all(rs, a, sv)),
    decreases a.len(),
{
    if a.len() == 0 {
        assert(a + b =~= b);
    } else {
        assert((a + b)[0] == a[0]);
        assert((a + b).drop_first() =~= a.drop_first() + b);
        visits_compose(rs, a.drop_first(), b, run_routines_spec(rs, a[0], sv).0);
    }
}

/// The walk with one worker, as its caller drives it: as long as
/// directories are left and for at most `steps` of them, the directory found
/// last is read and its entries are taken. `listing` says what reading a
/// directory gives. The result is what is left to read and the state.
pub open spec fn single_walk(
    listing: spec_fn(Seq<char>) -> Seq<EntryView>,
    stack: Seq<Seq<char>>,
    rs: Seq<RoutineView>,
    sv: StateView,
    steps: nat,
) -> (Seq<Seq<char>>, StateView)
    decreases steps,
{
    if steps == 0 || stack.len() == 0 {
        (stack, sv)
    } else {
        let (stack1, sv1) = walk_entries_single(
            listing(stack.last()),
            rs,
            sv,
            stack.drop_last(),
        );
        single_walk(listing, stack1, rs, sv1, (steps - 1) as nat)
    }
}

/// The files that the walk with one worker comes past in `steps` steps, in
/// the order in which it comes past them: depth first, the directory found
/// last first.
pub open spec fn walked_files(
    listing: spec_fn(Seq<char>) -> Seq<EntryView>,
    stack: Seq<Seq<char>>,
    steps: nat,
) -> Seq<FileView>
    decreases steps,
{
    if steps == 0 || stack.len() == 0 {
        Seq::empty()
    } else {
        visited(listing(stack.last())) + walked_files(
            listing,
            stack.drop_last() + subdirectories(listing(stack.last())),
            (steps - 1) as nat,
        )
    }
}

/// The walk with one worker runs the routines once on every entry, but `.`
/// and `..`, of every directory that it reads, and on nothing else: no entry
/// is passed over and none is visited twice.
pub proof fn single_walk_visits_every_file_walked(
    listing: spec_fn(Seq<char>) -> Seq<EntryView>,
    stack: Seq<Seq<char>>,
    rs: Seq<RoutineView>,
    sv: StateView,
    steps: nat,
)
    ensures
        single_walk(listing, stack, rs, sv, steps).1 == visit_all(
            rs,
            walked_files(listing, stack, steps),
            sv,
        ),
    decreases steps,
{
    if steps > 0 && stack.len() > 0 {
        let es = listing(stack.last());
        single_walk_visits_every_entry(es, rs, sv, stack.drop_last());
        let (stack1, sv1) = walk_entries_single(es, rs, sv, stack.drop_last());
        single_walk_visits_every_file_walked(listing, stack1, rs, sv1, (steps - 1) as nat);
        visits_compose(
            rs,
            visited(es),
            walked_files(listing, stack1, (steps - 1) as nat),
            sv,
        );
    }
}

/// The whole run on a root with one worker, as its caller drives it: the
/// launch, then, where a walk is owed, the walk from the root, and after it
/// the finish.
pub open spec fn run_with_one_worker(
    begin: Option<ActionView>,
    rs: Seq<RoutineView>,
    end: Option<ActionView>,
    root: FileView,
    listing: spec_fn(Seq<char>) -> Seq<EntryView>,
    steps: nat,
    sv: StateView,
) -> (StateView, Result<(), Seq<char>>) {
    let (s1, r1) = launch_spec(begin, rs, end, 1, root, sv);
    match r1 {
        Err(m) => (s1, Err(m)),
        Ok(None) => (s1, Ok(())),
        Ok(Some(_)) => finish_spec(
            end,
            Ok(()),
            single_walk(listing, seq![root.path], rs, s1, steps).1,
        ),
    }
}

/// In a run on a directory with one worker that no runtime error ends at
/// its start, BEGIN is run once, before the routines are run on any file;
/// the routines are run once on the root and once on every file that the
/// walk comes past; and END is run once, after all of them.
pub proof fn one_worker_runs_begin_and_end_once(
    begin: Option<ActionView>,
    rs: Seq<RoutineView>,
    end: Option<ActionView>,
    root: FileView,
    listing: spec_fn(Seq<char>) -> Seq<EntryView>,
    steps: nat,
    sv: StateView,
)
    requires
        is_directory(root),
        crate::ast::begin_or_end_spec(begin, sv).1 is Ok,
        run_routines_spec(rs, root, crate::ast::begin_or_end_spec(begin, sv).0).1 is Ok,
    ensures
        run_with_one_worker(begin, rs, end, root, listing, steps, sv)
            == crate::ast::begin_or_end_spec(
            end,
            visit_all(
                rs,
                seq![root] + walked_files(listing, seq![root.path], steps),
                crate::ast::begin_or_end_spec(begin, sv).0,
            ),
        ),
{
    let s0 = crate::ast::begin_or_end_spec(begin, sv).0;
    let s1 = run_routines_spec(rs, root, s0).0;
    let one = seq![root];
    assert(one.drop_first().len() == 0);
    assert(visit_all(rs, one.drop_first(), s1) == s1);
    assert(visit_all(rs, one, s0) == s1);
    single_walk_visits_every_file_walked(listing, seq![root.path], rs, s1, steps);
    visits_compose(rs, one, walked_files(listing, seq![root.path], steps), s0);
}


/// The walk with several workers, seen from the state that they share: the
/// directories are taken one after the other, in whatever order the workers
/// come to them, and the first runtime error ends the walk.
pub open spec fn scheduled_walk(
    listing: spec_fn(Seq<char>) -> Seq<EntryView>,
    schedule: Seq<Seq<char>>,
    rs: Seq<RoutineView>,
    sv: StateView,
) -> (StateView, Result<(), Seq<char>>)
    decreases schedule.len(),
{
    if schedule.len() == 0 {
        (sv, Ok(()))
    } else {
        let (dirs, sv1, r) = walk_entries(listing(schedule[0]), rs, sv, Seq::empty());
        if r is Err {
            (sv1, r)
        } else {
            scheduled_walk(listing, schedule.drop_first(), rs, sv1)
        }
    }
}

/// The files in the directories of a schedule, in its order.
pub open spec fn scheduled_files(
    listing: spec_fn(Seq<char>) -> Seq<EntryView>,
    schedule: Seq<Seq<char>>,
) -> Seq<FileView>
    decreases schedule.len(),
{
    if schedule.len() == 0 {
        Seq::empty()
    } else {
        visited(listing(schedule[0])) + scheduled_files(listing, schedule.drop_first())
    }
}

/// Whatever the order in which several workers come to the directories, a
/// walk that no runtime error ends runs the routines once on every entry,
/// but `.` and `..`, of every directory that a worker takes, and on nothing
/// else.
pub proof fn scheduled_walk_visits_every_file(
    listing: spec_fn(Seq<char>) -> Seq<EntryView>,
    schedule: Seq<Seq<char>>,
    rs: Seq<RoutineView>,
    sv: StateView,
)
    requires
        scheduled_walk(listing, schedule, rs, sv).1 is Ok,
    ensures
        scheduled_walk(listing, schedule, rs, sv).0 == visit_all(
            rs,
            scheduled_files(listing, schedule),
            sv,
        ),
    decreases schedule.len(),
{
    if schedule.len() > 0 {
        let es = listing(schedule[0]);
        let (dirs, sv1, r) = walk_entries(es, rs, sv, Seq::empty());
        parallel_walk_visits_every_entry(es, rs, sv, Seq::empty());
        scheduled_walk_visits_every_file(listing, schedule.drop_first(), rs, sv1);
        visits_compose(rs, visited(es), scheduled_files(listing, schedule.drop_first()), sv);
    }
}

/// A counter counts the same whatever the order of the visits: after the
/// counting routine was run on the files of two lists of one length, its
/// slot holds the same number. So it holds the same number for any number of
/// workers that come to the same directories.
pub proof fn counter_does_not_depend_on_the_order(
    slot: int,
    files1: Seq<FileView>,
    files2: Seq<FileView>,
    sv: StateView,
)
    requires
        0 <= slot < sv.store.scalars.len(),
        i64::MIN <= sv.store.scalars[slot],
        sv.store.scalars[slot] + files1.len() <= i64::MAX,
        files1.len() == files2.len(),
    ensures
        visit_all(seq![counting_routine(slot)], files1, sv) == visit_all(
            seq![counting_routine(slot)],
            files2,
            sv,
        ),
{
    counter_counts_the_files_visited(slot, files1, sv);
    counter_counts_the_files_visited(slot, files2, sv);
}

} // verus!
