//! Running the routines on a file whose metadata is asked for only when it
//! is first read.

use vstd::prelude::*;

use crate::ast::{
    action_needs_metadata, eval, expr_needs_metadata, report_and_filter, routine_needs_metadata,
    routines_need_metadata, routines_view, run_routine, run_routines_inner_spec,
    run_routines_spec, Routine, RoutineView,
};
use crate::errors::{runtime_result_view, unit_result_view, Error, ErrorView, RuntimeError};
use crate::file::{answered, FileState, FileView, Metadata};
use crate::laws::{expression_ignores_metadata, statements_ignore_metadata};
use crate::program_state::{ProgramState, StateView};
use crate::types::{truthy, ValueView};

verus! {

/// Whether `g` is the file `f` with nothing changed but, at most, the
/// outcome of `stat` recorded where none was.
pub open spec fn extends(f: FileView, g: FileView) -> bool {
    g.path == f.path && g.name == f.name && (f.md is Some ==> g.md == f.md)
}

/// Whether a condition evaluated to a value that counts as true.
pub open spec fn holds(r: Result<ValueView, ErrorView>) -> bool {
    r matches Ok(v) && truthy(v) == Ok::<bool, Seq<char>>(true)
}

/// Whether a routine, run on a file, reads the metadata of the file: its
/// condition mentions an attribute that is read from the metadata, or its
/// condition is met, or there is none, and its action mentions one.
pub open spec fn routine_reads_metadata(r: RoutineView, f: FileView, sv: StateView) -> bool {
    match r.cond {
        None => action_needs_metadata(r.action),
        Some(c) => expr_needs_metadata(c) || (holds(eval(c, Some(f), sv.store))
            && action_needs_metadata(r.action)),
    }
}

/// Whether the routines, run on a file in order, read the metadata of the
/// file before they are through or one of them fails.
pub open spec fn routines_read_metadata(rs: Seq<RoutineView>, f: FileView, sv: StateView) -> bool
    decreases rs.len(),
{
    rs.len() > 0 && (routine_reads_metadata(rs[0], f, sv) || (run_routine(rs[0], f, sv).1 is Ok
        && routines_read_metadata(rs.drop_first(), f, run_routine(rs[0], f, sv).0)))
}

/// A routine that does not read the metadata of a file does the same on
/// the file whatever its metadata.
pub proof fn routine_same_unless_read(r: RoutineView, f: FileView, g: FileView, sv: StateView)
    requires
        g.path == f.path,
        g.name == f.name,
        !routine_reads_metadata(r, f, sv),
    ensures
        run_routine(r, g, sv) == run_routine(r, f, sv),
        !routine_reads_metadata(r, g, sv),
{
    match r.cond {
        Some(c) => {
            expression_ignores_metadata(c, Some(f), Some(g), sv.store);
        },
        None => {},
    }
    if !action_needs_metadata(r.action) {
        match r.action.statements {
            Some(sts) => {
                statements_ignore_metadata(sts, Some(f), Some(g), sv);
            },
            None => {},
        }
    }
}

/// Routines that mention no attribute that is read from the metadata never
/// read the metadata of a file.
pub proof fn routines_read_only_what_they_mention(
    rs: Seq<RoutineView>,
    f: FileView,
    sv: StateView,
)
    requires
        !routines_need_metadata(rs),
    ensures
        !routines_read_metadata(rs, f, sv),
    decreases rs.len(),
{
    if rs.len() > 0 {
        assert(!routine_needs_metadata(rs[0]));
        routines_read_only_what_they_mention(rs.drop_first(), f, run_routine(rs[0], f, sv).0);
    }
}

/// Runs a routine on a file. The metadata of the file is asked for from
/// `stat` when the routine first reads it, unless it is known already; a
/// routine that does not read it leaves the file as it is.
pub fn run_routine_lazy<F: Fn(&String) -> Result<Metadata, std::io::ErrorKind>>(
    routine: &Routine,
    f: &mut FileState,
    stat: &F,
    p: &mut ProgramState,
) -> (r: Result<(), Error>)
    requires
        old(p).well_formed(),
        forall|path: &String| stat.requires((path,)),
    ensures
        final(p).well_formed(),
        extends(old(f)@, final(f)@),
        (final(p)@, unit_result_view(r)) == run_routine(routine@, final(f)@, old(p)@),
        final(f)@.md is Some <==> (old(f)@.md is Some || routine_reads_metadata(
            routine@,
            old(f)@,
            old(p)@,
        )),
        final(f)@.md is None ==> final(f)@ == old(f)@,
        answered(stat, old(f)@, final(f)@),
{
    let ghost f0 = f@;
    let ghost sv = p@;
    let reads_in_condition = match routine.cond() {
        Some(c) => c.expr.needs_metadata(),
        None => false,
    };
    if reads_in_condition {
        f.stat_once(stat);
    }
    let ghost f1 = f@;
    proof {
        match routine@.cond {
            Some(c) => {
                if !expr_needs_metadata(c) {
                    expression_ignores_metadata(c, Some(f0), Some(f1), sv.store);
                }
            },
            None => {},
        }
    }
    let met = match routine.cond() {
        Some(cond) => {
            let v = cond.expr.evaluate(Some(&*f), &p.vars())?;
            match v.is_truthy() {
                Ok(b) => b,
                Err(e) => {
                    return Err(Error::Runtime(e));
                },
            }
        },
        None => true,
    };
    if met {
        if routine.action().needs_metadata() {
            f.stat_once(stat);
        }
        proof {
            match routine@.cond {
                Some(c) => {
                    if !expr_needs_metadata(c) {
                        expression_ignores_metadata(c, Some(f1), Some(f@), sv.store);
                    }
                },
                None => {},
            }
        }
        routine.action().interpret(Some(&*f), p)
    } else {
        Ok(())
    }
}

/// Runs the routines on one file, as `run_routines` does. The metadata of
/// the file is asked for from `stat` when a routine first reads it, unless
/// it is known already: `stat` is asked at most once, and not at all where no
/// routine reads the metadata before the routines are through or one of them
/// fails.
pub fn run_routines_lazy<F: Fn(&String) -> Result<Metadata, std::io::ErrorKind>>(
    routines: &Vec<Routine>,
    f: &mut FileState,
    stat: &F,
    p: &mut ProgramState,
) -> (r: Result<(), RuntimeError>)
    requires
        old(p).well_formed(),
        forall|path: &String| stat.requires((path,)),
    ensures
        final(p).well_formed(),
        extends(old(f)@, final(f)@),
        (final(p)@, runtime_result_view(r)) == run_routines_spec(
            routines_view(routines@),
            final(f)@,
            old(p)@,
        ),
        final(f)@.md is Some <==> (old(f)@.md is Some || routines_read_metadata(
            routines_view(routines@),
            old(f)@,
            old(p)@,
        )),
        final(f)@.md is None ==> final(f)@ == old(f)@,
        answered(stat, old(f)@, final(f)@),
{
    let res = run_routines_inner_lazy(routines, f, stat, p);
    report_and_filter(res, Some(f.path().clone()), p)
}

fn run_routines_inner_lazy<F: Fn(&String) -> Result<Metadata, std::io::ErrorKind>>(
    routines: &Vec<Routine>,
    f: &mut FileState,
    stat: &F,
    p: &mut ProgramState,
) -> (r: Result<(), Error>)
    requires
        old(p).well_formed(),
        forall|path: &String| stat.requires((path,)),
    ensures
        final(p).well_formed(),
        extends(old(f)@, final(f)@),
        (final(p)@, unit_result_view(r)) == run_routines_inner_spec(
            routines_view(routines@),
            final(f)@,
            old(p)@,
        ),
        final(f)@.md is Some <==> (old(f)@.md is Some || routines_read_metadata(
            routines_view(routines@),
            old(f)@,
            old(p)@,
        )),
        final(f)@.md is None ==> final(f)@ == old(f)@,
        answered(stat, old(f)@, final(f)@),
{
    let ghost all = routines_view(routines@);
    let ghost f0 = f@;
    let ghost p0 = p@;
    let mut i: usize = 0;
    assert(all.subrange(0, all.len() as int) == all);
    while i < routines.len()
        invariant
            i <= routines.len(),
            p.well_formed(),
            all == routines_view(routines@),
            f0 == old(f)@,
            p0 == old(p)@,
            forall|path: &String| stat.requires((path,)),
            extends(f0, f@),
            answered(stat, f0, f@),
            f@.md is None ==> f@ == f0,
            f@.md is None ==> routines_read_metadata(all, f0, p0) == routines_read_metadata(
                all.subrange(i as int, all.len() as int),
                f0,
                p@,
            ),
            f@.md is None ==> forall|g: FileView| #[trigger]
                extends(f0, g) ==> run_routines_inner_spec(all, g, p0) == run_routines_inner_spec(
                    all.subrange(i as int, all.len() as int),
                    g,
                    p@,
                ),
            f@.md is Some ==> f0.md is Some || routines_read_metadata(all, f0, p0),
            f@.md is Some ==> run_routines_inner_spec(all, f@, p0) == run_routines_inner_spec(
                all.subrange(i as int, all.len() as int),
                f@,
                p@,
            ),
        decreases routines.len() - i,
    {
        let ghost rest = all.subrange(i as int, all.len() as int);
        let ghost before = f@;
        let ghost sv = p@;
        proof {
            assert(rest[0] == routines@[i as int]@);
            assert(rest.drop_first() == all.subrange(i + 1, all.len() as int));
        }
        let r = run_routine_lazy(&routines[i], f, stat, p);
        proof {
            if before.md is None {
                assert(extends(f0, f@));
                if f@.md is None {
                    assert forall|g: FileView| #[trigger] extends(f0, g) implies run_routine(
                        rest[0],
                        g,
                        sv,
                    ) == run_routine(rest[0], f0, sv) by {
                        routine_same_unless_read(rest[0], f0, g, sv);
                    }
                }
            } else {
                assert(f@ == before);
            }
        }
        if r.is_err() {
            proof {
                if f@.md is None {
                    assert(extends(f0, f0));
                }
            }
            return r;
        }
        i = i + 1;
    }
    proof {
        if f@.md is None {
            assert(extends(f0, f0));
        }
    }
    Ok(())
}

} // verus!
