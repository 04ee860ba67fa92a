//! An engine that applies a small pattern-action language to the files of a
//! directory tree. A program is a list of routines, each a condition over
//! file attributes and variables with an action to take on the files that
//! meet it, and may have a BEGIN and an END block that run before and after
//! the files.
//!
//! The library compiles a program text, runs the routines on the files that
//! it is handed, and makes the decisions of the walk over the tree. It does
//! no I/O of its own: the caller reads the directories, hands the engine the
//! means to ask for the metadata of a file, which the engine uses when a
//! routine first reads the metadata, and writes the output that the engine
//! has produced.

use vstd::prelude::*;

pub mod analysis;
pub mod ast;
pub mod compiler;
pub mod errors;
pub mod file;
pub mod laws;
pub mod lazy;
pub mod program_state;
pub mod resolution;
pub mod scanner;
pub mod text;
pub mod treewalk;
pub mod types;
pub mod variables;

pub use errors::{filter_non_fatal_errors, Error, RuntimeError};

verus! {

/// What a run is asked to do: the root to start from, the program text, and
/// the number of workers that walk the tree.
pub struct Args {
    pub path: String,
    pub prog: String,
    pub n_threads: usize,
}

/// The state of a program before it runs.
pub open spec fn initial_view(num_scalars: nat, num_arrays: nat) -> program_state::StateView {
    program_state::StateView {
        store: ast::StoreView {
            scalars: variables::zeros(num_scalars),
            arrays: variables::empty_arrays(num_arrays),
        },
        out: Seq::empty(),
        diagnostics: Seq::empty(),
        runtime_error: None,
    }
}

/// Compiles the program of `args` and runs it on the root as far as it
/// goes without a walk: the BEGIN block, the routines on the root, and, on a
/// root that is no directory, the END block, with which the run is over. A
/// program that does not compile is an error. A program that compiles is
/// returned, as far as it has run, with the outcome: `None` where the run is
/// over, the way in which the tree below the root is to be walked where the
/// root is a directory, or the runtime error that ended the run.
pub fn driver(args: &Args, root: &file::FileState) -> (r: Result<
    (ast::Program, Result<Option<treewalk::WalkMode>, RuntimeError>),
    Error,
>)
    ensures
        match compiler::compile_spec(
            scanner::tokens_from(args.prog@, 0),
            compiler::initial_state(),
        ) {
            Err(e) => r matches Err(x) && x@ == compiler::error_of(e),
            Ok(a) => r matches Ok(started) && ast::action_option_view(started.0.begin) == a.begin
                && ast::action_option_view(started.0.end) == a.end && ast::routines_view(
                started.0.routines@,
            ) == a.routines && started.0.well_formed() && (
                started.0.prog_state@,
                treewalk::start_result_view(started.1),
            ) == treewalk::launch_spec(
                a.begin,
                a.routines,
                a.end,
                args.n_threads,
                root@,
                initial_view(a.num_scalars, a.num_arrays),
            ),
        },
{
    let mut program = compiler::compile(args.prog.as_str())?;
    let started = program.launch(args, root);
    Ok((program, started))
}

/// The kind of error that a sink may answer a write with is that of the
/// standard library; the engine never looks into it.
#[verifier::external_type_specification]
#[verifier::external_body]
pub struct ExIoError(std::io::Error);

/// Like `std::io::Write`, but the writer has to be `Sync`, and `write` takes
/// a shared reference: the type that implements `SyncWrite` serializes
/// concurrent writers itself, so that what one `write` is given comes out in
/// one piece.
pub trait SyncWrite: Sync {
    fn write(&self, buf: &[u8]) -> std::io::Result<usize>;
}

/// Hands the output that a program has produced to the sink, in one write,
/// and the state forgets it. What the sink answers is not looked at.
pub fn flush<T: SyncWrite>(p: &mut program_state::ProgramState, out: &T)
    ensures
        final(p)@ == (program_state::StateView { out: Seq::<u8>::empty(), ..old(p)@ }),
        final(p).well_formed() == old(p).well_formed(),
{
    let bytes = p.take_output();
    if bytes.len() > 0 {
        let _ = out.write(bytes.as_slice());
    }
}

} // verus!
