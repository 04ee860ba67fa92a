//! The decisions of the two walkers. Reading directories and running
//! threads is left to the caller: it hands the walker the entries of a
//! directory and the means to ask for the metadata of a file, and the walker
//! runs the routines on the entries and says which directories are to be
//! read next.

use vstd::prelude::*;
use vstd::string::*;

use crate::ast::{
    action_option_view, begin_or_end_spec, routines_view, run_routines, run_routines_spec,
    ActionView, Program, Routine, RoutineView,
};
use crate::errors::{runtime_result_view, RuntimeError};
use crate::file::{answered, FileState, FileType, FileView, Metadata};
use crate::lazy::{extends, routines_read_only_what_they_mention, run_routines_lazy};
use crate::ast::routines_need_metadata;
use crate::program_state::{ProgramState, StateView};
use crate::text::same_text;
use crate::Args;

verus! {

/// The queue of directories that a worker owns.
#[verifier::external_type_specification]
#[verifier::external_body]
#[verifier::reject_recursive_types(T)]
pub struct ExWorker<T>(crossbeam::deque::Worker<T>);

/// The handle by which other workers take directories from a worker's queue.
#[verifier::external_type_specification]
#[verifier::external_body]
#[verifier::reject_recursive_types(T)]
pub struct ExStealer<T>(crossbeam::deque::Stealer<T>);

/// `Worker::new_fifo` of crossbeam: a new queue, of which nothing is claimed
/// here.
pub assume_specification<T>[ crossbeam::deque::Worker::<T>::new_fifo ]() -> (r:
    crossbeam::deque::Worker<T>)
;

/// `Worker::stealer` of crossbeam: a handle to the queue of the worker, of
/// which nothing is claimed here.
pub assume_specification<T>[ crossbeam::deque::Worker::<T>::stealer ](
    w: &crossbeam::deque::Worker<T>,
) -> (r: crossbeam::deque::Stealer<T>)
;

/// `Worker::push` of crossbeam: puts a task into the queue. The queue is
/// shared with the stealers, so nothing is claimed of what it holds after.
pub assume_specification<T>[ crossbeam::deque::Worker::<T>::push ](
    w: &crossbeam::deque::Worker<T>,
    task: T,
)
;

/// `Worker::pop` of crossbeam: takes a task from the queue, if one is there.
/// The queue is shared with the stealers, so nothing is claimed of which.
pub assume_specification<T>[ crossbeam::deque::Worker::<T>::pop ](
    w: &crossbeam::deque::Worker<T>,
) -> (r: Option<T>)
;

/// What an attempt to take a task from another worker's queue came to.
pub enum StealOutcome {
    /// The queue was empty at the time.
    Empty,
    /// A task was taken.
    Success(String),
    /// The attempt has to be made again.
    Retry,
}

/// `Stealer::steal` of crossbeam: an attempt to take a task from the queue
/// behind the handle. The outcome depends on what the other threads do, so
/// nothing is claimed of it.
#[verifier::external_body]
fn steal_from(s: &crossbeam::deque::Stealer<String>) -> (r: StealOutcome) {
    match s.steal() {
        crossbeam::deque::Steal::Empty => StealOutcome::Empty,
        crossbeam::deque::Steal::Success(task) => StealOutcome::Success(task),
        crossbeam::deque::Steal::Retry => StealOutcome::Retry,
    }
}

/// One entry of a directory: its path, its name, whether it is a directory
/// (`None` where that could not be found out), and the outcome of `stat` if
/// it was already made.
pub struct DirEntry {
    pub path: String,
    pub name: String,
    pub is_dir: Option<bool>,
    pub md: Option<Result<Metadata, std::io::ErrorKind>>,
}

pub struct EntryView {
    pub path: Seq<char>,
    pub name: Seq<char>,
    pub is_dir: Option<bool>,
    pub md: Option<Result<Metadata, std::io::ErrorKind>>,
}

impl View for DirEntry {
    type V = EntryView;

    open spec fn view(&self) -> EntryView {
        EntryView { path: self.path@, name: self.name@, is_dir: self.is_dir, md: self.md }
    }
}

pub open spec fn entries_view(s: Seq<DirEntry>) -> Seq<EntryView> {
    s.map_values(|e: DirEntry| e@)
}

pub open spec fn paths_view(s: Seq<String>) -> Seq<Seq<char>> {
    s.map_values(|p: String| p@)
}

/// The file that an entry is.
pub open spec fn entry_file(e: EntryView) -> FileView {
    FileView { path: e.path, name: e.name, md: e.md }
}

/// Whether a name is that of the directory itself or of its parent.
pub open spec fn is_dot(name: Seq<char>) -> bool {
    name == "."@ || name == ".."@
}

/// The walk of one worker over the entries of one directory, in a run with
/// several workers: the routines are run on every entry but `.` and `..`,
/// and an entry that is a directory is one to read next. The first runtime
/// error ends the walk over the entries.
pub open spec fn walk_entries(
    entries: Seq<EntryView>,
    rs: Seq<RoutineView>,
    sv: StateView,
    dirs: Seq<Seq<char>>,
) -> (Seq<Seq<char>>, StateView, Result<(), Seq<char>>)
    decreases entries.len(),
{
    if entries.len() == 0 {
        (dirs, sv, Ok(()))
    } else {
        let e = entries[0];
        if is_dot(e.name) {
            walk_entries(entries.drop_first(), rs, sv, dirs)
        } else {
            let (sv1, r) = run_routines_spec(rs, entry_file(e), sv);
            if r is Err {
                (dirs, sv1, r)
            } else {
                walk_entries(
                    entries.drop_first(),
                    rs,
                    sv1,
                    if e.is_dir == Some(true) {
                        dirs.push(e.path)
                    } else {
                        dirs
                    },
                )
            }
        }
    }
}

/// The walk over the entries of one directory in a run with one worker: as
/// with several, but a runtime error on one entry does not keep the walk
/// from the next.
pub open spec fn walk_entries_single(
    entries: Seq<EntryView>,
    rs: Seq<RoutineView>,
    sv: StateView,
    dirs: Seq<Seq<char>>,
) -> (Seq<Seq<char>>, StateView)
    decreases entries.len(),
{
    if entries.len() == 0 {
        (dirs, sv)
    } else {
        let e = entries[0];
        if is_dot(e.name) {
            walk_entries_single(entries.drop_first(), rs, sv, dirs)
        } else {
            walk_entries_single(
                entries.drop_first(),
                rs,
                run_routines_spec(rs, entry_file(e), sv).0,
                if e.is_dir == Some(true) {
                    dirs.push(e.path)
                } else {
                    dirs
                },
            )
        }
    }
}

/// The state with a runtime error recorded, unless one was recorded before.
pub open spec fn with_runtime_error(sv: StateView, r: Result<(), Seq<char>>) -> StateView {
    match r {
        Ok(_) => sv,
        Err(msg) => StateView {
            runtime_error: if sv.runtime_error is Some {
                sv.runtime_error
            } else {
                Some(msg)
            },
            ..sv
        },
    }
}

fn entry_is_dot(e: &DirEntry) -> (r: bool)
    ensures
        r == is_dot(e@.name),
{
    same_text(e.name.as_str(), ".") || same_text(e.name.as_str(), "..")
}

/// Whether the entries `b` are the entries `a` with nothing changed but, at
/// most, the outcome of `stat` recorded for entries that had none.
pub open spec fn entries_extend(a: Seq<EntryView>, b: Seq<EntryView>) -> bool {
    &&& a.len() == b.len()
    &&& forall|i: int|
        0 <= i < a.len() ==> (#[trigger] b[i]).is_dir == a[i].is_dir && extends(
            entry_file(a[i]),
            entry_file(b[i]),
        )
}

/// Whether every outcome of `stat` that the entries `b` hold and the entries
/// `a` did not hold is what `stat` answered for the path of the entry.
pub open spec fn entries_answered<F: Fn(&String) -> Result<Metadata, std::io::ErrorKind>>(
    stat: &F,
    a: Seq<EntryView>,
    b: Seq<EntryView>,
) -> bool {
    forall|i: int|
        0 <= i < a.len() && i < b.len() ==> answered(
            stat,
            entry_file(a[i]),
            entry_file(#[trigger] b[i]),
        )
}

/// The walk over the entries `a` and then over the entry `e` is the walk
/// over `a` with `e` added, unless a runtime error ended it before.
pub proof fn lemma_walk_entries_push(
    a: Seq<EntryView>,
    e: EntryView,
    rs: Seq<RoutineView>,
    sv: StateView,
    dirs: Seq<Seq<char>>,
)
    ensures
        walk_entries(a.push(e), rs, sv, dirs) == (if walk_entries(a, rs, sv, dirs).2 is Err {
            walk_entries(a, rs, sv, dirs)
        } else {
            walk_entries(
                seq![e],
                rs,
                walk_entries(a, rs, sv, dirs).1,
                walk_entries(a, rs, sv, dirs).0,
            )
        }),
    decreases a.len(),
{
    if a.len() == 0 {
        assert(a.push(e) =~= seq![e]);
    } else {
        let b = a.push(e);
        assert(b[0] == a[0]);
        assert(b.drop_first() =~= a.drop_first().push(e));
        if is_dot(a[0].name) {
            lemma_walk_entries_push(a.drop_first(), e, rs, sv, dirs);
        } else {
            let (sv1, r) = run_routines_spec(rs, entry_file(a[0]), sv);
            if r is Ok {
                lemma_walk_entries_push(
                    a.drop_first(),
                    e,
                    rs,
                    sv1,
                    if a[0].is_dir == Some(true) {
                        dirs.push(a[0].path)
                    } else {
                        dirs
                    },
                );
            }
        }
    }
}

/// A walk that a runtime error has ended is not changed by the entries that
/// follow.
pub proof fn lemma_walk_entries_stops(
    a: Seq<EntryView>,
    b: Seq<EntryView>,
    rs: Seq<RoutineView>,
    sv: StateView,
    dirs: Seq<Seq<char>>,
)
    requires
        walk_entries(a, rs, sv, dirs).2 is Err,
    ensures
        walk_entries(a + b, rs, sv, dirs) == walk_entries(a, rs, sv, dirs),
    decreases a.len(),
{
    if a.len() > 0 {
        let c = a + b;
        assert(c[0] == a[0]);
        assert(c.drop_first() =~= a.drop_first() + b);
        if is_dot(a[0].name) {
            lemma_walk_entries_stops(a.drop_first(), b, rs, sv, dirs);
        } else {
            let (sv1, r) = run_routines_spec(rs, entry_file(a[0]), sv);
            if r is Ok {
                lemma_walk_entries_stops(
                    a.drop_first(),
                    b,
                    rs,
                    sv1,
                    if a[0].is_dir == Some(true) {
                        dirs.push(a[0].path)
                    } else {
                        dirs
                    },
                );
            }
        }
    }
}

/// The walk with one worker over the entries `a` and then over the entry
/// `e` is the walk over `a` with `e` added.
pub proof fn lemma_walk_entries_single_push(
    a: Seq<EntryView>,
    e: EntryView,
    rs: Seq<RoutineView>,
    sv: StateView,
    dirs: Seq<Seq<char>>,
)
    ensures
        walk_entries_single(a.push(e), rs, sv, dirs) == walk_entries_single(
            seq![e],
            rs,
            walk_entries_single(a, rs, sv, dirs).1,
            walk_entries_single(a, rs, sv, dirs).0,
        ),
    decreases a.len(),
{
    if a.len() == 0 {
        assert(a.push(e) =~= seq![e]);
    } else {
        let b = a.push(e);
        assert(b[0] == a[0]);
        assert(b.drop_first() =~= a.drop_first().push(e));
        if is_dot(a[0].name) {
            lemma_walk_entries_single_push(a.drop_first(), e, rs, sv, dirs);
        } else {
            lemma_walk_entries_single_push(
                a.drop_first(),
                e,
                rs,
                run_routines_spec(rs, entry_file(a[0]), sv).0,
                if a[0].is_dir == Some(true) {
                    dirs.push(a[0].path)
                } else {
                    dirs
                },
            );
        }
    }
}

/// The walk over one entry.
pub proof fn lemma_walk_entries_one(
    e: EntryView,
    rs: Seq<RoutineView>,
    sv: StateView,
    dirs: Seq<Seq<char>>,
)
    ensures
        walk_entries(seq![e], rs, sv, dirs) == (if is_dot(e.name) {
            (dirs, sv, Ok::<(), Seq<char>>(()))
        } else if run_routines_spec(rs, entry_file(e), sv).1 is Err {
            (
                dirs,
                run_routines_spec(rs, entry_file(e), sv).0,
                run_routines_spec(rs, entry_file(e), sv).1,
            )
        } else {
            (
                if e.is_dir == Some(true) {
                    dirs.push(e.path)
                } else {
                    dirs
                },
                run_routines_spec(rs, entry_file(e), sv).0,
                Ok::<(), Seq<char>>(()),
            )
        }),
{
    let one = seq![e];
    assert(one[0] == e);
    assert(one.drop_first().len() == 0);
    let sv1 = run_routines_spec(rs, entry_file(e), sv).0;
    let dirs1 = if e.is_dir == Some(true) {
        dirs.push(e.path)
    } else {
        dirs
    };
    assert(walk_entries(one.drop_first(), rs, sv, dirs) == (dirs, sv, Ok::<(), Seq<char>>(())));
    assert(walk_entries(one.drop_first(), rs, sv1, dirs1) == (
        dirs1,
        sv1,
        Ok::<(), Seq<char>>(()),
    ));
}

/// The walk with one worker over one entry.
pub proof fn lemma_walk_entries_single_one(
    e: EntryView,
    rs: Seq<RoutineView>,
    sv: StateView,
    dirs: Seq<Seq<char>>,
)
    ensures
        walk_entries_single(seq![e], rs, sv, dirs) == (if is_dot(e.name) {
            (dirs, sv)
        } else {
            (
                if e.is_dir == Some(true) {
                    dirs.push(e.path)
                } else {
                    dirs
                },
                run_routines_spec(rs, entry_file(e), sv).0,
            )
        }),
{
    let one = seq![e];
    assert(one[0] == e);
    assert(one.drop_first().len() == 0);
    let sv1 = run_routines_spec(rs, entry_file(e), sv).0;
    let dirs1 = if e.is_dir == Some(true) {
        dirs.push(e.path)
    } else {
        dirs
    };
    assert(walk_entries_single(one.drop_first(), rs, sv, dirs) == (dirs, sv));
    assert(walk_entries_single(one.drop_first(), rs, sv1, dirs1) == (dirs1, sv1));
}

/// Runs the routines on the entry at `i`, which is neither `.` nor `..`.
/// The metadata of the entry is asked for from `stat` when a routine first
/// reads it, and is then recorded in the entry.
fn visit_entry<F: Fn(&String) -> Result<Metadata, std::io::ErrorKind>>(
    entries: &mut Vec<DirEntry>,
    i: usize,
    routines: &Vec<Routine>,
    stat: &F,
    p: &mut ProgramState,
) -> (r: Result<(), RuntimeError>)
    requires
        i < old(entries)@.len(),
        old(p).well_formed(),
        forall|path: &String| stat.requires((path,)),
    ensures
        final(p).well_formed(),
        final(entries)@.len() == old(entries)@.len(),
        entries_view(final(entries)@) == entries_view(old(entries)@).update(
            i as int,
            final(entries)@[i as int]@,
        ),
        final(entries)@[i as int]@.is_dir == old(entries)@[i as int]@.is_dir,
        extends(entry_file(old(entries)@[i as int]@), entry_file(final(entries)@[i as int]@)),
        answered(
            stat,
            entry_file(old(entries)@[i as int]@),
            entry_file(final(entries)@[i as int]@),
        ),
        (final(p)@, runtime_result_view(r)) == run_routines_spec(
            routines_view(routines@),
            entry_file(final(entries)@[i as int]@),
            old(p)@,
        ),
        !routines_need_metadata(routines_view(routines@)) ==> final(entries)@[i as int]@ == old(
            entries,
        )@[i as int]@,
{
    let ghost before = entries_view(entries@);
    let ghost sv = p@;
    let path = entries[i].path.clone();
    let name = entries[i].name.clone();
    let is_dir = entries[i].is_dir;
    let mut f = FileState::from_parts(path.clone(), name.clone(), entries[i].md);
    let ghost f0 = f@;
    let r = run_routines_lazy(routines, &mut f, stat, p);
    proof {
        if !routines_need_metadata(routines_view(routines@)) {
            routines_read_only_what_they_mention(routines_view(routines@), f0, sv);
        }
    }
    let md = *f.get_metadata();
    entries.set(i, DirEntry { path, name, is_dir, md });
    assert(entries_view(entries@) =~= before.update(i as int, entries@[i as int]@));
    assert(entry_file(entries@[i as int]@) == f@);
    r
}

/// How the tree below the root is to be walked.
#[derive(Clone, Copy, Debug, PartialEq, Eq, Structural)]
pub enum WalkMode {
    /// By the caller's own thread, depth first
    Single,
    /// By that many workers, each with a queue of its own
    Parallel(usize),
}

pub open spec fn walk_mode(n_threads: usize) -> WalkMode {
    if n_threads == 1 {
        WalkMode::Single
    } else {
        WalkMode::Parallel(n_threads)
    }
}

/// Starts a walk: runs the routines on the root, and says how the tree below
/// it is to be walked. If the routines fail on the root with a runtime
/// error, there is no walk.
pub fn treewalk(args: &Args, routines: &Vec<Routine>, f: &FileState, p: &mut ProgramState) -> (r:
    Result<WalkMode, RuntimeError>)
    requires
        old(p).well_formed(),
    ensures
        final(p).well_formed(),
        ({
            let (sv, res) = run_routines_spec(routines_view(routines@), f@, old(p)@);
            final(p)@ == sv && (match res {
                Ok(_) => r == Ok::<WalkMode, RuntimeError>(walk_mode(args.n_threads)),
                Err(msg) => r matches Err(e) && e@ == msg,
            })
        }),
{
    run_routines(routines, f, p)?;
    match args.n_threads {
        1 => Ok(WalkMode::Single),
        n => Ok(WalkMode::Parallel(n)),
    }
}

/// Whether a file is known to be a directory.
pub open spec fn is_directory(f: FileView) -> bool {
    f.md matches Some(Ok(md)) && md.file_type == FileType::Dir
}

/// The start of a run: BEGIN, and then the routines on the root. Where
/// neither ends in a runtime error, the tree below the root is to be walked
/// if the root is a directory, with one worker or with several.
pub open spec fn start_spec(
    begin: Option<ActionView>,
    routines: Seq<RoutineView>,
    n_threads: usize,
    f: FileView,
    sv: StateView,
) -> (StateView, Result<Option<WalkMode>, Seq<char>>) {
    let (s1, r1) = begin_or_end_spec(begin, sv);
    match r1 {
        Err(m) => (s1, Err(m)),
        Ok(_) => {
            let (s2, r2) = run_routines_spec(routines, f, s1);
            match r2 {
                Err(m) => (s2, Err(m)),
                Ok(_) => (
                    s2,
                    Ok(
                        if is_directory(f) {
                            Some(walk_mode(n_threads))
                        } else {
                            None
                        },
                    ),
                ),
            }
        },
    }
}

pub open spec fn start_result_view(r: Result<Option<WalkMode>, RuntimeError>) -> Result<
    Option<WalkMode>,
    Seq<char>,
> {
    match r {
        Ok(m) => Ok(m),
        Err(e) => Err(e@),
    }
}

impl Program {
    /// Starts a run on a root: runs the BEGIN block and then the routines on
    /// the root, and says how the tree below the root is to be walked, if
    /// the root is a directory. The run is over with the END block, which is
    /// to be run when the walk has ended well.
    pub fn start(&mut self, args: &Args, root: &FileState) -> (r: Result<
        Option<WalkMode>,
        RuntimeError,
    >)
        requires
            old(self).well_formed(),
        ensures
            final(self).well_formed(),
            final(self).begin == old(self).begin,
            final(self).end == old(self).end,
            final(self).routines == old(self).routines,
            (final(self).prog_state@, start_result_view(r)) == start_spec(
                action_option_view(old(self).begin),
                routines_view(old(self).routines@),
                args.n_threads,
                root@,
                old(self).prog_state@,
            ),
    {
        self.run_begin()?;
        let is_dir = match root.get_metadata() {
            Some(Ok(md)) => md.file_type == FileType::Dir,
            _ => false,
        };
        if is_dir {
            let mode = treewalk(args, &self.routines, root, &mut self.prog_state)?;
            Ok(Some(mode))
        } else {
            run_routines(&self.routines, root, &mut self.prog_state)?;
            Ok(None)
        }
    }
}

/// The run as far as it goes without a walk: the start, and then, on a
/// root that is no directory, the END block, with which the run is over. On a
/// root that is a directory the walk is next, and the END block follows it.
/// A runtime error ends the run where it occurs.
pub open spec fn launch_spec(
    begin: Option<ActionView>,
    routines: Seq<RoutineView>,
    end: Option<ActionView>,
    n_threads: usize,
    f: FileView,
    sv: StateView,
) -> (StateView, Result<Option<WalkMode>, Seq<char>>) {
    let (s1, r1) = start_spec(begin, routines, n_threads, f, sv);
    match r1 {
        Ok(None) => {
            let (s2, r2) = begin_or_end_spec(end, s1);
            (
                s2,
                match r2 {
                    Ok(_) => Ok(None),
                    Err(m) => Err(m),
                },
            )
        },
        _ => (s1, r1),
    }
}

/// The end of a run after a walk: the END block, unless the walk ended with
/// a runtime error, which is then the outcome of the run.
pub open spec fn finish_spec(end: Option<ActionView>, walk: Result<(), Seq<char>>, sv: StateView)
    -> (StateView, Result<(), Seq<char>>) {
    match walk {
        Err(m) => (sv, Err(m)),
        Ok(_) => begin_or_end_spec(end, sv),
    }
}

impl Program {
    /// Runs the program as far as it goes without a walk: the BEGIN block,
    /// the routines on the root, and, if the root is no directory, the END
    /// block. For a root that is a directory the result says how the tree
    /// below it is to be walked; `finish` then ends the run.
    pub fn launch(&mut self, args: &Args, root: &FileState) -> (r: Result<
        Option<WalkMode>,
        RuntimeError,
    >)
        requires
            old(self).well_formed(),
        ensures
            final(self).well_formed(),
            final(self).begin == old(self).begin,
            final(self).end == old(self).end,
            final(self).routines == old(self).routines,
            (final(self).prog_state@, start_result_view(r)) == launch_spec(
                action_option_view(old(self).begin),
                routines_view(old(self).routines@),
                action_option_view(old(self).end),
                args.n_threads,
                root@,
                old(self).prog_state@,
            ),
    {
        match self.start(args, root)? {
            Some(mode) => Ok(Some(mode)),
            None => {
                self.run_end()?;
                Ok(None)
            },
        }
    }

    /// Ends a run after the walk: runs the END block, unless the walk ended
    /// with a runtime error, which is then returned.
    pub fn finish(&mut self, walk: Result<(), RuntimeError>) -> (r: Result<(), RuntimeError>)
        requires
            old(self).well_formed(),
        ensures
            final(self).well_formed(),
            final(self).begin == old(self).begin,
            final(self).end == old(self).end,
            final(self).routines == old(self).routines,
            (final(self).prog_state@, runtime_result_view(r)) == finish_spec(
                action_option_view(old(self).end),
                runtime_result_view(walk),
                old(self).prog_state@,
            ),
    {
        walk?;
        self.run_end()
    }
}

/// The walk with one worker: the directories that are yet to be read, the
/// one to read next last.
pub struct TreeWalk {
    stack: Vec<String>,
}

impl View for TreeWalk {
    type V = Seq<Seq<char>>;

    closed spec fn view(&self) -> Seq<Seq<char>> {
        paths_view(self.stack@)
    }
}

impl TreeWalk {
    /// A walk that has the root to read.
    pub fn new(root: String) -> (r: Self)
        ensures
            r@ == seq![root@],
    {
        let mut stack: Vec<String> = Vec::new();
        stack.push(root);
        let r = TreeWalk { stack };
        assert(r@ =~= seq![root@]);
        r
    }

    /// The directory to read next: the one that was found last. `None` when
    /// the walk is over.
    pub fn next_directory(&mut self) -> (r: Option<String>)
        ensures
            old(self)@.len() == 0 ==> r is None && final(self)@ == old(self)@,
            old(self)@.len() > 0 ==> (r matches Some(d) && d@ == old(self)@.last() && final(self)@
                == old(self)@.drop_last()),
    {
        let ghost before = self@;
        let r = self.stack.pop();
        proof {
            if before.len() > 0 {
                assert(self@ =~= before.drop_last());
            } else {
                assert(self@ =~= before);
            }
        }
        r
    }

    /// Takes the entries of one directory: runs the routines on each but `.`
    /// and `..`, and keeps those that are directories to be read later. The
    /// metadata of an entry is asked for from `stat` when a routine first
    /// reads it, unless the entry has it already, and is then recorded in the
    /// entry.
    pub fn process_directory<F: Fn(&String) -> Result<Metadata, std::io::ErrorKind>>(
        &mut self,
        entries: &mut Vec<DirEntry>,
        routines: &Vec<Routine>,
        stat: &F,
        p: &mut ProgramState,
    )
        requires
            old(p).well_formed(),
            forall|path: &String| stat.requires((path,)),
        ensures
            final(p).well_formed(),
            entries_extend(entries_view(old(entries)@), entries_view(final(entries)@)),
            entries_answered(stat, entries_view(old(entries)@), entries_view(final(entries)@)),
            (final(self)@, final(p)@) == walk_entries_single(
                entries_view(final(entries)@),
                routines_view(routines@),
                old(p)@,
                old(self)@,
            ),
            !routines_need_metadata(routines_view(routines@)) ==> entries_view(final(entries)@)
                == entries_view(old(entries)@),
    {
        let ghost rs = routines_view(routines@);
        let ghost first = entries_view(entries@);
        let n = entries.len();
        let mut i: usize = 0;
        while i < n
            invariant
                i <= n,
                n == entries@.len(),
                p.well_formed(),
                rs == routines_view(routines@),
                first == entries_view(old(entries)@),
                forall|path: &String| stat.requires((path,)),
                entries_extend(first, entries_view(entries@)),
                entries_answered(stat, first, entries_view(entries@)),
                forall|j: int| i <= j < n ==> (#[trigger] entries_view(entries@)[j]) == first[j],
                !routines_need_metadata(rs) ==> entries_view(entries@) == first,
                walk_entries_single(
                    entries_view(entries@).subrange(0, i as int),
                    rs,
                    old(p)@,
                    old(self)@,
                ) == (self@, p@),
            decreases n - i,
        {
            let ghost cur = entries_view(entries@);
            let ghost prefix = cur.subrange(0, i as int);
            let ghost e0 = entries@[i as int]@;
            let ghost stack0 = self@;
            let ghost sv0 = p@;
            assert(cur[i as int] == e0);
            if !entry_is_dot(&entries[i]) {
                if let Some(true) = entries[i].is_dir {
                    self.stack.push(entries[i].path.clone());
                    assert(self@ =~= stack0.push(e0.path));
                }
                let _ = visit_entry(entries, i, routines, stat, p);
            }
            proof {
                let now = entries_view(entries@);
                let e = entries@[i as int]@;
                assert(now[i as int] == e);
                assert(now =~= cur.update(i as int, e));
                assert(now.subrange(0, i as int) =~= prefix);
                assert(now.subrange(0, i + 1) =~= prefix.push(e));
                lemma_walk_entries_single_push(prefix, e, rs, old(p)@, old(self)@);
                lemma_walk_entries_single_one(e, rs, sv0, stack0);
                assert(entries_extend(first, now)) by {
                    assert forall|j: int| 0 <= j < first.len() implies (#[trigger] now[j]).is_dir
                        == first[j].is_dir && extends(entry_file(first[j]), entry_file(now[j])) by {
                        assert(cur[j].is_dir == first[j].is_dir);
                        assert(extends(entry_file(first[j]), entry_file(cur[j])));
                        if j != i {
                            assert(now[j] == cur[j]);
                        }
                    }
                }
                assert(entries_answered(stat, first, now)) by {
                    assert forall|j: int| 0 <= j < first.len() && j < now.len() implies answered(
                        stat,
                        entry_file(first[j]),
                        entry_file(#[trigger] now[j]),
                    ) by {
                        if j != i {
                            assert(now[j] == cur[j]);
                            assert(answered(stat, entry_file(first[j]), entry_file(cur[j])));
                        } else {
                            assert(cur[j] == first[j]);
                        }
                    }
                }
                assert forall|j: int| i + 1 <= j < n implies (#[trigger] now[j]) == first[j] by {
                    assert(now[j] == cur[j]);
                }
                if !routines_need_metadata(rs) {
                    assert(now =~= first);
                }
            }
            i = i + 1;
        }
        assert(entries_view(entries@).subrange(0, n as int) == entries_view(entries@));
    }
}

/// The work of one worker on the entries of one directory, in a run with
/// several workers: runs the routines on each entry but `.` and `..`, up to
/// the first runtime error, and returns the directories among the entries
/// that it came past, which are to be read next. The metadata of an entry is
/// asked for from `stat` when a routine first reads it, unless the entry has
/// it already, and is then recorded in the entry.
pub fn process_entries<F: Fn(&String) -> Result<Metadata, std::io::ErrorKind>>(
    entries: &mut Vec<DirEntry>,
    routines: &Vec<Routine>,
    stat: &F,
    p: &mut ProgramState,
) -> (r: (Vec<String>, Result<(), RuntimeError>))
    requires
        old(p).well_formed(),
        forall|path: &String| stat.requires((path,)),
    ensures
        final(p).well_formed(),
        entries_extend(entries_view(old(entries)@), entries_view(final(entries)@)),
        entries_answered(stat, entries_view(old(entries)@), entries_view(final(entries)@)),
        (paths_view(r.0@), final(p)@, runtime_result_view(r.1)) == walk_entries(
            entries_view(final(entries)@),
            routines_view(routines@),
            old(p)@,
            Seq::empty(),
        ),
        !routines_need_metadata(routines_view(routines@)) ==> entries_view(final(entries)@)
            == entries_view(old(entries)@),
{
    let ghost rs = routines_view(routines@);
    let ghost first = entries_view(entries@);
    let mut dirs: Vec<String> = Vec::new();
    let n = entries.len();
    let mut i: usize = 0;
    assert(paths_view(dirs@) =~= Seq::<Seq<char>>::empty());
    while i < n
        invariant
            i <= n,
            n == entries@.len(),
            p.well_formed(),
            rs == routines_view(routines@),
            first == entries_view(old(entries)@),
            forall|path: &String| stat.requires((path,)),
            entries_extend(first, entries_view(entries@)),
            entries_answered(stat, first, entries_view(entries@)),
            forall|j: int| i <= j < n ==> (#[trigger] entries_view(entries@)[j]) == first[j],
            !routines_need_metadata(rs) ==> entries_view(entries@) == first,
            walk_entries(
                entries_view(entries@).subrange(0, i as int),
                rs,
                old(p)@,
                Seq::empty(),
            ) == (paths_view(dirs@), p@, Ok::<(), Seq<char>>(())),
        decreases n - i,
    {
        let ghost cur = entries_view(entries@);
        let ghost prefix = cur.subrange(0, i as int);
        let ghost e0 = entries@[i as int]@;
        let ghost dirs0 = paths_view(dirs@);
        let ghost sv0 = p@;
        assert(cur[i as int] == e0);
        let mut failed: Option<RuntimeError> = None;
        if !entry_is_dot(&entries[i]) {
            match visit_entry(entries, i, routines, stat, p) {
                Err(e) => {
                    failed = Some(e);
                },
                Ok(_) => {
                    if let Some(true) = entries[i].is_dir {
                        dirs.push(entries[i].path.clone());
                        assert(paths_view(dirs@) =~= dirs0.push(entries@[i as int].path@));
                    }
                },
            }
        }
        proof {
            let now = entries_view(entries@);
            let e = entries@[i as int]@;
            assert(now[i as int] == e);
            assert(now =~= cur.update(i as int, e));
            assert(now.subrange(0, i as int) =~= prefix);
            assert(now.subrange(0, i + 1) =~= prefix.push(e));
            lemma_walk_entries_push(prefix, e, rs, old(p)@, Seq::empty());
            lemma_walk_entries_one(e, rs, sv0, dirs0);
            assert(entries_extend(first, now)) by {
                assert forall|j: int| 0 <= j < first.len() implies (#[trigger] now[j]).is_dir
                    == first[j].is_dir && extends(entry_file(first[j]), entry_file(now[j])) by {
                    assert(cur[j].is_dir == first[j].is_dir);
                    assert(extends(entry_file(first[j]), entry_file(cur[j])));
                    if j != i {
                        assert(now[j] == cur[j]);
                    }
                }
            }
            assert(entries_answered(stat, first, now)) by {
                assert forall|j: int| 0 <= j < first.len() && j < now.len() implies answered(
                    stat,
                    entry_file(first[j]),
                    entry_file(#[trigger] now[j]),
                ) by {
                    if j != i {
                        assert(now[j] == cur[j]);
                        assert(answered(stat, entry_file(first[j]), entry_file(cur[j])));
                    } else {
                        assert(cur[j] == first[j]);
                    }
                }
            }
            assert forall|j: int| i + 1 <= j < n implies (#[trigger] now[j]) == first[j] by {
                assert(now[j] == cur[j]);
            }
            if !routines_need_metadata(rs) {
                assert(now =~= first);
            }
            if failed is Some {
                assert(now =~= now.subrange(0, i + 1) + now.subrange(i + 1, n as int));
                lemma_walk_entries_stops(
                    now.subrange(0, i + 1),
                    now.subrange(i + 1, n as int),
                    rs,
                    old(p)@,
                    Seq::empty(),
                );
            }
        }
        if let Some(e) = failed {
            return (dirs, Err(e));
        }
        i = i + 1;
    }
    assert(entries_view(entries@).subrange(0, n as int) == entries_view(entries@));
    (dirs, Ok(()))
}

/// Takes the entries of one directory for a worker: runs the routines on
/// them, puts the directories among them into the worker's queue, and, if
/// the routines failed with a runtime error, records it for the other
/// workers to see and returns it. The metadata of an entry is asked for from
/// `stat` when a routine first reads it, and is then recorded in the entry.
pub fn process_directory<F: Fn(&String) -> Result<Metadata, std::io::ErrorKind>>(
    entries: &mut Vec<DirEntry>,
    w: &crossbeam::deque::Worker<String>,
    routines: &Vec<Routine>,
    stat: &F,
    p: &mut ProgramState,
) -> (r: Result<(), RuntimeError>)
    requires
        old(p).well_formed(),
        forall|path: &String| stat.requires((path,)),
    ensures
        final(p).well_formed(),
        entries_extend(entries_view(old(entries)@), entries_view(final(entries)@)),
        entries_answered(stat, entries_view(old(entries)@), entries_view(final(entries)@)),
        ({
            let (dirs, sv, res) = walk_entries(
                entries_view(final(entries)@),
                routines_view(routines@),
                old(p)@,
                Seq::empty(),
            );
            final(p)@ == with_runtime_error(sv, res) && runtime_result_view(r) == res
        }),
        !routines_need_metadata(routines_view(routines@)) ==> entries_view(final(entries)@)
            == entries_view(old(entries)@),
{
    let (dirs, res) = process_entries(entries, routines, stat, p);
    let mut dirs = dirs;
    let mut i: usize = 0;
    let n = dirs.len();
    while i < n
        invariant
            i <= n,
            n == dirs.len(),
        decreases n - i,
    {
        let mut d = String::new();
        std::mem::swap(&mut d, &mut dirs[i]);
        w.push(d);
        i = i + 1;
    }
    match res {
        Ok(_) => Ok(()),
        Err(e) => {
            p.set_runtime_error(e.clone());
            Err(e)
        },
    }
}

/// The task that an attempt to steal brought, if it brought one.
pub fn stolen_task(outcome: StealOutcome) -> (r: Option<String>)
    ensures
        r == (match outcome {
            StealOutcome::Success(task) => Some(task),
            _ => None,
        }),
{
    match outcome {
        StealOutcome::Success(task) => Some(task),
        _ => None,
    }
}

/// The next directory for a worker: one from its own queue, and else the
/// first that can be taken from another worker, going through the workers in
/// order. `None` if there is none to be had.
pub fn find_task(
    local: &crossbeam::deque::Worker<String>,
    stealers: &Vec<crossbeam::deque::Stealer<String>>,
) -> (r: Option<String>) {
    if let Some(task) = local.pop() {
        return Some(task);
    }
    let mut i: usize = 0;
    while i < stealers.len()
        invariant
            i <= stealers.len(),
        decreases stealers.len() - i,
    {
        if let Some(task) = stolen_task(steal_from(&stealers[i])) {
            return Some(task);
        }
        i = i + 1;
    }
    None
}

/// What a worker does next: it stops if a runtime error was recorded, by
/// itself or by another worker, and else looks for a directory to read, and
/// stops if there is none.
pub fn worker_next(
    local: &crossbeam::deque::Worker<String>,
    stealers: &Vec<crossbeam::deque::Stealer<String>>,
    p: &ProgramState,
) -> (r: Option<String>)
    ensures
        p@.runtime_error is Some ==> r is None,
{
    if p.check_runtime_error() {
        return None;
    }
    find_task(local, stealers)
}

/// The queues of `n` workers, and for each queue the handle by which the
/// other workers take from it, in the same order.
pub fn new_workers(n: usize) -> (r: (
    Vec<crossbeam::deque::Worker<String>>,
    Vec<crossbeam::deque::Stealer<String>>,
))
    ensures
        r.0@.len() == n,
        r.1@.len() == n,
{
    let mut workers: Vec<crossbeam::deque::Worker<String>> = Vec::new();
    let mut stealers: Vec<crossbeam::deque::Stealer<String>> = Vec::new();
    let mut i: usize = 0;
    while i < n
        invariant
            i <= n,
            workers@.len() == i,
            stealers@.len() == i,
        decreases n - i,
    {
        let worker = crossbeam::deque::Worker::new_fifo();
        stealers.push(worker.stealer());
        workers.push(worker);
        i = i + 1;
    }
    (workers, stealers)
}

/// Gives the first worker the root to read.
pub fn seed(workers: &Vec<crossbeam::deque::Worker<String>>, root: String)
    requires
        workers@.len() > 0,
{
    workers[0].push(root);
}

pub open spec fn first_error_spec(results: Seq<Result<(), RuntimeError>>) -> Result<
    (),
    Seq<char>,
>
    decreases results.len(),
{
    if results.len() == 0 {
        Ok(())
    } else {
        match results[0] {
            Err(e) => Err(e@),
            Ok(_) => first_error_spec(results.drop_first()),
        }
    }
}

/// The outcome of a walk with several workers: the error of the first
/// worker, in order, that ended with one.
pub fn first_error(results: Vec<Result<(), RuntimeError>>) -> (r: Result<(), RuntimeError>)
    ensures
        runtime_result_view(r) == first_error_spec(results@),
{
    let mut i: usize = 0;
    assert(results@.subrange(0, results@.len() as int) == results@);
    while i < results.len()
        invariant
            i <= results.len(),
            first_error_spec(results@) == first_error_spec(
                results@.subrange(i as int, results@.len() as int),
            ),
        decreases results.len() - i,
    {
        let ghost rest = results@.subrange(i as int, results@.len() as int);
        proof {
            assert(rest[0] == results@[i as int]);
            assert(rest.drop_first() == results@.subrange(i + 1, results@.len() as int));
        }
        match &results[i] {
            Err(e) => {
                return Err(e.clone());
            },
            Ok(_) => {},
        }
        i = i + 1;
    }
    Ok(())
}

} // verus!
