use std::cell::Cell;
use std::collections::HashMap;

use puffin::compiler::compile;
use puffin::file::{FileState, FileType, Metadata};
use puffin::treewalk::{
    find_task, first_error, new_workers, process_directory, seed, treewalk, worker_next, DirEntry,
    TreeWalk, WalkMode,
};
use puffin::{Args, RuntimeError};

const TEST_DIR: &str = "puffin_tests";

/// A directory tree held in memory: for every directory, its entries as
/// (name, is a directory, size).
struct Tree {
    dirs: HashMap<String, Vec<(String, bool, i64)>>,
    /// How often the metadata of a file was asked for
    stats: Cell<usize>,
}

impl Tree {
    fn new() -> Self {
        Tree { dirs: HashMap::new(), stats: Cell::new(0) }
    }

    fn add_dir(&mut self, parent: &str, name: &str) -> String {
        let path = format!("{parent}/{name}");
        self.dirs.entry(parent.to_string()).or_default().push((name.to_string(), true, 4096));
        self.dirs.entry(path.clone()).or_default();
        path
    }

    fn add_file(&mut self, parent: &str, name: &str, size: i64) {
        self.dirs.entry(parent.to_string()).or_default().push((name.to_string(), false, size));
    }

    /// Create a tree named `root_name` under `parent` with the specified parameters.
    fn make_tree(
        &mut self,
        parent: &str,
        root_name: &str,
        depth: usize,
        branching_factor: usize,
        files_per_dir: usize,
        file_size: i64,
    ) -> String {
        let root = self.add_dir(parent, root_name);
        self.make_tree_inner(&root, depth, branching_factor, files_per_dir, file_size);
        root
    }

    fn make_tree_inner(
        &mut self,
        root_path: &str,
        depth: usize,
        branching_factor: usize,
        files_per_dir: usize,
        file_size: i64,
    ) {
        if depth > 0 {
            for i in 0..branching_factor {
                let subdir = self.add_dir(root_path, &format!("subdir_{i}"));
                for j in 0..files_per_dir {
                    self.add_file(&subdir, &format!("file_{j}"), file_size);
                }
                self.make_tree_inner(
                    &subdir,
                    depth - 1,
                    branching_factor,
                    files_per_dir,
                    file_size,
                );
            }
        }
    }

    /// The entries of a directory, without their metadata.
    fn read_dir(&self, dir: &str) -> Vec<DirEntry> {
        self.dirs[dir]
            .iter()
            .map(|(name, is_dir, _)| DirEntry {
                path: format!("{dir}/{name}"),
                name: name.clone(),
                is_dir: Some(*is_dir),
                md: None,
            })
            .collect()
    }

    /// The metadata of the file at a path, and one more call counted.
    fn stat(&self, path: &String) -> Result<Metadata, std::io::ErrorKind> {
        self.stats.set(self.stats.get() + 1);
        let (dir, name) = path.rsplit_once('/').ok_or(std::io::ErrorKind::NotFound)?;
        let entries = self.dirs.get(dir).ok_or(std::io::ErrorKind::NotFound)?;
        entries
            .iter()
            .find(|(n, _, _)| n == name)
            .map(|(_, is_dir, size)| metadata(*is_dir, *size))
            .ok_or(std::io::ErrorKind::NotFound)
    }
}

fn metadata(is_dir: bool, size: i64) -> Metadata {
    Metadata {
        size,
        file_type: if is_dir { FileType::Dir } else { FileType::File },
        ..Metadata::default()
    }
}

/// Runs the program on the tree as the command-line tool does on a file
/// system, with the workers taking their turns one after the other, the last
/// worker first.
fn driver(args: &Args, tree: &Tree) -> Result<Vec<u8>, RuntimeError> {
    let root = FileState::new(args.path.clone(), Some(metadata(true, 4096)));
    let (mut program, started) = puffin::driver(args, &root).unwrap();
    let stat = |path: &String| tree.stat(path);
    let walk = match started? {
        None => return Ok(program.prog_state.take_output()),
        Some(WalkMode::Single) => {
            let mut walk = TreeWalk::new(args.path.clone());
            while let Some(dir) = walk.next_directory() {
                let mut entries = tree.read_dir(&dir);
                walk.process_directory(
                    &mut entries,
                    &program.routines,
                    &stat,
                    &mut program.prog_state,
                );
            }
            Ok(())
        }
        Some(WalkMode::Parallel(n)) => {
            assert_eq!(n, args.n_threads);
            let (workers, stealers) = new_workers(n);
            assert_eq!(workers.len(), n);
            assert_eq!(stealers.len(), n);
            seed(&workers, args.path.clone());
            let mut results = Vec::new();
            for w in workers.iter().rev() {
                let mut result = Ok(());
                while let Some(dir) = worker_next(w, &stealers, &program.prog_state) {
                    let mut entries = tree.read_dir(&dir);
                    let r = process_directory(
                        &mut entries,
                        w,
                        &program.routines,
                        &stat,
                        &mut program.prog_state,
                    );
                    if r.is_err() {
                        result = r;
                        break;
                    }
                }
                results.push(result);
            }
            first_error(results)
        }
    };
    program.finish(walk)?;
    Ok(program.prog_state.take_output())
}

fn output_of(args: &Args, tree: &Tree) -> String {
    String::from_utf8(driver(args, tree).unwrap()).unwrap()
}

#[test]
fn count_files_1() {
    let mut tree = Tree::new();
    let dir = tree.make_tree(&format!("{TEST_DIR}/count_files_1"), "tree", 3, 3, 0, 0);

    let args = Args {
        path: dir,
        prog: "{ numfiles += 1 } end { print numfiles }".to_string(),
        n_threads: 8,
    };

    assert_eq!(output_of(&args, &tree), "40\n");
}

#[test]
fn count_files_2() {
    let mut tree = Tree::new();
    let dir = tree.make_tree(&format!("{TEST_DIR}/count_files_2"), "tree", 3, 3, 0, 0);

    let args = Args {
        path: dir,
        prog: "{ numfiles = numfiles + 1 } end { print numfiles }".to_string(),
        n_threads: 8,
    };

    assert_eq!(output_of(&args, &tree), "40\n");
}

#[test]
fn count_files_by_size() {
    let mut tree = Tree::new();
    let dir = tree.add_dir(TEST_DIR, "count_files_by_size");
    tree.make_tree(&dir, "size_2", 2, 2, 2, 2);
    tree.make_tree(&dir, "size_3", 2, 2, 2, 3);

    let args = Args {
        path: dir,
        prog: ".size <= 3 { numfiles += 1 } end {print numfiles }".to_string(),
        n_threads: 8,
    };

    assert_eq!(output_of(&args, &tree), "24\n");
}

#[test]
fn count_files_arrays() {
    let mut tree = Tree::new();
    let dir = tree.add_dir(TEST_DIR, "count_files_arrays");
    tree.make_tree(&dir, "size_2", 2, 2, 2, 2);
    tree.make_tree(&dir, "size_3", 2, 2, 3, 3);

    let args = Args {
        path: dir.clone(),
        prog: ".size == 3 { arr[\"three\"] += 1} .size == 2 { arr[\"two\"] += 1 }  end {print arr[\"three\"], arr[\"two\"]  }".to_string(),
        n_threads: 8,
    };

    assert_eq!(output_of(&args, &tree), "18 12\n");

    let args = Args {
        path: dir,
        prog: ".size == 3 { arr[\"three\"] += 1} .size == 2 { arr[\"two\"] += 1 }  end {print arr}"
            .to_string(),
        n_threads: 8,
    };

    let out = output_of(&args, &tree);
    let mut lines: Vec<&str> = out.lines().collect();
    lines.sort();
    assert_eq!(lines[0], "three: 18");
    assert_eq!(lines[1], "two: 12");
}

#[test]
fn count_files_arrays_2() {
    let mut tree = Tree::new();
    let dir = tree.add_dir(TEST_DIR, "count_files_arrays_2");
    tree.make_tree(&dir, "tree", 2, 2, 0, 0);

    let args = Args {
        path: dir,
        prog: "{ arr[\"numfiles\"] += 1; arr2[\"dup\"] = arr[\"numfiles\"] } end { print arr[\"numfiles\"], arr2[\"dup\"]  }".to_string(),
        n_threads: 8,
    };

    assert_eq!(output_of(&args, &tree), "8 8\n");
}

#[test]
fn count_is_the_same_for_any_number_of_workers() {
    let mut tree = Tree::new();
    let dir = tree.make_tree(&format!("{TEST_DIR}/any_workers"), "tree", 3, 2, 1, 1);
    // 1 + 2 + 4 + 8 directories and 14 files.
    for n_threads in [1, 2, 3, 4, 8, 16] {
        let args = Args {
            path: dir.clone(),
            prog: "{ v += 1 } end { print v }".to_string(),
            n_threads,
        };
        assert_eq!(output_of(&args, &tree), "29\n", "workers: {}", n_threads);
    }
}

#[test]
fn begin_and_end_run_once_whatever_the_walk() {
    let mut tree = Tree::new();
    let dir = tree.make_tree(&format!("{TEST_DIR}/once"), "tree", 3, 2, 1, 1);
    for n_threads in [1, 2, 8] {
        let args = Args {
            path: dir.clone(),
            prog: "begin { print \"b\"; n = 100 } { n += 1 } end { print \"e\", n }".to_string(),
            n_threads,
        };
        assert_eq!(output_of(&args, &tree), "b\ne 129\n", "workers: {}", n_threads);
    }
}

#[test]
fn runtime_error_stops_the_workers() {
    let mut tree = Tree::new();
    let dir = tree.make_tree(&format!("{TEST_DIR}/stop"), "tree", 2, 2, 1, 1);
    let args = Args {
        path: dir.clone(),
        prog: ".type == \"file\" { print .owner + 1 } { n += 1 }".to_string(),
        n_threads: 4,
    };
    let err = driver(&args, &tree).unwrap_err();
    assert_eq!(err.message(), "Cannot evaluate a special value as an integer");

    // With one worker the walk goes on after the error, and ends well.
    let args = Args { n_threads: 1, ..args };
    let mut program = compile(&args.prog).unwrap();
    let root = FileState::new(dir.clone(), Some(metadata(true, 4096)));
    treewalk(&args, &program.routines, &root, &mut program.prog_state).unwrap();
    let mut walk = TreeWalk::new(dir);
    while let Some(d) = walk.next_directory() {
        let mut entries = tree.read_dir(&d);
        let stat = |path: &String| tree.stat(path);
        walk.process_directory(&mut entries, &program.routines, &stat, &mut program.prog_state);
    }
    // Six files, each with one runtime error to report.
    assert_eq!(program.prog_state.take_diagnostics().len(), 6);
    assert!(!program.prog_state.check_runtime_error());
}

#[test]
fn a_root_that_is_no_directory_is_not_walked() {
    let args = Args {
        path: "some/file".to_string(),
        prog: "begin { print \"b\" } { print .name } end { print \"e\" }".to_string(),
        n_threads: 4,
    };
    let root = FileState::new(args.path.clone(), Some(metadata(false, 1)));
    let (mut program, started) = puffin::driver(&args, &root).unwrap();
    assert_eq!(started.unwrap(), None);
    assert_eq!(program.prog_state.take_output(), b"b\nfile\ne\n".to_vec());

    // On a directory END waits for the walk, and is not run after a walk that failed.
    let root = FileState::new(args.path.clone(), Some(metadata(true, 1)));
    let (mut program, started) = puffin::driver(&args, &root).unwrap();
    assert_eq!(started.unwrap(), Some(WalkMode::Parallel(4)));
    assert_eq!(program.prog_state.take_output(), b"b\nfile\n".to_vec());
    let failed = program.finish(Err(RuntimeError::new("walk failed")));
    assert_eq!(failed.unwrap_err().message(), "walk failed");
    assert_eq!(program.prog_state.take_output(), b"".to_vec());
    program.finish(Ok(())).unwrap();
    assert_eq!(program.prog_state.take_output(), b"e\n".to_vec());
    let (_, started) = puffin::driver(&Args { n_threads: 1, ..args }, &root).unwrap();
    assert_eq!(started.unwrap(), Some(WalkMode::Single));

    let bad = Args { path: "f".to_string(), prog: "{ print".to_string(), n_threads: 1 };
    assert!(matches!(puffin::driver(&bad, &root), Err(puffin::Error::CompileError(_))));
}

#[test]
fn metadata_is_asked_for_when_it_is_first_read_and_only_once() {
    let mut tree = Tree::new();
    let dir = tree.make_tree(&format!("{TEST_DIR}/lazy"), "tree", 2, 2, 2, 7);
    // 1 + 2 + 4 directories and 12 files; the root is known from the start.
    let cases = [
        // No metadata is mentioned: none is asked for.
        ("{ n += 1 } end { print n }", "19\n", 0),
        (".name == \"file_0\" { print .path } end { print 1 }", "", 0),
        // The condition reads the metadata of every entry, once each.
        (".size == 7 { n += 1; m += .size; print .type } end { print n, m }", "", 18),
        // Only the entries that meet the condition have their metadata read.
        (".name == \"file_0\" { n += .size } end { print n }", "42\n", 6),
        // A condition that is not met keeps the action from reading it.
        ("0 { print .size } .name == \"nothing\" { print .ino } end { print 2 }", "2\n", 0),
    ];
    for n_threads in [1, 4] {
        for (prog, expected, stats) in cases {
            tree.stats.set(0);
            let args = Args { path: dir.clone(), prog: prog.to_string(), n_threads };
            let out = output_of(&args, &tree);
            if !expected.is_empty() {
                assert_eq!(out.lines().last().unwrap(), expected.trim_end(), "program: {}", prog);
            }
            assert_eq!(tree.stats.get(), stats, "program: {} workers: {}", prog, n_threads);
        }
    }
}

#[test]
fn the_outcome_of_stat_is_recorded_in_the_entry() {
    let mut program = compile(".name == \"a\" { print .size } .size > 1 { print .name }").unwrap();
    let mut entries = vec![
        DirEntry { path: "d/a".to_string(), name: "a".to_string(), is_dir: Some(false), md: None },
        DirEntry { path: "d/b".to_string(), name: "b".to_string(), is_dir: Some(false), md: None },
        DirEntry {
            path: "d/c".to_string(),
            name: "c".to_string(),
            is_dir: Some(false),
            md: Some(Ok(metadata(false, 9))),
        },
    ];
    let calls = Cell::new(0);
    let stat = |path: &String| {
        calls.set(calls.get() + 1);
        if path == "d/a" {
            Ok(metadata(false, 5))
        } else {
            Err(std::io::ErrorKind::PermissionDenied)
        }
    };
    let (dirs, res) =
        puffin::treewalk::process_entries(&mut entries, &program.routines, &stat, &mut program.prog_state);
    assert!(dirs.is_empty());
    assert!(res.is_ok());
    assert_eq!(calls.get(), 2);
    assert_eq!(entries[0].md, Some(Ok(metadata(false, 5))));
    assert_eq!(entries[1].md, Some(Err(std::io::ErrorKind::PermissionDenied)));
    assert_eq!(entries[2].md, Some(Ok(metadata(false, 9))));
    assert_eq!(program.prog_state.take_output(), b"5\na\nc\n".to_vec());
    // The failed stat is an error to report for that entry, and for no other.
    let diagnostics = program.prog_state.take_diagnostics();
    assert_eq!(diagnostics.len(), 1);
    assert_eq!(diagnostics[0].path.as_deref(), Some("d/b"));
}

#[test]
fn dot_entries_are_passed_over() {
    let mut program = compile("{ n += 1 } end { print n }").unwrap();
    let mut entries = vec![
        DirEntry { path: "d/.".to_string(), name: ".".to_string(), is_dir: Some(true), md: None },
        DirEntry { path: "d/..".to_string(), name: "..".to_string(), is_dir: Some(true), md: None },
        DirEntry { path: "d/a".to_string(), name: "a".to_string(), is_dir: Some(true), md: None },
        DirEntry { path: "d/b".to_string(), name: "b".to_string(), is_dir: None, md: None },
    ];
    let mut walk = TreeWalk::new("d".to_string());
    assert_eq!(walk.next_directory(), Some("d".to_string()));
    let stat = |_: &String| Err(std::io::ErrorKind::NotFound);
    walk.process_directory(&mut entries, &program.routines, &stat, &mut program.prog_state);
    assert_eq!(walk.next_directory(), Some("d/a".to_string()));
    assert_eq!(walk.next_directory(), None);
    program.run_end().unwrap();
    assert_eq!(program.prog_state.take_output(), b"2\n".to_vec());
}

#[test]
fn a_worker_takes_from_its_own_queue_first_and_then_from_the_others_in_order() {
    let (workers, stealers) = new_workers(3);
    workers[1].push("one".to_string());
    workers[2].push("two".to_string());
    workers[0].push("zero-a".to_string());
    workers[0].push("zero-b".to_string());
    // Worker 2 has a task of its own.
    assert_eq!(find_task(&workers[2], &stealers), Some("two".to_string()));
    // Now its queue is empty: it takes from worker 0, the oldest task first.
    assert_eq!(find_task(&workers[2], &stealers), Some("zero-a".to_string()));
    assert_eq!(find_task(&workers[2], &stealers), Some("zero-b".to_string()));
    assert_eq!(find_task(&workers[2], &stealers), Some("one".to_string()));
    assert_eq!(find_task(&workers[2], &stealers), None);
}
