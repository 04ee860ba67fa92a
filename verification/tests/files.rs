use puffin::compiler::compile;
use puffin::file::{FileState, FileType, Metadata};
use puffin::types::{Attribute, SpecialValue, SpecialValueKind, Value};
use puffin::Error;

fn sample() -> Metadata {
    Metadata {
        size: 42,
        blocks: 8,
        blksize: 4096,
        nlink: 2,
        atime: 100,
        mtime: 200,
        ctime: 300,
        ino: 77,
        dev: 2049,
        rdev: 5,
        mode: 0o100644,
        uid: 1000,
        gid: 1001,
        file_type: FileType::File,
    }
}

#[test]
fn name_is_the_last_component_of_the_path() {
    assert_eq!(FileState::new("a/b/c.txt".to_string(), None).name(), "c.txt");
    assert_eq!(FileState::new("c.txt".to_string(), None).name(), "c.txt");
    assert_eq!(FileState::new("a/b/".to_string(), None).name(), "b");
    // A path without a last component is its own name.
    assert_eq!(FileState::new("/".to_string(), None).name(), "/");
    assert_eq!(FileState::new("a/..".to_string(), None).name(), "a/..");
    assert_eq!(FileState::new("a/b".to_string(), None).path(), "a/b");
}

#[test]
fn attributes_without_a_file() {
    for attr in [Attribute::Name, Attribute::Path, Attribute::Size, Attribute::Ino] {
        assert!(matches!(attr.evaluate(None), Err(Error::AttributeInBeginOrEnd)));
    }
}

#[test]
fn name_and_path_need_no_metadata() {
    let f = FileState::new("dir/file".to_string(), None);
    assert!(!f.has_metadata());
    assert_eq!(Attribute::Name.evaluate(Some(&f)).unwrap(), Value::String("file".to_string()));
    assert_eq!(Attribute::Path.evaluate(Some(&f)).unwrap(), Value::String("dir/file".to_string()));
    // And they are the same with metadata, and whenever they are asked for.
    let g = FileState::new("dir/file".to_string(), Some(sample()));
    assert!(g.has_metadata());
    for _ in 0..3 {
        assert_eq!(
            Attribute::Name.evaluate(Some(&g)).unwrap(),
            Attribute::Name.evaluate(Some(&f)).unwrap()
        );
        assert_eq!(
            Attribute::Path.evaluate(Some(&g)).unwrap(),
            Attribute::Path.evaluate(Some(&f)).unwrap()
        );
    }
    assert!(!Attribute::Name.needs_metadata());
    assert!(!Attribute::Path.needs_metadata());
    assert!(Attribute::Size.needs_metadata());
    assert!(Attribute::Type.needs_metadata());
}

#[test]
fn attributes_read_from_the_metadata() {
    let f = FileState::new("dir/file".to_string(), Some(sample()));
    let get = |a: Attribute| a.evaluate(Some(&f)).unwrap();
    assert_eq!(get(Attribute::Size), Value::Int(42));
    assert_eq!(get(Attribute::Blocks), Value::Int(8));
    assert_eq!(get(Attribute::BlkSize), Value::Int(4096));
    assert_eq!(get(Attribute::NLink), Value::Int(2));
    assert_eq!(get(Attribute::Atime), Value::Int(100));
    assert_eq!(get(Attribute::Mtime), Value::Int(200));
    assert_eq!(get(Attribute::Ctime), Value::Int(300));
    assert_eq!(get(Attribute::Ino), SpecialValue::new(77, SpecialValueKind::Ino));
    assert_eq!(get(Attribute::Dev), SpecialValue::new(2049, SpecialValueKind::Devno));
    assert_eq!(get(Attribute::RDev), SpecialValue::new(5, SpecialValueKind::Devno));
    assert_eq!(get(Attribute::Mode), SpecialValue::new(0o100644, SpecialValueKind::Mode));
    assert_eq!(get(Attribute::Owner), SpecialValue::new(1000, SpecialValueKind::Uid));
    assert_eq!(get(Attribute::Group), SpecialValue::new(1001, SpecialValueKind::Uid));
    assert_eq!(get(Attribute::Type), Value::String("file".to_string()));
}

#[test]
fn every_file_type_has_its_name() {
    let types = [
        (FileType::Dir, "dir"),
        (FileType::File, "file"),
        (FileType::Block, "block"),
        (FileType::Char, "char"),
        (FileType::Fifo, "fifo"),
        (FileType::Socket, "socket"),
        (FileType::Unknown, "unknown"),
    ];
    for (file_type, name) in types {
        let f = FileState::new("f".to_string(), Some(Metadata { file_type, ..sample() }));
        assert_eq!(Attribute::Type.evaluate(Some(&f)).unwrap(), Value::String(name.to_string()));
    }
}

#[test]
fn metadata_is_set_once() {
    let mut f = FileState::new("f".to_string(), None);
    assert_eq!(*f.get_metadata(), None);
    f.set_metadata(Ok(sample()));
    assert_eq!(*f.get_metadata(), Some(Ok(sample())));
    f.set_metadata(Err(std::io::ErrorKind::PermissionDenied));
    assert_eq!(*f.get_metadata(), Some(Ok(sample())));

    let mut g = FileState::new("g".to_string(), Some(sample()));
    g.set_metadata(Err(std::io::ErrorKind::PermissionDenied));
    assert_eq!(*g.get_metadata(), Some(Ok(sample())));
}

#[test]
fn metadata_that_was_not_supplied_cannot_be_read() {
    let f = FileState::new("f".to_string(), None);
    assert!(matches!(Attribute::Size.evaluate(Some(&f)), Err(Error::AttributeInBeginOrEnd)));
}

#[test]
fn failed_stat_is_the_value_of_every_metadata_attribute() {
    let mut f = FileState::new("f".to_string(), None);
    f.set_metadata(Err(std::io::ErrorKind::PermissionDenied));
    assert!(matches!(
        Attribute::Size.evaluate(Some(&f)),
        Err(Error::IoError(std::io::ErrorKind::PermissionDenied))
    ));
    assert!(matches!(
        Attribute::Type.evaluate(Some(&f)),
        Err(Error::IoError(std::io::ErrorKind::PermissionDenied))
    ));
    assert_eq!(Attribute::Name.evaluate(Some(&f)).unwrap(), Value::String("f".to_string()));
}

#[test]
fn programs_say_whether_they_need_metadata() {
    assert!(!compile("").unwrap().needs_metadata());
    assert!(!compile("{ print .name, .path }").unwrap().needs_metadata());
    assert!(!compile("{ n += 1 } end { print n }").unwrap().needs_metadata());
    assert!(compile(".size > 1").unwrap().needs_metadata());
    assert!(compile("{ print 1; print 2, .mode }").unwrap().needs_metadata());
    assert!(compile("{ a[.ino] = 1 }").unwrap().needs_metadata());
    assert!(compile("{ x = a[1 + a[.type]] }").unwrap().needs_metadata());
    assert!(compile("1 { } .name == \"a\" { } { x = 1 - .nlink }").unwrap().needs_metadata());
    // BEGIN and END have no file, so what they mention needs no metadata.
    assert!(!compile("begin { print .size } end { print .size }").unwrap().needs_metadata());
}

#[test]
fn a_program_that_mentions_no_metadata_runs_the_same_without_it() {
    let prog = ".name == \"file\" { n += 1; a[.path] = n; print .name, .path, n } end { print a }";
    let mut with = compile(prog).unwrap();
    let mut without = compile(prog).unwrap();
    assert!(!with.needs_metadata());
    let f = FileState::new("dir/file".to_string(), Some(sample()));
    let g = FileState::new("dir/file".to_string(), None);
    let mut h = FileState::new("dir/file".to_string(), None);
    h.set_metadata(Err(std::io::ErrorKind::NotFound));
    with.run(&f).unwrap();
    without.run(&g).unwrap();
    let expected = b"file dir/file 1\ndir/file: 1\n".to_vec();
    assert_eq!(with.prog_state.take_output(), expected);
    assert_eq!(without.prog_state.take_output(), expected);
    let mut failed = compile(prog).unwrap();
    failed.run(&h).unwrap();
    assert_eq!(failed.prog_state.take_output(), expected);
}

#[test]
fn special_attributes_print_by_their_kind() {
    let mut program = compile("{ print .mode, .owner, .ino, .type, .size }").unwrap();
    let f = FileState::new("dir/file".to_string(), Some(sample()));
    program.run(&f).unwrap();
    assert_eq!(program.prog_state.take_output(), b"0o100644 1000 77 file 42\n".to_vec());
}

#[test]
fn special_attributes_compare_with_integers() {
    let mut program =
        compile(".owner == 1000 { print \"mine\" } .ino == 78 { print \"no\" }").unwrap();
    let f = FileState::new("dir/file".to_string(), Some(sample()));
    program.run(&f).unwrap();
    assert_eq!(program.prog_state.take_output(), b"mine\n".to_vec());
}
