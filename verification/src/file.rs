//! A file as the engine sees it: its path, its name, and the outcome of the
//! one `stat` call made for it, if any was made.

use vstd::prelude::*;
use vstd::string::*;

use crate::errors::{Error, ErrorView};
use crate::types::{Attribute, SpecialValue, SpecialValueKind, Value, ValueView};

verus! {

#[derive(Clone, Copy, Debug, PartialEq, Eq, Structural)]
pub enum FileType {
    Dir,
    File,
    Block,
    Char,
    Fifo,
    Socket,
    Unknown,
}

/// What `stat` tells of a file, as far as the language can ask for it.
#[derive(Clone, Copy, Debug, PartialEq, Eq, Structural)]
pub struct Metadata {
    pub size: i64,
    pub blocks: i64,
    pub blksize: i64,
    pub nlink: i64,
    pub atime: i64,
    pub mtime: i64,
    pub ctime: i64,
    pub ino: u64,
    pub dev: u64,
    pub rdev: u64,
    pub mode: u32,
    pub uid: u32,
    pub gid: u32,
    pub file_type: FileType,
}

impl Default for Metadata {
    /// An empty regular file with every number zero.
    fn default() -> (r: Metadata)
        ensures
            r == (Metadata {
                size: 0,
                blocks: 0,
                blksize: 0,
                nlink: 0,
                atime: 0,
                mtime: 0,
                ctime: 0,
                ino: 0,
                dev: 0,
                rdev: 0,
                mode: 0,
                uid: 0,
                gid: 0,
                file_type: FileType::File,
            }),
    {
        Metadata {
            size: 0,
            blocks: 0,
            blksize: 0,
            nlink: 0,
            atime: 0,
            mtime: 0,
            ctime: 0,
            ino: 0,
            dev: 0,
            rdev: 0,
            mode: 0,
            uid: 0,
            gid: 0,
            file_type: FileType::File,
        }
    }
}

pub struct FileState {
    path: String,
    name: String,
    /// A file's metadata is asked for at most once; `None` until then.
    md: Option<Result<Metadata, std::io::ErrorKind>>,
}

pub struct FileView {
    pub path: Seq<char>,
    pub name: Seq<char>,
    pub md: Option<Result<Metadata, std::io::ErrorKind>>,
}

impl View for FileState {
    type V = FileView;

    closed spec fn view(&self) -> FileView {
        FileView { path: self.path@, name: self.name@, md: self.md }
    }
}

pub open spec fn file_view(f: Option<&FileState>) -> Option<FileView> {
    match f {
        Some(fs) => Some(fs@),
        None => None,
    }
}

/// `Path::file_name` of the standard library: the last component of the
/// path, if the path has one that names a file or a directory, converted to
/// a string. Nothing is claimed of it.
#[verifier::external_body]
fn path_file_name(path: &str) -> (r: Option<String>) {
    match std::path::Path::new(path).file_name() {
        Some(name) => Some(name.to_string_lossy().into_owned()),
        None => None,
    }
}

pub open spec fn file_type_name(t: FileType) -> Seq<char> {
    match t {
        FileType::Dir => "dir"@,
        FileType::File => "file"@,
        FileType::Block => "block"@,
        FileType::Char => "char"@,
        FileType::Fifo => "fifo"@,
        FileType::Socket => "socket"@,
        FileType::Unknown => "unknown"@,
    }
}

/// The value of an attribute that is read from the metadata.
pub open spec fn metadata_value(a: Attribute, md: Metadata) -> ValueView {
    match a {
        Attribute::BlkSize => ValueView::Int(md.blksize as int),
        Attribute::Blocks => ValueView::Int(md.blocks as int),
        Attribute::Size => ValueView::Int(md.size as int),
        Attribute::NLink => ValueView::Int(md.nlink as int),
        Attribute::Atime => ValueView::Int(md.atime as int),
        Attribute::Mtime => ValueView::Int(md.mtime as int),
        Attribute::Ctime => ValueView::Int(md.ctime as int),
        Attribute::Ino => ValueView::Special(SpecialValueKind::Ino, md.ino as int),
        Attribute::Dev => ValueView::Special(SpecialValueKind::Devno, md.dev as int),
        Attribute::RDev => ValueView::Special(SpecialValueKind::Devno, md.rdev as int),
        Attribute::Mode => ValueView::Special(SpecialValueKind::Mode, md.mode as int),
        Attribute::Owner => ValueView::Special(SpecialValueKind::Uid, md.uid as int),
        Attribute::Group => ValueView::Special(SpecialValueKind::Uid, md.gid as int),
        _ => ValueView::String(file_type_name(md.file_type)),
    }
}

/// The value of an attribute. Outside a file there is none. The name and the
/// path are those of the file, whatever its metadata. Every other attribute is
/// read from the metadata: it is the failure of `stat` where that failed, and
/// there is nothing to read it from where no metadata was supplied.
pub open spec fn eval_attr(a: Attribute, f: Option<FileView>) -> Result<ValueView, ErrorView> {
    match f {
        None => Err(ErrorView::AttributeInBeginOrEnd),
        Some(fv) => match a {
            Attribute::Name => Ok(ValueView::String(fv.name)),
            Attribute::Path => Ok(ValueView::String(fv.path)),
            _ => match fv.md {
                Some(Ok(md)) => Ok(metadata_value(a, md)),
                Some(Err(kind)) => Err(ErrorView::IoError(kind)),
                None => Err(ErrorView::AttributeInBeginOrEnd),
            },
        },
    }
}

pub open spec fn eval_result_view(r: Result<Value, Error>) -> Result<ValueView, ErrorView> {
    match r {
        Ok(v) => Ok(v@),
        Err(e) => Err(e@),
    }
}

/// The content of the cell for metadata that is known from the start.
pub open spec fn known(md: Option<Metadata>) -> Option<Result<Metadata, std::io::ErrorKind>> {
    match md {
        Some(m) => Some(Ok(m)),
        None => None,
    }
}

/// Whether the outcome of `stat` that `after` holds and `before` did not
/// hold, if there is one, is what `stat` answered for the path of the file.
pub open spec fn answered<F: Fn(&String) -> Result<Metadata, std::io::ErrorKind>>(
    stat: &F,
    before: FileView,
    after: FileView,
) -> bool {
    before.md is None && after.md is Some ==> exists|path: &String|
        path@ == before.path && #[trigger] stat.ensures((path,), after.md->0)
}

impl FileState {
    /// A file at `path`. Its name is the last component of the path, or the
    /// whole path where it has none. If the metadata is already known, pass
    /// `Some(md)`; `None` leaves it to be supplied later.
    pub fn new(path: String, md: Option<Metadata>) -> (r: Self)
        ensures
            r@.path == path@,
            r@.md == known(md),
    {
        let file_name = path_file_name(path.as_str());
        Self::with_file_name(path, file_name, md)
    }

    /// A file at `path` whose last component is `file_name`, if it has one:
    /// the name of the file is that component, and else the whole path.
    pub fn with_file_name(path: String, file_name: Option<String>, md: Option<Metadata>) -> (r:
        Self)
        ensures
            r@ == (FileView {
                path: path@,
                name: match file_name {
                    Some(n) => n@,
                    None => path@,
                },
                md: known(md),
            }),
    {
        let name = match file_name {
            Some(n) => n,
            None => path.clone(),
        };
        let md = match md {
            Some(m) => Some(Ok(m)),
            None => None,
        };
        FileState { path, name, md }
    }

    /// A file with the given path and name, and the outcome of `stat` if it
    /// was already made.
    pub fn from_parts(
        path: String,
        name: String,
        md: Option<Result<Metadata, std::io::ErrorKind>>,
    ) -> (r: Self)
        ensures
            r@ == (FileView { path: path@, name: name@, md: md }),
    {
        FileState { path, name, md }
    }

    /// Records the outcome of `stat`. Only the first outcome is kept.
    pub fn set_metadata(&mut self, md: Result<Metadata, std::io::ErrorKind>)
        ensures
            final(self)@.path == old(self)@.path,
            final(self)@.name == old(self)@.name,
            final(self)@.md == (if old(self)@.md is Some {
                old(self)@.md
            } else {
                Some(md)
            }),
    {
        if self.md.is_none() {
            self.md = Some(md);
        }
    }

    /// Sees to it that the outcome of `stat` is known: if none is recorded,
    /// `stat` is asked for the file at the path, once, and what it answers is
    /// recorded. A file whose outcome is recorded is left as it is, and
    /// `stat` is not asked.
    pub fn stat_once<F: Fn(&String) -> Result<Metadata, std::io::ErrorKind>>(&mut self, stat: &F)
        requires
            forall|path: &String| stat.requires((path,)),
        ensures
            final(self)@.path == old(self)@.path,
            final(self)@.name == old(self)@.name,
            final(self)@.md is Some,
            old(self)@.md is Some ==> final(self)@.md == old(self)@.md,
            answered(stat, old(self)@, final(self)@),
    {
        if self.md.is_none() {
            let md = stat(&self.path);
            self.md = Some(md);
            proof {
                let path = &old(self).path;
                assert(path@ == old(self)@.path);
                assert(stat.ensures((path,), self@.md->0));
            }
        }
    }

    pub fn get_metadata(&self) -> (r: &Option<Result<Metadata, std::io::ErrorKind>>)
        ensures
            *r == self@.md,
    {
        &self.md
    }

    pub fn has_metadata(&self) -> (r: bool)
        ensures
            r == self@.md is Some,
    {
        self.md.is_some()
    }

    pub fn path(&self) -> (r: &String)
        ensures
            r@ == self@.path,
    {
        &self.path
    }

    pub fn name(&self) -> (r: &String)
        ensures
            r@ == self@.name,
    {
        &self.name
    }
}

impl Attribute {
    pub fn evaluate(&self, f: Option<&FileState>) -> (r: Result<Value, Error>)
        ensures
            eval_result_view(r) == eval_attr(*self, file_view(f)),
    {
        match f {
            Some(f) => self.evaluate_with_file(f),
            None => Err(Error::AttributeInBeginOrEnd),
        }
    }

    fn evaluate_with_file(&self, f: &FileState) -> (r: Result<Value, Error>)
        ensures
            eval_result_view(r) == eval_attr(*self, Some(f@)),
    {
        match self {
            Attribute::Name => Ok(Value::String(f.name.clone())),
            Attribute::Path => Ok(Value::String(f.path.clone())),
            _ => self.evaluate_needs_stat(f),
        }
    }

    fn evaluate_needs_stat(&self, f: &FileState) -> (r: Result<Value, Error>)
        requires
            *self != Attribute::Name,
            *self != Attribute::Path,
        ensures
            eval_result_view(r) == eval_attr(*self, Some(f@)),
    {
        let md = match f.get_metadata() {
            Some(Ok(md)) => md,
            Some(Err(kind)) => {
                return Err(Error::IoError(*kind));
            },
            None => {
                return Err(Error::AttributeInBeginOrEnd);
            },
        };
        Ok(
            match self {
                Attribute::BlkSize => Value::Int(md.blksize),
                Attribute::Blocks => Value::Int(md.blocks),
                Attribute::Ino => SpecialValue::new(md.ino, SpecialValueKind::Ino),
                Attribute::Dev => SpecialValue::new(md.dev, SpecialValueKind::Devno),
                Attribute::RDev => SpecialValue::new(md.rdev, SpecialValueKind::Devno),
                Attribute::Mode => SpecialValue::new(md.mode as u64, SpecialValueKind::Mode),
                Attribute::Size => Value::Int(md.size),
                Attribute::NLink => Value::Int(md.nlink),
                Attribute::Owner => SpecialValue::new(md.uid as u64, SpecialValueKind::Uid),
                Attribute::Group => SpecialValue::new(md.gid as u64, SpecialValueKind::Uid),
                Attribute::Atime => Value::Int(md.atime),
                Attribute::Ctime => Value::Int(md.ctime),
                Attribute::Mtime => Value::Int(md.mtime),
                _ => Value::String(
                    match md.file_type {
                        FileType::Dir => "dir".to_owned(),
                        FileType::File => "file".to_owned(),
                        FileType::Block => "block".to_owned(),
                        FileType::Char => "char".to_owned(),
                        FileType::Fifo => "fifo".to_owned(),
                        FileType::Socket => "socket".to_owned(),
                        FileType::Unknown => "unknown".to_owned(),
                    },
                ),
            },
        )
    }
}

} // verus!
