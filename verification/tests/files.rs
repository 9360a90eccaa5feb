//! The filesystem backend, run against a directory tree in memory.

use std::collections::{BTreeMap, BTreeSet};

use locally_euclidean::dirs::{CreateDirAll, DirAction, DirEvent, MkdirReply};
use locally_euclidean::errors::{FileCreateError, FileOpenError, FilePathError};
use locally_euclidean::exchange::SeekFrom;
use locally_euclidean::file_backend::{
    attr_bytes, content_type, get_attr, list_buckets, metadata, set_attr, xattr_name, BucketLookup, DirEntry,
    DirOpenError, FileBackend, FileOpening, OpenAction, OpenEvent, OpenFailure, OpenReply, OpenStep,
};
use locally_euclidean::path::FilePath;
use locally_euclidean::time::Timestamp;

const NOENT: &str = "No such file or directory (os error 2)";

/// A bucket's directory.
#[derive(Default)]
struct Disk {
    dirs: BTreeSet<String>,
    files: BTreeMap<String, MemFile>,
    now: i64,
    /// The calls that were made.
    calls: Vec<String>,
}

#[derive(Default)]
struct MemFile {
    data: Vec<u8>,
    modified: i64,
    attrs: BTreeMap<String, Vec<u8>>,
}

/// An open file.
struct Handle<'a> {
    disk: &'a mut Disk,
    path: String,
    position: u64,
}

fn parent(path: &str) -> &str {
    path.rsplit_once('/').map_or("", |(dir, _)| dir)
}

impl Disk {
    fn is_dir(&self, path: &str) -> bool {
        path.is_empty() || self.dirs.contains(path)
    }

    /// What is missing on the way to a path, or in the way.
    fn lookup(&self, dir: &str) -> Result<(), OpenReply> {
        let mut here = String::new();
        for name in dir.split('/').filter(|name| !name.is_empty()) {
            if !here.is_empty() {
                here.push('/');
            }
            here.push_str(name);
            if self.files.contains_key(&here) {
                return Err(OpenReply::Failed("Not a directory (os error 20)".to_owned()));
            }
            if !self.dirs.contains(&here) {
                return Err(OpenReply::NotFound(NOENT.to_owned()));
            }
        }
        Ok(())
    }

    fn openat(&mut self, path: &str, create: bool) -> OpenReply {
        self.calls.push(format!("openat {path:?} {create}"));
        if path.is_empty() {
            return OpenReply::NotFound(NOENT.to_owned());
        }
        if let Err(reply) = self.lookup(parent(path)) {
            return reply;
        }
        if create {
            if self.files.contains_key(path) || self.dirs.contains(path) {
                return OpenReply::Exists("File exists (os error 17)".to_owned());
            }
            let file = MemFile { modified: self.now, ..MemFile::default() };
            self.files.insert(path.to_owned(), file);
            OpenReply::Opened
        } else if self.files.contains_key(path) {
            OpenReply::Opened
        } else if self.dirs.contains(path) {
            OpenReply::Failed("Is a directory (os error 21)".to_owned())
        } else {
            OpenReply::NotFound(NOENT.to_owned())
        }
    }

    fn mkdir(&mut self, path: &str) -> MkdirReply {
        self.calls.push(format!("mkdir {path:?}"));
        if self.dirs.contains(path) || self.files.contains_key(path) {
            return MkdirReply::Failed("File exists (os error 17)".to_owned());
        }
        match self.lookup(parent(path)) {
            Ok(()) => {
                self.dirs.insert(path.to_owned());
                MkdirReply::Made
            }
            Err(OpenReply::NotFound(e)) => MkdirReply::NotFound(e),
            Err(OpenReply::Failed(e)) => MkdirReply::Failed(e),
            Err(other) => panic!("{other:?}"),
        }
    }

    fn create_dir_all(&mut self, path: &FilePath) -> Result<(), String> {
        let (mut machine, mut action) = CreateDirAll::start(path.len());
        loop {
            let event = match action {
                DirAction::Mkdir(n) => DirEvent::Mkdir(self.mkdir(&path.prefix_text(n))),
                DirAction::IsDir(n) => DirEvent::IsDir(self.is_dir(&path.prefix_text(n))),
                DirAction::Finish(result) => return result,
            };
            action = machine.step(event);
        }
    }

    fn run(&mut self, start: (FileOpening, OpenAction)) -> Result<(), OpenFailure> {
        let (mut opening, mut action) = start;
        loop {
            let event = match action {
                OpenAction::OpenAt { create } => {
                    OpenEvent::OpenAt(self.openat(&opening.path.to_text(), create))
                }
                OpenAction::MakeParents => {
                    let parent = opening.path.parent().unwrap();
                    OpenEvent::Parents(Ok(self.create_dir_all(&parent)))
                }
                OpenAction::Fstat => OpenEvent::Stat(Ok(42)),
                OpenAction::Lock(inode) => {
                    self.calls.push(format!("lock {inode}"));
                    OpenEvent::Locked
                }
                OpenAction::Dup => OpenEvent::Dup(Ok(())),
            };
            match opening.step(event) {
                OpenStep::Perform(next) => action = next,
                OpenStep::Finish(result) => return result,
            }
        }
    }

    fn file(&mut self, name: &str) -> Result<Handle<'_>, FileOpenError> {
        let start = FileOpening::file(name)?;
        let path = start.0.path.to_text();
        self.run(start).map_err(|e| e.to_open_error())?;
        Ok(Handle { disk: self, path, position: 0 })
    }

    fn create_file(&mut self, name: &str) -> Result<Handle<'_>, FileCreateError> {
        let start = FileOpening::create_file(name)?;
        let path = start.0.path.to_text();
        self.run(start).map_err(|e| e.to_create_error())?;
        Ok(Handle { disk: self, path, position: 0 })
    }
}

impl Handle<'_> {
    fn mem(&mut self) -> &mut MemFile {
        self.disk.files.get_mut(&self.path).unwrap()
    }

    fn append(&mut self, data: &[u8]) {
        let now = self.disk.now;
        let file = self.mem();
        file.data.extend_from_slice(data);
        file.modified = now;
        self.position = self.mem().data.len() as u64;
    }

    fn seek(&mut self, to: SeekFrom) -> u64 {
        let length = self.mem().data.len() as i64;
        self.position = match to {
            SeekFrom::Start(n) => n,
            SeekFrom::End(n) => (length + n) as u64,
            SeekFrom::Current(n) => (self.position as i64 + n) as u64,
        };
        self.position
    }

    fn read(&mut self, count: usize) -> Vec<u8> {
        let start = self.position as usize;
        let end = (start + count).min(self.mem().data.len());
        self.position = end as u64;
        self.mem().data[start..end].to_vec()
    }

    fn last_modified_at(&mut self) -> Timestamp {
        metadata(Ok(Timestamp { secs: self.mem().modified, nanos: 0 })).unwrap()
    }
}

/// Gets a bucket of a backend whose directories are `dirs`.
fn bucket(backend: &mut FileBackend, dirs: &[&str], name: &str) -> Result<usize, FileOpenError> {
    match backend.bucket(name)? {
        BucketLookup::Open(number) => Ok(number),
        BucketLookup::Unopened => {
            let result = if dirs.contains(&name) { Ok(()) } else { Err(DirOpenError::NotFound) };
            backend.opened(name, result)
        }
    }
}

#[test]
fn file_backend_test_lists_buckets() {
    assert!(list_buckets(&Vec::new()).is_empty());

    let entries = vec![DirEntry { is_dir: true, name: Some("bukkit".to_owned()) }];
    assert_eq!(list_buckets(&entries), vec!["bukkit"]);
}

#[test]
fn lists_only_directories_with_readable_names() {
    let entries = vec![
        DirEntry { is_dir: true, name: Some("b".to_owned()) },
        DirEntry { is_dir: false, name: Some("file".to_owned()) },
        DirEntry { is_dir: true, name: None },
        DirEntry { is_dir: false, name: None },
        DirEntry { is_dir: true, name: Some("a".to_owned()) },
    ];
    assert_eq!(list_buckets(&entries), vec!["b", "a"]);
}

#[test]
fn file_backend_test_bucket_create_file_once() {
    let mut backend = FileBackend::new();
    let dirs = ["bucket"];
    assert!(matches!(
        bucket(&mut backend, &dirs, "nonexistent"),
        Err(FileOpenError::DoesNotExist)
    ));
    assert_eq!(bucket(&mut backend, &dirs, "bucket").unwrap(), 0);

    let mut disk = Disk::default();
    assert!(matches!(disk.file("meow"), Err(FileOpenError::DoesNotExist)));

    {
        let mut handle = disk.create_file("meow").unwrap();
        handle.append(b"meow");
        handle.append(b"awoo");
        handle.seek(SeekFrom::Start(2));
        assert_eq!(handle.read(4), b"owaw");
    }

    assert!(matches!(disk.create_file("meow"), Err(FileCreateError::FileExists)));

    {
        let mut handle = disk.file("meow").unwrap();
        assert_eq!(handle.read(100), b"meowawoo");
    }
}

#[test]
fn file_backend_test_directories() {
    let mut disk = Disk::default();
    {
        let mut file = disk.create_file("meow/kitty").unwrap();
        file.append(b"data");
    }
    {
        let mut file = disk.file("meow/kitty").unwrap();
        assert_eq!(file.read(100), b"data");
    }
    assert_eq!(
        disk.calls,
        vec![
            "openat \"meow/kitty\" true",
            "mkdir \"meow\"",
            "openat \"meow/kitty\" true",
            "lock 42",
            "openat \"meow/kitty\" false",
            "lock 42",
        ]
    );
}

#[test]
fn test_attrs() {
    let mut disk = Disk::default();
    let mut handle = disk.create_file("meow").unwrap();

    let bytes = attr_bytes("kbity");
    handle.mem().attrs.insert(xattr_name("meow"), bytes);
    assert!(set_attr(Ok(Ok(()))).is_ok());
    let found = handle.mem().attrs.get("user.com.mercury.locally-euclidean.meow").cloned();
    assert_eq!(get_attr(Ok(Ok(found))).unwrap(), Some("kbity".to_owned()));
}

#[test]
fn test_position() {
    let mut disk = Disk::default();
    let mut handle1 = disk.create_file("meow").unwrap();

    let size = handle1.seek(SeekFrom::End(0));
    assert_eq!(size, 0);

    handle1.append(b"meow");

    let size = handle1.seek(SeekFrom::End(0));
    assert_eq!(size, 4);
}

#[test]
fn test_file_metadata_plausible() {
    let mut disk = Disk::default();
    let first = disk.create_file("meow").unwrap().last_modified_at();
    disk.now = 100;
    let second = disk.file("meow").unwrap().last_modified_at();
    assert_eq!(first, second, "no modification means the time does not change");

    disk.file("meow").unwrap().append(b"meow!");
    let third = disk.file("meow").unwrap().last_modified_at();
    assert!(third.secs > second.secs, "modifying a file advances the timestamp");
}

#[test]
fn deep_directories_are_made() {
    let mut disk = Disk::default();
    assert!(disk.create_file("a/b/c/d").is_ok());
    let made: Vec<&str> = disk.dirs.iter().map(|dir| dir.as_str()).collect();
    assert_eq!(made, vec!["a", "a/b", "a/b/c"]);
    assert!(disk.create_file("a/b/x/y").is_ok());
    assert!(disk.dirs.contains("a/b/x"));
}

#[test]
fn a_file_in_the_way_of_a_directory() {
    let mut disk = Disk::default();
    assert!(disk.create_file("a").is_ok());
    let e = disk.create_file("a/b").err().unwrap();
    assert_eq!(
        e.message(),
        "Unknown file create error: error calling openat: Not a directory (os error 20)"
    );
    let path = FilePath::make_acceptable_filepath("a").unwrap();
    assert_eq!(disk.create_dir_all(&path).unwrap_err(), "File exists (os error 17)");
    let path = FilePath::make_acceptable_filepath("a/b").unwrap();
    assert_eq!(disk.create_dir_all(&path).unwrap_err(), "Not a directory (os error 20)");
}

#[test]
fn directories_that_are_there_are_no_error() {
    let mut disk = Disk::default();
    let path = FilePath::make_acceptable_filepath("a/b").unwrap();
    assert!(disk.create_dir_all(&path).is_ok());
    assert!(disk.create_dir_all(&path).is_ok());
    let empty = FilePath::make_acceptable_filepath("").unwrap();
    disk.calls.clear();
    assert!(disk.create_dir_all(&empty).is_ok());
    assert!(disk.calls.is_empty());
}

#[test]
fn a_directory_made_meanwhile_is_tried_again() {
    // The parent is missing all the way down, then appears.
    let (mut machine, action) = CreateDirAll::start(1);
    assert!(matches!(action, DirAction::Mkdir(1)));
    let action = machine.step(DirEvent::Mkdir(MkdirReply::NotFound("gone".to_owned())));
    assert!(matches!(action, DirAction::Mkdir(1)));
    let action = machine.step(DirEvent::Mkdir(MkdirReply::NotFound("gone".to_owned())));
    assert!(matches!(action, DirAction::IsDir(1)));
    let action = machine.step(DirEvent::IsDir(false));
    assert!(matches!(action, DirAction::Finish(Err(e)) if e == "gone"));
}

#[test]
fn names_that_are_no_paths() {
    let mut disk = Disk::default();
    for name in ["/etc/passwd", "../up", "a/../b", "./a", "nul\0"] {
        assert!(matches!(disk.file(name), Err(FileOpenError::InvalidName)));
        assert!(matches!(disk.create_file(name), Err(FileCreateError::InvalidName)));
    }
    assert!(disk.calls.is_empty());
    // Empty and current components in the middle do not count.
    assert!(disk.create_file("a//b/./c/").is_ok());
    assert!(disk.files.contains_key("a/b/c"));
    // The empty name is a path, but to nothing.
    assert!(matches!(disk.file(""), Err(FileOpenError::DoesNotExist)));
    let e = disk.create_file("").err().unwrap();
    assert_eq!(
        e.message(),
        "Unknown file create error: error calling openat: No such file or directory (os error 2)"
    );
}

#[test]
fn acceptable_paths() {
    let path = FilePath::make_acceptable_filepath("meow//kitty/.hidden/...").unwrap();
    assert_eq!(path.len(), 4);
    assert_eq!(path.to_text(), "meow/kitty/.hidden/...");
    assert_eq!(path.prefix_text(0), "");
    assert_eq!(path.prefix_text(2), "meow/kitty");
    assert_eq!(path.parent().unwrap().to_text(), "meow/kitty/.hidden");
    let again = FilePath::make_acceptable_filepath(&path.to_text()).unwrap();
    assert_eq!(again.to_text(), path.to_text());
    let single = FilePath::make_acceptable_filepath("meow").unwrap();
    assert_eq!(single.parent().unwrap().len(), 0);
    assert!(single.parent().unwrap().parent().is_none());

    let error = |name: &str| FilePath::make_acceptable_filepath(name).unwrap_err();
    assert_eq!(error("/a"), FilePathError::Absolute);
    assert_eq!(error("a/.."), FilePathError::DotDot);
    assert_eq!(error("."), FilePathError::DotDot);
    assert_eq!(error("/a\0"), FilePathError::InvalidChar);
}

#[test]
fn opening_reports_each_error() {
    let fail = |event: OpenEvent, from: OpenEvent| {
        let (mut opening, _) = FileOpening::create_file("a/b").unwrap();
        assert!(matches!(opening.step(from), OpenStep::Perform(_)));
        match opening.step(event) {
            OpenStep::Finish(Err(e)) => e.to_create_error().message(),
            step => panic!("{step:?}"),
        }
    };
    let e = || "oops".to_owned();
    let missing = || OpenEvent::OpenAt(OpenReply::NotFound(e()));
    assert_eq!(
        fail(OpenEvent::Parents(Ok(Err(e()))), missing()),
        "Unknown file create error: error calling create_dir_all: oops"
    );
    assert_eq!(
        fail(OpenEvent::Parents(Err(e())), missing()),
        "Unknown file create error: Tokio task join failed (BUG): oops"
    );
    assert_eq!(
        fail(OpenEvent::Stat(Err(e())), OpenEvent::OpenAt(OpenReply::Opened)),
        "Unknown file create error: error calling fstat: oops"
    );

    let (mut opening, action) = FileOpening::file("a").unwrap();
    assert_eq!(action, OpenAction::OpenAt { create: false });
    assert!(matches!(
        opening.step(OpenEvent::OpenAt(OpenReply::Opened)),
        OpenStep::Perform(OpenAction::Fstat)
    ));
    assert!(matches!(
        opening.step(OpenEvent::Stat(Ok(7))),
        OpenStep::Perform(OpenAction::Lock(7))
    ));
    assert!(matches!(opening.step(OpenEvent::Locked), OpenStep::Perform(OpenAction::Dup)));
    match opening.step(OpenEvent::Dup(Err(e()))) {
        OpenStep::Finish(Err(failure)) => assert_eq!(
            failure.to_open_error().message(),
            "Unknown file open error: error calling fcntl_dupfd_cloexec: oops"
        ),
        step => panic!("{step:?}"),
    }

    let (mut opening, _) = FileOpening::file("a").unwrap();
    match opening.step(OpenEvent::OpenAt(OpenReply::Exists(e()))) {
        OpenStep::Finish(Err(failure)) => assert_eq!(
            failure.to_open_error().message(),
            "Unknown file open error: error calling openat: oops"
        ),
        step => panic!("{step:?}"),
    }
}

#[test]
fn bucket_names() {
    let backend = FileBackend::new();
    for name in ["a/b", "/", "nul\0", ".", ".."] {
        assert!(matches!(backend.bucket(name), Err(FileOpenError::InvalidName)));
    }
    for name in ["a", "...", ".a", ""] {
        assert!(matches!(backend.bucket(name), Ok(BucketLookup::Unopened)));
    }
    // A name that is not empty is one directory.
    for name in ["a", "...", ".a", "a b"] {
        let path = FilePath::make_acceptable_filepath(name).unwrap();
        assert_eq!((path.len(), path.to_text()), (1, name.to_owned()));
    }
}

#[test]
fn buckets_are_opened_once() {
    let mut backend = FileBackend::new();
    let dirs = ["a", "b"];
    assert_eq!(bucket(&mut backend, &dirs, "a").unwrap(), 0);
    assert_eq!(bucket(&mut backend, &dirs, "b").unwrap(), 1);
    assert_eq!(bucket(&mut backend, &[], "a").unwrap(), 0);
    assert_eq!(bucket(&mut backend, &[], "b").unwrap(), 1);
    assert!(matches!(bucket(&mut backend, &dirs, "c"), Err(FileOpenError::DoesNotExist)));
    let other = Err(DirOpenError::Other("denied".to_owned()));
    assert_eq!(
        backend.opened("d", other).unwrap_err().message(),
        "Unknown file open error: denied"
    );
    assert!(matches!(backend.bucket("d"), Ok(BucketLookup::Unopened)));
}

#[test]
fn attributes() {
    assert_eq!(xattr_name("meow"), "user.com.mercury.locally-euclidean.meow");
    assert_eq!(attr_bytes("\u{e9}"), vec![0xc3, 0xa9]);
    assert_eq!(get_attr(Ok(Ok(None))).unwrap(), None);
    assert_eq!(content_type(None), "text/plain");
    assert_eq!(content_type(Some("text/html".to_owned())), "text/html");
    assert_eq!(get_attr(Ok(Ok(Some(vec![0xc3, 0xa9])))).unwrap(), Some("\u{e9}".to_owned()));
    assert_eq!(
        get_attr(Ok(Ok(Some(vec![b'a', 0xff])))).unwrap_err().message(),
        "Corrupt attribute data: could not decode UTF8: \
         invalid utf-8 sequence of 1 bytes from index 1"
    );
    assert_eq!(
        get_attr(Ok(Err("no".to_owned()))).unwrap_err().message(),
        "Failed to call get_xattr: no"
    );
    assert_eq!(
        get_attr(Err("no".to_owned())).unwrap_err().message(),
        "Tokio task join failed (BUG): no"
    );
    assert_eq!(
        set_attr(Ok(Err("no".to_owned()))).unwrap_err().message(),
        "Failed to call set_xattr: no"
    );
    assert_eq!(
        set_attr(Err("no".to_owned())).unwrap_err().message(),
        "Tokio task join failed (BUG): no"
    );
    assert_eq!(
        metadata(Err("no".to_owned())).unwrap_err().message(),
        "Failed to call tokio File::metadata: no"
    );
}
