//! The Postgres backend, run against a database in memory.

use std::collections::BTreeMap;

use locally_euclidean::blob::{BlobHandle, CompleteStep, HandleState, OpenMode, PollStep, MIB};
use locally_euclidean::errors::{FileCreateError, FileHandleError, FileOpenError};
use locally_euclidean::exchange::SeekFrom;
use locally_euclidean::postgres::{
    FileRow, InsertError, Interval, PostgresBucket, PostgresFileHandle,
};
use locally_euclidean::sql::{Arg, Statement};
use locally_euclidean::time::{TimeDelta, Timestamp};

/// A database that understands the statements of the backend.
#[derive(Default)]
struct Db {
    buckets: Vec<(u128, String, Option<TimeDelta>)>,
    files: Vec<(u128, u128, String, u32, String)>,
    blobs: BTreeMap<u32, Vec<u8>>,
}

const NOW: Timestamp = Timestamp { secs: 1_700_000_000, nanos: 5 };

fn text(arg: &Arg) -> &str {
    match arg {
        Arg::Text(text) => text,
        arg => panic!("{arg:?}"),
    }
}

fn uuid(arg: &Arg) -> u128 {
    match arg {
        Arg::Uuid(id) => *id,
        arg => panic!("{arg:?}"),
    }
}

impl Db {
    fn with_bucket() -> Db {
        let mut db = Db::default();
        db.create_bucket("bucket", None).unwrap();
        db
    }

    fn list_buckets(&self) -> Vec<String> {
        let statement = PostgresBucket::list_statement();
        assert_eq!(statement.sql, "select name from buckets");
        assert!(statement.args.is_empty());
        PostgresBucket::list(Ok(self.buckets.iter().map(|b| b.1.clone()).collect())).unwrap()
    }

    fn create_bucket(
        &mut self,
        name: &str,
        ttl: Option<TimeDelta>,
    ) -> Result<PostgresBucket, FileCreateError> {
        let statement = PostgresBucket::create_statement(name, ttl);
        assert_eq!(
            statement.sql,
            r#"insert into buckets (name, default_ttl) values ($1, $2) returning id as "id: BucketId""#
        );
        let name = text(&statement.args[0]).to_owned();
        assert!(matches!(statement.args[1], Arg::Interval(delta) if delta == ttl));
        let reply = if self.buckets.iter().any(|b| b.1 == name) {
            Err(InsertError::UniqueViolation)
        } else {
            let id = self.buckets.len() as u128 + 1;
            self.buckets.push((id, name, ttl));
            Ok(id)
        };
        PostgresBucket::create(reply, ttl)
    }

    fn bucket(&self, name: &str) -> Result<PostgresBucket, FileOpenError> {
        let statement = PostgresBucket::by_name_statement(name);
        assert_eq!(
            statement.sql,
            r#"select id as "id: BucketId", default_ttl from buckets where name = $1"#
        );
        let wanted = text(&statement.args[0]);
        let row = self.buckets.iter().find(|b| b.1 == wanted).map(|b| (b.0, None));
        PostgresBucket::bucket(PostgresBucket::by_name(Ok(row)))
    }

    fn open(&mut self, row: FileRow) -> Result<Handle<'_>, FileHandleError> {
        let statement = PostgresFileHandle::open_statement(&row);
        assert_eq!(statement.sql, "select lo_open($1, $2)");
        assert!(matches!(statement.args[1], Arg::Int(0x6_0000)));
        let oid = match statement.args[0] {
            Arg::Oid(oid) => oid,
            ref arg => panic!("{arg:?}"),
        };
        let handle = PostgresFileHandle::new(&row, Ok(Ok(Some(3))))?;
        let data = self.blobs[&oid].clone();
        Ok(Handle { db: self, handle, oid, data, offset: 0 })
    }

    fn file(&mut self, bucket: &PostgresBucket, name: &str) -> Result<Handle<'_>, FileOpenError> {
        let statement = bucket.file_statement(name);
        assert_eq!(
            statement.sql,
            r#"select id as "id: FileId", blob from files where bucket_id = $1 and filename = $2"#
        );
        let (id, name) = (uuid(&statement.args[0]), text(&statement.args[1]));
        let found = self.files.iter().find(|f| f.1 == id && f.2 == name);
        let row = PostgresBucket::file(Ok(found.map(|f| FileRow { id: f.0, blob: f.3 })))?;
        self.open(row).map_err(FileOpenError::from_handle_error)
    }

    fn create_file(
        &mut self,
        bucket: &PostgresBucket,
        name: &str,
    ) -> Result<Handle<'_>, FileCreateError> {
        let statement = bucket.create_file_statement(name, "text/html", NOW);
        assert_eq!(
            statement.sql,
            "insert into files (bucket_id, filename, delete_after, content_type, blob) \
             values ($1, $2, $3, $4, lo_create(0)) returning id as \"id: FileId\", blob"
        );
        let (id, name) = (uuid(&statement.args[0]), text(&statement.args[1]).to_owned());
        assert!(matches!(statement.args[2], Arg::Time(None)));
        let reply = if self.files.iter().any(|f| f.1 == id && f.2 == name) {
            Err(InsertError::UniqueViolation)
        } else {
            let n = self.files.len() as u32 + 1;
            let content_type = text(&statement.args[3]).to_owned();
            self.files.push((u128::from(n), id, name, n, content_type));
            self.blobs.insert(n, Vec::new());
            Ok(FileRow { id: u128::from(n), blob: n })
        };
        let row = PostgresBucket::create_file(reply)?;
        self.open(row).map_err(FileCreateError::from_handle_error)
    }
}

/// An open file in a transaction.
struct Handle<'a> {
    db: &'a mut Db,
    handle: PostgresFileHandle,
    oid: u32,
    data: Vec<u8>,
    offset: i64,
}

impl Handle<'_> {
    fn seek(&mut self, to: SeekFrom) -> u64 {
        let call = self.handle.blob.begin_seek(to).unwrap();
        assert_eq!(call.sql, "select lo_lseek64($1, $2, $3)");
        let (n, whence) = match (&call.args[1], &call.args[2]) {
            (Arg::BigInt(n), Arg::Int(whence)) => (*n, *whence),
            args => panic!("{args:?}"),
        };
        self.offset = match whence {
            0 => n,
            1 => self.offset + n,
            2 => self.data.len() as i64 + n,
            _ => panic!("{whence}"),
        };
        self.handle.blob.finish_seek(Ok(Some(self.offset))).unwrap()
    }

    fn append(&mut self, data: &[u8]) {
        self.seek(SeekFrom::End(0));
        let call = self.handle.blob.begin_write(data.to_vec()).unwrap();
        assert_eq!(call.sql, "select lowrite($1, $2)");
        match &call.args[1] {
            Arg::Bytes(bytes) => {
                self.data.truncate(self.offset as usize);
                self.data.extend_from_slice(bytes);
            }
            arg => panic!("{arg:?}"),
        }
        self.offset = self.data.len() as i64;
        let written = self.handle.blob.finish_write(Ok(Some(data.len() as i32))).unwrap();
        assert_eq!(written, data.len());
    }

    fn read(&mut self, room: usize) -> Vec<u8> {
        let call = self.handle.blob.begin_read(room).unwrap();
        assert_eq!(call.sql, "select loread($1, $2)");
        let count = match call.args[1] {
            Arg::Int(count) => count as usize,
            ref arg => panic!("{arg:?}"),
        };
        let start = self.offset as usize;
        let end = (start + count).min(self.data.len());
        self.offset = end as i64;
        self.handle.blob.finish_read(Ok(Some(self.data[start..end].to_vec())), room).unwrap()
    }

    fn commit(mut self) {
        let call = self.handle.blob.begin_shutdown().unwrap();
        assert_eq!(call.sql, "select lo_close($1)");
        self.handle.blob.finish_close(Ok(Some(0))).unwrap();
        self.db.blobs.insert(self.oid, self.data);
        self.handle.blob.finish_commit(Ok(())).unwrap();
    }
}

fn only_int(statement: &Statement) -> i32 {
    match statement.args[..] {
        [Arg::Int(n)] => n,
        ref args => panic!("{args:?}"),
    }
}

#[test]
fn mod_test_lists_buckets() {
    let mut db = Db::default();
    assert!(db.list_buckets().is_empty());

    db.create_bucket("bukkit", None).unwrap();

    assert_eq!(db.list_buckets(), vec!["bukkit"]);
}

#[test]
fn mod_test_bucket_create_file_once() {
    let mut db = Db::with_bucket();

    assert!(matches!(db.bucket("nonexistent"), Err(FileOpenError::DoesNotExist)));
    let bucket = db.bucket("bucket").unwrap();

    assert!(matches!(db.file(&bucket, "meow"), Err(FileOpenError::DoesNotExist)));

    {
        let mut handle = db.create_file(&bucket, "meow").unwrap();
        handle.append(b"meow");
        handle.append(b"awoo");
        handle.seek(SeekFrom::Start(2));
        assert_eq!(handle.read(4), b"owaw");
        handle.commit();
    }

    assert!(matches!(db.create_file(&bucket, "meow"), Err(FileCreateError::FileExists)));

    {
        let mut handle = db.file(&bucket, "meow").unwrap();
        assert_eq!(handle.read(100), b"meowawoo");
    }
}

#[test]
fn mod_test_directories() {
    let mut db = Db::with_bucket();

    let bucket = db.bucket("bucket").unwrap();
    {
        let mut file = db.create_file(&bucket, "meow/kitty").unwrap();
        file.append(b"data");
        file.commit();
    }

    {
        let mut file = db.file(&bucket, "meow/kitty").unwrap();
        assert_eq!(file.read(100), b"data");
    }
}

#[test]
fn a_handle_that_is_not_committed_changes_nothing() {
    let mut db = Db::with_bucket();
    let bucket = db.bucket("bucket").unwrap();
    db.create_file(&bucket, "meow").unwrap().append(b"data");
    assert_eq!(db.file(&bucket, "meow").unwrap().read(100), b"");
}

#[test]
fn a_bucket_exists_once() {
    let mut db = Db::with_bucket();
    assert!(matches!(db.create_bucket("bucket", None), Err(FileCreateError::FileExists)));
}

#[test]
fn time_to_live() {
    let day = TimeDelta { secs: 86_400, nanos: 0 };
    let bucket = PostgresBucket::create(Ok(7), Some(day)).unwrap();
    assert_eq!(bucket, PostgresBucket { id: 7, default_ttl: Some(day) });
    let statement = bucket.create_file_statement("f", "text/plain", NOW);
    let later = Timestamp { secs: 1_700_086_400, nanos: 5 };
    assert!(matches!(statement.args[2], Arg::Time(Some(at)) if at == later));

    let interval = Interval { months: 2, days: -1, microseconds: 1_500_000 };
    let bucket = PostgresBucket::by_name(Ok(Some((7, Some(interval))))).unwrap().unwrap();
    let delta = TimeDelta { secs: 59 * 86_400 + 1, nanos: 500_000_000 };
    assert_eq!(bucket, PostgresBucket { id: 7, default_ttl: Some(delta) });
}

#[test]
fn failed_queries() {
    let no = || "no".to_owned();
    assert_eq!(
        PostgresBucket::by_name(Err(no())).unwrap_err().message(),
        "Failed bucket query \"select id as \\\"id: BucketId\\\", default_ttl from buckets \
         where name = $1\": no"
    );
    let e = PostgresBucket::bucket(PostgresBucket::by_name(Err(no()))).unwrap_err();
    assert!(e.message().starts_with("Unknown file open error: Failed bucket query \"select id"));
    assert_eq!(
        PostgresBucket::list(Err(no())).unwrap_err().message(),
        "Failed bucket query \"select name from buckets\": no"
    );
    assert_eq!(
        PostgresBucket::create(Err(InsertError::Other(no())), None).unwrap_err().message(),
        "Unknown file create error: Failed bucket query \"insert into buckets (name, default_ttl) \
         values ($1, $2) returning id as \\\"id: BucketId\\\"\": no"
    );
    assert_eq!(
        PostgresBucket::file(Err(no())).unwrap_err().message(),
        "Unknown file open error: Failed bucket query \"select id as \\\"id: FileId\\\", blob \
         from files where bucket_id = $1 and filename = $2\": no"
    );
    let e = PostgresBucket::create_file(Err(InsertError::Other(no()))).unwrap_err();
    assert!(e.message().starts_with(
        "Unknown file create error: Failed bucket query \"insert into files (bucket_id, filename, "
    ));
    assert_eq!(
        PostgresFileHandle::metadata(Err(no())).unwrap_err().message(),
        "Failed file handle query \"select updated_at, content_type from files where id = $1\": no"
    );
}

#[test]
fn file_metadata() {
    let row = FileRow { id: 9, blob: 1 };
    let handle = PostgresFileHandle::new(&row, Ok(Ok(Some(3)))).unwrap();
    assert_eq!(handle.id, 9);
    let statement = PostgresFileHandle::metadata_statement(handle.id);
    assert_eq!(statement.sql, "select updated_at, content_type from files where id = $1");
    assert!(matches!(statement.args[..], [Arg::Uuid(9)]));
    let found = PostgresFileHandle::metadata(Ok((NOW, "text/html".to_owned()))).unwrap();
    assert_eq!(found.last_modified_at, NOW);
    assert_eq!(found.content_type, "text/html");
}

#[test]
fn open_modes() {
    assert_eq!(OpenMode::Read.bits(), 0x0002_0000);
    assert_eq!(OpenMode::ReadWrite.bits(), 0x0002_0000 | 0x0004_0000);
    let statement = BlobHandle::open_statement(77, OpenMode::Read);
    assert!(matches!(statement.args[..], [Arg::Oid(77), Arg::Int(0x2_0000)]));
}

#[test]
fn opening_a_blob() {
    let no = || "no".to_owned();
    let handle = BlobHandle::open(Ok(Ok(Some(5)))).unwrap();
    assert_eq!((handle.inner, handle.state, handle.position), (Some(5), None, 0));
    let e = BlobHandle::open(Err(no())).unwrap_err();
    assert!(matches!(&e, FileHandleError::TransactionBeginFailed(what, _) if what == "lo_open"));
    assert_eq!(e.message(), "Failed to acquire transaction");
    assert_eq!(
        BlobHandle::open(Ok(Err(no()))).unwrap_err().message(),
        "Failed file handle query \"select lo_open($1, $2)\": no"
    );
    assert_eq!(
        BlobHandle::open(Ok(Ok(None))).unwrap_err().message(),
        "Empty result from lo_open"
    );
    let e = FileOpenError::from_handle_error(FileHandleError::EmptyOpen);
    assert_eq!(e.message(), "Unknown file open error: Empty result from lo_open");
    let e = FileCreateError::from_handle_error(FileHandleError::EmptyOpen);
    assert_eq!(e.message(), "Unknown file create error: Empty result from lo_open");
}

#[test]
fn seeking() {
    let mut handle = BlobHandle::open(Ok(Ok(Some(5)))).unwrap();
    for (to, n, whence) in [
        (SeekFrom::Start(9), 9, 0),
        (SeekFrom::Start(u64::MAX), -1, 0),
        (SeekFrom::Start(1 << 63), i64::MIN, 0),
        (SeekFrom::Current(-4), -4, 1),
        (SeekFrom::End(-2), -2, 2),
    ] {
        let call = handle.begin_seek(to).unwrap();
        assert!(matches!(
            call.args[..],
            [Arg::Int(5), Arg::BigInt(a), Arg::Int(b)] if (a, b) == (n, whence)
        ));
    }
    assert_eq!(handle.finish_seek(Ok(Some(12))).unwrap(), 12);
    assert_eq!(handle.position, 12);
    handle.begin_seek(SeekFrom::Start(1)).unwrap();
    assert_eq!(handle.finish_seek(Ok(None)).unwrap_err().message(), "Empty result from lo_lseek64");
    assert_eq!(handle.position, 12);
    handle.begin_seek(SeekFrom::Start(1)).unwrap();
    assert_eq!(
        handle.finish_seek(Err("no".to_owned())).unwrap_err().message(),
        "Failed file handle query \"select lo_lseek64($1, $2, $3)\": no"
    );
    assert_eq!(handle.position, 12);
}

#[test]
fn completing_a_seek() {
    let mut handle = BlobHandle::open(Ok(Ok(Some(5)))).unwrap();
    assert!(matches!(handle.poll_complete(), CompleteStep::Ready(Ok(0))));
    handle.begin_seek(SeekFrom::Start(7)).unwrap();
    assert!(matches!(handle.poll_complete(), CompleteStep::Await));
    handle.finish_seek(Ok(Some(7))).unwrap();
    assert!(matches!(handle.poll_complete(), CompleteStep::Ready(Ok(7))));
    // Reads, writes and failed seeks do not change the position.
    handle.begin_read(4).unwrap();
    assert!(matches!(handle.poll_complete(), CompleteStep::Cancelled));
    handle.finish_read(Ok(Some(b"meow".to_vec())), 4).unwrap();
    assert!(matches!(handle.poll_complete(), CompleteStep::Ready(Ok(7))));
    handle.begin_write(b"meow".to_vec()).unwrap();
    handle.finish_write(Ok(Some(4))).unwrap();
    handle.begin_seek(SeekFrom::Start(9)).unwrap();
    assert!(handle.finish_seek(Err("no".to_owned())).is_err());
    for _ in 0..2 {
        assert!(matches!(handle.poll_complete(), CompleteStep::Ready(Ok(7))));
    }
}

#[test]
fn position_of_a_blob() {
    let mut db = Db::with_bucket();
    let bucket = db.bucket("bucket").unwrap();
    let mut handle = db.create_file(&bucket, "meow").unwrap();
    assert_eq!(handle.seek(SeekFrom::End(0)), 0);
    handle.append(b"meow");
    assert_eq!(handle.seek(SeekFrom::End(0)), 4);
    assert_eq!(handle.handle.blob.position, 4);
}

#[test]
fn modification_and_deletion() {
    assert!(PostgresFileHandle::touch_statement(9, b"").is_none());
    let statement = PostgresFileHandle::touch_statement(9, b"x").unwrap();
    assert_eq!(statement.sql, "update files set updated_at = now() where id = $1");
    assert!(matches!(statement.args[..], [Arg::Uuid(9)]));

    let statement = PostgresBucket::delete_old_files_statement();
    assert_eq!(
        statement.sql,
        "delete from files where id in (select id from files where delete_after < now() \
         limit 100) returning lo_unlink(blob)"
    );
    assert!(statement.args.is_empty());
}

#[test]
fn reading_and_writing() {
    let mut handle = BlobHandle::open(Ok(Ok(Some(5)))).unwrap();
    for (room, count) in [(0, 0), (1, 1), (8 * MIB, 16_777_216), (8 * MIB + 1, 16_777_216)] {
        let call = handle.begin_read(room).unwrap();
        assert!(matches!(call.args[..], [Arg::Int(5), Arg::Int(n)] if n == count));
        assert_eq!(handle.finish_read(Ok(Some(Vec::new())), room).unwrap(), b"");
    }
    handle.begin_read(1).unwrap();
    let e = handle.finish_read(Ok(None), 1).unwrap_err();
    assert_eq!(e.message(), "Empty result from loread");
    handle.begin_read(1).unwrap();
    let e = handle.finish_read(Err("no".to_owned()), 1).unwrap_err();
    assert_eq!(e.message(), "Failed file handle query \"select loread($1, $2)\": no");

    handle.begin_write(b"a".to_vec()).unwrap();
    let e = handle.finish_write(Ok(None)).unwrap_err();
    assert_eq!(e.message(), "Empty result from lowrite");
    handle.begin_write(b"a".to_vec()).unwrap();
    let e = handle.finish_write(Err("no".to_owned())).unwrap_err();
    assert_eq!(e.message(), "Failed file handle query \"select lowrite($1, $2)\": no");
}

#[test]
fn one_operation_at_a_time() {
    let mut handle = BlobHandle::open(Ok(Ok(Some(5)))).unwrap();
    assert_eq!(handle.poll(HandleState::Reading), PollStep::Begin);
    handle.begin_read(1).unwrap();
    assert_eq!(handle.poll(HandleState::Reading), PollStep::Await);
    assert_eq!(handle.poll(HandleState::Writing), PollStep::Cancelled);
    // A seek takes over.
    handle.begin_seek(SeekFrom::End(0)).unwrap();
    assert_eq!(handle.poll(HandleState::Seeking), PollStep::Await);
    assert_eq!(handle.poll(HandleState::Reading), PollStep::Cancelled);
    handle.finish_seek(Ok(Some(0))).unwrap();
    assert_eq!(handle.poll(HandleState::Writing), PollStep::Begin);
}

#[test]
fn a_handle_that_is_shut_down() {
    let mut handle = BlobHandle::open(Ok(Ok(Some(5)))).unwrap();
    assert_eq!(only_int(&handle.begin_shutdown().unwrap()), 5);
    assert_eq!(handle.poll(HandleState::ShuttingDown), PollStep::Await);
    handle.finish_close(Ok(Some(0))).unwrap();
    assert_eq!(handle.poll(HandleState::ShuttingDown), PollStep::Await);
    handle.finish_commit(Ok(())).unwrap();

    let message = "Calling methods on a shutdown handle";
    assert_eq!(handle.begin_read(1).unwrap_err().message(), message);
    assert!(handle.begin_seek(SeekFrom::Start(0)).is_none());
    match handle.poll_complete() {
        CompleteStep::Ready(answer) => assert_eq!(answer.unwrap_err().message(), message),
        step => panic!("{step:?}"),
    }
    assert!(matches!(handle.poll_complete(), CompleteStep::Ready(Ok(0))));
    assert_eq!(handle.begin_write(Vec::new()).unwrap_err().message(), message);
    assert_eq!(handle.begin_shutdown().unwrap_err().message(), message);
    assert_eq!(handle.poll(HandleState::Reading), PollStep::Begin);
}

#[test]
fn shutdowns_that_fail() {
    let shutting_down = || {
        let mut handle = BlobHandle::open(Ok(Ok(Some(5)))).unwrap();
        handle.begin_shutdown().unwrap();
        handle
    };
    let mut handle = shutting_down();
    let e = handle.finish_close(Ok(None)).unwrap_err();
    assert_eq!(e.message(), "Empty result from lo_close");
    assert_eq!(handle.state, None);
    let e = shutting_down().finish_close(Err("no".to_owned())).unwrap_err();
    assert_eq!(e.message(), "Failed file handle query \"select lo_close($1)\": no");
    let mut handle = shutting_down();
    handle.finish_close(Ok(Some(0))).unwrap();
    let e = handle.finish_commit(Err("no".to_owned())).unwrap_err();
    assert!(matches!(&e, FileHandleError::TransactionCommitFailed(what, _) if what == "lo_close"));
    assert_eq!(e.message(), "Failed to acquire transaction");
}
