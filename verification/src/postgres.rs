//! Postgres storage backend.
//!
//! This is *all* postgres: file data is stored in blobs. Here are the
//! statements and what their outcomes mean; running them is up to the caller.

use vstd::prelude::*;

use crate::blob;
use crate::blob::{BlobHandle, OpenMode};
use crate::errors::{BucketError, FileCreateError, FileHandleError, FileOpenError};
use crate::exchange::FileMetadata;
use crate::sql;
use crate::sql::{Arg, Statement, StatementView};
use crate::time;
use crate::time::{TimeDelta, Timestamp};

verus! {

/// A span of time as Postgres keeps it.
#[derive(Clone, Copy, Debug, PartialEq, Eq, Structural)]
pub struct Interval {
    pub months: i32,
    pub days: i32,
    pub microseconds: i64,
}

/// Why an insertion failed.
#[derive(Debug)]
pub enum InsertError<S = String> {
    /// There is a row with the same name already.
    UniqueViolation,
    Other(S),
}

impl View for InsertError<String> {
    type V = InsertError<Seq<char>>;

    open spec fn view(&self) -> InsertError<Seq<char>> {
        match self {
            InsertError::UniqueViolation => InsertError::UniqueViolation,
            InsertError::Other(e) => InsertError::Other(e@),
        }
    }
}

/// A file's row: its id and the blob that holds its data.
#[derive(Clone, Copy, Debug, PartialEq, Eq, Structural)]
pub struct FileRow {
    pub id: u128,
    pub blob: u32,
}

/// A bucket.
#[derive(Clone, Copy, Debug, PartialEq, Eq, Structural)]
pub struct PostgresBucket {
    pub id: u128,
    /// Default time after which files in this bucket will be deleted.
    pub default_ttl: Option<TimeDelta>,
}

/// Finds a bucket with the given name.
pub open spec fn by_name_call(name: Seq<char>) -> StatementView {
    Statement {
        sql: "select id as \"id: BucketId\", default_ttl from buckets where name = $1"@,
        args: seq![Arg::Text(name)],
    }
}

/// Lists all the bucket names on the system.
pub open spec fn list_call() -> StatementView {
    Statement { sql: "select name from buckets"@, args: seq![] }
}

/// Creates a bucket.
pub open spec fn create_call(name: Seq<char>, default_ttl: Option<TimeDelta>) -> StatementView {
    Statement {
        sql: "insert into buckets (name, default_ttl) values ($1, $2) returning id as \"id: BucketId\""@,
        args: seq![Arg::Text(name), Arg::Interval(default_ttl)],
    }
}

/// Finds a file in a bucket.
pub open spec fn file_call(bucket: u128, file_name: Seq<char>) -> StatementView {
    Statement {
        sql: "select id as \"id: FileId\", blob from files where bucket_id = $1 and filename = $2"@,
        args: seq![Arg::Uuid(bucket), Arg::Text(file_name)],
    }
}

/// Creates a file in a bucket, with an empty blob.
pub open spec fn create_file_call(
    bucket: u128,
    file_name: Seq<char>,
    delete_after: Option<Timestamp>,
    content_type: Seq<char>,
) -> StatementView {
    Statement {
        sql: "insert into files (bucket_id, filename, delete_after, content_type, blob) values ($1, $2, $3, $4, lo_create(0)) returning id as \"id: FileId\", blob"@,
        args: seq![
            Arg::Uuid(bucket),
            Arg::Text(file_name),
            Arg::Time(delete_after),
            Arg::Text(content_type),
        ],
    }
}

/// Retrieves a file's metadata.
pub open spec fn metadata_call(file: u128) -> StatementView {
    Statement {
        sql: "select updated_at, content_type from files where id = $1"@,
        args: seq![Arg::Uuid(file)],
    }
}

/// Notes that a file was modified.
pub open spec fn touch_call(file: u128) -> StatementView {
    Statement {
        sql: "update files set updated_at = now() where id = $1"@,
        args: seq![Arg::Uuid(file)],
    }
}

/// Deletes some of the files whose time is over, with their blobs.
pub open spec fn delete_old_files_call() -> StatementView {
    Statement {
        sql: "delete from files where id in (select id from files where delete_after < now() limit 100) returning lo_unlink(blob)"@,
        args: seq![],
    }
}

/// A failed query on buckets is none of the expected errors.
pub open spec fn bucket_query_failed(sql: Seq<char>, e: Seq<char>) -> Seq<char> {
    BucketError::QueryFailed(sql, e).text()
}

/// What an insertion by this statement came to: a row of that name that is
/// there already is told apart from other errors.
pub open spec fn insert_error(sql: Seq<char>, e: InsertError<Seq<char>>) -> FileCreateError<
    Seq<char>,
> {
    match e {
        InsertError::UniqueViolation => FileCreateError::FileExists,
        InsertError::Other(e) => FileCreateError::OtherError(bucket_query_failed(sql, e)),
    }
}

fn insert_failed(sql: &str, e: InsertError) -> (out: FileCreateError)
    ensures
        out@ == insert_error(sql@, e@),
{
    match e {
        InsertError::UniqueViolation => FileCreateError::FileExists,
        InsertError::Other(e) => FileCreateError::OtherError(
            BucketError::QueryFailed(sql.to_owned(), e).message(),
        ),
    }
}

impl PostgresBucket {
    /// The statement that finds a bucket with the given name.
    pub fn by_name_statement(name: &str) -> (out: Statement)
        ensures
            out@ == by_name_call(name@),
    {
        sql::statement1(
            "select id as \"id: BucketId\", default_ttl from buckets where name = $1",
            Arg::Text(name.to_owned()),
        )
    }

    /// Finds a bucket, given what the statement came to. A month counts as 30
    /// days.
    ///
    /// This is definitely *technically* wrong for months and days due to uneven
    /// month length and DST, but we don't care in this case because it's just
    /// for throwing away some build logs.
    pub fn by_name(reply: Result<Option<(u128, Option<Interval>)>, String>) -> (out: Result<
        Option<PostgresBucket>,
        BucketError,
    >)
        ensures
            match reply {
                Ok(Some((id, None))) => out == Ok::<Option<PostgresBucket>, BucketError>(
                    Some(PostgresBucket { id, default_ttl: None }),
                ),
                Ok(Some((id, Some(ttl)))) => {
                    &&& out matches Ok(Some(bucket))
                    &&& bucket.id == id
                    &&& bucket.default_ttl matches Some(delta)
                    &&& delta.wf()
                    &&& delta.total() == time::interval_nanos(
                        ttl.months,
                        ttl.days,
                        ttl.microseconds,
                    )
                },
                Ok(None) => out == Ok::<Option<PostgresBucket>, BucketError>(None),
                Err(failure) => out matches Err(e) && e@ == BucketError::QueryFailed(
                    by_name_call(seq![]).sql,
                    failure@,
                ),
            },
    {
        match reply {
            Ok(Some((id, ttl))) => Ok(
                Some(
                    PostgresBucket {
                        id,
                        default_ttl: match ttl {
                            Some(ttl) => Some(
                                time::interval_delta(ttl.months, ttl.days, ttl.microseconds),
                            ),
                            None => None,
                        },
                    },
                ),
            ),
            Ok(None) => Ok(None),
            Err(e) => Err(
                BucketError::QueryFailed(
                    "select id as \"id: BucketId\", default_ttl from buckets where name = $1".to_owned(),
                    e,
                ),
            ),
        }
    }

    /// Gets a bucket by name, given what looking for it came to. Fails if the
    /// bucket doesn't exist.
    pub fn bucket(found: Result<Option<PostgresBucket>, BucketError>) -> (out: Result<
        PostgresBucket,
        FileOpenError,
    >)
        ensures
            match found {
                Ok(Some(bucket)) => out == Ok::<PostgresBucket, FileOpenError>(bucket),
                Ok(None) => out matches Err(e) && e@ == FileOpenError::<Seq<char>>::DoesNotExist,
                Err(failure) => out matches Err(e) && e@ == FileOpenError::OtherError(
                    failure@.text(),
                ),
            },
    {
        match found {
            Ok(Some(bucket)) => Ok(bucket),
            Ok(None) => Err(FileOpenError::DoesNotExist),
            Err(e) => Err(FileOpenError::OtherError(e.message())),
        }
    }

    /// The statement that lists all the bucket names on the system.
    pub fn list_statement() -> (out: Statement)
        ensures
            out@ == list_call(),
    {
        let out = Statement { sql: "select name from buckets".to_owned(), args: Vec::new() };
        assert(out@.args =~= seq![]);
        out
    }

    /// Returns a list of all the bucket names on the system, given what the
    /// statement came to.
    pub fn list(reply: Result<Vec<String>, String>) -> (out: Result<Vec<String>, BucketError>)
        ensures
            match reply {
                Ok(names) => out == Ok::<Vec<String>, BucketError>(names),
                Err(failure) => out matches Err(e) && e@ == BucketError::QueryFailed(
                    list_call().sql,
                    failure@,
                ),
            },
    {
        match reply {
            Ok(names) => Ok(names),
            Err(e) => Err(BucketError::QueryFailed("select name from buckets".to_owned(), e)),
        }
    }

    /// The statement that deletes some of the files, of any bucket, whose time is
    /// over.
    pub fn delete_old_files_statement() -> (out: Statement)
        ensures
            out@ == delete_old_files_call(),
    {
        let out = Statement {
            sql: "delete from files where id in (select id from files where delete_after < now() limit 100) returning lo_unlink(blob)".to_owned(),
            args: Vec::new(),
        };
        assert(out@.args =~= seq![]);
        out
    }

    /// The statement that creates a bucket.
    pub fn create_statement(name: &str, default_ttl: Option<TimeDelta>) -> (out: Statement)
        ensures
            out@ == create_call(name@, default_ttl),
    {
        sql::statement2(
            "insert into buckets (name, default_ttl) values ($1, $2) returning id as \"id: BucketId\"",
            Arg::Text(name.to_owned()),
            Arg::Interval(default_ttl),
        )
    }

    /// Creates a bucket, given what the statement came to.
    pub fn create(reply: Result<u128, InsertError>, default_ttl: Option<TimeDelta>) -> (out: Result<
        PostgresBucket,
        FileCreateError,
    >)
        ensures
            match reply {
                Ok(id) => out == Ok::<PostgresBucket, FileCreateError>(
                    PostgresBucket { id, default_ttl },
                ),
                Err(failure) => out matches Err(e) && e@ == insert_error(
                    create_call(seq![], None).sql,
                    failure@,
                ),
            },
    {
        match reply {
            Ok(id) => Ok(PostgresBucket { id, default_ttl }),
            Err(e) => Err(
                insert_failed(
                    "insert into buckets (name, default_ttl) values ($1, $2) returning id as \"id: BucketId\"",
                    e,
                ),
            ),
        }
    }

    /// The statement that finds the given file.
    pub fn file_statement(&self, file_name: &str) -> (out: Statement)
        ensures
            out@ == file_call(self.id, file_name@),
    {
        sql::statement2(
            "select id as \"id: FileId\", blob from files where bucket_id = $1 and filename = $2",
            Arg::Uuid(self.id),
            Arg::Text(file_name.to_owned()),
        )
    }

    /// Finds the given file, given what the statement came to.
    pub fn file(reply: Result<Option<FileRow>, String>) -> (out: Result<FileRow, FileOpenError>)
        ensures
            match reply {
                Ok(Some(row)) => out == Ok::<FileRow, FileOpenError>(row),
                Ok(None) => out matches Err(e) && e@ == FileOpenError::<Seq<char>>::DoesNotExist,
                Err(failure) => out matches Err(e) && e@ == FileOpenError::OtherError(
                    bucket_query_failed(file_call(0, seq![]).sql, failure@),
                ),
            },
    {
        match reply {
            Ok(Some(row)) => Ok(row),
            Ok(None) => Err(FileOpenError::DoesNotExist),
            Err(e) => Err(
                FileOpenError::OtherError(
                    BucketError::QueryFailed(
                        "select id as \"id: FileId\", blob from files where bucket_id = $1 and filename = $2".to_owned(),
                        e,
                    ).message(),
                ),
            ),
        }
    }

    /// The statement that creates the given file. It is to be deleted when the
    /// bucket's time, if it has one, is over.
    pub fn create_file_statement(
        &self,
        file_name: &str,
        content_type: &str,
        now: Timestamp,
    ) -> (out: Statement)
        requires
            now.wf(),
            self.default_ttl matches Some(ttl) ==> ttl.wf(),
            time::expiry_fits(now, self.default_ttl),
        ensures
            exists|delete_after: Option<Timestamp>|
                {
                    &&& out@ == #[trigger] create_file_call(
                        self.id,
                        file_name@,
                        delete_after,
                        content_type@,
                    )
                    &&& delete_after is Some <==> self.default_ttl is Some
                    &&& delete_after matches Some(at) ==> at.wf() && at.total() == now.total()
                        + self.default_ttl->0.total()
                },
    {
        let delete_after = time::delete_after(now, self.default_ttl);
        let mut args: Vec<Arg> = Vec::new();
        args.push(Arg::Uuid(self.id));
        args.push(Arg::Text(file_name.to_owned()));
        args.push(Arg::Time(delete_after));
        args.push(Arg::Text(content_type.to_owned()));
        let out = Statement {
            sql: "insert into files (bucket_id, filename, delete_after, content_type, blob) values ($1, $2, $3, $4, lo_create(0)) returning id as \"id: FileId\", blob".to_owned(),
            args,
        };
        assert(out@.args =~= create_file_call(
            self.id,
            file_name@,
            delete_after,
            content_type@,
        ).args);
        assert(out@ == create_file_call(self.id, file_name@, delete_after, content_type@));
        out
    }

    /// Creates the given file, given what the statement came to.
    pub fn create_file(reply: Result<FileRow, InsertError>) -> (out: Result<
        FileRow,
        FileCreateError,
    >)
        ensures
            match reply {
                Ok(row) => out == Ok::<FileRow, FileCreateError>(row),
                Err(failure) => out matches Err(e) && e@ == insert_error(
                    create_file_call(0, seq![], None, seq![]).sql,
                    failure@,
                ),
            },
    {
        match reply {
            Ok(row) => Ok(row),
            Err(e) => Err(
                insert_failed(
                    "insert into files (bucket_id, filename, delete_after, content_type, blob) values ($1, $2, $3, $4, lo_create(0)) returning id as \"id: FileId\", blob",
                    e,
                ),
            ),
        }
    }
}

/// A handle to a *file* object in locally-euclidean.
///
/// There are intentionally no writes but at the end of the file: we don't
/// *want* to offer generalized non-append writes.
#[derive(Debug)]
pub struct PostgresFileHandle {
    pub blob: BlobHandle,
    pub id: u128,
}

impl PostgresFileHandle {
    /// The statement that opens a file's blob, for reading and writing.
    pub fn open_statement(row: &FileRow) -> (out: Statement)
        ensures
            out@ == blob::open_call(row.blob, OpenMode::ReadWrite),
    {
        BlobHandle::open_statement(row.blob, OpenMode::ReadWrite)
    }

    /// Opens a file, given whether a transaction was begun and then what the
    /// statement came to.
    pub fn new(row: &FileRow, begun: Result<Result<Option<i32>, String>, String>) -> (out: Result<
        PostgresFileHandle,
        FileHandleError,
    >)
        ensures
            ({
                let outcome = blob::opened(
                    match begun {
                        Err(e) => Err(e@),
                        Ok(Err(e)) => Ok(Err(e@)),
                        Ok(Ok(reply)) => Ok(Ok(reply)),
                    },
                );
                match out {
                    Ok(handle) => {
                        &&& handle.id == row.id
                        &&& handle.blob.inner matches Some(fd_num)
                        &&& outcome == Ok::<i32, FileHandleError<Seq<char>>>(fd_num)
                        &&& handle.blob.state is None
                        &&& handle.blob.position == 0
                    },
                    Err(e) => outcome == Err::<i32, FileHandleError<Seq<char>>>(e@),
                }
            }),
    {
        match BlobHandle::open(begun) {
            Ok(blob) => Ok(PostgresFileHandle { blob, id: row.id }),
            Err(e) => Err(e),
        }
    }

    /// The statement that goes with appending data to the file with this id: it
    /// notes that the file was modified, which no data does not do.
    pub fn touch_statement(id: u128, data: &[u8]) -> (out: Option<Statement>)
        ensures
            if data@.len() == 0 {
                out is None
            } else {
                out matches Some(call) && call@ == touch_call(id)
            },
    {
        if data.len() == 0 {
            return None;
        }
        Some(
            sql::statement1("update files set updated_at = now() where id = $1", Arg::Uuid(id)),
        )
    }

    /// The statement that retrieves the metadata of the file with this id.
    pub fn metadata_statement(id: u128) -> (out: Statement)
        ensures
            out@ == metadata_call(id),
    {
        sql::statement1(
            "select updated_at, content_type from files where id = $1",
            Arg::Uuid(id),
        )
    }

    /// Retrieves the file's metadata, given what the statement came to.
    pub fn metadata(reply: Result<(Timestamp, String), String>) -> (out: Result<
        FileMetadata,
        FileHandleError,
    >)
        ensures
            match reply {
                Ok((updated_at, content_type)) => out == Ok::<FileMetadata, FileHandleError>(
                    FileMetadata { last_modified_at: updated_at, content_type },
                ),
                Err(failure) => out matches Err(e) && e@ == FileHandleError::QueryFailed(
                    metadata_call(0).sql,
                    failure@,
                ),
            },
    {
        match reply {
            Ok((updated_at, content_type)) => Ok(
                FileMetadata { last_modified_at: updated_at, content_type },
            ),
            Err(e) => Err(
                FileHandleError::QueryFailed(
                    "select updated_at, content_type from files where id = $1".to_owned(),
                    e,
                ),
            ),
        }
    }
}

impl FileOpenError {
    /// A blob that could not be opened is none of the expected errors.
    pub fn from_handle_error(value: FileHandleError) -> (out: FileOpenError)
        ensures
            out@ == FileOpenError::OtherError(value@.text()),
    {
        FileOpenError::OtherError(value.message())
    }
}

impl FileCreateError {
    /// A blob that could not be opened is none of the expected errors.
    pub fn from_handle_error(value: FileHandleError) -> (out: FileCreateError)
        ensures
            out@ == FileCreateError::OtherError(value@.text()),
    {
        FileCreateError::OtherError(value.message())
    }
}

} // verus!
