//! The tables of the database, as far as the backend's statements go.
//!
//! This is a model to state laws on: what the statements come to when Postgres
//! runs them one after the other.

use vstd::prelude::*;

use crate::blob;
use crate::blob::{Answer, OpenMode, Session};
use crate::errors::{BucketError, FileCreateError, FileHandleError, FileOpenError};
use crate::exchange::FileMetadata;
use crate::postgres::{FileRow, InsertError, Interval, PostgresBucket, PostgresFileHandle};
use crate::sql::{Statement, StatementView};
use crate::time::{TimeDelta, Timestamp};

verus! {

/// A row of the table of buckets.
pub struct BucketRecord {
    pub name: Seq<char>,
    pub default_ttl: Option<Interval>,
}

/// A row of the table of files.
pub struct FileRecord {
    pub bucket_id: u128,
    pub filename: Seq<char>,
    pub content_type: Seq<char>,
    /// Points in time, in nanoseconds since the Unix epoch.
    pub updated_at: int,
    pub delete_after: Option<int>,
    pub blob: u32,
}

/// The tables, by the ids of their rows, and the large objects.
pub struct Tables {
    pub buckets: Map<u128, BucketRecord>,
    pub files: Map<u128, FileRecord>,
    pub blobs: Map<u32, Seq<u8>>,
}

/// What Postgres chooses for itself: the id of a new row, the number of a new
/// large object, what the time is, and which rows are the first hundred.
pub struct Choice {
    pub id: u128,
    pub blob: u32,
    pub now: int,
    pub picked: Set<u128>,
}

/// What a statement gives.
pub enum Rows {
    Bucket(Option<(u128, Option<Interval>)>),
    Names(Set<Seq<char>>),
    NewBucket(u128),
    File(Option<FileRow>),
    NewFile(FileRow),
    Metadata(Option<(int, Seq<char>)>),
    Updated,
    Deleted,
    UniqueViolation,
    Failed,
}

/// A span as Postgres stores it: in whole microseconds.
pub open spec fn stored_span(span: TimeDelta) -> Interval {
    Interval { months: 0, days: 0, microseconds: (span.total() / 1000) as i64 }
}

/// Whether Postgres can store a span: one of whole microseconds, and not too
/// many of them.
pub open spec fn can_store(span: Option<TimeDelta>) -> bool {
    span matches Some(delta) ==> delta.total() % 1000 == 0 && i64::MIN <= delta.total() / 1000
        <= i64::MAX
}

impl Tables {
    /// Names of buckets, and of files within a bucket, are unique.
    pub open spec fn wf(self) -> bool {
        &&& forall|a: u128, b: u128|
            #![trigger self.buckets[a], self.buckets[b]]
            self.buckets.contains_key(a) && self.buckets.contains_key(b) && self.buckets[a].name
                == self.buckets[b].name ==> a == b
        &&& forall|a: u128, b: u128|
            #![trigger self.files[a], self.files[b]]
            self.files.contains_key(a) && self.files.contains_key(b) && self.files[a].bucket_id
                == self.files[b].bucket_id && self.files[a].filename == self.files[b].filename
                ==> a == b
    }

    pub open spec fn is_bucket(self, id: u128, name: Seq<char>) -> bool {
        self.buckets.contains_key(id) && self.buckets[id].name == name
    }

    pub open spec fn has_bucket(self, name: Seq<char>) -> bool {
        exists|id: u128| #[trigger] self.is_bucket(id, name)
    }

    pub open spec fn is_file(self, id: u128, bucket_id: u128, filename: Seq<char>) -> bool {
        self.files.contains_key(id) && self.files[id].bucket_id == bucket_id
            && self.files[id].filename == filename
    }

    pub open spec fn has_file(self, bucket_id: u128, filename: Seq<char>) -> bool {
        exists|id: u128| #[trigger] self.is_file(id, bucket_id, filename)
    }

    /// Whether a file's time is over.
    pub open spec fn is_old(self, id: u128, now: int) -> bool {
        self.files.contains_key(id) && (self.files[id].delete_after matches Some(at) && at < now)
    }

    /// Whether Postgres may choose this: new rows and large objects have ids of
    /// their own, and of the files whose time is over at most a hundred are
    /// picked, fewer only if there are no more.
    pub open spec fn allows(self, choice: Choice) -> bool {
        &&& !self.buckets.contains_key(choice.id)
        &&& !self.files.contains_key(choice.id)
        &&& !self.blobs.contains_key(choice.blob)
        &&& choice.picked.finite()
        &&& choice.picked.len() <= 100
        &&& forall|id: u128| #[trigger]
            choice.picked.contains(id) ==> self.is_old(id, choice.now)
        &&& choice.picked.len() < 100 ==> forall|id: u128| #[trigger]
            self.is_old(id, choice.now) ==> choice.picked.contains(id)
    }

    /// `select .. from buckets where name = $1`
    pub open spec fn find_bucket(self, name: Seq<char>) -> Rows {
        if self.has_bucket(name) {
            let id = choose|id: u128| #[trigger] self.is_bucket(id, name);
            Rows::Bucket(Some((id, self.buckets[id].default_ttl)))
        } else {
            Rows::Bucket(None)
        }
    }

    /// `insert into buckets (name, default_ttl) values ($1, $2)`
    pub open spec fn insert_bucket(self, call: StatementView, choice: Choice) -> (Tables, Rows) {
        let name = call.args[0]->Text_0;
        let ttl = call.args[1]->Interval_0;
        if !(call.args[0] is Text) || !(call.args[1] is Interval) || !can_store(ttl) {
            (self, Rows::Failed)
        } else if self.has_bucket(name) {
            (self, Rows::UniqueViolation)
        } else {
            let default_ttl = match ttl {
                Some(span) => Some(stored_span(span)),
                None => None,
            };
            (
                Tables {
                    buckets: self.buckets.insert(choice.id, BucketRecord { name, default_ttl }),
                    ..self
                },
                Rows::NewBucket(choice.id),
            )
        }
    }

    /// `select .. from files where bucket_id = $1 and filename = $2`
    pub open spec fn find_file(self, bucket_id: u128, filename: Seq<char>) -> Rows {
        if self.has_file(bucket_id, filename) {
            let id = choose|id: u128| #[trigger] self.is_file(id, bucket_id, filename);
            Rows::File(Some(FileRow { id, blob: self.files[id].blob }))
        } else {
            Rows::File(None)
        }
    }

    /// `insert into files (..) values ($1, $2, $3, $4, lo_create(0))`
    pub open spec fn insert_file(self, call: StatementView, choice: Choice) -> (Tables, Rows) {
        let bucket_id = call.args[0]->Uuid_0;
        let filename = call.args[1]->Text_0;
        let delete_after = call.args[2]->Time_0;
        let content_type = call.args[3]->Text_0;
        if !(call.args[0] is Uuid) || !(call.args[1] is Text) || !(call.args[2] is Time) || !(
        call.args[3] is Text) || !self.buckets.contains_key(bucket_id) {
            (self, Rows::Failed)
        } else if self.has_file(bucket_id, filename) {
            (self, Rows::UniqueViolation)
        } else {
            let record = FileRecord {
                bucket_id,
                filename,
                content_type,
                updated_at: choice.now,
                delete_after: match delete_after {
                    Some(at) => Some(at.total()),
                    None => None,
                },
                blob: choice.blob,
            };
            (
                Tables {
                    files: self.files.insert(choice.id, record),
                    blobs: self.blobs.insert(choice.blob, seq![]),
                    ..self
                },
                Rows::NewFile(FileRow { id: choice.id, blob: choice.blob }),
            )
        }
    }

    /// Deletes the files that are picked, and their large objects.
    pub open spec fn delete_files(self, picked: Set<u128>) -> Tables {
        let unlinked = Set::new(
            |blob: u32|
                exists|id: u128|
                    #![trigger picked.contains(id)]
                    picked.contains(id) && self.files.contains_key(id) && self.files[id].blob
                        == blob,
        );
        Tables {
            files: self.files.remove_keys(picked),
            blobs: self.blobs.remove_keys(unlinked),
            ..self
        }
    }

    /// Runs a statement: the text says what is done, the parameters with what.
    pub open spec fn run(self, call: StatementView, choice: Choice) -> (Tables, Rows) {
        let id = call.args[0]->Uuid_0;
        if call.sql
            == "select id as \"id: BucketId\", default_ttl from buckets where name = $1"@ {
            (self, self.find_bucket(call.args[0]->Text_0))
        } else if call.sql == "select name from buckets"@ {
            (self, Rows::Names(Set::new(|name: Seq<char>| self.has_bucket(name))))
        } else if call.sql
            == "insert into buckets (name, default_ttl) values ($1, $2) returning id as \"id: BucketId\""@ {
            self.insert_bucket(call, choice)
        } else if call.sql
            == "select id as \"id: FileId\", blob from files where bucket_id = $1 and filename = $2"@ {
            (self, self.find_file(id, call.args[1]->Text_0))
        } else if call.sql
            == "insert into files (bucket_id, filename, delete_after, content_type, blob) values ($1, $2, $3, $4, lo_create(0)) returning id as \"id: FileId\", blob"@ {
            self.insert_file(call, choice)
        } else if call.sql == "select updated_at, content_type from files where id = $1"@ {
            (
                self,
                Rows::Metadata(
                    if self.files.contains_key(id) {
                        Some((self.files[id].updated_at, self.files[id].content_type))
                    } else {
                        None
                    },
                ),
            )
        } else if call.sql == "update files set updated_at = now() where id = $1"@ {
            if self.files.contains_key(id) {
                let record = FileRecord { updated_at: choice.now, ..self.files[id] };
                (Tables { files: self.files.insert(id, record), ..self }, Rows::Updated)
            } else {
                (self, Rows::Updated)
            }
        } else if call.sql
            == "delete from files where id in (select id from files where delete_after < now() limit 100) returning lo_unlink(blob)"@ {
            (self.delete_files(choice.picked), Rows::Deleted)
        } else {
            (self, Rows::Failed)
        }
    }
}

/// The texts of the statements are all of different lengths.
proof fn lemma_text_lengths()
    ensures
        "select id as \"id: BucketId\", default_ttl from buckets where name = $1"@.len() == 69,
        "select name from buckets"@.len() == 24,
        "insert into buckets (name, default_ttl) values ($1, $2) returning id as \"id: BucketId\""@.len() == 86,
        "select id as \"id: FileId\", blob from files where bucket_id = $1 and filename = $2"@.len() == 81,
        "insert into files (bucket_id, filename, delete_after, content_type, blob) values ($1, $2, $3, $4, lo_create(0)) returning id as \"id: FileId\", blob"@.len() == 146,
        "select updated_at, content_type from files where id = $1"@.len() == 56,
        "update files set updated_at = now() where id = $1"@.len() == 49,
        "delete from files where id in (select id from files where delete_after < now() limit 100) returning lo_unlink(blob)"@.len() == 115,
{
    reveal_strlit("select id as \"id: BucketId\", default_ttl from buckets where name = $1");
    reveal_strlit("select name from buckets");
    reveal_strlit("insert into buckets (name, default_ttl) values ($1, $2) returning id as \"id: BucketId\"");
    reveal_strlit("select id as \"id: FileId\", blob from files where bucket_id = $1 and filename = $2");
    reveal_strlit("insert into files (bucket_id, filename, delete_after, content_type, blob) values ($1, $2, $3, $4, lo_create(0)) returning id as \"id: FileId\", blob");
    reveal_strlit("select updated_at, content_type from files where id = $1");
    reveal_strlit("update files set updated_at = now() where id = $1");
    reveal_strlit("delete from files where id in (select id from files where delete_after < now() limit 100) returning lo_unlink(blob)");
}
/// A bucket that was created is found by its name, with the time to live that
/// it was created with, and no other bucket changes. Creating it again fails,
/// and says that it is there.
pub proof fn law_created_bucket_is_found(
    tables: Tables,
    choice: Choice,
    again: Choice,
    name: &str,
    ttl: Option<TimeDelta>,
    insert: Statement,
    select: Statement,
)
    requires
        tables.wf(),
        tables.allows(choice),
        can_store(ttl),
        !tables.has_bucket(name@),
        call_ensures(PostgresBucket::create_statement, (name, ttl), insert),
        call_ensures(PostgresBucket::by_name_statement, (name,), select),
    ensures
        ({
            let (then, rows) = tables.run(insert@, choice);
            let found = then.run(select@, again);
            &&& rows == Rows::NewBucket(choice.id)
            &&& then.wf()
            &&& then.buckets.remove(choice.id) == tables.buckets
            &&& then.files == tables.files && then.blobs == tables.blobs
            &&& found.0 == then
            &&& found.1 matches Rows::Bucket(Some((id, stored)))
            &&& id == choice.id
            &&& match ttl {
                None => stored is None,
                Some(span) => stored matches Some(interval) && (forall|out| #[trigger]
                    call_ensures(
                        PostgresBucket::by_name,
                        (Ok(Some((id, Some(interval)))),),
                        out,
                    ) ==> (out matches Ok(Some(bucket)) && bucket.id == id && (
                    bucket.default_ttl matches Some(delta) && delta.total() == span.total()))),
            }
            &&& then.run(insert@, again) == (then, Rows::UniqueViolation)
        }),
{
    lemma_text_lengths();
    let then = tables.run(insert@, choice).0;
    assert(then.buckets.remove(choice.id) =~= tables.buckets);
    assert(then.is_bucket(choice.id, name@));
    assert(then.has_bucket(name@));
    assert forall|a: u128, b: u128|
        #![trigger then.buckets[a], then.buckets[b]]
        then.buckets.contains_key(a) && then.buckets.contains_key(b) && then.buckets[a].name
            == then.buckets[b].name implies a == b by {
        if a == choice.id && b != choice.id {
            assert(tables.is_bucket(b, name@));
        } else if b == choice.id && a != choice.id {
            assert(tables.is_bucket(a, name@));
        } else if a != choice.id && b != choice.id {
            assert(tables.buckets[a].name == tables.buckets[b].name);
        }
    }
    let id = choose|id: u128| #[trigger] then.is_bucket(id, name@);
    assert(then.buckets[id].name == then.buckets[choice.id].name);
    if ttl is Some {
        let total = ttl->0.total();
        assert(total == (total / 1000) * 1000);
    }
}

/// A bucket of a name that no bucket has is not found, and a name that is there
/// leads to the bucket of that name. Looking changes nothing.
pub proof fn law_bucket_is_found_by_its_name(
    tables: Tables,
    choice: Choice,
    name: &str,
    select: Statement,
)
    requires
        tables.wf(),
        call_ensures(PostgresBucket::by_name_statement, (name,), select),
    ensures
        tables.run(select@, choice).0 == tables,
        match tables.run(select@, choice).1 {
            Rows::Bucket(None) => forall|id: u128| #[trigger]
                tables.buckets.contains_key(id) ==> tables.buckets[id].name != name@,
            Rows::Bucket(Some((id, stored))) => tables.buckets.contains_key(id)
                && tables.buckets[id].name == name@ && stored == tables.buckets[id].default_ttl,
            _ => false,
        },
{
    lemma_text_lengths();
    if !tables.has_bucket(name@) {
        assert forall|id: u128| #[trigger]
            tables.buckets.contains_key(id) implies tables.buckets[id].name != name@ by {
            assert(!tables.is_bucket(id, name@));
        }
    }
}

/// What looking for a bucket comes to decides: the bucket that was found is
/// given, without a time to live if it has none; one that was not found does not
/// exist; and an error is told.
pub proof fn law_bucket_is_given_as_found(
    reply: Result<Option<(u128, Option<Interval>)>, String>,
    found: Result<Option<PostgresBucket>, BucketError>,
    out: Result<PostgresBucket, FileOpenError>,
)
    requires
        call_ensures(PostgresBucket::by_name, (reply,), found),
        call_ensures(PostgresBucket::bucket, (found,), out),
    ensures
        reply matches Ok(Some((id, stored))) ==> (out matches Ok(bucket) && bucket.id == id && (
        bucket.default_ttl is Some <==> stored is Some)),
        reply matches Ok(None) ==> (out matches Err(FileOpenError::DoesNotExist)),
        reply matches Err(e) ==> (found matches Err(BucketError::QueryFailed(sql, why)) && why@
            == e@ && sql@
            == "select id as \"id: BucketId\", default_ttl from buckets where name = $1"@),
        reply matches Err(e) ==> (out matches Err(FileOpenError::OtherError(why))
            && e@.is_suffix_of(why@)),
{
    if let Err(e) = reply {
        let failure = found->Err_0;
        let why = out->Err_0->OtherError_0;
        assert(e@ =~= why@.subrange(why@.len() - e@.len(), why@.len() as int));
    }
}

/// The names that are listed are those of the buckets, all of them, and
/// listing changes nothing.
pub proof fn law_list_names_every_bucket(
    tables: Tables,
    choice: Choice,
    select: Statement,
    name: Seq<char>,
)
    requires
        call_ensures(PostgresBucket::list_statement, (), select),
    ensures
        tables.run(select@, choice).0 == tables,
        tables.run(select@, choice).1 matches Rows::Names(names) && (names.contains(name)
            <==> exists|id: u128| #[trigger]
            tables.buckets.contains_key(id) && tables.buckets[id].name == name),
{
    lemma_text_lengths();
    let names = tables.run(select@, choice).1->Names_0;
    if names.contains(name) {
        let id = choose|id: u128| #[trigger] tables.is_bucket(id, name);
        assert(tables.buckets.contains_key(id) && tables.buckets[id].name == name);
    }
    if exists|id: u128| #[trigger]
        tables.buckets.contains_key(id) && tables.buckets[id].name == name {
        let id = choose|id: u128| #[trigger]
            tables.buckets.contains_key(id) && tables.buckets[id].name == name;
        assert(tables.is_bucket(id, name));
    }
}

/// The names that came back are given, all of them and in their order.
pub proof fn law_list_is_given_as_it_is(
    reply: Result<Vec<String>, String>,
    out: Result<Vec<String>, BucketError>,
)
    requires
        call_ensures(PostgresBucket::list, (reply,), out),
    ensures
        out is Ok <==> reply is Ok,
        reply matches Ok(names) ==> out->Ok_0 == names,
        reply matches Err(e) ==> (out matches Err(BucketError::QueryFailed(sql, why)) && why@
            == e@ && sql@ == "select name from buckets"@),
{
}

/// A file that was created is found, by the bucket and the name that it was
/// created with, and empty. It has the content type that was asked for, was
/// modified when it was created, and is to be deleted when the time to live of
/// the bucket has passed since `now`, or never if there is none. Nothing else
/// changes. Creating it again fails, and says that it is there.
pub proof fn law_created_file_is_found(
    tables: Tables,
    choice: Choice,
    again: Choice,
    bucket: PostgresBucket,
    file_name: &str,
    content_type: &str,
    now: Timestamp,
    insert: Statement,
    select: Statement,
    metadata: Statement,
)
    requires
        tables.wf(),
        tables.allows(choice),
        tables.buckets.contains_key(bucket.id),
        !tables.has_file(bucket.id, file_name@),
        call_ensures(
            PostgresBucket::create_file_statement,
            (&bucket, file_name, content_type, now),
            insert,
        ),
        call_ensures(PostgresBucket::file_statement, (&bucket, file_name), select),
        call_ensures(PostgresFileHandle::metadata_statement, (choice.id,), metadata),
    ensures
        ({
            let (then, rows) = tables.run(insert@, choice);
            let row = FileRow { id: choice.id, blob: choice.blob };
            &&& rows == Rows::NewFile(row)
            &&& then.wf()
            &&& then.buckets == tables.buckets
            &&& then.files.contains_key(choice.id)
            &&& then.files.remove(choice.id) == tables.files
            &&& then.blobs == tables.blobs.insert(choice.blob, seq![])
            &&& match bucket.default_ttl {
                Some(ttl) => then.files[choice.id].delete_after == Some(
                    now.total() + ttl.total(),
                ),
                None => then.files[choice.id].delete_after is None,
            }
            &&& then.run(select@, again) == (then, Rows::File(Some(row)))
            &&& then.run(metadata@, again) == (
                then,
                Rows::Metadata(Some((choice.now, content_type@))),
            )
            &&& then.run(insert@, again) == (then, Rows::UniqueViolation)
        }),
{
    lemma_text_lengths();
    let then = tables.run(insert@, choice).0;
    assert(then.files.remove(choice.id) =~= tables.files);
    assert(then.is_file(choice.id, bucket.id, file_name@));
    assert(then.has_file(bucket.id, file_name@));
    assert forall|a: u128, b: u128|
        #![trigger then.files[a], then.files[b]]
        then.files.contains_key(a) && then.files.contains_key(b) && then.files[a].bucket_id
            == then.files[b].bucket_id && then.files[a].filename
            == then.files[b].filename implies a == b by {
        if a == choice.id && b != choice.id {
            assert(tables.is_file(b, bucket.id, file_name@));
        } else if b == choice.id && a != choice.id {
            assert(tables.is_file(a, bucket.id, file_name@));
        } else if a != choice.id && b != choice.id {
            assert(tables.files[a].filename == tables.files[b].filename);
        }
    }
    let id = choose|id: u128| #[trigger] then.is_file(id, bucket.id, file_name@);
    assert(then.files[id].filename == then.files[choice.id].filename);
}

/// A file is found by the bucket that it is in and its name, and only so: one
/// of that name in another bucket is not. Looking changes nothing.
pub proof fn law_file_is_found_in_its_bucket(
    tables: Tables,
    choice: Choice,
    bucket: PostgresBucket,
    file_name: &str,
    select: Statement,
)
    requires
        tables.wf(),
        call_ensures(PostgresBucket::file_statement, (&bucket, file_name), select),
    ensures
        tables.run(select@, choice).0 == tables,
        match tables.run(select@, choice).1 {
            Rows::File(None) => forall|id: u128| #[trigger]
                tables.files.contains_key(id) ==> tables.files[id].bucket_id != bucket.id
                    || tables.files[id].filename != file_name@,
            Rows::File(Some(row)) => {
                &&& tables.files.contains_key(row.id)
                &&& tables.files[row.id].bucket_id == bucket.id
                &&& tables.files[row.id].filename == file_name@
                &&& tables.files[row.id].blob == row.blob
            },
            _ => false,
        },
{
    lemma_text_lengths();
    if !tables.has_file(bucket.id, file_name@) {
        assert forall|id: u128| #[trigger]
            tables.files.contains_key(id) implies tables.files[id].bucket_id != bucket.id
            || tables.files[id].filename != file_name@ by {
            assert(!tables.is_file(id, bucket.id, file_name@));
        }
    }
}

/// The row that was found or made is given as it is, and what was not found or
/// not made is told apart from every other failure, which is told.
pub proof fn law_file_is_given_as_found(
    reply: Result<Option<FileRow>, String>,
    found: Result<FileRow, FileOpenError>,
    inserted: Result<FileRow, InsertError>,
    made: Result<FileRow, FileCreateError>,
)
    requires
        call_ensures(PostgresBucket::file, (reply,), found),
        call_ensures(PostgresBucket::create_file, (inserted,), made),
    ensures
        reply matches Ok(Some(row)) ==> (found matches Ok(given) && given == row),
        reply matches Ok(None) ==> (found matches Err(FileOpenError::DoesNotExist)),
        reply matches Err(e) ==> (found matches Err(FileOpenError::OtherError(why))
            && e@.is_suffix_of(why@)),
        inserted matches Ok(row) ==> (made matches Ok(given) && given == row),
        inserted matches Err(InsertError::UniqueViolation) ==> (made matches Err(
            FileCreateError::FileExists,
        )),
        inserted matches Err(InsertError::Other(e)) ==> (made matches Err(
            FileCreateError::OtherError(why),
        ) && e@.is_suffix_of(why@)),
{
    if let Err(e) = reply {
        let why = found->Err_0->OtherError_0;
        assert(e@ =~= why@.subrange(why@.len() - e@.len(), why@.len() as int));
    }
    if let Err(InsertError::Other(e)) = inserted {
        let why = made->Err_0->OtherError_0;
        assert(e@ =~= why@.subrange(why@.len() - e@.len(), why@.len() as int));
    }
}

/// A bucket that was made has the id that it got and the time to live that it
/// was made with; a name that is taken is told apart from every other failure,
/// which is told.
pub proof fn law_bucket_is_given_as_made(
    reply: Result<u128, InsertError>,
    ttl: Option<TimeDelta>,
    made: Result<PostgresBucket, FileCreateError>,
)
    requires
        call_ensures(PostgresBucket::create, (reply, ttl), made),
    ensures
        reply matches Ok(id) ==> (made matches Ok(bucket) && bucket.id == id && bucket.default_ttl
            == ttl),
        reply matches Err(InsertError::UniqueViolation) ==> (made matches Err(
            FileCreateError::FileExists,
        )),
        reply matches Err(InsertError::Other(e)) ==> (made matches Err(
            FileCreateError::OtherError(why),
        ) && e@.is_suffix_of(why@)),
{
    if let Err(InsertError::Other(e)) = reply {
        let why = made->Err_0->OtherError_0;
        assert(e@ =~= why@.subrange(why@.len() - e@.len(), why@.len() as int));
    }
}

/// Appending data to a file makes it modified now, and leaves everything else
/// of it, and every other file, as it was; appending nothing does not modify it.
/// The metadata that is asked for then says so.
pub proof fn law_append_modifies_its_file(
    tables: Tables,
    choice: Choice,
    id: u128,
    data: &[u8],
    touch: Option<Statement>,
    metadata: Statement,
)
    requires
        tables.files.contains_key(id),
        call_ensures(PostgresFileHandle::touch_statement, (id, data), touch),
        call_ensures(PostgresFileHandle::metadata_statement, (id,), metadata),
    ensures
        touch is Some <==> data@.len() > 0,
        touch matches Some(call) ==> ({
            let then = tables.run(call@, choice).0;
            let file = tables.files[id];
            &&& then.buckets == tables.buckets && then.blobs == tables.blobs
            &&& then.files.remove(id) == tables.files.remove(id)
            &&& then.files.contains_key(id)
            &&& then.files[id] == (FileRecord { updated_at: choice.now, ..file })
            &&& then.run(metadata@, choice) == (
                then,
                Rows::Metadata(Some((choice.now, file.content_type))),
            )
        }),
{
    lemma_text_lengths();
    if let Some(call) = touch {
        let then = tables.run(call@, choice).0;
        assert(then.files.remove(id) =~= tables.files.remove(id));
    }
}

/// The metadata that came back is given, the time and the content type each in
/// their place.
pub proof fn law_metadata_is_given_as_it_is(
    reply: Result<(Timestamp, String), String>,
    out: Result<FileMetadata, FileHandleError>,
)
    requires
        call_ensures(PostgresFileHandle::metadata, (reply,), out),
    ensures
        out is Ok <==> reply is Ok,
        reply matches Ok((at, content_type)) ==> (out matches Ok(metadata)
            && metadata.last_modified_at == at && metadata.content_type == content_type),
        reply matches Err(e) ==> (out matches Err(FileHandleError::QueryFailed(sql, why)) && why@
            == e@ && sql@ == "select updated_at, content_type from files where id = $1"@),
{
}

/// Cleaning up deletes nothing but files whose time is over, with their data,
/// and no bucket. It deletes all of them if there are no more than it takes at
/// once, which is a hundred; if there are more, it deletes a hundred.
pub proof fn law_only_old_files_are_deleted(
    tables: Tables,
    choice: Choice,
    delete: Statement,
    id: u128,
)
    requires
        tables.allows(choice),
        call_ensures(PostgresBucket::delete_old_files_statement, (), delete),
        tables.files.contains_key(id),
    ensures
        ({
            let then = tables.run(delete@, choice).0;
            let expired = tables.files[id].delete_after matches Some(at) && at < choice.now;
            &&& then.buckets == tables.buckets
            &&& then.files.contains_key(id) ==> then.files[id] == tables.files[id]
            &&& !expired ==> then.files.contains_key(id)
            &&& !then.files.contains_key(id) ==> !then.blobs.contains_key(tables.files[id].blob)
            &&& expired && then.files.contains_key(id) ==> tables.files.dom().difference(
                then.files.dom(),
            ).len() == 100
        }),
{
    lemma_text_lengths();
    let then = tables.run(delete@, choice).0;
    let gone = tables.files.dom().difference(then.files.dom());
    assert(gone =~= choice.picked);
    assert(tables.is_old(id, choice.now) <==> (tables.files[id].delete_after matches Some(at) && at
        < choice.now));
}

/// The blob of a file that was found or made is opened for reading and writing,
/// and the handle is that of the file and of the descriptor that came back.
pub proof fn law_file_is_opened(
    session: Session,
    row: FileRow,
    free: i32,
    open: Statement,
    out: Result<PostgresFileHandle, FileHandleError>,
)
    requires
        session.blobs.contains_key(row.blob),
        !session.open.contains_key(free),
        call_ensures(PostgresFileHandle::open_statement, (&row,), open),
        call_ensures(PostgresFileHandle::new, (&row, Ok(Ok(Some(free)))), out),
    ensures
        ({
            let (then, answer) = session.run(open@, free);
            &&& answer == Answer::Opened(free)
            &&& then.blobs == session.blobs
            &&& then.has_open(free)
            &&& then.open[free].oid == row.blob
            &&& then.open[free].readable && then.open[free].writable
            &&& out matches Ok(handle)
            &&& handle.id == row.id
            &&& handle.blob.inner == Some(free)
            &&& handle.blob.state is None
        }),
{
    blob::law_open_gives_access(session, row.blob, OpenMode::ReadWrite, free, seq![], 1);
}

/// A blob that cannot be opened is neither a file that is missing nor one that
/// is there: it is another error, with all that was said of it.
pub proof fn law_unopenable_blob_is_another_error(
    value: FileHandleError,
    opening: FileOpenError,
    creating: FileCreateError,
)
    requires
        call_ensures(FileOpenError::from_handle_error, (value,), opening),
        call_ensures(FileCreateError::from_handle_error, (value,), creating),
    ensures
        opening matches FileOpenError::OtherError(why) && why@ == value@.text(),
        creating matches FileCreateError::OtherError(why) && why@ == value@.text(),
{
}

} // verus!
