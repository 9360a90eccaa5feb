//! A file storage backend based on the filesystem.
//!
//! File metadata is stored in xattrs on the files themselves.
//!
//! There is race safety for accessing individual files.

use vstd::prelude::*;

use crate::dirs;
use crate::dirs::Tree;
use crate::errors::{
    FileAttrError, FileBucketError, FileCreateError, FileMetadataError, FileOpenError,
};
use crate::exchange;
use crate::path;
use crate::path::FilePath;
use crate::text;
use crate::time::Timestamp;
use crate::upload;

verus! {

/// A bucket's name has to be a plain name of a directory. Anything else would
/// lead out of the directory that holds the buckets.
pub open spec fn valid_bucket_name(name: Seq<char>) -> bool {
    !name.contains('/') && !name.contains('\0') && name != "."@ && name != ".."@
}

/// A bucket's directory is one directory, of the bucket's own name, right in
/// the directory that holds the buckets.
pub proof fn law_bucket_is_one_directory(name: Seq<char>)
    requires
        valid_bucket_name(name),
        name.len() > 0,
    ensures
        path::path_error(name) is None,
        path::path_names(name) == seq![name],
{
    reveal_strlit(".");
    reveal_strlit("..");
    assert("."@ =~= seq!['.']);
    assert(".."@ =~= seq!['.', '.']);
    path::law_written_path_reads_back(seq![name]);
}

/// Which buckets are open, by name. The number of a bucket is its place in the
/// list, and stays the same.
///
/// Only one bucket is allowed to exist for each directory.
#[derive(Debug)]
pub struct FileBackend {
    names: Vec<String>,
}

/// What to do for a bucket.
#[derive(Debug)]
pub enum BucketLookup {
    /// It is open under this number.
    Open(usize),
    /// Its directory is to be opened.
    Unopened,
}

/// Why a bucket's directory could not be opened.
#[derive(Debug)]
pub enum DirOpenError<S = String> {
    NotFound,
    Other(S),
}

impl View for DirOpenError<String> {
    type V = DirOpenError<Seq<char>>;

    open spec fn view(&self) -> DirOpenError<Seq<char>> {
        match self {
            DirOpenError::NotFound => DirOpenError::NotFound,
            DirOpenError::Other(e) => DirOpenError::Other(e@),
        }
    }
}

impl View for FileBackend {
    type V = Seq<Seq<char>>;

    closed spec fn view(&self) -> Seq<Seq<char>> {
        self.names@.map_values(|name: String| name@)
    }
}

impl FileBackend {
    /// The buckets have different and valid names.
    pub open spec fn wf(&self) -> bool {
        &&& self@.no_duplicates()
        &&& forall|i: int| 0 <= i < self@.len() ==> valid_bucket_name(#[trigger] self@[i])
    }

    /// A backend with no bucket open yet.
    pub fn new() -> (out: FileBackend)
        ensures
            out.wf(),
            out@ == Seq::<Seq<char>>::empty(),
    {
        let out = FileBackend { names: Vec::new() };
        assert(out@ =~= Seq::<Seq<char>>::empty());
        out
    }

    /// Gets a bucket by name.
    pub fn bucket(&self, name: &str) -> (out: Result<BucketLookup, FileOpenError>)
        requires
            self.wf(),
        ensures
            match out {
                Ok(BucketLookup::Open(i)) => valid_bucket_name(name@) && i < self@.len()
                    && self@[i as int] == name@,
                Ok(BucketLookup::Unopened) => valid_bucket_name(name@) && !self@.contains(name@),
                Err(e) => !valid_bucket_name(name@) && e@ == FileOpenError::<
                    Seq<char>,
                >::InvalidName,
            },
    {
        if path::has_char(name, '/') || path::has_char(name, '\0') || text::same_text(name, ".")
            || text::same_text(name, "..") {
            return Err(FileOpenError::InvalidName);
        }
        for i in 0..self.names.len()
            invariant
                self.names@.len() == self@.len(),
                valid_bucket_name(name@),
                forall|j: int| 0 <= j < self@.len() ==> self@[j] == (#[trigger] self.names@[j])@,
                forall|j: int| 0 <= j < i ==> #[trigger] self@[j] != name@,
        {
            assert(self@[i as int] == self.names@[i as int]@);
            if text::same_text(&self.names[i], name) {
                return Ok(BucketLookup::Open(i));
            }
        }
        Ok(BucketLookup::Unopened)
    }

    /// Takes up a bucket, given what opening its directory came to.
    pub fn opened(&mut self, name: &str, result: Result<(), DirOpenError>) -> (out: Result<
        usize,
        FileOpenError,
    >)
        requires
            old(self).wf(),
            valid_bucket_name(name@),
            !old(self)@.contains(name@),
        ensures
            final(self).wf(),
            match result {
                Ok(()) => {
                    &&& final(self)@ == old(self)@.push(name@)
                    &&& out matches Ok(number)
                    &&& number == old(self)@.len()
                },
                Err(failure) => {
                    &&& final(self)@ == old(self)@
                    &&& out matches Err(e)
                    &&& e@ == match failure@ {
                        DirOpenError::NotFound => FileOpenError::DoesNotExist,
                        DirOpenError::Other(e) => FileOpenError::OtherError(e),
                    }
                },
            },
    {
        match result {
            Ok(()) => {
                let number = self.names.len();
                let ghost before = self@;
                self.names.push(name.to_owned());
                proof {
                    assert(self@ =~= before.push(name@));
                    assert(self@.no_duplicates()) by {
                        assert forall|i: int, j: int|
                            0 <= i < self@.len() && 0 <= j < self@.len() && i != j implies self@[i]
                            != self@[j] by {
                            if i == before.len() {
                                assert(before.contains(before[j]));
                            } else if j == before.len() {
                                assert(before.contains(before[i]));
                            }
                        }
                    }
                }
                Ok(number)
            },
            Err(DirOpenError::NotFound) => Err(FileOpenError::DoesNotExist),
            Err(DirOpenError::Other(e)) => Err(FileOpenError::OtherError(e)),
        }
    }
}

/// A bucket keeps its number while others are opened, and no two buckets share
/// a name.
pub proof fn law_bucket_keeps_its_number(
    before: FileBackend,
    after: FileBackend,
    name: Seq<char>,
    i: int,
    j: int,
)
    requires
        before.wf(),
        after.wf(),
        before@.is_prefix_of(after@),
        0 <= i < before@.len(),
        before@[i] == name,
        0 <= j < after@.len(),
    ensures
        after@[j] == name <==> i == j,
{
    assert(after@[i] == before@[i]);
}

/// An entry of the directory that holds the buckets. There is no name if it is
/// not valid UTF-8.
#[derive(Debug)]
pub struct DirEntry {
    pub is_dir: bool,
    pub name: Option<String>,
}

/// The names among the entries that are those of buckets, in order.
pub open spec fn bucket_names(entries: Seq<DirEntry>) -> Seq<Seq<char>>
    decreases entries.len(),
{
    if entries.len() == 0 {
        seq![]
    } else {
        let rest = bucket_names(entries.drop_last());
        match entries.last().name {
            Some(name) if entries.last().is_dir => rest.push(name@),
            _ => rest,
        }
    }
}

/// Lists all the bucket names on the system: the directories whose names are
/// text.
pub fn list_buckets(entries: &Vec<DirEntry>) -> (names: Vec<String>)
    ensures
        names@.map_values(|name: String| name@) == bucket_names(entries@),
{
    let mut names: Vec<String> = Vec::new();
    assert(names@.map_values(|name: String| name@) =~= seq![]);
    assert(entries@.take(0) =~= seq![]);
    for i in 0..entries.len()
        invariant
            names@.map_values(|name: String| name@) == bucket_names(entries@.take(i as int)),
    {
        let ghost before = names@;
        assert(entries@.take(i + 1).drop_last() =~= entries@.take(i as int));
        if entries[i].is_dir {
            if let Some(name) = &entries[i].name {
                names.push(name.clone());
                assert(names@.map_values(|name: String| name@) =~= before.map_values(
                    |name: String| name@,
                ).push(name@));
            }
        }
    }
    assert(entries@.take(entries@.len() as int) =~= entries@);
    names
}

/// See xattr(7): we are in the user namespace and we would like to not
/// conflict with other implementations so we use a reverse domain name.
///
/// <https://man7.org/linux/man-pages/man7/xattr.7.html>
pub fn xattr_name(attr: &str) -> (name: String)
    ensures
        name@ == "user.com.mercury.locally-euclidean."@ + attr@,
{
    text::join2("user.com.mercury.locally-euclidean.", attr)
}

/// What `FromUtf8Error` says of bytes that are not UTF-8.
pub uninterp spec fn utf8_error_text(bytes: Seq<u8>) -> Seq<char>;

/// Calls `String::from_utf8`: the text that the bytes encode if they are valid
/// UTF-8, otherwise an error that says where they are not.
#[verifier::external_body]
fn from_utf8(bytes: Vec<u8>) -> (out: Result<String, String>)
    ensures
        match out {
            Ok(text) => vstd::utf8::valid_utf8(bytes@) && text@ == vstd::utf8::decode_utf8(bytes@),
            Err(e) => !vstd::utf8::valid_utf8(bytes@) && e@ == utf8_error_text(bytes@),
        },
{
    String::from_utf8(bytes).map_err(|e| e.to_string())
}

/// What is stored for an attribute's value.
pub open spec fn attr_value(value: Seq<char>) -> Seq<u8> {
    vstd::utf8::encode_utf8(value)
}

/// The bytes to store for an attribute's value.
pub fn attr_bytes(value: &str) -> (bytes: Vec<u8>)
    ensures
        bytes@ == attr_value(value@),
{
    value.as_bytes_vec()
}

/// Gets an attribute, given what reading it came to: whether the task was
/// joined, whether the attribute could be read, and its value if it is there.
pub fn get_attr(reply: Result<Result<Option<Vec<u8>>, String>, String>) -> (out: Result<
    Option<String>,
    FileAttrError,
>)
    ensures
        match reply {
            Ok(Ok(Some(bytes))) => if vstd::utf8::valid_utf8(bytes@) {
                out matches Ok(Some(value)) && value@ == vstd::utf8::decode_utf8(bytes@)
            } else {
                out matches Err(e) && e@ == FileAttrError::InvalidUtf8(utf8_error_text(bytes@))
            },
            Ok(Ok(None)) => out == Ok::<Option<String>, FileAttrError>(None),
            Ok(Err(failure)) => out matches Err(e) && e@ == FileAttrError::GetXattrFailed(
                failure@,
            ),
            Err(failure) => out matches Err(e) && e@ == FileAttrError::JoinFailedBug(failure@),
        },
{
    match reply {
        Ok(Ok(Some(bytes))) => match from_utf8(bytes) {
            Ok(value) => Ok(Some(value)),
            Err(e) => Err(FileAttrError::InvalidUtf8(e)),
        },
        Ok(Ok(None)) => Ok(None),
        Ok(Err(e)) => Err(FileAttrError::GetXattrFailed(e)),
        Err(e) => Err(FileAttrError::JoinFailedBug(e)),
    }
}

/// Sets an attribute, given what writing it came to.
pub fn set_attr(reply: Result<Result<(), String>, String>) -> (out: Result<(), FileAttrError>)
    ensures
        match reply {
            Ok(Ok(())) => out is Ok,
            Ok(Err(failure)) => out matches Err(e) && e@ == FileAttrError::SetXattrFailed(
                failure@,
            ),
            Err(failure) => out matches Err(e) && e@ == FileAttrError::JoinFailedBug(failure@),
        },
{
    match reply {
        Ok(Ok(())) => Ok(()),
        Ok(Err(e)) => Err(FileAttrError::SetXattrFailed(e)),
        Err(e) => Err(FileAttrError::JoinFailedBug(e)),
    }
}

/// The value that an attribute was set to is the value that it has.
pub proof fn law_attr_reads_back(value: Seq<char>)
    ensures
        vstd::utf8::valid_utf8(attr_value(value)),
        vstd::utf8::decode_utf8(attr_value(value)) == value,
{
    broadcast use vstd::utf8::encode_utf8_valid_utf8, vstd::utf8::encode_utf8_decode_utf8;

}

/// The Content-Type of a file, given the attribute that holds it. A file without
/// the attribute is plain text, as is an upload that has no Content-Type.
pub fn content_type(attr: Option<String>) -> (out: String)
    ensures
        out@ == upload::upload_content_type(
            match attr {
                Some(value) => Some(value@),
                None => None,
            },
        ),
{
    match attr {
        Some(value) => value,
        None => "text/plain".to_owned(),
    }
}

/// When a file was last modified, given what asking for its metadata came to.
pub fn metadata(reply: Result<Timestamp, String>) -> (out: Result<Timestamp, FileMetadataError>)
    ensures
        match reply {
            Ok(at) => out == Ok::<Timestamp, FileMetadataError>(at),
            Err(failure) => out matches Err(e) && e@ == FileMetadataError::TokioFsMetadata(
                failure@,
            ),
        },
{
    match reply {
        Ok(at) => Ok(at),
        Err(e) => Err(FileMetadataError::TokioFsMetadata(e)),
    }
}

/// What opening a file by its path came to. Errors are given by what they say.
#[derive(Debug)]
pub enum OpenReply<S = String> {
    Opened,
    /// Something on the way to the file, or the file itself, is missing.
    NotFound(S),
    /// The file to create is there already.
    Exists(S),
    Failed(S),
}

/// What to do with the bucket's directory and the file.
#[derive(Clone, Copy, Debug, PartialEq, Eq, Structural)]
pub enum OpenAction {
    /// Open the path; if `create`, make the file and fail if it is there.
    OpenAt { create: bool },
    /// Create the directory that the path is in, and those above it.
    MakeParents,
    /// Ask for the number of the file's inode.
    Fstat,
    /// Take the lock on the inode.
    Lock(u64),
    /// Duplicate the file descriptor, for the file's attributes.
    Dup,
}

/// What an action came to.
#[derive(Debug)]
pub enum OpenEvent<S = String> {
    OpenAt(OpenReply<S>),
    /// Whether the task was joined, and whether the directories were made.
    Parents(Result<Result<(), S>, S>),
    Stat(Result<u64, S>),
    Locked,
    Dup(Result<(), S>),
}

/// Where opening a file stands.
#[derive(Clone, Copy, Debug, PartialEq, Eq, Structural)]
pub enum OpenPhase {
    Opening,
    MakingParents,
    /// Opening once more, with the directories made.
    Retrying,
    Stating,
    Locking,
    Duplicating,
    Done,
}

/// Why a file could not be opened or created.
#[derive(Debug)]
pub enum OpenFailure<S = String> {
    NotFound(S),
    Exists(S),
    Bucket(FileBucketError<S>),
}

/// What follows: another action, or the end.
#[derive(Debug)]
pub enum OpenStep<S = String> {
    Perform(OpenAction),
    Finish(Result<(), OpenFailure<S>>),
}

impl View for OpenReply<String> {
    type V = OpenReply<Seq<char>>;

    open spec fn view(&self) -> OpenReply<Seq<char>> {
        match self {
            OpenReply::Opened => OpenReply::Opened,
            OpenReply::NotFound(e) => OpenReply::NotFound(e@),
            OpenReply::Exists(e) => OpenReply::Exists(e@),
            OpenReply::Failed(e) => OpenReply::Failed(e@),
        }
    }
}

impl View for OpenEvent<String> {
    type V = OpenEvent<Seq<char>>;

    open spec fn view(&self) -> OpenEvent<Seq<char>> {
        match self {
            OpenEvent::OpenAt(reply) => OpenEvent::OpenAt(reply@),
            OpenEvent::Parents(Ok(Ok(()))) => OpenEvent::Parents(Ok(Ok(()))),
            OpenEvent::Parents(Ok(Err(e))) => OpenEvent::Parents(Ok(Err(e@))),
            OpenEvent::Parents(Err(e)) => OpenEvent::Parents(Err(e@)),
            OpenEvent::Stat(Ok(inode)) => OpenEvent::Stat(Ok(*inode)),
            OpenEvent::Stat(Err(e)) => OpenEvent::Stat(Err(e@)),
            OpenEvent::Locked => OpenEvent::Locked,
            OpenEvent::Dup(Ok(())) => OpenEvent::Dup(Ok(())),
            OpenEvent::Dup(Err(e)) => OpenEvent::Dup(Err(e@)),
        }
    }
}

impl View for OpenFailure<String> {
    type V = OpenFailure<Seq<char>>;

    open spec fn view(&self) -> OpenFailure<Seq<char>> {
        match self {
            OpenFailure::NotFound(e) => OpenFailure::NotFound(e@),
            OpenFailure::Exists(e) => OpenFailure::Exists(e@),
            OpenFailure::Bucket(e) => OpenFailure::Bucket(e@),
        }
    }
}

impl View for OpenStep<String> {
    type V = OpenStep<Seq<char>>;

    open spec fn view(&self) -> OpenStep<Seq<char>> {
        match self {
            OpenStep::Perform(action) => OpenStep::Perform(*action),
            OpenStep::Finish(Ok(())) => OpenStep::Finish(Ok(())),
            OpenStep::Finish(Err(e)) => OpenStep::Finish(Err(e@)),
        }
    }
}

/// The event is one that the phase waits for.
pub open spec fn open_awaits(phase: OpenPhase, event: OpenEvent<Seq<char>>) -> bool {
    match phase {
        OpenPhase::Opening => event is OpenAt,
        OpenPhase::MakingParents => event is Parents,
        OpenPhase::Retrying => event is OpenAt,
        OpenPhase::Stating => event is Stat,
        OpenPhase::Locking => event is Locked,
        OpenPhase::Duplicating => event is Dup,
        OpenPhase::Done => false,
    }
}

/// What a file that could not be opened means.
pub open spec fn open_failure(reply: OpenReply<Seq<char>>) -> OpenFailure<Seq<char>> {
    match reply {
        OpenReply::NotFound(e) => OpenFailure::NotFound(e),
        OpenReply::Exists(e) => OpenFailure::Exists(e),
        OpenReply::Failed(e) => OpenFailure::Bucket(FileBucketError::Openat(e)),
        OpenReply::Opened => OpenFailure::Bucket(FileBucketError::Openat(exchange::unexpected())),
    }
}

/// What follows in opening or creating a file at a path of `names` names.
pub open spec fn open_next(
    create: bool,
    names: nat,
    phase: OpenPhase,
    event: OpenEvent<Seq<char>>,
) -> (OpenPhase, OpenStep<Seq<char>>) {
    match (phase, event) {
        (OpenPhase::Opening, OpenEvent::OpenAt(OpenReply::Opened)) => (
            OpenPhase::Stating,
            OpenStep::Perform(OpenAction::Fstat),
        ),
        (OpenPhase::Retrying, OpenEvent::OpenAt(OpenReply::Opened)) => (
            OpenPhase::Stating,
            OpenStep::Perform(OpenAction::Fstat),
        ),
        // Parent directory component does not exist after we optimistically
        // tried to simply open the file, try creating it.
        (OpenPhase::Opening, OpenEvent::OpenAt(OpenReply::NotFound(_))) if create && names > 0 => (
            OpenPhase::MakingParents,
            OpenStep::Perform(OpenAction::MakeParents),
        ),
        (OpenPhase::Opening, OpenEvent::OpenAt(reply)) => (
            OpenPhase::Done,
            OpenStep::Finish(Err(open_failure(reply))),
        ),
        (OpenPhase::Retrying, OpenEvent::OpenAt(reply)) => (
            OpenPhase::Done,
            OpenStep::Finish(Err(open_failure(reply))),
        ),
        (OpenPhase::MakingParents, OpenEvent::Parents(Ok(Ok(_)))) => (
            OpenPhase::Retrying,
            OpenStep::Perform(OpenAction::OpenAt { create }),
        ),
        (OpenPhase::MakingParents, OpenEvent::Parents(Ok(Err(e)))) => (
            OpenPhase::Done,
            OpenStep::Finish(Err(OpenFailure::Bucket(FileBucketError::CreateDirAll(e)))),
        ),
        (OpenPhase::MakingParents, OpenEvent::Parents(Err(e))) => (
            OpenPhase::Done,
            OpenStep::Finish(Err(OpenFailure::Bucket(FileBucketError::JoinFailedBug(e)))),
        ),
        (OpenPhase::Stating, OpenEvent::Stat(Ok(inode))) => (
            OpenPhase::Locking,
            OpenStep::Perform(OpenAction::Lock(inode)),
        ),
        (OpenPhase::Stating, OpenEvent::Stat(Err(e))) => (
            OpenPhase::Done,
            OpenStep::Finish(Err(OpenFailure::Bucket(FileBucketError::Fstat(e)))),
        ),
        (OpenPhase::Locking, OpenEvent::Locked) => (
            OpenPhase::Duplicating,
            OpenStep::Perform(OpenAction::Dup),
        ),
        (OpenPhase::Duplicating, OpenEvent::Dup(Ok(_))) => (
            OpenPhase::Done,
            OpenStep::Finish(Ok(())),
        ),
        (OpenPhase::Duplicating, OpenEvent::Dup(Err(e))) => (
            OpenPhase::Done,
            OpenStep::Finish(Err(OpenFailure::Bucket(FileBucketError::Dup(e)))),
        ),
        (_, _) => (
            OpenPhase::Done,
            OpenStep::Finish(
                Err(OpenFailure::Bucket(FileBucketError::Openat(exchange::unexpected()))),
            ),
        ),
    }
}

/// A file in a bucket that is being opened or created.
#[derive(Debug)]
pub struct FileOpening {
    pub path: FilePath,
    /// Whether the file is to be created.
    pub create: bool,
    pub phase: OpenPhase,
}

impl FileOpening {
    /// Starts to open a file. A name that is no acceptable path is invalid.
    pub fn file(file_name: &str) -> (out: Result<(FileOpening, OpenAction), FileOpenError>)
        ensures
            match path::path_error(file_name@) {
                None => {
                    &&& out matches Ok(start)
                    &&& start.0.path@ == path::path_names(file_name@)
                    &&& start.0.path.wf()
                    &&& !start.0.create
                    &&& start.0.phase == OpenPhase::Opening
                    &&& start.1 == (OpenAction::OpenAt { create: false })
                },
                Some(_) => out matches Err(e) && e@ == FileOpenError::<Seq<char>>::InvalidName,
            },
    {
        match FilePath::make_acceptable_filepath(file_name) {
            Ok(path) => Ok(
                (
                    FileOpening { path, create: false, phase: OpenPhase::Opening },
                    OpenAction::OpenAt { create: false },
                ),
            ),
            Err(_) => Err(FileOpenError::InvalidName),
        }
    }

    /// Starts to create a file. A name that is no acceptable path is invalid.
    pub fn create_file(file_name: &str) -> (out: Result<(FileOpening, OpenAction), FileCreateError>)
        ensures
            match path::path_error(file_name@) {
                None => {
                    &&& out matches Ok(start)
                    &&& start.0.path@ == path::path_names(file_name@)
                    &&& start.0.path.wf()
                    &&& start.0.create
                    &&& start.0.phase == OpenPhase::Opening
                    &&& start.1 == (OpenAction::OpenAt { create: true })
                },
                Some(_) => out matches Err(e) && e@ == FileCreateError::<Seq<char>>::InvalidName,
            },
    {
        match FilePath::make_acceptable_filepath(file_name) {
            Ok(path) => Ok(
                (
                    FileOpening { path, create: true, phase: OpenPhase::Opening },
                    OpenAction::OpenAt { create: true },
                ),
            ),
            Err(_) => Err(FileCreateError::InvalidName),
        }
    }

    /// Takes what the last action came to and says what to do next.
    pub fn step(&mut self, event: OpenEvent) -> (out: OpenStep)
        requires
            open_awaits(old(self).phase, event@),
        ensures
            final(self).path == old(self).path,
            final(self).create == old(self).create,
            (final(self).phase, out@) == open_next(
                old(self).create,
                old(self).path@.len(),
                old(self).phase,
                event@,
            ),
    {
        let phase = self.phase;
        self.phase = OpenPhase::Done;
        match (phase, event) {
            (OpenPhase::Opening, OpenEvent::OpenAt(OpenReply::Opened)) | (
                OpenPhase::Retrying,
                OpenEvent::OpenAt(OpenReply::Opened),
            ) => {
                self.phase = OpenPhase::Stating;
                OpenStep::Perform(OpenAction::Fstat)
            },
            (OpenPhase::Opening, OpenEvent::OpenAt(OpenReply::NotFound(e))) => if self.create
                && self.path.len() > 0 {
                // Parent directory component does not exist after we
                // optimistically tried to simply open the file, try creating
                // it.
                self.phase = OpenPhase::MakingParents;
                OpenStep::Perform(OpenAction::MakeParents)
            } else {
                OpenStep::Finish(Err(OpenFailure::NotFound(e)))
            },
            (OpenPhase::Retrying, OpenEvent::OpenAt(OpenReply::NotFound(e))) => OpenStep::Finish(
                Err(OpenFailure::NotFound(e)),
            ),
            (_, OpenEvent::OpenAt(OpenReply::Exists(e))) => OpenStep::Finish(
                Err(OpenFailure::Exists(e)),
            ),
            (_, OpenEvent::OpenAt(OpenReply::Failed(e))) => OpenStep::Finish(
                Err(OpenFailure::Bucket(FileBucketError::Openat(e))),
            ),
            (OpenPhase::MakingParents, OpenEvent::Parents(Ok(Ok(_)))) => {
                self.phase = OpenPhase::Retrying;
                OpenStep::Perform(OpenAction::OpenAt { create: self.create })
            },
            (OpenPhase::MakingParents, OpenEvent::Parents(Ok(Err(e)))) => OpenStep::Finish(
                Err(OpenFailure::Bucket(FileBucketError::CreateDirAll(e))),
            ),
            (OpenPhase::MakingParents, OpenEvent::Parents(Err(e))) => OpenStep::Finish(
                Err(OpenFailure::Bucket(FileBucketError::JoinFailedBug(e))),
            ),
            (OpenPhase::Stating, OpenEvent::Stat(Ok(inode))) => {
                self.phase = OpenPhase::Locking;
                OpenStep::Perform(OpenAction::Lock(inode))
            },
            (OpenPhase::Stating, OpenEvent::Stat(Err(e))) => OpenStep::Finish(
                Err(OpenFailure::Bucket(FileBucketError::Fstat(e))),
            ),
            (OpenPhase::Locking, OpenEvent::Locked) => {
                self.phase = OpenPhase::Duplicating;
                OpenStep::Perform(OpenAction::Dup)
            },
            (OpenPhase::Duplicating, OpenEvent::Dup(Ok(_))) => OpenStep::Finish(Ok(())),
            (OpenPhase::Duplicating, OpenEvent::Dup(Err(e))) => OpenStep::Finish(
                Err(OpenFailure::Bucket(FileBucketError::Dup(e))),
            ),
            (_, _) => OpenStep::Finish(
                Err(OpenFailure::Bucket(FileBucketError::Openat(exchange::unexpected_event()))),
            ),
        }
    }
}

/// Whatever the system answers, a file is handed out only with the lock on its
/// inode taken: the end is reached only from duplicating the descriptor, which
/// follows only on taking the lock, on the inode that was found.
pub proof fn law_open_file_is_locked(
    create: bool,
    names: nat,
    phase: OpenPhase,
    event: OpenEvent<Seq<char>>,
)
    requires
        open_awaits(phase, event),
    ensures
        ({
            let (next, step) = open_next(create, names, phase, event);
            &&& step == OpenStep::<Seq<char>>::Finish(Ok(())) ==> phase == OpenPhase::Duplicating
            &&& next == OpenPhase::Duplicating ==> phase == OpenPhase::Locking && event is Locked
            &&& next == OpenPhase::Locking ==> phase == OpenPhase::Stating && (
            event matches OpenEvent::Stat(Ok(inode)) && step == OpenStep::<Seq<char>>::Perform(
                OpenAction::Lock(inode),
            ))
        }),
{
}

/// The error for a file that could not be opened.
pub open spec fn opening_error(failure: OpenFailure<Seq<char>>) -> FileOpenError<Seq<char>> {
    match failure {
        OpenFailure::NotFound(_) => FileOpenError::DoesNotExist,
        OpenFailure::Exists(e) => FileOpenError::OtherError(FileBucketError::Openat(e).text()),
        OpenFailure::Bucket(e) => FileOpenError::OtherError(e.text()),
    }
}

/// The error for a file that could not be created.
pub open spec fn creation_error(failure: OpenFailure<Seq<char>>) -> FileCreateError<Seq<char>> {
    match failure {
        OpenFailure::Exists(_) => FileCreateError::FileExists,
        OpenFailure::NotFound(e) => FileCreateError::OtherError(FileBucketError::Openat(e).text()),
        OpenFailure::Bucket(e) => FileCreateError::OtherError(e.text()),
    }
}

impl OpenFailure {
    /// The error for a file that could not be opened.
    pub fn to_open_error(self) -> (out: FileOpenError)
        ensures
            out@ == opening_error(self@),
    {
        match self {
            OpenFailure::NotFound(_) => FileOpenError::DoesNotExist,
            OpenFailure::Exists(e) => FileOpenError::from(FileBucketError::Openat(e)),
            OpenFailure::Bucket(e) => FileOpenError::from(e),
        }
    }

    /// The error for a file that could not be created.
    pub fn to_create_error(self) -> (out: FileCreateError)
        ensures
            out@ == creation_error(self@),
    {
        match self {
            OpenFailure::Exists(_) => FileCreateError::FileExists,
            OpenFailure::NotFound(e) => FileCreateError::from(FileBucketError::Openat(e)),
            OpenFailure::Bucket(e) => FileCreateError::from(e),
        }
    }
}

/// Carries out an action for `path` on a directory tree.
pub open spec fn perform(tree: Tree, path: Seq<Seq<char>>, action: OpenAction) -> (
    Tree,
    OpenEvent<Seq<char>>,
) {
    match action {
        OpenAction::OpenAt { create } => {
            let missing = OpenEvent::OpenAt(OpenReply::NotFound("No such file or directory"@));
            if path.len() == 0 {
                (tree, missing)
            } else if tree.files.contains(path) || tree.dirs.contains(path) {
                if create {
                    (tree, OpenEvent::OpenAt(OpenReply::Exists("File exists"@)))
                } else if tree.files.contains(path) {
                    (tree, OpenEvent::OpenAt(OpenReply::Opened))
                } else {
                    (tree, OpenEvent::OpenAt(OpenReply::Failed("Is a directory"@)))
                }
            } else if !tree.unblocked(path.drop_last()) {
                (tree, OpenEvent::OpenAt(OpenReply::Failed("Not a directory"@)))
            } else if create && tree.is_dir(path.drop_last()) {
                (
                    Tree { files: tree.files.insert(path), ..tree },
                    OpenEvent::OpenAt(OpenReply::Opened),
                )
            } else {
                (tree, missing)
            }
        },
        OpenAction::MakeParents => {
            let parent = path.drop_last();
            match dirs::run_dirs(
                parent,
                tree,
                dirs::first_dir_action(parent.len() as usize),
                3 * parent.len(),
            ) {
                Some((after, result)) => (after, OpenEvent::Parents(Ok(result))),
                None => (tree, OpenEvent::Parents(Err("stuck"@))),
            }
        },
        OpenAction::Fstat => (tree, OpenEvent::Stat(Ok(0))),
        OpenAction::Lock(_) => (tree, OpenEvent::Locked),
        OpenAction::Dup => (tree, OpenEvent::Dup(Ok(()))),
    }
}

/// Opens or creates the file at `path` of a directory tree.
pub open spec fn run_open(
    tree: Tree,
    path: Seq<Seq<char>>,
    create: bool,
    state: (OpenPhase, OpenStep<Seq<char>>),
    fuel: nat,
) -> Option<(Tree, Result<(), OpenFailure<Seq<char>>>)>
    decreases fuel,
{
    match state.1 {
        OpenStep::Finish(result) => Some((tree, result)),
        OpenStep::Perform(action) => if fuel == 0 {
            None
        } else {
            let (after, event) = perform(tree, path, action);
            run_open(
                after,
                path,
                create,
                open_next(create, path.len(), state.0, event),
                (fuel - 1) as nat,
            )
        },
    }
}

/// What comes of opening a file, and the tree then.
pub open spec fn open_file(tree: Tree, path: Seq<Seq<char>>, create: bool) -> (
    Tree,
    Result<(), OpenFailure<Seq<char>>>,
) {
    run_open(
        tree,
        path,
        create,
        (OpenPhase::Opening, OpenStep::Perform(OpenAction::OpenAt { create })),
        6,
    )->0
}

/// Once a file is open, nothing else is in the way.
proof fn lemma_run_opened(tree: Tree, path: Seq<Seq<char>>, create: bool, fuel: nat)
    requires
        fuel >= 3,
    ensures
        run_open(
            tree,
            path,
            create,
            (OpenPhase::Stating, OpenStep::Perform(OpenAction::Fstat)),
            fuel,
        ) == Some((tree, Ok::<(), OpenFailure<Seq<char>>>(()))),
{
    reveal_with_fuel(run_open, 4);
}

/// Opening a file that is there gives the file, and one that is not does not
/// exist. Either way nothing changes.
pub proof fn law_open_finds_what_is_there(tree: Tree, path: Seq<Seq<char>>)
    requires
        tree.wf(),
        !tree.dirs.contains(path),
        path.len() > 0 ==> tree.unblocked(path.drop_last()),
    ensures
        open_file(tree, path, false).0 == tree,
        if tree.files.contains(path) {
            open_file(tree, path, false).1 is Ok
        } else {
            open_file(tree, path, false).1 matches Err(failure) && opening_error(failure)
                == FileOpenError::<Seq<char>>::DoesNotExist
        },
{
    let start: (OpenPhase, OpenStep<Seq<char>>) = (
        OpenPhase::Opening,
        OpenStep::Perform(OpenAction::OpenAt { create: false }),
    );
    let (after, event) = perform(tree, path, OpenAction::OpenAt { create: false });
    let next = open_next(false, path.len(), start.0, event);
    assert(run_open(tree, path, false, start, 6) == run_open(after, path, false, next, 5));
    if path.len() > 0 && tree.files.contains(path) {
        lemma_run_opened(tree, path, false, 5);
    } else if path.len() == 0 {
        if tree.files.contains(path) {
            assert(path.len() > 0);
        }
    }
}

/// Creating a file that is there fails with `FileExists` and changes nothing.
/// Otherwise the file and the directories that it is in, and nothing else, are
/// there then, unless another file is in the way.
pub proof fn law_create_makes_the_file(tree: Tree, path: Seq<Seq<char>>)
    requires
        tree.wf(),
        0 < path.len() <= usize::MAX,
        tree.unblocked(path.drop_last()),
    ensures
        ({
            let (after, result) = open_file(tree, path, true);
            if tree.files.contains(path) || tree.dirs.contains(path) {
                &&& after == tree
                &&& result matches Err(failure)
                &&& creation_error(failure) == FileCreateError::<Seq<char>>::FileExists
            } else {
                &&& result is Ok
                &&& after.dirs == tree.with_dirs(path.drop_last()).dirs
                &&& after.files == tree.files.insert(path)
            }
        }),
{
    let parent = path.drop_last();
    let open = OpenAction::OpenAt { create: true };
    let s0: (OpenPhase, OpenStep<Seq<char>>) = (OpenPhase::Opening, OpenStep::Perform(open));
    let (t1, e1) = perform(tree, path, open);
    let s1 = open_next(true, path.len(), s0.0, e1);
    assert(run_open(tree, path, true, s0, 6) == run_open(t1, path, true, s1, 5));
    if tree.files.contains(path) || tree.dirs.contains(path) {
    } else if tree.is_dir(parent) {
        lemma_run_opened(t1, path, true, 5);
        dirs::lemma_with_dirs_of_dir(tree, parent);
    } else {
        dirs::law_create_dir_all_makes_the_whole_path(parent, tree, 3 * parent.len());
        let (t2, e2) = perform(t1, path, OpenAction::MakeParents);
        let s2 = open_next(true, path.len(), s1.0, e2);
        assert(run_open(t1, path, true, s1, 5) == run_open(t2, path, true, s2, 4));
        assert(t2 == tree.with_dirs(parent));
        assert(!t2.dirs.contains(path));
        assert(parent == parent.take(parent.len() as int));
        assert(t2.is_dir(parent));
        let (t3, e3) = perform(t2, path, open);
        let s3 = open_next(true, path.len(), s2.0, e3);
        assert(t2.unblocked(parent));
        assert(run_open(t2, path, true, s2, 4) == run_open(t3, path, true, s3, 3));
        lemma_run_opened(t3, path, true, 3);
    }
}

/// How far opening a file comes when a lock is in play.
pub enum LockedRun {
    /// It ended, with the lock held or not.
    Done(Tree, bool, Result<(), OpenFailure<Seq<char>>>),
    /// It waits for the lock, to go on from here.
    Waiting(Tree, OpenPhase, OpenStep<Seq<char>>),
    /// It was not looked at any further.
    Running,
}

/// Opens or creates the file at `path` of a directory tree while the lock of the
/// bucket's files is held, or not, by a handle. The lock is taken only when it is
/// free, and until then the opening waits.
pub open spec fn run_locked(
    tree: Tree,
    held: bool,
    path: Seq<Seq<char>>,
    create: bool,
    state: (OpenPhase, OpenStep<Seq<char>>),
    fuel: nat,
) -> LockedRun
    decreases fuel,
{
    match state.1 {
        OpenStep::Finish(result) => LockedRun::Done(tree, held, result),
        OpenStep::Perform(action) => if action is Lock && held {
            LockedRun::Waiting(tree, state.0, state.1)
        } else if fuel == 0 {
            LockedRun::Running
        } else {
            let (after, event) = perform(tree, path, action);
            run_locked(
                after,
                held || action is Lock,
                path,
                create,
                open_next(create, path.len(), state.0, event),
                (fuel - 1) as nat,
            )
        },
    }
}

/// How opening or creating a file starts.
pub open spec fn open_start(create: bool) -> (OpenPhase, OpenStep<Seq<char>>) {
    (OpenPhase::Opening, OpenStep::Perform(OpenAction::OpenAt { create }))
}

proof fn lemma_done_holds_lock(
    tree: Tree,
    held: bool,
    path: Seq<Seq<char>>,
    create: bool,
    state: (OpenPhase, OpenStep<Seq<char>>),
    fuel: nat,
)
    requires
        state.0 == OpenPhase::Duplicating ==> held,
        state.1 matches OpenStep::Finish(Ok(_)) ==> held,
    ensures
        run_locked(tree, held, path, create, state, fuel) matches LockedRun::Done(_, holds, Ok(_))
            ==> holds,
    decreases fuel,
{
    if let OpenStep::Perform(action) = state.1 {
        if fuel > 0 && !(action is Lock && held) {
            let (after, event) = perform(tree, path, action);
            lemma_done_holds_lock(
                after,
                held || action is Lock,
                path,
                create,
                open_next(create, path.len(), state.0, event),
                (fuel - 1) as nat,
            );
        }
    }
}

/// A handle, from opening or creating a file, holds the lock.
pub proof fn law_handle_holds_the_lock(
    tree: Tree,
    held: bool,
    path: Seq<Seq<char>>,
    create: bool,
    fuel: nat,
)
    ensures
        run_locked(tree, held, path, create, open_start(create), fuel) matches LockedRun::Done(
            _,
            holds,
            Ok(_),
        ) ==> holds,
{
    lemma_done_holds_lock(tree, held, path, create, open_start(create), fuel);
}

/// While a handle holds the lock, opening a file does not return: at most one
/// handle to a file exists at a time. Once the lock is free, the opening that
/// waited goes on and gives a handle.
pub proof fn law_second_open_waits(tree: Tree, path: Seq<Seq<char>>, fuel: nat)
    requires
        tree.wf(),
        tree.files.contains(path),
        fuel >= 2,
    ensures
        run_locked(tree, true, path, false, open_start(false), fuel) matches LockedRun::Waiting(
            then,
            phase,
            step,
        ) && then == tree && run_locked(tree, false, path, false, (phase, step), fuel)
            == LockedRun::Done(tree, true, Ok(())),
{
    let s0 = open_start(false);
    let (t1, e1) = perform(tree, path, OpenAction::OpenAt { create: false });
    let s1 = open_next(false, path.len(), s0.0, e1);
    assert(run_locked(tree, true, path, false, s0, fuel) == run_locked(
        tree,
        true,
        path,
        false,
        s1,
        (fuel - 1) as nat,
    ));
    let (t2, e2) = perform(tree, path, OpenAction::Fstat);
    let s2 = open_next(false, path.len(), s1.0, e2);
    assert(run_locked(tree, true, path, false, s1, (fuel - 1) as nat) == run_locked(
        tree,
        true,
        path,
        false,
        s2,
        (fuel - 2) as nat,
    ));
    let (t3, e3) = perform(tree, path, OpenAction::Lock(0));
    let s3 = open_next(false, path.len(), s2.0, e3);
    assert(run_locked(tree, false, path, false, s2, fuel) == run_locked(
        tree,
        true,
        path,
        false,
        s3,
        (fuel - 1) as nat,
    ));
    let (t4, e4) = perform(tree, path, OpenAction::Dup);
    let s4 = open_next(false, path.len(), s3.0, e4);
    assert(run_locked(tree, true, path, false, s3, (fuel - 1) as nat) == run_locked(
        tree,
        true,
        path,
        false,
        s4,
        (fuel - 2) as nat,
    ));
}

/// Every plain name can be that of a bucket: a name is refused only if, as a
/// path, it is not one directory of that very name. The bucket of a plain name
/// is looked up, and found if it is open.
pub proof fn law_every_plain_name_can_be_a_bucket(
    backend: FileBackend,
    name: &str,
    out: Result<BucketLookup, FileOpenError>,
)
    requires
        backend.wf(),
        name@.len() > 0,
        call_ensures(FileBackend::bucket, (&backend, name), out),
    ensures
        out is Ok <==> path::is_plain_name(name@),
        out is Ok <==> path::path_error(name@) is None && path::path_names(name@) == seq![name@],
        out is Ok <==> {
            &&& !(name@.len() == 1 && name@[0] == '.')
            &&& !(name@.len() == 2 && name@[0] == '.' && name@[1] == '.')
            &&& forall|i: int|
                0 <= i < name@.len() ==> #[trigger] name@[i] != '/' && name@[i] != '\0'
        },
        out matches Err(e) ==> e is InvalidName,
        out matches Ok(BucketLookup::Open(i)) ==> i < backend@.len() && backend@[i as int]
            == name@,
        path::is_plain_name(name@) && backend@.contains(name@) ==> (out matches Ok(
            BucketLookup::Open(_),
        )),
{
    reveal_strlit(".");
    reveal_strlit("..");
    assert("."@ =~= seq!['.']);
    assert(".."@ =~= seq!['.', '.']);
    path::law_plain_names(name@);
    if valid_bucket_name(name@) {
        law_bucket_is_one_directory(name@);
    }
    if path::path_error(name@) is None && path::path_names(name@) == seq![name@] {
        path::law_acceptable_path_stays_inside(name@);
        assert(path::is_plain_name(path::path_names(name@)[0]));
    }
}

/// A bucket whose directory was opened is open from then on, under the next
/// number, and no other bucket changes; one whose directory was not found does
/// not exist, and any other failure is told as it is.
pub proof fn law_opened_bucket_is_open(
    name: &str,
    result: Result<(), DirOpenError>,
)
    ensures
        forall|backend: &mut FileBackend, out: Result<usize, FileOpenError>|
            #![trigger call_ensures(FileBackend::opened, (backend, name, result), out)]
            call_ensures(FileBackend::opened, (backend, name, result), out) ==> {
                &&& result is Ok ==> (out matches Ok(number) && number == (*backend)@.len()
                    && final(backend)@.len() == number + 1 && final(backend)@[number as int]
                    == name@)
                &&& result matches Err(DirOpenError::NotFound) ==> (out matches Err(
                    FileOpenError::DoesNotExist,
                ))
                &&& result matches Err(DirOpenError::Other(e)) ==> (out matches Err(
                    FileOpenError::OtherError(why),
                ) && why@ == e@)
                &&& result is Err ==> final(backend)@ == (*backend)@
                &&& (*backend)@.is_prefix_of(final(backend)@)
            },
{
}

/// The names that are listed are those of the directories that have one, all of
/// them and no others, each once for each directory; those that come first in
/// the directory come first in the list.
pub proof fn law_every_directory_is_listed(
    entries: Seq<DirEntry>,
    more: Seq<DirEntry>,
    name: Seq<char>,
)
    ensures
        bucket_names(entries).contains(name) <==> exists|i: int|
            0 <= i < entries.len() && (#[trigger] entries[i]).is_dir && (
            entries[i].name matches Some(n) && n@ == name),
        bucket_names(entries + more) == bucket_names(entries) + bucket_names(more),
        entries.len() == 1 && entries[0].is_dir && entries[0].name is Some ==> bucket_names(entries)
            == seq![entries[0].name->0@],
{
    lemma_listed(entries, name);
    lemma_listed_in_order(entries, more);
    if entries.len() == 1 {
        assert(entries.drop_last() =~= seq![]);
        assert(bucket_names(entries.drop_last()) =~= seq![]);
    }
}

proof fn lemma_listed(entries: Seq<DirEntry>, name: Seq<char>)
    ensures
        bucket_names(entries).contains(name) <==> exists|i: int|
            0 <= i < entries.len() && (#[trigger] entries[i]).is_dir && (
            entries[i].name matches Some(n) && n@ == name),
    decreases entries.len(),
{
    if entries.len() > 0 {
        let before = entries.drop_last();
        let last = entries.last();
        lemma_listed(before, name);
        let names = bucket_names(entries);
        let rest = bucket_names(before);
        if names.contains(name) {
            let k = choose|k: int| 0 <= k < names.len() && names[k] == name;
            if k < rest.len() {
                assert(rest[k] == name);
                let i = choose|i: int|
                    0 <= i < before.len() && (#[trigger] before[i]).is_dir && (
                    before[i].name matches Some(n) && n@ == name);
                assert(entries[i] == before[i]);
            } else {
                assert(entries[entries.len() - 1] == last);
            }
        }
        if exists|i: int|
            0 <= i < entries.len() && (#[trigger] entries[i]).is_dir && (
            entries[i].name matches Some(n) && n@ == name) {
            let i = choose|i: int|
                0 <= i < entries.len() && (#[trigger] entries[i]).is_dir && (
                entries[i].name matches Some(n) && n@ == name);
            if i < before.len() {
                assert(before[i] == entries[i]);
                let k = choose|k: int| 0 <= k < rest.len() && rest[k] == name;
                assert(names[k] == name);
            } else {
                assert(names.last() == name);
            }
        }
    }
}

proof fn lemma_listed_in_order(entries: Seq<DirEntry>, more: Seq<DirEntry>)
    ensures
        bucket_names(entries + more) == bucket_names(entries) + bucket_names(more),
    decreases more.len(),
{
    if more.len() == 0 {
        assert(entries + more =~= entries);
        assert(bucket_names(entries) + bucket_names(more) =~= bucket_names(entries));
    } else {
        assert((entries + more).drop_last() =~= entries + more.drop_last());
        lemma_listed_in_order(entries, more.drop_last());
        assert(bucket_names(entries + more) =~= bucket_names(entries) + bucket_names(more));
    }
}

/// What is stored in an attribute is what is read from it; an attribute that is
/// not there is none, and one that is no text is an error. A file without a
/// Content-Type is `text/plain`.
pub proof fn law_attribute_reads_back(
    value: &str,
    bytes: Vec<u8>,
    read: Result<Option<String>, FileAttrError>,
    missing: Result<Option<String>, FileAttrError>,
    others: Vec<u8>,
)
    requires
        call_ensures(attr_bytes, (value,), bytes),
        call_ensures(get_attr, (Ok(Ok(Some(bytes))),), read),
        call_ensures(get_attr, (Ok(Ok(None)),), missing),
    ensures
        read matches Ok(Some(text)) && text@ == value@,
        missing matches Ok(None),
        forall|out: Result<Option<String>, FileAttrError>| #[trigger]
            call_ensures(get_attr, (Ok(Ok(Some(others))),), out) ==> if vstd::utf8::valid_utf8(
                others@,
            ) {
                out matches Ok(Some(text)) && vstd::utf8::encode_utf8(text@) == others@
            } else {
                out matches Err(FileAttrError::InvalidUtf8(_))
            },
        forall|out: String| #[trigger]
            call_ensures(content_type, (Some(read->Ok_0->0),), out) ==> out@ == value@,
        forall|out: String| #[trigger]
            call_ensures(content_type, (None,), out) ==> out@ == "text/plain"@,
{
    law_attr_reads_back(value@);
    broadcast use vstd::utf8::decode_utf8_encode_utf8;

}

/// Attributes of different names are different, in the namespace for users.
pub proof fn law_attributes_have_names_of_their_own(
    attr: &str,
    other: &str,
    name: String,
    other_name: String,
)
    requires
        call_ensures(xattr_name, (attr,), name),
        call_ensures(xattr_name, (other,), other_name),
    ensures
        "user.com.mercury.locally-euclidean."@.is_prefix_of(name@),
        attr@.is_suffix_of(name@),
        name@ == other_name@ <==> attr@ == other@,
{
    let start = "user.com.mercury.locally-euclidean."@.len() as int;
    assert(attr@ =~= name@.subrange(start, name@.len() as int));
    assert(other@ =~= other_name@.subrange(start, other_name@.len() as int));
}

/// An attribute that cannot be read or written is an error that says why, and so
/// is a time of modification that cannot be; one that can be is given as it is.
pub proof fn law_attribute_errors_are_told(
    e: String,
    at: Timestamp,
)
    ensures
        forall|out: Result<Option<String>, FileAttrError>| #[trigger]
            call_ensures(get_attr, (Ok(Err(e)),), out) ==> (out matches Err(
                FileAttrError::GetXattrFailed(why),
            ) && why@ == e@),
        forall|out: Result<Option<String>, FileAttrError>| #[trigger]
            call_ensures(get_attr, (Err(e),), out) ==> (out matches Err(
                FileAttrError::JoinFailedBug(why),
            ) && why@ == e@),
        forall|out: Result<(), FileAttrError>| #[trigger]
            call_ensures(set_attr, (Ok(Ok(())),), out) ==> out is Ok,
        forall|out: Result<(), FileAttrError>| #[trigger]
            call_ensures(set_attr, (Ok(Err(e)),), out) ==> (out matches Err(
                FileAttrError::SetXattrFailed(why),
            ) && why@ == e@),
        forall|out: Result<(), FileAttrError>| #[trigger]
            call_ensures(set_attr, (Err(e),), out) ==> (out matches Err(
                FileAttrError::JoinFailedBug(why),
            ) && why@ == e@),
        forall|out: Result<Timestamp, FileMetadataError>| #[trigger]
            call_ensures(metadata, (Ok(at),), out) ==> (out matches Ok(given) && given == at),
        forall|out: Result<Timestamp, FileMetadataError>| #[trigger]
            call_ensures(metadata, (Err(e),), out) ==> (out matches Err(
                FileMetadataError::TokioFsMetadata(why),
            ) && why@ == e@),
{
}

/// Opening and creating a file start on the path that its name is, opening
/// without creating and creating without opening what is there. A name that is
/// no acceptable path is invalid for both, and any path of plain names is
/// acceptable.
pub proof fn law_file_is_opened_by_its_name(
    names: Seq<Seq<char>>,
    file_name: &str,
    opening: Result<(FileOpening, OpenAction), FileOpenError>,
    creating: Result<(FileOpening, OpenAction), FileCreateError>,
)
    requires
        call_ensures(FileOpening::file, (file_name,), opening),
        call_ensures(FileOpening::create_file, (file_name,), creating),
    ensures
        opening matches Err(e) ==> e is InvalidName,
        creating matches Err(e) ==> e is InvalidName,
        opening is Ok <==> creating is Ok,
        opening is Ok <==> path::path_error(file_name@) is None,
        opening matches Ok(start) ==> start.1 == (OpenAction::OpenAt { create: false })
            && !start.0.create && start.0.path@ == path::path_names(file_name@),
        creating matches Ok(start) ==> start.1 == (OpenAction::OpenAt { create: true })
            && start.0.create && start.0.path@ == path::path_names(file_name@),
        file_name@ == path::slash_join(names) && (forall|i: int|
            0 <= i < names.len() ==> path::is_plain_name(#[trigger] names[i])) ==> (
        opening matches Ok(start) && start.0.path@ == names),
{
    if file_name@ == path::slash_join(names) && (forall|i: int|
        0 <= i < names.len() ==> path::is_plain_name(#[trigger] names[i])) {
        path::law_written_path_reads_back(names);
    }
}

/// Only a file that is not there does not exist, and only one that is there
/// exists; everything else that goes wrong is told, with all that was said of
/// it.
pub proof fn law_open_failures_are_told(
    failure: OpenFailure,
    opening: FileOpenError,
    creating: FileCreateError,
)
    requires
        call_ensures(OpenFailure::to_open_error, (failure,), opening),
        call_ensures(OpenFailure::to_create_error, (failure,), creating),
    ensures
        opening is DoesNotExist <==> failure is NotFound,
        creating is FileExists <==> failure is Exists,
        !(opening is InvalidName) && !(creating is InvalidName),
        failure matches OpenFailure::Bucket(e) ==> (opening matches FileOpenError::OtherError(why)
            && why@ == e@.text()),
        failure matches OpenFailure::Bucket(e) ==> (creating matches FileCreateError::OtherError(
            why,
        ) && why@ == e@.text()),
        failure matches OpenFailure::Exists(e) ==> (opening matches FileOpenError::OtherError(why)
            && e@.is_suffix_of(why@)),
        failure matches OpenFailure::NotFound(e) ==> (creating matches FileCreateError::OtherError(
            why,
        ) && e@.is_suffix_of(why@)),
{
}

/// Whatever goes wrong in opening a file ends it with an error that says what
/// it was.
pub proof fn law_opening_tells_what_failed(
    create: bool,
    names: nat,
    phase: OpenPhase,
    event: OpenEvent<Seq<char>>,
    e: Seq<char>,
)
    requires
        open_awaits(phase, event),
    ensures
        event == OpenEvent::OpenAt(OpenReply::Failed(e)) ==> (open_next(
            create,
            names,
            phase,
            event,
        ).1 matches OpenStep::Finish(Err(OpenFailure::Bucket(FileBucketError::Openat(why)))) && why
            == e),
        event == OpenEvent::OpenAt(OpenReply::Exists(e)) ==> (open_next(
            create,
            names,
            phase,
            event,
        ).1 matches OpenStep::Finish(Err(OpenFailure::Exists(why))) && why == e),
        event == OpenEvent::OpenAt(OpenReply::NotFound(e)) && (!create || names == 0 || phase
            == OpenPhase::Retrying) ==> (open_next(
            create,
            names,
            phase,
            event,
        ).1 matches OpenStep::Finish(Err(OpenFailure::NotFound(why))) && why == e),
        event == OpenEvent::Parents(Ok(Err(e))) ==> (open_next(
            create,
            names,
            phase,
            event,
        ).1 matches OpenStep::Finish(Err(OpenFailure::Bucket(FileBucketError::CreateDirAll(why))))
            && why == e),
        event == OpenEvent::Parents(Err(e)) ==> (open_next(
            create,
            names,
            phase,
            event,
        ).1 matches OpenStep::Finish(Err(OpenFailure::Bucket(FileBucketError::JoinFailedBug(why))))
            && why == e),
        event == OpenEvent::Stat(Err(e)) ==> (open_next(
            create,
            names,
            phase,
            event,
        ).1 matches OpenStep::Finish(Err(OpenFailure::Bucket(FileBucketError::Fstat(why)))) && why
            == e),
        event == OpenEvent::Dup(Err(e)) ==> (open_next(
            create,
            names,
            phase,
            event,
        ).1 matches OpenStep::Finish(Err(OpenFailure::Bucket(FileBucketError::Dup(why)))) && why
            == e),
{
}

} // verus!
