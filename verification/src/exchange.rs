//! What a request handler asks to have done, and what it is told in return.
//!
//! Handlers are machines: each step takes the outcome of the last action and
//! gives the next one. Whoever runs them talks to the store and to the client.
//! All types are generic in text and bytes, so that contracts can speak of the
//! same values over `Seq`.

use vstd::prelude::*;

use crate::errors::{FileCreateError, FileOpenError};
use crate::time::Timestamp;

verus! {

/// Where to seek in a file.
#[derive(Clone, Copy, Debug, PartialEq, Eq, Structural)]
pub enum SeekFrom {
    Start(u64),
    End(i64),
    Current(i64),
}

/// File metadata.
#[derive(Debug)]
pub struct FileMetadata<S = String> {
    /// When the file was last modified, according to the system.
    pub last_modified_at: Timestamp,
    /// The Content-Type that the file was uploaded with.
    pub content_type: S,
}

/// Something to do with the store, the open file or the request body.
#[derive(Debug)]
pub enum Action<S = String, B = Vec<u8>> {
    /// Open the bucket of this name.
    OpenBucket(S),
    /// Create a file in the open bucket and open it.
    CreateFile { filename: S, content_type: S },
    /// Open a file in the open bucket.
    OpenFile(S),
    /// Seek in the open file.
    Seek(SeekFrom),
    /// Receive the next chunk of the request body.
    NextChunk,
    /// Read exactly this many bytes at the current position.
    ReadExact(usize),
    /// Append to the end of the open file.
    Append(B),
    /// Commit the changes to the open file to storage.
    Commit,
    /// Retrieve the metadata of the open file.
    Metadata,
}

/// What a read came to.
#[derive(Debug)]
pub enum ReadReply<S = String, B = Vec<u8>> {
    Bytes(B),
    /// The file ended before everything was read.
    UnexpectedEof,
    Failed(S),
}

/// What an action came to. Errors that are not told apart are given by what
/// they say.
#[derive(Debug)]
pub enum Event<S = String, B = Vec<u8>> {
    Bucket(Result<(), FileOpenError<S>>),
    Created(Result<(), FileCreateError<S>>),
    Opened(Result<(), FileOpenError<S>>),
    Position(Result<u64, S>),
    Chunk(Result<Option<B>, S>),
    Read(ReadReply<S, B>),
    Written(Result<(), S>),
    Metadata(Result<FileMetadata<S>, S>),
}

/// A handler either wants something done or is finished.
#[derive(Debug)]
pub enum Step<T, S = String, B = Vec<u8>> {
    Perform(Action<S, B>),
    Finish(T),
}

impl View for FileMetadata<String> {
    type V = FileMetadata<Seq<char>>;

    open spec fn view(&self) -> FileMetadata<Seq<char>> {
        FileMetadata {
            last_modified_at: self.last_modified_at,
            content_type: self.content_type@,
        }
    }
}

impl View for Action<String, Vec<u8>> {
    type V = Action<Seq<char>, Seq<u8>>;

    open spec fn view(&self) -> Action<Seq<char>, Seq<u8>> {
        match self {
            Action::OpenBucket(name) => Action::OpenBucket(name@),
            Action::CreateFile { filename, content_type } => Action::CreateFile {
                filename: filename@,
                content_type: content_type@,
            },
            Action::OpenFile(name) => Action::OpenFile(name@),
            Action::Seek(to) => Action::Seek(*to),
            Action::NextChunk => Action::NextChunk,
            Action::ReadExact(n) => Action::ReadExact(*n),
            Action::Append(data) => Action::Append(data@),
            Action::Commit => Action::Commit,
            Action::Metadata => Action::Metadata,
        }
    }
}

impl View for ReadReply<String, Vec<u8>> {
    type V = ReadReply<Seq<char>, Seq<u8>>;

    open spec fn view(&self) -> ReadReply<Seq<char>, Seq<u8>> {
        match self {
            ReadReply::Bytes(data) => ReadReply::Bytes(data@),
            ReadReply::UnexpectedEof => ReadReply::UnexpectedEof,
            ReadReply::Failed(e) => ReadReply::Failed(e@),
        }
    }
}

impl View for Event<String, Vec<u8>> {
    type V = Event<Seq<char>, Seq<u8>>;

    open spec fn view(&self) -> Event<Seq<char>, Seq<u8>> {
        match self {
            Event::Bucket(Ok(())) => Event::Bucket(Ok(())),
            Event::Bucket(Err(e)) => Event::Bucket(Err(e@)),
            Event::Created(Ok(())) => Event::Created(Ok(())),
            Event::Created(Err(e)) => Event::Created(Err(e@)),
            Event::Opened(Ok(())) => Event::Opened(Ok(())),
            Event::Opened(Err(e)) => Event::Opened(Err(e@)),
            Event::Position(Ok(at)) => Event::Position(Ok(*at)),
            Event::Position(Err(e)) => Event::Position(Err(e@)),
            Event::Chunk(Ok(Some(data))) => Event::Chunk(Ok(Some(data@))),
            Event::Chunk(Ok(None)) => Event::Chunk(Ok(None)),
            Event::Chunk(Err(e)) => Event::Chunk(Err(e@)),
            Event::Read(reply) => Event::Read(reply@),
            Event::Written(Ok(())) => Event::Written(Ok(())),
            Event::Written(Err(e)) => Event::Written(Err(e@)),
            Event::Metadata(Ok(found)) => Event::Metadata(Ok(found@)),
            Event::Metadata(Err(e)) => Event::Metadata(Err(e@)),
        }
    }
}

/// What is wrong when a handler gets an event that it does not wait for.
pub open spec fn unexpected() -> Seq<char> {
    "Unexpected event"@
}

pub(crate) fn unexpected_event() -> (out: String)
    ensures
        out@ == unexpected(),
{
    "Unexpected event".to_owned()
}

} // verus!
