//! Errors, what they say, and the HTTP status that each request error stands
//! for.
//!
//! Each error type is generic in its text: code carries `String`, contracts
//! speak of the same error over `Seq<char>`.

use vstd::prelude::*;

use crate::text;

verus! {

/// Type that means a meaningful status code.
pub trait ServiceError {
    /// The status code that the error stands for.
    spec fn status(&self) -> u16;

    fn status_code(&self) -> (code: u16)
        ensures
            code == self.status(),
    ;
}

/// Why a bucket or a file could not be opened.
#[derive(Debug)]
pub enum FileOpenError<S = String> {
    DoesNotExist,
    InvalidName,
    OtherError(S),
}

impl View for FileOpenError<String> {
    type V = FileOpenError<Seq<char>>;

    open spec fn view(&self) -> FileOpenError<Seq<char>> {
        match self {
            FileOpenError::DoesNotExist => FileOpenError::DoesNotExist,
            FileOpenError::InvalidName => FileOpenError::InvalidName,
            FileOpenError::OtherError(e) => FileOpenError::OtherError(e@),
        }
    }
}

impl FileOpenError<Seq<char>> {
    /// What the error says.
    pub open spec fn text(self) -> Seq<char> {
        match self {
            FileOpenError::DoesNotExist => "File does not exist"@,
            FileOpenError::InvalidName => "Invalid name"@,
            FileOpenError::OtherError(e) => "Unknown file open error: "@ + e,
        }
    }
}

impl FileOpenError {
    /// What the error says.
    pub fn message(&self) -> (out: String)
        ensures
            out@ == self@.text(),
    {
        match self {
            FileOpenError::DoesNotExist => "File does not exist".to_owned(),
            FileOpenError::InvalidName => "Invalid name".to_owned(),
            FileOpenError::OtherError(e) => text::join2("Unknown file open error: ", e),
        }
    }

    /// An error from a bucket directory is none of the expected ones.
    pub fn from(value: FileBucketError) -> (out: FileOpenError)
        ensures
            out@ == FileOpenError::OtherError(value@.text()),
    {
        FileOpenError::OtherError(value.message())
    }
}

/// Why a bucket or a file could not be created.
#[derive(Debug)]
pub enum FileCreateError<S = String> {
    FileExists,
    InvalidName,
    OtherError(S),
}

impl View for FileCreateError<String> {
    type V = FileCreateError<Seq<char>>;

    open spec fn view(&self) -> FileCreateError<Seq<char>> {
        match self {
            FileCreateError::FileExists => FileCreateError::FileExists,
            FileCreateError::InvalidName => FileCreateError::InvalidName,
            FileCreateError::OtherError(e) => FileCreateError::OtherError(e@),
        }
    }
}

impl FileCreateError<Seq<char>> {
    /// What the error says.
    pub open spec fn text(self) -> Seq<char> {
        match self {
            FileCreateError::FileExists => "File exists"@,
            FileCreateError::InvalidName => "Invalid name"@,
            FileCreateError::OtherError(e) => "Unknown file create error: "@ + e,
        }
    }
}

impl FileCreateError {
    /// What the error says.
    pub fn message(&self) -> (out: String)
        ensures
            out@ == self@.text(),
    {
        match self {
            FileCreateError::FileExists => "File exists".to_owned(),
            FileCreateError::InvalidName => "Invalid name".to_owned(),
            FileCreateError::OtherError(e) => text::join2("Unknown file create error: ", e),
        }
    }

    /// An error from a bucket directory is none of the expected ones.
    pub fn from(value: FileBucketError) -> (out: FileCreateError)
        ensures
            out@ == FileCreateError::OtherError(value@.text()),
    {
        FileCreateError::OtherError(value.message())
    }
}

/// What can go wrong with an open blob handle. A failed query keeps its SQL and
/// what the database said; a failed transaction keeps the operation it was for.
#[derive(Debug)]
pub enum FileHandleError<S = String> {
    QueryFailed(S, S),
    TransactionBeginFailed(S, S),
    TransactionCommitFailed(S, S),
    EmptyLseek64,
    EmptyOpen,
    EmptyRead,
    EmptyWrite,
    EmptyClose,
    IsShutdown,
}

impl View for FileHandleError<String> {
    type V = FileHandleError<Seq<char>>;

    open spec fn view(&self) -> FileHandleError<Seq<char>> {
        match self {
            FileHandleError::QueryFailed(sql, e) => FileHandleError::QueryFailed(sql@, e@),
            FileHandleError::TransactionBeginFailed(op, e) => FileHandleError::TransactionBeginFailed(op@, e@),
            FileHandleError::TransactionCommitFailed(op, e) => FileHandleError::TransactionCommitFailed(op@, e@),
            FileHandleError::EmptyLseek64 => FileHandleError::EmptyLseek64,
            FileHandleError::EmptyOpen => FileHandleError::EmptyOpen,
            FileHandleError::EmptyRead => FileHandleError::EmptyRead,
            FileHandleError::EmptyWrite => FileHandleError::EmptyWrite,
            FileHandleError::EmptyClose => FileHandleError::EmptyClose,
            FileHandleError::IsShutdown => FileHandleError::IsShutdown,
        }
    }
}

impl FileHandleError<Seq<char>> {
    /// What the error says.
    pub open spec fn text(self) -> Seq<char> {
        match self {
            FileHandleError::QueryFailed(sql, e) => "Failed file handle query "@ + text::debug_text(sql) + ": "@ + e,
            FileHandleError::TransactionBeginFailed(_, _) => "Failed to acquire transaction"@,
            FileHandleError::TransactionCommitFailed(_, _) => "Failed to acquire transaction"@,
            FileHandleError::EmptyLseek64 => "Empty result from lo_lseek64"@,
            FileHandleError::EmptyOpen => "Empty result from lo_open"@,
            FileHandleError::EmptyRead => "Empty result from loread"@,
            FileHandleError::EmptyWrite => "Empty result from lowrite"@,
            FileHandleError::EmptyClose => "Empty result from lo_close"@,
            FileHandleError::IsShutdown => "Calling methods on a shutdown handle"@,
        }
    }
}

impl FileHandleError {
    /// What the error says.
    pub fn message(&self) -> (out: String)
        ensures
            out@ == self@.text(),
    {
        match self {
            FileHandleError::QueryFailed(sql, e) => query_failed_text("Failed file handle query ", sql, e),
            FileHandleError::TransactionBeginFailed(_, _) => "Failed to acquire transaction".to_owned(),
            FileHandleError::TransactionCommitFailed(_, _) => "Failed to acquire transaction".to_owned(),
            FileHandleError::EmptyLseek64 => "Empty result from lo_lseek64".to_owned(),
            FileHandleError::EmptyOpen => "Empty result from lo_open".to_owned(),
            FileHandleError::EmptyRead => "Empty result from loread".to_owned(),
            FileHandleError::EmptyWrite => "Empty result from lowrite".to_owned(),
            FileHandleError::EmptyClose => "Empty result from lo_close".to_owned(),
            FileHandleError::IsShutdown => "Calling methods on a shutdown handle".to_owned(),
        }
    }
}

/// The miscellaneous errors that happen when dealing with buckets.
#[derive(Debug)]
pub enum BucketError<S = String> {
    QueryFailed(S, S),
}

impl View for BucketError<String> {
    type V = BucketError<Seq<char>>;

    open spec fn view(&self) -> BucketError<Seq<char>> {
        match self {
            BucketError::QueryFailed(sql, e) => BucketError::QueryFailed(sql@, e@),
        }
    }
}

impl BucketError<Seq<char>> {
    /// What the error says.
    pub open spec fn text(self) -> Seq<char> {
        match self {
            BucketError::QueryFailed(sql, e) => "Failed bucket query "@ + text::debug_text(sql) + ": "@ + e,
        }
    }
}

impl BucketError {
    /// What the error says.
    pub fn message(&self) -> (out: String)
        ensures
            out@ == self@.text(),
    {
        match self {
            BucketError::QueryFailed(sql, e) => query_failed_text("Failed bucket query ", sql, e),
        }
    }
}

/// Error while getting or setting file attributes.
#[derive(Debug)]
pub enum FileAttrError<S = String> {
    GetXattrFailed(S),
    InvalidUtf8(S),
    SetXattrFailed(S),
    JoinFailedBug(S),
}

impl View for FileAttrError<String> {
    type V = FileAttrError<Seq<char>>;

    open spec fn view(&self) -> FileAttrError<Seq<char>> {
        match self {
            FileAttrError::GetXattrFailed(e) => FileAttrError::GetXattrFailed(e@),
            FileAttrError::InvalidUtf8(e) => FileAttrError::InvalidUtf8(e@),
            FileAttrError::SetXattrFailed(e) => FileAttrError::SetXattrFailed(e@),
            FileAttrError::JoinFailedBug(e) => FileAttrError::JoinFailedBug(e@),
        }
    }
}

impl FileAttrError<Seq<char>> {
    /// What the error says.
    pub open spec fn text(self) -> Seq<char> {
        match self {
            FileAttrError::GetXattrFailed(e) => "Failed to call get_xattr: "@ + e,
            FileAttrError::InvalidUtf8(e) => "Corrupt attribute data: could not decode UTF8: "@ + e,
            FileAttrError::SetXattrFailed(e) => "Failed to call set_xattr: "@ + e,
            FileAttrError::JoinFailedBug(e) => "Tokio task join failed (BUG): "@ + e,
        }
    }
}

impl FileAttrError {
    /// What the error says.
    pub fn message(&self) -> (out: String)
        ensures
            out@ == self@.text(),
    {
        match self {
            FileAttrError::GetXattrFailed(e) => text::join2("Failed to call get_xattr: ", e),
            FileAttrError::InvalidUtf8(e) => text::join2("Corrupt attribute data: could not decode UTF8: ", e),
            FileAttrError::SetXattrFailed(e) => text::join2("Failed to call set_xattr: ", e),
            FileAttrError::JoinFailedBug(e) => text::join2("Tokio task join failed (BUG): ", e),
        }
    }
}

/// Error while reading a file's metadata.
#[derive(Debug)]
pub enum FileMetadataError<S = String> {
    TokioFsMetadata(S),
}

impl View for FileMetadataError<String> {
    type V = FileMetadataError<Seq<char>>;

    open spec fn view(&self) -> FileMetadataError<Seq<char>> {
        match self {
            FileMetadataError::TokioFsMetadata(e) => FileMetadataError::TokioFsMetadata(e@),
        }
    }
}

impl FileMetadataError<Seq<char>> {
    /// What the error says.
    pub open spec fn text(self) -> Seq<char> {
        match self {
            FileMetadataError::TokioFsMetadata(e) => "Failed to call tokio File::metadata: "@ + e,
        }
    }
}

impl FileMetadataError {
    /// What the error says.
    pub fn message(&self) -> (out: String)
        ensures
            out@ == self@.text(),
    {
        match self {
            FileMetadataError::TokioFsMetadata(e) => text::join2("Failed to call tokio File::metadata: ", e),
        }
    }
}

/// Error from the operating system while opening a file in a bucket directory.
#[derive(Debug)]
pub enum FileBucketError<S = String> {
    Openat(S),
    Dup(S),
    Fstat(S),
    CreateDirAll(S),
    JoinFailedBug(S),
}

impl View for FileBucketError<String> {
    type V = FileBucketError<Seq<char>>;

    open spec fn view(&self) -> FileBucketError<Seq<char>> {
        match self {
            FileBucketError::Openat(e) => FileBucketError::Openat(e@),
            FileBucketError::Dup(e) => FileBucketError::Dup(e@),
            FileBucketError::Fstat(e) => FileBucketError::Fstat(e@),
            FileBucketError::CreateDirAll(e) => FileBucketError::CreateDirAll(e@),
            FileBucketError::JoinFailedBug(e) => FileBucketError::JoinFailedBug(e@),
        }
    }
}

impl FileBucketError<Seq<char>> {
    /// What the error says.
    pub open spec fn text(self) -> Seq<char> {
        match self {
            FileBucketError::Openat(e) => "error calling openat: "@ + e,
            FileBucketError::Dup(e) => "error calling fcntl_dupfd_cloexec: "@ + e,
            FileBucketError::Fstat(e) => "error calling fstat: "@ + e,
            FileBucketError::CreateDirAll(e) => "error calling create_dir_all: "@ + e,
            FileBucketError::JoinFailedBug(e) => "Tokio task join failed (BUG): "@ + e,
        }
    }
}

impl FileBucketError {
    /// What the error says.
    pub fn message(&self) -> (out: String)
        ensures
            out@ == self@.text(),
    {
        match self {
            FileBucketError::Openat(e) => text::join2("error calling openat: ", e),
            FileBucketError::Dup(e) => text::join2("error calling fcntl_dupfd_cloexec: ", e),
            FileBucketError::Fstat(e) => text::join2("error calling fstat: ", e),
            FileBucketError::CreateDirAll(e) => text::join2("error calling create_dir_all: ", e),
            FileBucketError::JoinFailedBug(e) => text::join2("Tokio task join failed (BUG): ", e),
        }
    }
}

/// Why the configuration could not be built.
#[derive(Debug)]
pub enum ConfigBuildError<S = String> {
    FailedToCollect(S),
    FailedToDeserialize(S),
}

impl View for ConfigBuildError<String> {
    type V = ConfigBuildError<Seq<char>>;

    open spec fn view(&self) -> ConfigBuildError<Seq<char>> {
        match self {
            ConfigBuildError::FailedToCollect(e) => ConfigBuildError::FailedToCollect(e@),
            ConfigBuildError::FailedToDeserialize(e) => ConfigBuildError::FailedToDeserialize(e@),
        }
    }
}

impl ConfigBuildError<Seq<char>> {
    /// What the error says.
    pub open spec fn text(self) -> Seq<char> {
        match self {
            ConfigBuildError::FailedToCollect(e) => "Failed to collect config items: "@ + e,
            ConfigBuildError::FailedToDeserialize(e) => "Failed to deserialize config file: "@ + e,
        }
    }
}

impl ConfigBuildError {
    /// What the error says.
    pub fn message(&self) -> (out: String)
        ensures
            out@ == self@.text(),
    {
        match self {
            ConfigBuildError::FailedToCollect(e) => text::join2("Failed to collect config items: ", e),
            ConfigBuildError::FailedToDeserialize(e) => text::join2("Failed to deserialize config file: ", e),
        }
    }
}

/// Why the service could not start.
#[derive(Debug)]
pub enum AppStartupError<S = String> {
    ConnectToDB(S),
    Migrate(S),
}

impl View for AppStartupError<String> {
    type V = AppStartupError<Seq<char>>;

    open spec fn view(&self) -> AppStartupError<Seq<char>> {
        match self {
            AppStartupError::ConnectToDB(e) => AppStartupError::ConnectToDB(e@),
            AppStartupError::Migrate(e) => AppStartupError::Migrate(e@),
        }
    }
}

impl AppStartupError<Seq<char>> {
    /// What the error says.
    pub open spec fn text(self) -> Seq<char> {
        match self {
            AppStartupError::ConnectToDB(e) => "Failed to connect to database: "@ + e,
            AppStartupError::Migrate(e) => "Failed to run migrations: "@ + e,
        }
    }
}

impl AppStartupError {
    /// What the error says.
    pub fn message(&self) -> (out: String)
        ensures
            out@ == self@.text(),
    {
        match self {
            AppStartupError::ConnectToDB(e) => text::join2("Failed to connect to database: ", e),
            AppStartupError::Migrate(e) => text::join2("Failed to run migrations: ", e),
        }
    }
}

/// What a request is refused with.
#[derive(Debug)]
pub enum ApiError<S = String> {
    BucketDoesNotExist(S),
    InvalidBucketName(S),
    FileDoesNotExist(S),
    InvalidFileName(S),
    FileExistsWithConflictingContent,
    UploadTooLarge,
    ContentTypeNotPermitted(S),
    InternalError(S),
}

impl View for ApiError<String> {
    type V = ApiError<Seq<char>>;

    open spec fn view(&self) -> ApiError<Seq<char>> {
        match self {
            ApiError::BucketDoesNotExist(name) => ApiError::BucketDoesNotExist(name@),
            ApiError::InvalidBucketName(name) => ApiError::InvalidBucketName(name@),
            ApiError::FileDoesNotExist(name) => ApiError::FileDoesNotExist(name@),
            ApiError::InvalidFileName(name) => ApiError::InvalidFileName(name@),
            ApiError::FileExistsWithConflictingContent => ApiError::FileExistsWithConflictingContent,
            ApiError::UploadTooLarge => ApiError::UploadTooLarge,
            ApiError::ContentTypeNotPermitted(name) => ApiError::ContentTypeNotPermitted(name@),
            ApiError::InternalError(e) => ApiError::InternalError(e@),
        }
    }
}

impl ApiError<Seq<char>> {
    /// What the error says.
    pub open spec fn text(self) -> Seq<char> {
        match self {
            ApiError::BucketDoesNotExist(name) => "Bucket does not exist: "@ + text::debug_text(name),
            ApiError::InvalidBucketName(name) => "Invalid bucket name: "@ + text::debug_text(name),
            ApiError::FileDoesNotExist(name) => "File does not exist: "@ + text::debug_text(name),
            ApiError::InvalidFileName(name) => "Invalid file name: "@ + text::debug_text(name),
            ApiError::FileExistsWithConflictingContent => "File already exists with conflicting content"@,
            ApiError::UploadTooLarge => "Upload is larger than the maximum upload size"@,
            ApiError::ContentTypeNotPermitted(name) => "Content-Type may not be uploaded: "@ + text::debug_text(name),
            ApiError::InternalError(e) => "Internal error: "@ + e,
        }
    }

    /// The HTTP status that the error stands for.
    pub open spec fn http_status(self) -> u16 {
        match self {
            ApiError::BucketDoesNotExist(_) => 404,
            ApiError::InvalidBucketName(_) => 400,
            ApiError::FileDoesNotExist(_) => 404,
            ApiError::InvalidFileName(_) => 400,
            ApiError::FileExistsWithConflictingContent => 409,
            ApiError::UploadTooLarge => 400,
            ApiError::ContentTypeNotPermitted(_) => 400,
            ApiError::InternalError(_) => 500,
        }
    }
}

impl ApiError {
    /// What the error says.
    pub fn message(&self) -> (out: String)
        ensures
            out@ == self@.text(),
    {
        match self {
            ApiError::BucketDoesNotExist(name) => text::join2("Bucket does not exist: ", &text::quoted(name)),
            ApiError::InvalidBucketName(name) => text::join2("Invalid bucket name: ", &text::quoted(name)),
            ApiError::FileDoesNotExist(name) => text::join2("File does not exist: ", &text::quoted(name)),
            ApiError::InvalidFileName(name) => text::join2("Invalid file name: ", &text::quoted(name)),
            ApiError::FileExistsWithConflictingContent => "File already exists with conflicting content".to_owned(),
            ApiError::UploadTooLarge => "Upload is larger than the maximum upload size".to_owned(),
            ApiError::ContentTypeNotPermitted(name) => text::join2("Content-Type may not be uploaded: ", &text::quoted(name)),
            ApiError::InternalError(e) => text::join2("Internal error: ", e),
        }
    }

    /// An error that no client is to blame for.
    pub fn internal(err: String) -> (out: ApiError)
        ensures
            out@ == ApiError::InternalError(err@),
    {
        ApiError::InternalError(err)
    }

    /// What a request is answered when the bucket `name` cannot be opened.
    pub fn from_bucket_open_error(name: &str, err: FileOpenError) -> (out: ApiError)
        ensures
            out@ == bucket_open_error(name@, err@),
    {
        match err {
            FileOpenError::DoesNotExist => ApiError::BucketDoesNotExist(name.to_owned()),
            FileOpenError::InvalidName => ApiError::InvalidBucketName(name.to_owned()),
            FileOpenError::OtherError(_) => Self::internal(err.message()),
        }
    }

    /// What a request is answered when the file `name` cannot be opened.
    pub fn from_bucket_file_open_error(name: &str, err: FileOpenError) -> (out: ApiError)
        ensures
            out@ == file_open_error(name@, err@),
    {
        match err {
            FileOpenError::DoesNotExist => ApiError::FileDoesNotExist(name.to_owned()),
            FileOpenError::InvalidName => ApiError::InvalidFileName(name.to_owned()),
            FileOpenError::OtherError(_) => Self::internal(err.message()),
        }
    }
}

impl ServiceError for ApiError {
    open spec fn status(&self) -> u16 {
        self@.http_status()
    }

    fn status_code(&self) -> (code: u16) {
        match self {
            ApiError::BucketDoesNotExist(_) => 404,
            ApiError::InvalidBucketName(_) => 400,
            ApiError::FileDoesNotExist(_) => 404,
            ApiError::InvalidFileName(_) => 400,
            ApiError::FileExistsWithConflictingContent => 409,
            ApiError::UploadTooLarge => 400,
            ApiError::ContentTypeNotPermitted(_) => 400,
            ApiError::InternalError(_) => 500,
        }
    }
}

/// The answer to a request whose bucket `name` cannot be opened: a missing
/// bucket and an unusable name are the client's business, anything else is
/// internal.
pub open spec fn bucket_open_error(name: Seq<char>, err: FileOpenError<Seq<char>>) -> ApiError<
    Seq<char>,
> {
    match err {
        FileOpenError::DoesNotExist => ApiError::BucketDoesNotExist(name),
        FileOpenError::InvalidName => ApiError::InvalidBucketName(name),
        FileOpenError::OtherError(_) => ApiError::InternalError(err.text()),
    }
}

/// The answer to a request whose file `name` cannot be opened.
pub open spec fn file_open_error(name: Seq<char>, err: FileOpenError<Seq<char>>) -> ApiError<
    Seq<char>,
> {
    match err {
        FileOpenError::DoesNotExist => ApiError::FileDoesNotExist(name),
        FileOpenError::InvalidName => ApiError::InvalidFileName(name),
        FileOpenError::OtherError(_) => ApiError::InternalError(err.text()),
    }
}

/// A failed query: what kind it was, its SQL in quotes, and what came back.
fn query_failed_text(kind: &str, sql: &str, e: &str) -> (out: String)
    ensures
        out@ == kind@ + text::debug_text(sql@) + ": "@ + e@,
{
    let mut out = text::join2(kind, &text::quoted(sql));
    out.append(": ");
    out.append(e);
    out
}

/// Why a file name is not acceptable.
#[derive(Clone, Copy, Debug, PartialEq, Eq, Structural)]
pub enum FilePathError {
    DotDot,
    Absolute,
    InvalidChar,
}

impl FilePathError {
    /// What the error says.
    pub open spec fn text(self) -> Seq<char> {
        match self {
            FilePathError::DotDot => ".. and . components are not allowed in filenames"@,
            FilePathError::Absolute => "Absolute paths are not allowed"@,
            FilePathError::InvalidChar => "Invalid character in filename"@,
        }
    }

    /// What the error says.
    pub fn message(&self) -> (out: String)
        ensures
            out@ == self.text(),
    {
        match self {
            FilePathError::DotDot => ".. and . components are not allowed in filenames".to_owned(),
            FilePathError::Absolute => "Absolute paths are not allowed".to_owned(),
            FilePathError::InvalidChar => "Invalid character in filename".to_owned(),
        }
    }
}

/// What is missing is not found, a name or an upload that is not permitted is a
/// bad request, other content is a conflict, and only an internal error is the
/// service's fault. What an error is about makes no difference to its status.
pub proof fn law_status_tells_the_kind(error: ApiError, code: u16)
    requires
        call_ensures(ApiError::status_code, (&error,), code),
    ensures
        code == 404 <==> error is BucketDoesNotExist || error is FileDoesNotExist,
        code == 409 <==> error is FileExistsWithConflictingContent,
        code == 500 <==> error is InternalError,
        code == 400 <==> error is InvalidBucketName || error is InvalidFileName
            || error is UploadTooLarge || error is ContentTypeNotPermitted,
{
}

/// The message of an error about a name or about something that went wrong says
/// what is wrong and ends with the name in quotes, or with what went wrong.
pub proof fn law_message_names_what_is_wrong(name: String)
    ensures
        forall|out: String| #[trigger]
            call_ensures(ApiError::message, (&ApiError::BucketDoesNotExist(name),), out) ==> out@
                == "Bucket does not exist: "@ + text::debug_text(name@),
        forall|out: String| #[trigger]
            call_ensures(ApiError::message, (&ApiError::InvalidBucketName(name),), out) ==> out@
                == "Invalid bucket name: "@ + text::debug_text(name@),
        forall|out: String| #[trigger]
            call_ensures(ApiError::message, (&ApiError::FileDoesNotExist(name),), out) ==> out@
                == "File does not exist: "@ + text::debug_text(name@),
        forall|out: String| #[trigger]
            call_ensures(ApiError::message, (&ApiError::InvalidFileName(name),), out) ==> out@
                == "Invalid file name: "@ + text::debug_text(name@),
        forall|out: String| #[trigger]
            call_ensures(ApiError::message, (&ApiError::ContentTypeNotPermitted(name),), out)
                ==> out@ == "Content-Type may not be uploaded: "@ + text::debug_text(name@),
        forall|out: String| #[trigger]
            call_ensures(ApiError::message, (&ApiError::InternalError(name),), out) ==> out@
                == "Internal error: "@ + name@,
{
}

/// An error that wraps another keeps all of what that said, at its end.
pub proof fn law_message_keeps_the_cause(what: Seq<char>, cause: Seq<char>)
    ensures
        cause.is_suffix_of(FileOpenError::OtherError(cause).text()),
        cause.is_suffix_of(FileCreateError::OtherError(cause).text()),
        cause.is_suffix_of(FileHandleError::QueryFailed(what, cause).text()),
        cause.is_suffix_of(BucketError::QueryFailed(what, cause).text()),
        cause.is_suffix_of(FileAttrError::GetXattrFailed(cause).text()),
        cause.is_suffix_of(FileAttrError::InvalidUtf8(cause).text()),
        cause.is_suffix_of(FileAttrError::SetXattrFailed(cause).text()),
        cause.is_suffix_of(FileAttrError::JoinFailedBug(cause).text()),
        cause.is_suffix_of(FileMetadataError::TokioFsMetadata(cause).text()),
        cause.is_suffix_of(FileBucketError::Openat(cause).text()),
        cause.is_suffix_of(FileBucketError::Dup(cause).text()),
        cause.is_suffix_of(FileBucketError::Fstat(cause).text()),
        cause.is_suffix_of(FileBucketError::CreateDirAll(cause).text()),
        cause.is_suffix_of(FileBucketError::JoinFailedBug(cause).text()),
        cause.is_suffix_of(ConfigBuildError::FailedToCollect(cause).text()),
        cause.is_suffix_of(ConfigBuildError::FailedToDeserialize(cause).text()),
        cause.is_suffix_of(ApiError::InternalError(cause).text()),
        "Failed bucket query "@.is_prefix_of(BucketError::QueryFailed(what, cause).text()),
        "Failed file handle query "@.is_prefix_of(FileHandleError::QueryFailed(what, cause).text()),
{
}

/// A bucket or a file that cannot be opened is reported under its own name: as
/// not found if it does not exist, as a bad request if the name is invalid, and
/// otherwise as an internal error, with what went wrong.
pub proof fn law_open_errors_are_reported(
    name: &str,
    err: FileOpenError,
    bucket: ApiError,
    file: ApiError,
)
    requires
        call_ensures(ApiError::from_bucket_open_error, (name, err), bucket),
        call_ensures(ApiError::from_bucket_file_open_error, (name, err), file),
    ensures
        err is DoesNotExist ==> (bucket matches ApiError::BucketDoesNotExist(n) && n@ == name@),
        err is DoesNotExist ==> (file matches ApiError::FileDoesNotExist(n) && n@ == name@),
        err is InvalidName ==> (bucket matches ApiError::InvalidBucketName(n) && n@ == name@),
        err is InvalidName ==> (file matches ApiError::InvalidFileName(n) && n@ == name@),
        err matches FileOpenError::OtherError(e) ==> (bucket matches ApiError::InternalError(why)
            && e@.is_suffix_of(why@)),
        err matches FileOpenError::OtherError(e) ==> (file matches ApiError::InternalError(why)
            && e@.is_suffix_of(why@)),
        bucket@.http_status() == file@.http_status(),
{
}

/// What an error without anything of its own to tell says.
pub proof fn law_fixed_messages()
    ensures
        FileOpenError::<Seq<char>>::DoesNotExist.text() == "File does not exist"@,
        FileOpenError::<Seq<char>>::InvalidName.text() == "Invalid name"@,
        FileCreateError::<Seq<char>>::FileExists.text() == "File exists"@,
        FileCreateError::<Seq<char>>::InvalidName.text() == "Invalid name"@,
        FileHandleError::<Seq<char>>::EmptyLseek64.text() == "Empty result from lo_lseek64"@,
        FileHandleError::<Seq<char>>::EmptyOpen.text() == "Empty result from lo_open"@,
        FileHandleError::<Seq<char>>::EmptyRead.text() == "Empty result from loread"@,
        FileHandleError::<Seq<char>>::EmptyWrite.text() == "Empty result from lowrite"@,
        FileHandleError::<Seq<char>>::EmptyClose.text() == "Empty result from lo_close"@,
        FileHandleError::<Seq<char>>::IsShutdown.text() == "Calling methods on a shutdown handle"@,
        ApiError::<Seq<char>>::FileExistsWithConflictingContent.text()
            == "File already exists with conflicting content"@,
        ApiError::<Seq<char>>::UploadTooLarge.text()
            == "Upload is larger than the maximum upload size"@,
        FilePathError::DotDot.text() == ".. and . components are not allowed in filenames"@,
        FilePathError::Absolute.text() == "Absolute paths are not allowed"@,
        FilePathError::InvalidChar.text() == "Invalid character in filename"@,
{
}

} // verus!
