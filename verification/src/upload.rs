//! Uploading: `PUT /v0/write` and `POST /v0/append`.
//!
//! An upload is a machine over the actions and events of
//! [`exchange`](crate::exchange). It streams the request body: each chunk is
//! received, then appended or compared, before the next one is asked for.

use vstd::prelude::*;

use crate::config::{AppConfig, AppConfigView};
use crate::errors;
use crate::errors::{ApiError, FileCreateError, FileOpenError};
use crate::exchange;
use crate::exchange::{Action, Event, SeekFrom, Step};
use crate::range;
use crate::range::{RangeCheck, RangeMatch, RangePhase};

verus! {

/// How a request went well.
#[derive(Clone, Copy, Debug, PartialEq, Eq, Structural)]
pub enum Success {
    /// A file was created.
    Created,
    /// Data was appended, or everything was there already.
    Okay,
}

impl Success {
    /// The HTTP status of the answer.
    pub open spec fn http_status(self) -> u16 {
        match self {
            Success::Created => 201,
            Success::Okay => 200,
        }
    }

    /// The HTTP status of the answer.
    pub fn status_code(&self) -> (code: u16)
        ensures
            code == self.http_status(),
    {
        match self {
            Success::Created => 201,
            Success::Okay => 200,
        }
    }
}

/// What an upload does with the data.
#[derive(Debug)]
pub enum UploadKind<S = String> {
    /// Create a file, with this Content-Type, that holds the data.
    Write { content_type: S },
    /// Append the data to a file that ends at this offset or before it; a longer
    /// file has to hold the data there.
    Append { write_offset: u64 },
}

/// Where an upload stands.
#[derive(Debug)]
pub enum UploadPhase<B = Vec<u8>> {
    OpeningBucket,
    Creating,
    /// The file to create exists: opening it, as it might be a no-op re-send.
    Reopening,
    Opening,
    /// Finding out where the file ends.
    Sizing,
    Receiving,
    Appending,
    Committing,
    /// Comparing the data with what is in the file.
    Checking(RangeCheck<B>),
    Done,
}

/// An upload in progress.
#[derive(Debug)]
pub struct Upload<S = String, B = Vec<u8>> {
    pub filename: S,
    pub bucket_name: S,
    pub kind: UploadKind<S>,
    /// How many bytes the upload may have.
    pub limit: u128,
    /// How many bytes were received.
    pub received: u128,
    pub phase: UploadPhase<B>,
}

/// What an upload does next, or how it ended.
pub type UploadStep = Step<Result<Success, ApiError>>;

/// The same over mathematical values.
pub type UploadStepView = Step<Result<Success, ApiError<Seq<char>>>, Seq<char>, Seq<u8>>;

/// An upload in progress over mathematical values.
pub type UploadView = Upload<Seq<char>, Seq<u8>>;

impl View for UploadKind<String> {
    type V = UploadKind<Seq<char>>;

    open spec fn view(&self) -> UploadKind<Seq<char>> {
        match self {
            UploadKind::Write { content_type } => UploadKind::Write {
                content_type: content_type@,
            },
            UploadKind::Append { write_offset } => UploadKind::Append {
                write_offset: *write_offset,
            },
        }
    }
}

impl View for UploadPhase<Vec<u8>> {
    type V = UploadPhase<Seq<u8>>;

    open spec fn view(&self) -> UploadPhase<Seq<u8>> {
        match self {
            UploadPhase::OpeningBucket => UploadPhase::OpeningBucket,
            UploadPhase::Creating => UploadPhase::Creating,
            UploadPhase::Reopening => UploadPhase::Reopening,
            UploadPhase::Opening => UploadPhase::Opening,
            UploadPhase::Sizing => UploadPhase::Sizing,
            UploadPhase::Receiving => UploadPhase::Receiving,
            UploadPhase::Appending => UploadPhase::Appending,
            UploadPhase::Committing => UploadPhase::Committing,
            UploadPhase::Checking(check) => UploadPhase::Checking(check@),
            UploadPhase::Done => UploadPhase::Done,
        }
    }
}

impl View for Upload<String, Vec<u8>> {
    type V = UploadView;

    open spec fn view(&self) -> UploadView {
        Upload {
            filename: self.filename@,
            bucket_name: self.bucket_name@,
            kind: self.kind@,
            limit: self.limit,
            received: self.received,
            phase: self.phase@,
        }
    }
}

impl View for Step<Result<Success, ApiError<String>>, String, Vec<u8>> {
    type V = UploadStepView;

    open spec fn view(&self) -> UploadStepView {
        match self {
            Step::Perform(action) => Step::Perform(action@),
            Step::Finish(Ok(success)) => Step::Finish(Ok(*success)),
            Step::Finish(Err(e)) => Step::Finish(Err(e@)),
        }
    }
}

/// The Content-Type of an upload: the one of the request, `text/plain` if it
/// has none.
pub open spec fn upload_content_type(header: Option<Seq<char>>) -> Seq<char> {
    match header {
        Some(content_type) => content_type,
        None => "text/plain"@,
    }
}

/// The length that a request announces is over the limit.
pub open spec fn hint_too_high(config: AppConfigView, content_length: Option<u64>) -> bool {
    content_length matches Some(length) && length > config.max_upload_bytes()
}

/// The same upload, with something to do.
pub open spec fn go(
    upload: UploadView,
    phase: UploadPhase<Seq<u8>>,
    action: Action<Seq<char>, Seq<u8>>,
) -> (UploadView, UploadStepView) {
    (Upload { phase, ..upload }, Step::Perform(action))
}

/// The same upload, ended.
pub open spec fn end(upload: UploadView, result: Result<Success, ApiError<Seq<char>>>) -> (
    UploadView,
    UploadStepView,
) {
    (Upload { phase: UploadPhase::Done, ..upload }, Step::Finish(result))
}

/// An upload that has not started.
pub open spec fn new_upload(
    filename: Seq<char>,
    bucket_name: Seq<char>,
    kind: UploadKind<Seq<char>>,
    limit: int,
) -> UploadView {
    Upload {
        filename,
        bucket_name,
        kind,
        limit: limit as u128,
        received: 0,
        phase: UploadPhase::OpeningBucket,
    }
}

/// How a `PUT` starts: it is refused if it announces too much data or has a
/// Content-Type that is not permitted; otherwise the bucket is opened.
pub open spec fn put_start(
    filename: Seq<char>,
    bucket_name: Seq<char>,
    header: Option<Seq<char>>,
    content_length: Option<u64>,
    config: AppConfigView,
) -> (UploadView, UploadStepView) {
    let content_type = upload_content_type(header);
    let upload = new_upload(
        filename,
        bucket_name,
        UploadKind::Write { content_type },
        config.max_upload_bytes(),
    );
    if hint_too_high(config, content_length) {
        end(upload, Err(ApiError::UploadTooLarge))
    } else if !config.allowed_content_types.contains(content_type) {
        end(upload, Err(ApiError::ContentTypeNotPermitted(content_type)))
    } else {
        go(upload, UploadPhase::OpeningBucket, Action::OpenBucket(bucket_name))
    }
}

/// How a `POST` starts: it is refused if it announces too much data; otherwise
/// the bucket is opened.
pub open spec fn post_start(
    filename: Seq<char>,
    bucket_name: Seq<char>,
    write_offset: u64,
    content_length: Option<u64>,
    config: AppConfigView,
) -> (UploadView, UploadStepView) {
    let upload = new_upload(
        filename,
        bucket_name,
        UploadKind::Append { write_offset },
        config.max_upload_bytes(),
    );
    if hint_too_high(config, content_length) {
        end(upload, Err(ApiError::UploadTooLarge))
    } else {
        go(upload, UploadPhase::OpeningBucket, Action::OpenBucket(bucket_name))
    }
}

/// The event is one that the upload waits for.
pub open spec fn upload_awaits(upload: UploadView, event: Event<Seq<char>, Seq<u8>>) -> bool {
    match upload.phase {
        UploadPhase::OpeningBucket => event is Bucket,
        UploadPhase::Creating => event is Created,
        UploadPhase::Reopening => event is Opened,
        UploadPhase::Opening => event is Opened,
        UploadPhase::Sizing => event is Position,
        UploadPhase::Receiving => event is Chunk,
        UploadPhase::Appending => event is Written,
        UploadPhase::Committing => event is Written,
        UploadPhase::Checking(check) => range::range_awaits(check, event),
        UploadPhase::Done => false,
    }
}

/// The upload with the chunk that came in, if any, counted.
pub open spec fn counted(upload: UploadView, event: Event<Seq<char>, Seq<u8>>) -> UploadView {
    match event {
        Event::Chunk(Ok(Some(data))) => Upload {
            received: (upload.received + data.len()) as u128,
            ..upload
        },
        _ => upload,
    }
}

/// A chunk that takes the upload over the limit.
pub open spec fn over_limit(upload: UploadView, event: Event<Seq<char>, Seq<u8>>) -> bool {
    event matches Event::Chunk(Ok(Some(data))) && upload.received + data.len() > upload.limit
}

/// What follows once a comparison has gone one step further.
pub open spec fn after_check(
    upload: UploadView,
    next: (RangeCheck<Seq<u8>>, range::RangeStepView),
) -> (UploadView, UploadStepView) {
    match next.1 {
        Step::Perform(action) => go(upload, UploadPhase::Checking(next.0), action),
        Step::Finish(Ok(RangeMatch::Matches)) => end(upload, Ok(Success::Okay)),
        Step::Finish(Ok(_)) => end(upload, Err(ApiError::FileExistsWithConflictingContent)),
        Step::Finish(Err(e)) => end(upload, Err(ApiError::InternalError(e))),
    }
}

/// What follows in an upload after `event`.
pub open spec fn upload_next(upload: UploadView, event: Event<Seq<char>, Seq<u8>>) -> (
    UploadView,
    UploadStepView,
) {
    if over_limit(upload, event) {
        // Received more than may be uploaded.
        end(upload, Err(ApiError::UploadTooLarge))
    } else {
        let upload = counted(upload, event);
        match (upload.phase, event) {
            (UploadPhase::OpeningBucket, Event::Bucket(Ok(_))) => match upload.kind {
                UploadKind::Write { content_type } => go(
                    upload,
                    UploadPhase::Creating,
                    Action::CreateFile { filename: upload.filename, content_type },
                ),
                UploadKind::Append { .. } => go(
                    upload,
                    UploadPhase::Opening,
                    Action::OpenFile(upload.filename),
                ),
            },
            (UploadPhase::OpeningBucket, Event::Bucket(Err(e))) => end(
                upload,
                Err(errors::bucket_open_error(upload.bucket_name, e)),
            ),
            // File doesn't exist, so we upload till we run out of data
            (UploadPhase::Creating, Event::Created(Ok(_))) => go(
                upload,
                UploadPhase::Receiving,
                Action::NextChunk,
            ),
            // File exists, but it might be a no-op re-send of a request
            (UploadPhase::Creating, Event::Created(Err(FileCreateError::FileExists))) => go(
                upload,
                UploadPhase::Reopening,
                Action::OpenFile(upload.filename),
            ),
            (UploadPhase::Creating, Event::Created(Err(e))) => end(
                upload,
                Err(ApiError::InternalError(e.text())),
            ),
            (UploadPhase::Reopening, Event::Opened(Ok(_))) => go(
                upload,
                UploadPhase::Checking(RangeCheck { to_end: true, phase: RangePhase::Seeking }),
                Action::Seek(SeekFrom::Start(0)),
            ),
            (UploadPhase::Reopening, Event::Opened(Err(e))) => end(
                upload,
                Err(ApiError::InternalError(e.text())),
            ),
            (UploadPhase::Opening, Event::Opened(Ok(_))) => go(
                upload,
                UploadPhase::Sizing,
                Action::Seek(SeekFrom::End(0)),
            ),
            (UploadPhase::Opening, Event::Opened(Err(e))) => end(
                upload,
                Err(errors::file_open_error(upload.filename, e)),
            ),
            (UploadPhase::Sizing, Event::Position(Ok(size))) => match upload.kind {
                UploadKind::Append { write_offset } if write_offset < size => go(
                    upload,
                    UploadPhase::Checking(RangeCheck { to_end: false, phase: RangePhase::Seeking }),
                    Action::Seek(SeekFrom::Start(write_offset)),
                ),
                _ => go(upload, UploadPhase::Receiving, Action::NextChunk),
            },
            (UploadPhase::Receiving, Event::Chunk(Ok(Some(data)))) => go(
                upload,
                UploadPhase::Appending,
                Action::Append(data),
            ),
            (UploadPhase::Receiving, Event::Chunk(Ok(None))) => go(
                upload,
                UploadPhase::Committing,
                Action::Commit,
            ),
            (UploadPhase::Appending, Event::Written(Ok(_))) => go(
                upload,
                UploadPhase::Receiving,
                Action::NextChunk,
            ),
            (UploadPhase::Committing, Event::Written(Ok(_))) => end(
                upload,
                Ok(
                    match upload.kind {
                        UploadKind::Write { .. } => Success::Created,
                        UploadKind::Append { .. } => Success::Okay,
                    },
                ),
            ),
            (UploadPhase::Checking(check), _) => after_check(
                upload,
                range::range_next(check, event),
            ),
            (_, Event::Position(Err(e))) => end(upload, Err(ApiError::InternalError(e))),
            (_, Event::Chunk(Err(e))) => end(upload, Err(ApiError::InternalError(e))),
            (_, Event::Written(Err(e))) => end(upload, Err(ApiError::InternalError(e))),
            (_, _) => end(upload, Err(ApiError::InternalError(exchange::unexpected()))),
        }
    }
}

impl Upload<Seq<char>, Seq<u8>> {
    /// No more was received than may be.
    pub open spec fn wf(self) -> bool {
        self.received <= self.limit <= 1_000_000 * u64::MAX
    }
}

/// PUT `/v0/write/:filename?bucketName=:bucketName`
///
/// Streams the request body. `header` is the request's Content-Type and
/// `content_length` the length that it announces.
pub fn put_write_filename(
    filename: String,
    bucket_name: String,
    header: Option<String>,
    content_length: Option<u64>,
    config: &AppConfig,
) -> (out: (Upload, UploadStep))
    ensures
        (out.0@, out.1@) == put_start(
            filename@,
            bucket_name@,
            match header {
                Some(content_type) => Some(content_type@),
                None => None,
            },
            content_length,
            config@,
        ),
        out.0@.wf(),
{
    let content_type = match header {
        Some(content_type) => content_type,
        None => "text/plain".to_owned(),
    };
    let permitted = config.permits(&content_type);
    let refused_type = content_type.clone();
    let bucket = bucket_name.clone();
    let mut upload = Upload {
        filename,
        bucket_name,
        kind: UploadKind::Write { content_type },
        limit: config.max_upload_bytes(),
        received: 0,
        phase: UploadPhase::OpeningBucket,
    };
    if let Some(length) = content_length {
        if length as u128 > upload.limit {
            upload.phase = UploadPhase::Done;
            return (upload, Step::Finish(Err(ApiError::UploadTooLarge)));
        }
    }
    if !permitted {
        upload.phase = UploadPhase::Done;
        return (upload, Step::Finish(Err(ApiError::ContentTypeNotPermitted(refused_type))));
    }
    (upload, Step::Perform(Action::OpenBucket(bucket)))
}

/// POST `/v0/append/:filename?bucketName=:bucketName&writeOffset=:writeOffset`
///
/// Streams the request body. `content_length` is the length that the request
/// announces.
pub fn post_append_filename(
    filename: String,
    bucket_name: String,
    write_offset: u64,
    content_length: Option<u64>,
    config: &AppConfig,
) -> (out: (Upload, UploadStep))
    ensures
        (out.0@, out.1@) == post_start(
            filename@,
            bucket_name@,
            write_offset,
            content_length,
            config@,
        ),
        out.0@.wf(),
{
    let bucket = bucket_name.clone();
    let mut upload = Upload {
        filename,
        bucket_name,
        kind: UploadKind::Append { write_offset },
        limit: config.max_upload_bytes(),
        received: 0,
        phase: UploadPhase::OpeningBucket,
    };
    if let Some(length) = content_length {
        if length as u128 > upload.limit {
            upload.phase = UploadPhase::Done;
            return (upload, Step::Finish(Err(ApiError::UploadTooLarge)));
        }
    }
    (upload, Step::Perform(Action::OpenBucket(bucket)))
}

impl Upload {
    /// Goes on with a comparison.
    fn step_check(&mut self, mut check: RangeCheck, event: Event) -> (out: UploadStep)
        requires
            range::range_awaits(check@, event@),
            old(self).phase@ == UploadPhase::<Seq<u8>>::Done,
        ensures
            (final(self)@, out@) == after_check(old(self)@, range::range_next(check@, event@)),
    {
        match check.step(event) {
            Step::Perform(action) => {
                self.phase = UploadPhase::Checking(check);
                Step::Perform(action)
            },
            Step::Finish(Ok(RangeMatch::Matches)) => Step::Finish(Ok(Success::Okay)),
            Step::Finish(Ok(_)) => Step::Finish(Err(ApiError::FileExistsWithConflictingContent)),
            Step::Finish(Err(e)) => Step::Finish(Err(ApiError::internal(e))),
        }
    }

    /// Takes what the last action came to and says what to do next.
    pub fn step(&mut self, event: Event) -> (out: UploadStep)
        requires
            old(self)@.wf(),
            upload_awaits(old(self)@, event@),
        ensures
            final(self)@.wf(),
            (final(self)@, out@) == upload_next(old(self)@, event@),
    {
        let mut phase = UploadPhase::Done;
        std::mem::swap(&mut phase, &mut self.phase);
        if let Event::Chunk(Ok(Some(data))) = &event {
            let received: u128 = self.received + data.len() as u128;
            if received > self.limit {
                return Step::Finish(Err(ApiError::UploadTooLarge));
            }
            self.received = received;
        }
        match (phase, event) {
            (UploadPhase::OpeningBucket, Event::Bucket(Ok(_))) => match &self.kind {
                UploadKind::Write { content_type } => {
                    self.phase = UploadPhase::Creating;
                    Step::Perform(
                        Action::CreateFile {
                            filename: self.filename.clone(),
                            content_type: content_type.clone(),
                        },
                    )
                },
                UploadKind::Append { .. } => {
                    self.phase = UploadPhase::Opening;
                    Step::Perform(Action::OpenFile(self.filename.clone()))
                },
            },
            (UploadPhase::OpeningBucket, Event::Bucket(Err(e))) => Step::Finish(
                Err(ApiError::from_bucket_open_error(&self.bucket_name, e)),
            ),
            // File doesn't exist, so we upload till we run out of data
            (UploadPhase::Creating, Event::Created(Ok(_))) => {
                self.phase = UploadPhase::Receiving;
                Step::Perform(Action::NextChunk)
            },
            // File exists, but it might be a no-op re-send of a request
            (UploadPhase::Creating, Event::Created(Err(FileCreateError::FileExists))) => {
                self.phase = UploadPhase::Reopening;
                Step::Perform(Action::OpenFile(self.filename.clone()))
            },
            (UploadPhase::Creating, Event::Created(Err(e))) => Step::Finish(
                Err(ApiError::internal(e.message())),
            ),
            (UploadPhase::Reopening, Event::Opened(Ok(_))) => {
                let (check, action) = RangeCheck::start(0, true);
                self.phase = UploadPhase::Checking(check);
                Step::Perform(action)
            },
            // Anything going wrong accessing the file should have been
            // diagnosed elsewhere above.
            (UploadPhase::Reopening, Event::Opened(Err(e))) => Step::Finish(
                Err(ApiError::internal(e.message())),
            ),
            (UploadPhase::Opening, Event::Opened(Ok(_))) => {
                self.phase = UploadPhase::Sizing;
                Step::Perform(Action::Seek(SeekFrom::End(0)))
            },
            (UploadPhase::Opening, Event::Opened(Err(e))) => Step::Finish(
                Err(ApiError::from_bucket_file_open_error(&self.filename, e)),
            ),
            (UploadPhase::Sizing, Event::Position(Ok(size))) => {
                // First, make sure that we aren't an idempotency request.
                if let UploadKind::Append { write_offset } = &self.kind {
                    if *write_offset < size {
                        let (check, action) = RangeCheck::start(*write_offset, false);
                        self.phase = UploadPhase::Checking(check);
                        return Step::Perform(action);
                    }
                }
                // This is not an idempotency request, so we can safely append.

                self.phase = UploadPhase::Receiving;
                Step::Perform(Action::NextChunk)
            },
            (UploadPhase::Receiving, Event::Chunk(Ok(Some(data)))) => {
                self.phase = UploadPhase::Appending;
                Step::Perform(Action::Append(data))
            },
            (UploadPhase::Receiving, Event::Chunk(Ok(None))) => {
                self.phase = UploadPhase::Committing;
                Step::Perform(Action::Commit)
            },
            (UploadPhase::Appending, Event::Written(Ok(_))) => {
                self.phase = UploadPhase::Receiving;
                Step::Perform(Action::NextChunk)
            },
            (UploadPhase::Committing, Event::Written(Ok(_))) => Step::Finish(
                Ok(
                    match &self.kind {
                        UploadKind::Write { .. } => Success::Created,
                        UploadKind::Append { .. } => Success::Okay,
                    },
                ),
            ),
            (UploadPhase::Checking(check), event) => self.step_check(check, event),
            (_, Event::Position(Err(e))) => Step::Finish(Err(ApiError::internal(e))),
            (_, Event::Chunk(Err(e))) => Step::Finish(Err(ApiError::internal(e))),
            (_, Event::Written(Err(e))) => Step::Finish(Err(ApiError::internal(e))),
            (_, _) => Step::Finish(Err(ApiError::internal(exchange::unexpected_event()))),
        }
    }
}

/// A `PUT` whose Content-Type is permitted and which announces no more than the
/// configured number of megabytes, or nothing, opens its bucket first. One that
/// announces more is too large, and one of another Content-Type is not
/// permitted; that of a request without one is `text/plain`.
pub proof fn law_put_opens_its_bucket(
    filename: String,
    bucket_name: String,
    header: Option<String>,
    content_length: Option<u64>,
    config: AppConfig,
    out: (Upload, UploadStep),
)
    requires
        call_ensures(
            put_write_filename,
            (filename, bucket_name, header, content_length, &config),
            out,
        ),
    ensures
        ({
            let content_type = match header {
                Some(content_type) => content_type@,
                None => "text/plain"@,
            };
            let permitted = config@.allowed_content_types.contains(content_type);
            let fits = content_length matches Some(length) ==> length <= config.max_upload_size_mb
                * 1_000_000;
            &&& permitted && fits ==> (out.1 matches Step::Perform(Action::OpenBucket(opened))
                && opened@ == bucket_name@)
            &&& !fits ==> (out.1 matches Step::Finish(Err(ApiError::UploadTooLarge)))
            &&& fits && !permitted ==> (out.1 matches Step::Finish(
                Err(ApiError::ContentTypeNotPermitted(refused)),
            ) && refused@ == content_type)
            &&& out.0.received == 0
            &&& out.0.limit == config.max_upload_size_mb * 1_000_000
        }),
{
}

/// A `POST` that announces no more than the configured number of megabytes, or
/// nothing, opens its bucket first. One that announces more is too large.
pub proof fn law_post_opens_its_bucket(
    filename: String,
    bucket_name: String,
    write_offset: u64,
    content_length: Option<u64>,
    config: AppConfig,
    out: (Upload, UploadStep),
)
    requires
        call_ensures(
            post_append_filename,
            (filename, bucket_name, write_offset, content_length, &config),
            out,
        ),
    ensures
        ({
            let fits = content_length matches Some(length) ==> length <= config.max_upload_size_mb
                * 1_000_000;
            &&& fits ==> (out.1 matches Step::Perform(Action::OpenBucket(opened))
                && opened@ == bucket_name@)
            &&& !fits ==> (out.1 matches Step::Finish(Err(ApiError::UploadTooLarge)))
            &&& out.0.received == 0
            &&& out.0.limit == config.max_upload_size_mb * 1_000_000
        }),
{
}

/// Whatever goes wrong on the way, but for what a request can be to blame for,
/// ends an upload with an internal error that says what it was.
pub proof fn law_faults_are_internal_errors(
    up: UploadView,
    event: Event<Seq<char>, Seq<u8>>,
    e: Seq<char>,
)
    requires
        upload_awaits(up, event),
        ({
            ||| event == Event::<Seq<char>, Seq<u8>>::Bucket(Err(FileOpenError::OtherError(e)))
            ||| event == Event::<Seq<char>, Seq<u8>>::Created(Err(FileCreateError::OtherError(e)))
            ||| event == Event::<Seq<char>, Seq<u8>>::Opened(Err(FileOpenError::OtherError(e)))
            ||| event == Event::<Seq<char>, Seq<u8>>::Position(Err(e))
            ||| event == Event::<Seq<char>, Seq<u8>>::Chunk(Err(e))
            ||| event == Event::<Seq<char>, Seq<u8>>::Written(Err(e))
        }),
    ensures
        upload_next(up, event).1 matches Step::Finish(Err(ApiError::InternalError(why)))
            && e.is_suffix_of(why),
{
    let why = (upload_next(up, event).1->Finish_0)->Err_0->InternalError_0;
    assert(e =~= why.subrange(why.len() - e.len(), why.len() as int));
}

/// A bucket that does not exist or whose name is invalid, and a file to append
/// to that does not, end an upload with an error that names it.
pub proof fn law_what_is_missing_is_named(
    up: UploadView,
    missing: FileOpenError<Seq<char>>,
)
    ensures
        up.phase is OpeningBucket && missing is DoesNotExist ==> upload_next(
            up,
            Event::Bucket(Err(missing)),
        ).1 == Step::<_, Seq<char>, Seq<u8>>::Finish(
            Err::<Success, _>(ApiError::BucketDoesNotExist(up.bucket_name)),
        ),
        up.phase is OpeningBucket && missing is InvalidName ==> upload_next(
            up,
            Event::Bucket(Err(missing)),
        ).1 == Step::<_, Seq<char>, Seq<u8>>::Finish(
            Err::<Success, _>(ApiError::InvalidBucketName(up.bucket_name)),
        ),
        up.phase is Opening && missing is DoesNotExist ==> upload_next(
            up,
            Event::Opened(Err(missing)),
        ).1 == Step::<_, Seq<char>, Seq<u8>>::Finish(
            Err::<Success, _>(ApiError::FileDoesNotExist(up.filename)),
        ),
        up.phase is Opening && missing is InvalidName ==> upload_next(
            up,
            Event::Opened(Err(missing)),
        ).1 == Step::<_, Seq<char>, Seq<u8>>::Finish(
            Err::<Success, _>(ApiError::InvalidFileName(up.filename)),
        ),
{
}

/// A file that is created is reported as created; everything else that goes
/// well is reported as going well.
pub proof fn law_success_status(success: Success, code: u16)
    requires
        call_ensures(Success::status_code, (&success,), code),
    ensures
        code == 201 <==> success is Created,
        code == 200 <==> success is Okay,
{
}

/// An upload goes well only when its data has been committed, or when a
/// comparison that writes nothing has come to its end.
pub proof fn law_success_follows_a_commit(up: UploadView, event: Event<Seq<char>, Seq<u8>>)
    requires
        upload_awaits(up, event),
        upload_next(up, event).1 matches Step::Finish(Ok(_)),
    ensures
        (up.phase is Committing && (event matches Event::Written(Ok(_)))) || (
        up.phase matches UploadPhase::Checking(check) && (range::range_next(
            check,
            event,
        ).1 matches Step::Finish(Ok(RangeMatch::Matches)))),
{
}

/// An upload goes on to commit only once the whole body has come, and to append
/// only what has just come, as it came.
pub proof fn law_what_comes_is_appended(up: UploadView, event: Event<Seq<char>, Seq<u8>>)
    requires
        upload_awaits(up, event),
    ensures
        upload_next(up, event).1 matches Step::Perform(Action::Commit) ==> up.phase is Receiving
            && (event matches Event::Chunk(Ok(None))),
        upload_next(up, event).1 matches Step::Perform(Action::Append(data)) ==> up.phase
            is Receiving && (event matches Event::Chunk(Ok(Some(chunk))) && chunk == data),
        up.phase is Receiving && (event matches Event::Chunk(Ok(None))) ==> (upload_next(
            up,
            event,
        ).1 matches Step::Perform(Action::Commit)),
{
}

/// A file that can be neither created nor, when it is there, opened is an
/// internal error that says why.
pub proof fn law_uncreatable_file_is_an_internal_error(
    up: UploadView,
    creating: FileCreateError<Seq<char>>,
    opening: FileOpenError<Seq<char>>,
)
    ensures
        up.phase is Creating && !(creating is FileExists) ==> (upload_next(
            up,
            Event::Created(Err(creating)),
        ).1 matches Step::Finish(Err(ApiError::InternalError(why))) && why == creating.text()),
        up.phase is Creating && creating is FileExists ==> (upload_next(
            up,
            Event::Created(Err(creating)),
        ).1 matches Step::Perform(Action::OpenFile(name)) && name == up.filename),
        up.phase is Reopening ==> (upload_next(up, Event::Opened(Err(opening))).1
            matches Step::Finish(Err(ApiError::InternalError(why))) && why == opening.text()),
{
}

} // verus!
