//! `/explore/:bucketName/:filename` endpoint, for viewing files in the
//! browser, and the buck2 logs that are served the same way.

use vstd::prelude::*;

use crate::errors;
use crate::errors::{ApiError, FileOpenError};
use crate::exchange;
use crate::exchange::{Action, Event, FileMetadata, SeekFrom, Step};

verus! {

/// How much of a file is read at once. This is arbitrarily chosen as 64KiB.
pub const BUFFER_SIZE: u64 = 64 * 1024;

/// What is known of a file before its content is sent.
#[derive(Debug)]
pub struct FileHead<S = String> {
    pub length: u64,
    pub metadata: FileMetadata<S>,
}

/// Where the request stands.
#[derive(Clone, Copy, Debug, PartialEq, Eq, Structural)]
pub enum ExplorePhase {
    OpeningBucket,
    Opening,
    /// Finding out how long the file is.
    Sizing,
    /// Going back to the start of a file of this length.
    Rewinding(u64),
    /// Asking for the metadata of a file of this length.
    Describing(u64),
    Done,
}

/// A request for a file in progress.
#[derive(Debug)]
pub struct Explore<S = String> {
    pub bucket: S,
    pub filename: S,
    pub phase: ExplorePhase,
}

/// What a request does next, or how it ended. When it ended well, the file is
/// open at its start, and its content follows the head.
pub type ExploreStep = Step<Result<FileHead, ApiError>>;

/// The same over mathematical values.
pub type ExploreStepView = Step<
    Result<FileHead<Seq<char>>, ApiError<Seq<char>>>,
    Seq<char>,
    Seq<u8>,
>;

impl View for FileHead<String> {
    type V = FileHead<Seq<char>>;

    open spec fn view(&self) -> FileHead<Seq<char>> {
        FileHead { length: self.length, metadata: self.metadata@ }
    }
}

impl View for Explore<String> {
    type V = Explore<Seq<char>>;

    open spec fn view(&self) -> Explore<Seq<char>> {
        Explore { bucket: self.bucket@, filename: self.filename@, phase: self.phase }
    }
}

impl View for Step<Result<FileHead<String>, ApiError<String>>, String, Vec<u8>> {
    type V = ExploreStepView;

    open spec fn view(&self) -> ExploreStepView {
        match self {
            Step::Perform(action) => Step::Perform(action@),
            Step::Finish(Ok(head)) => Step::Finish(Ok(head@)),
            Step::Finish(Err(e)) => Step::Finish(Err(e@)),
        }
    }
}

/// How a request for a file starts: its bucket is opened.
pub open spec fn explore_start(bucket: Seq<char>, filename: Seq<char>) -> (
    Explore<Seq<char>>,
    ExploreStepView,
) {
    (
        Explore { bucket, filename, phase: ExplorePhase::OpeningBucket },
        Step::Perform(Action::OpenBucket(bucket)),
    )
}

/// The event is one that the request waits for.
pub open spec fn explore_awaits(
    explore: Explore<Seq<char>>,
    event: Event<Seq<char>, Seq<u8>>,
) -> bool {
    match explore.phase {
        ExplorePhase::OpeningBucket => event is Bucket,
        ExplorePhase::Opening => event is Opened,
        ExplorePhase::Sizing => event is Position,
        ExplorePhase::Rewinding(_) => event is Position,
        ExplorePhase::Describing(_) => event is Metadata,
        ExplorePhase::Done => false,
    }
}

/// What follows in a request for a file after `event`.
pub open spec fn explore_next(
    explore: Explore<Seq<char>>,
    event: Event<Seq<char>, Seq<u8>>,
) -> (Explore<Seq<char>>, ExploreStepView) {
    let (phase, step): (ExplorePhase, ExploreStepView) = match (explore.phase, event) {
        (ExplorePhase::OpeningBucket, Event::Bucket(Ok(_))) => (
            ExplorePhase::Opening,
            Step::Perform(Action::OpenFile(explore.filename)),
        ),
        (ExplorePhase::OpeningBucket, Event::Bucket(Err(e))) => (
            ExplorePhase::Done,
            Step::Finish(Err(errors::bucket_open_error(explore.bucket, e))),
        ),
        (ExplorePhase::Opening, Event::Opened(Ok(_))) => (
            ExplorePhase::Sizing,
            Step::Perform(Action::Seek(SeekFrom::End(0))),
        ),
        (ExplorePhase::Opening, Event::Opened(Err(e))) => (
            ExplorePhase::Done,
            Step::Finish(Err(errors::file_open_error(explore.filename, e))),
        ),
        (ExplorePhase::Sizing, Event::Position(Ok(length))) => (
            ExplorePhase::Rewinding(length),
            Step::Perform(Action::Seek(SeekFrom::Start(0))),
        ),
        (ExplorePhase::Rewinding(length), Event::Position(Ok(_))) => (
            ExplorePhase::Describing(length),
            Step::Perform(Action::Metadata),
        ),
        (ExplorePhase::Describing(length), Event::Metadata(Ok(metadata))) => (
            ExplorePhase::Done,
            Step::Finish(Ok(FileHead { length, metadata })),
        ),
        (_, Event::Position(Err(e))) => (
            ExplorePhase::Done,
            Step::Finish(Err(ApiError::InternalError(e))),
        ),
        (_, Event::Metadata(Err(e))) => (
            ExplorePhase::Done,
            Step::Finish(Err(ApiError::InternalError(e))),
        ),
        (_, _) => (
            ExplorePhase::Done,
            Step::Finish(Err(ApiError::InternalError(exchange::unexpected()))),
        ),
    };
    (Explore { phase, ..explore }, step)
}

/// GET `/explore/:bucketName/:filename`
pub fn get_explore(bucket: String, filename: String) -> (out: (Explore, ExploreStep))
    ensures
        (out.0@, out.1@) == explore_start(bucket@, filename@),
{
    let name = bucket.clone();
    (
        Explore { bucket, filename, phase: ExplorePhase::OpeningBucket },
        Step::Perform(Action::OpenBucket(name)),
    )
}

/// GET `/v1/logs/get/:filename`, which is buck2-specific functionality.
pub fn get_buck2_log(filename: &str) -> (out: (Explore, ExploreStep))
    ensures
        (out.0@, out.1@) == explore_start("buck2_logs"@, "flat/"@ + filename@ + ".pb.zst"@),
{
    let mut path = "flat/".to_owned();
    path.append(filename);
    path.append(".pb.zst");
    get_explore("buck2_logs".to_owned(), path)
}

impl Explore {
    /// Takes what the last action came to and says what to do next.
    pub fn step(&mut self, event: Event) -> (out: ExploreStep)
        requires
            explore_awaits(old(self)@, event@),
        ensures
            (final(self)@, out@) == explore_next(old(self)@, event@),
    {
        let phase = self.phase;
        self.phase = ExplorePhase::Done;
        match (phase, event) {
            (ExplorePhase::OpeningBucket, Event::Bucket(Ok(_))) => {
                self.phase = ExplorePhase::Opening;
                Step::Perform(Action::OpenFile(self.filename.clone()))
            },
            (ExplorePhase::OpeningBucket, Event::Bucket(Err(e))) => Step::Finish(
                Err(ApiError::from_bucket_open_error(&self.bucket, e)),
            ),
            // We know the file exists now, so we expect to return a 200 and
            // stream the response.
            (ExplorePhase::Opening, Event::Opened(Ok(_))) => {
                self.phase = ExplorePhase::Sizing;
                Step::Perform(Action::Seek(SeekFrom::End(0)))
            },
            (ExplorePhase::Opening, Event::Opened(Err(e))) => Step::Finish(
                Err(ApiError::from_bucket_file_open_error(&self.filename, e)),
            ),
            (ExplorePhase::Sizing, Event::Position(Ok(length))) => {
                self.phase = ExplorePhase::Rewinding(length);
                Step::Perform(Action::Seek(SeekFrom::Start(0)))
            },
            (ExplorePhase::Rewinding(length), Event::Position(Ok(_))) => {
                self.phase = ExplorePhase::Describing(length);
                Step::Perform(Action::Metadata)
            },
            (ExplorePhase::Describing(length), Event::Metadata(Ok(metadata))) => Step::Finish(
                Ok(FileHead { length, metadata }),
            ),
            (_, Event::Position(Err(e))) => Step::Finish(Err(ApiError::internal(e))),
            (_, Event::Metadata(Err(e))) => Step::Finish(Err(ApiError::internal(e))),
            (_, _) => Step::Finish(Err(ApiError::internal(exchange::unexpected_event()))),
        }
    }
}

/// A log is looked for in the bucket of the logs, under its own name: different
/// names are different files.
pub proof fn law_log_has_its_own_file(
    filename: &str,
    other: &str,
    out: (Explore, ExploreStep),
    other_out: (Explore, ExploreStep),
)
    requires
        call_ensures(get_buck2_log, (filename,), out),
        call_ensures(get_buck2_log, (other,), other_out),
    ensures
        out.1 matches Step::Perform(Action::OpenBucket(bucket)) && bucket@ == "buck2_logs"@,
        out.0.bucket@ == "buck2_logs"@,
        out.0.filename@ == "flat/"@ + filename@ + ".pb.zst"@,
        filename@ != other@ ==> out.0.filename@ != other_out.0.filename@,
{
    let a = out.0.filename@;
    let b = other_out.0.filename@;
    if a == b {
        let start = "flat/"@.len() as int;
        let end = a.len() - ".pb.zst"@.len();
        assert(filename@ =~= a.subrange(start, end));
        assert(other@ =~= b.subrange(start, end));
    }
}

/// What is asked for is opened: the bucket of that name, and then the file.
pub proof fn law_explore_opens_what_is_asked_for(
    bucket: String,
    filename: String,
    out: (Explore, ExploreStep),
)
    requires
        call_ensures(get_explore, (bucket, filename), out),
    ensures
        out.1 matches Step::Perform(Action::OpenBucket(name)) && name@ == bucket@,
        explore_next(out.0@, Event::Bucket(Ok(()))).1 matches Step::Perform(
            Action::OpenFile(name),
        ) && name == filename@,
{
}

/// Whatever goes wrong on the way, but for what a request can be to blame for,
/// ends a request with an internal error that says what it was.
pub proof fn law_explore_faults_are_internal_errors(
    explore: Explore<Seq<char>>,
    event: Event<Seq<char>, Seq<u8>>,
    e: Seq<char>,
)
    requires
        explore_awaits(explore, event),
        ({
            ||| event == Event::<Seq<char>, Seq<u8>>::Bucket(Err(FileOpenError::OtherError(e)))
            ||| event == Event::<Seq<char>, Seq<u8>>::Opened(Err(FileOpenError::OtherError(e)))
            ||| event == Event::<Seq<char>, Seq<u8>>::Position(Err(e))
            ||| event == Event::<Seq<char>, Seq<u8>>::Metadata(Err(e))
        }),
    ensures
        explore_next(explore, event).1 matches Step::Finish(Err(ApiError::InternalError(why)))
            && e.is_suffix_of(why),
{
    let why = (explore_next(explore, event).1->Finish_0)->Err_0->InternalError_0;
    assert(e =~= why.subrange(why.len() - e.len(), why.len() as int));
}

/// A bucket or file that does not exist or whose name is invalid is named.
pub proof fn law_explore_names_what_is_missing(explore: Explore<Seq<char>>)
    ensures
        explore_next(
            Explore { phase: ExplorePhase::OpeningBucket, ..explore },
            Event::Bucket(Err(FileOpenError::DoesNotExist)),
        ).1 matches Step::Finish(Err(ApiError::BucketDoesNotExist(name))) && name == explore.bucket,
        explore_next(
            Explore { phase: ExplorePhase::OpeningBucket, ..explore },
            Event::Bucket(Err(FileOpenError::InvalidName)),
        ).1 matches Step::Finish(Err(ApiError::InvalidBucketName(name))) && name == explore.bucket,
        explore_next(
            Explore { phase: ExplorePhase::Opening, ..explore },
            Event::Opened(Err(FileOpenError::DoesNotExist)),
        ).1 matches Step::Finish(Err(ApiError::FileDoesNotExist(name))) && name == explore.filename,
        explore_next(
            Explore { phase: ExplorePhase::Opening, ..explore },
            Event::Opened(Err(FileOpenError::InvalidName)),
        ).1 matches Step::Finish(Err(ApiError::InvalidFileName(name))) && name == explore.filename,
{
}

} // verus!
