//! What requests do to the stored files, from their first action to their
//! answer.
//!
//! Nothing here runs. A [`World`] is a store together with one request's view
//! of it: the open bucket and file, the body that is still to come, and the
//! things that go wrong on the way. The handlers are run on it action by
//! action, and the laws say what comes of that.

use vstd::prelude::*;

use crate::config::AppConfigView;
use crate::errors;
use crate::errors::{ApiError, FileCreateError, FileOpenError};
use crate::exchange::{Action, Event, FileMetadata, ReadReply, SeekFrom, Step};
use crate::explore;
use crate::explore::{Explore, ExplorePhase, ExploreStepView, FileHead};
use crate::range;
use crate::range::{RangeCheck, RangeMatch, RangePhase};
use crate::time::Timestamp;
use crate::upload;
use crate::upload::{Success, Upload, UploadKind, UploadPhase, UploadStepView, UploadView};

verus! {

/// A file as it is stored.
pub struct StoredFile {
    pub data: Seq<u8>,
    pub content_type: Seq<char>,
    pub modified: Timestamp,
}

/// The buckets by name, and in each the files by name.
pub type Store = Map<Seq<char>, Map<Seq<char>, StoredFile>>;

/// An open file. What is written stays with the handle until it is committed.
pub struct Handle {
    pub filename: Seq<char>,
    pub data: Seq<u8>,
    pub position: int,
}

/// A store with one request on it.
pub struct World {
    pub store: Store,
    /// The time of the request.
    pub now: Timestamp,
    /// The bucket that was opened last.
    pub bucket: Seq<char>,
    /// The file that was opened last.
    pub handle: Handle,
    /// The chunks of the request body that are still to come.
    pub chunks: Seq<Seq<u8>>,
    /// What goes wrong, if anything, once the chunks have come.
    pub broken: Option<Seq<char>>,
    /// What goes wrong, if anything, with each of the next actions.
    pub faults: Seq<Option<Seq<char>>>,
}

/// An error as any action can have it.
pub open spec fn failed(action: Action<Seq<char>, Seq<u8>>, e: Seq<char>) -> Event<
    Seq<char>,
    Seq<u8>,
> {
    match action {
        Action::OpenBucket(_) => Event::Bucket(Err(FileOpenError::OtherError(e))),
        Action::CreateFile { .. } => Event::Created(Err(FileCreateError::OtherError(e))),
        Action::OpenFile(_) => Event::Opened(Err(FileOpenError::OtherError(e))),
        Action::Seek(_) => Event::Position(Err(e)),
        Action::NextChunk => Event::Chunk(Err(e)),
        Action::ReadExact(_) => Event::Read(ReadReply::Failed(e)),
        Action::Append(_) => Event::Written(Err(e)),
        Action::Commit => Event::Written(Err(e)),
        Action::Metadata => Event::Metadata(Err(e)),
    }
}

impl World {
    /// The open bucket's files.
    pub open spec fn files(self) -> Map<Seq<char>, StoredFile> {
        self.store[self.bucket]
    }

    /// The world with another file opened.
    pub open spec fn opened(self, filename: Seq<char>, data: Seq<u8>) -> World {
        World { handle: Handle { filename, data, position: 0 }, ..self }
    }

    /// The world with the open file at another position.
    pub open spec fn at(self, position: int) -> World {
        World { handle: Handle { position, ..self.handle }, ..self }
    }

    /// The position that a seek leads to.
    pub open spec fn seek_target(self, to: SeekFrom) -> int {
        match to {
            SeekFrom::Start(n) => n as int,
            SeekFrom::End(n) => self.handle.data.len() + n,
            SeekFrom::Current(n) => self.handle.position + n,
        }
    }

    /// Carries out an action with which nothing goes wrong.
    pub open spec fn act(self, action: Action<Seq<char>, Seq<u8>>) -> (
        World,
        Event<Seq<char>, Seq<u8>>,
    ) {
        match action {
            Action::OpenBucket(name) => if self.store.contains_key(name) {
                (World { bucket: name, ..self }, Event::Bucket(Ok(())))
            } else {
                (self, Event::Bucket(Err(FileOpenError::DoesNotExist)))
            },
            Action::CreateFile { filename, content_type } => if self.files().contains_key(
                filename,
            ) {
                (self, Event::Created(Err(FileCreateError::FileExists)))
            } else {
                (
                    World {
                        store: with_file(
                            self.store,
                            self.bucket,
                            filename,
                            StoredFile { data: seq![], content_type, modified: self.now },
                        ),
                        ..self
                    }.opened(filename, seq![]),
                    Event::Created(Ok(())),
                )
            },
            Action::OpenFile(filename) => if self.files().contains_key(filename) {
                (self.opened(filename, self.files()[filename].data), Event::Opened(Ok(())))
            } else {
                (self, Event::Opened(Err(FileOpenError::DoesNotExist)))
            },
            Action::Seek(to) => if self.seek_target(to) >= 0 {
                (
                    self.at(self.seek_target(to)),
                    Event::Position(Ok(self.seek_target(to) as u64)),
                )
            } else {
                (self, Event::Position(Err("Invalid argument"@)))
            },
            Action::NextChunk => if self.chunks.len() > 0 {
                (
                    World { chunks: self.chunks.drop_first(), ..self },
                    Event::Chunk(Ok(Some(self.chunks[0]))),
                )
            } else {
                (
                    self,
                    Event::Chunk(
                        match self.broken {
                            Some(e) => Err(e),
                            None => Ok(None),
                        },
                    ),
                )
            },
            Action::ReadExact(n) => {
                let rest = range::bytes_from(self.handle.data, self.handle.position);
                if n <= rest.len() {
                    (
                        self.at(self.handle.position + n),
                        Event::Read(ReadReply::Bytes(rest.take(n as int))),
                    )
                } else {
                    (
                        self.at(self.handle.position + rest.len()),
                        Event::Read(ReadReply::UnexpectedEof),
                    )
                }
            },
            Action::Append(data) => {
                let whole = self.handle.data + data;
                (
                    World {
                        handle: Handle {
                            data: whole,
                            position: whole.len() as int,
                            ..self.handle
                        },
                        ..self
                    },
                    Event::Written(Ok(())),
                )
            },
            Action::Commit => (
                World {
                    store: with_file(
                        self.store,
                        self.bucket,
                        self.handle.filename,
                        changed(
                            self.files()[self.handle.filename],
                            self.handle.data,
                            self.now,
                        ),
                    ),
                    ..self
                },
                Event::Written(Ok(())),
            ),
            Action::Metadata => {
                let file = self.files()[self.handle.filename];
                (
                    self,
                    Event::Metadata(
                        Ok(
                            FileMetadata {
                                last_modified_at: file.modified,
                                content_type: file.content_type,
                            },
                        ),
                    ),
                )
            },
        }
    }

    /// Carries out an action, or has it fail if it is the turn of a fault. What
    /// fails changes nothing.
    pub open spec fn perform(self, action: Action<Seq<char>, Seq<u8>>) -> (
        World,
        Event<Seq<char>, Seq<u8>>,
    ) {
        if self.faults.len() > 0 {
            let after = World { faults: self.faults.drop_first(), ..self };
            match self.faults[0] {
                Some(e) => (after, failed(action, e)),
                None => after.act(action),
            }
        } else {
            self.act(action)
        }
    }
}

/// The store with a file put in its place.
pub open spec fn with_file(
    store: Store,
    bucket: Seq<char>,
    filename: Seq<char>,
    file: StoredFile,
) -> Store {
    store.insert(bucket, store[bucket].insert(filename, file))
}

/// The file with other data. Its time of modification changes with the data
/// only.
pub open spec fn changed(file: StoredFile, data: Seq<u8>, now: Timestamp) -> StoredFile {
    StoredFile {
        data,
        modified: if data == file.data {
            file.modified
        } else {
            now
        },
        ..file
    }
}

/// A request that arrives at a store, with its body and what goes wrong.
pub open spec fn arrival(
    store: Store,
    now: Timestamp,
    chunks: Seq<Seq<u8>>,
    broken: Option<Seq<char>>,
    faults: Seq<Option<Seq<char>>>,
) -> World {
    World {
        store,
        now,
        bucket: seq![],
        handle: Handle { filename: seq![], data: seq![], position: 0 },
        chunks,
        broken,
        faults,
    }
}

/// Runs an upload for at most `fuel` actions.
pub open spec fn run_upload(world: World, state: (UploadView, UploadStepView), fuel: nat) -> Option<
    (World, Result<Success, ApiError<Seq<char>>>),
>
    decreases fuel,
{
    match state.1 {
        Step::Finish(result) => Some((world, result)),
        Step::Perform(action) => if fuel == 0 {
            None
        } else {
            let (after, event) = world.perform(action);
            run_upload(after, upload::upload_next(state.0, event), (fuel - 1) as nat)
        },
    }
}

/// Runs a request for a file for at most `fuel` actions.
pub open spec fn run_explore(
    world: World,
    state: (Explore<Seq<char>>, ExploreStepView),
    fuel: nat,
) -> Option<(World, Result<FileHead<Seq<char>>, ApiError<Seq<char>>>)>
    decreases fuel,
{
    match state.1 {
        Step::Finish(result) => Some((world, result)),
        Step::Perform(action) => if fuel == 0 {
            None
        } else {
            let (after, event) = world.perform(action);
            run_explore(after, explore::explore_next(state.0, event), (fuel - 1) as nat)
        },
    }
}

/// The file is in the store.
pub open spec fn has_file(store: Store, bucket: Seq<char>, filename: Seq<char>) -> bool {
    store.contains_key(bucket) && store[bucket].contains_key(filename)
}

/// What a `PUT` of `body` is answered, and the store after it.
pub open spec fn put_outcome(
    store: Store,
    now: Timestamp,
    bucket: Seq<char>,
    filename: Seq<char>,
    content_type: Seq<char>,
    body: Seq<u8>,
) -> (Result<Success, ApiError<Seq<char>>>, Store) {
    if !store.contains_key(bucket) {
        (Err(ApiError::BucketDoesNotExist(bucket)), store)
    } else if !has_file(store, bucket, filename) {
        (
            Ok(Success::Created),
            with_file(
                store,
                bucket,
                filename,
                StoredFile { data: body, content_type, modified: now },
            ),
        )
    } else if store[bucket][filename].data == body {
        (Ok(Success::Okay), store)
    } else {
        (Err(ApiError::FileExistsWithConflictingContent), store)
    }
}

/// What a `POST` of `body` is answered, and the store after it.
pub open spec fn append_outcome(
    store: Store,
    now: Timestamp,
    bucket: Seq<char>,
    filename: Seq<char>,
    write_offset: u64,
    body: Seq<u8>,
) -> (Result<Success, ApiError<Seq<char>>>, Store) {
    let file = store[bucket][filename];
    if !store.contains_key(bucket) {
        (Err(ApiError::BucketDoesNotExist(bucket)), store)
    } else if !has_file(store, bucket, filename) {
        (Err(ApiError::FileDoesNotExist(filename)), store)
    } else if write_offset >= file.data.len() {
        (
            Ok(Success::Okay),
            with_file(store, bucket, filename, changed(file, file.data + body, now)),
        )
    } else if body.is_prefix_of(file.data.skip(write_offset as int)) {
        (Ok(Success::Okay), store)
    } else {
        (Err(ApiError::FileExistsWithConflictingContent), store)
    }
}

/// The outcome of the kind of upload that it is.
pub open spec fn upload_outcome(
    store: Store,
    now: Timestamp,
    bucket: Seq<char>,
    filename: Seq<char>,
    kind: UploadKind<Seq<char>>,
    body: Seq<u8>,
) -> (Result<Success, ApiError<Seq<char>>>, Store) {
    match kind {
        UploadKind::Write { content_type } => put_outcome(
            store,
            now,
            bucket,
            filename,
            content_type,
            body,
        ),
        UploadKind::Append { write_offset } => append_outcome(
            store,
            now,
            bucket,
            filename,
            write_offset,
            body,
        ),
    }
}

/// An upload that its request did not rule out: its bucket is opened first.
pub open spec fn accepted(
    filename: Seq<char>,
    bucket: Seq<char>,
    kind: UploadKind<Seq<char>>,
    limit: int,
) -> (UploadView, UploadStepView) {
    upload::go(
        upload::new_upload(filename, bucket, kind, limit),
        UploadPhase::OpeningBucket,
        Action::OpenBucket(bucket),
    )
}

/// Lengths that a machine can hold.
pub open spec fn sizes_fit(store: Store, chunks: Seq<Seq<u8>>) -> bool {
    &&& forall|i: int| 0 <= i < chunks.len() ==> (#[trigger] chunks[i]).len() <= usize::MAX
    &&& forall|bucket: Seq<char>, filename: Seq<char>|
        has_file(store, bucket, filename) ==> (#[trigger] store[bucket][filename]).data.len()
            <= u64::MAX
}

proof fn lemma_flatten_first(chunks: Seq<Seq<u8>>)
    requires
        chunks.len() > 0,
    ensures
        chunks.flatten() == chunks[0] + chunks.drop_first().flatten(),
{
}

/// From the point where a file is open for appending, the rest of the body is
/// appended and committed.
proof fn lemma_receive(world: World, up: UploadView, fuel: nat)
    requires
        world.faults.len() == 0,
        world.broken is None,
        up.phase == UploadPhase::<Seq<u8>>::Receiving,
        up.received + world.chunks.flatten().len() <= up.limit,
        fuel >= 2 * world.chunks.len() + 2,
    ensures
        ({
            let committed = World {
                handle: Handle { data: world.handle.data + world.chunks.flatten(), ..world.handle },
                ..world
            };
            let success = match up.kind {
                UploadKind::Write { .. } => Success::Created,
                UploadKind::Append { .. } => Success::Okay,
            };
            run_upload(world, (up, Step::Perform(Action::NextChunk)), fuel) matches Some(end)
                && end.1 == Ok::<Success, ApiError<Seq<char>>>(success) && end.0.store
                == committed.act(Action::Commit).0.store
        }),
    decreases world.chunks.len(),
{
    let state: (UploadView, UploadStepView) = (up, Step::Perform(Action::NextChunk));
    if world.chunks.len() == 0 {
        assert(world.chunks.flatten() =~= seq![]);
        assert(world.handle.data + world.chunks.flatten() =~= world.handle.data);
        let next = upload::upload_next(up, Event::Chunk(Ok(None)));
        assert(run_upload(world, state, fuel) == run_upload(world, next, (fuel - 1) as nat));
        let (after, event) = world.perform(Action::Commit);
        let last = upload::upload_next(next.0, event);
        assert(run_upload(world, next, (fuel - 1) as nat) == run_upload(
            after,
            last,
            (fuel - 2) as nat,
        ));
    } else {
        lemma_flatten_first(world.chunks);
        let chunk = world.chunks[0];
        let tail = world.chunks.drop_first();
        let (taken, got) = world.perform(Action::NextChunk);
        let next = upload::upload_next(up, got);
        assert(run_upload(world, state, fuel) == run_upload(taken, next, (fuel - 1) as nat));
        let (appended, written) = taken.perform(Action::Append(chunk));
        let again = upload::upload_next(next.0, written);
        assert(run_upload(taken, next, (fuel - 1) as nat) == run_upload(
            appended,
            again,
            (fuel - 2) as nat,
        ));
        lemma_receive(appended, again.0, (fuel - 2) as nat);
        assert(world.handle.data + world.chunks.flatten() =~= (world.handle.data + chunk)
            + tail.flatten());
    }
}

/// The answer to a comparison's verdict.
pub open spec fn verdict_answer(verdict: RangeMatch) -> Result<Success, ApiError<Seq<char>>> {
    if verdict == RangeMatch::Matches {
        Ok(Success::Okay)
    } else {
        Err(ApiError::FileExistsWithConflictingContent)
    }
}

/// A comparison that is under way compares the rest of the body with the file
/// from its position on, and changes nothing.
proof fn lemma_check(world: World, up: UploadView, to_end: bool, fuel: nat)
    requires
        world.faults.len() == 0,
        world.broken is None,
        world.handle.position >= 0,
        up.phase == UploadPhase::Checking(
            RangeCheck::<Seq<u8>> { to_end, phase: RangePhase::Receiving },
        ),
        up.received + world.chunks.flatten().len() <= up.limit,
        forall|i: int| 0 <= i < world.chunks.len() ==> (#[trigger] world.chunks[i]).len()
            <= usize::MAX,
        fuel >= 2 * world.chunks.len() + 2,
    ensures
        run_upload(world, (up, Step::Perform(Action::NextChunk)), fuel) matches Some(end)
            && end.0.store == world.store && end.1 == verdict_answer(
            range::range_match(
                range::bytes_from(world.handle.data, world.handle.position),
                world.chunks,
                to_end,
            ),
        ),
    decreases world.chunks.len(),
{
    let state: (UploadView, UploadStepView) = (up, Step::Perform(Action::NextChunk));
    let rest = range::bytes_from(world.handle.data, world.handle.position);
    let (taken, got) = world.perform(Action::NextChunk);
    let next = upload::upload_next(up, got);
    if world.chunks.len() == 0 {
        assert(run_upload(world, state, fuel) == run_upload(world, next, (fuel - 1) as nat));
        if to_end {
            let (after, event) = world.perform(Action::ReadExact(1));
            let last = upload::upload_next(next.0, event);
            assert(run_upload(world, next, (fuel - 1) as nat) == run_upload(
                after,
                last,
                (fuel - 2) as nat,
            ));
        }
    } else {
        lemma_flatten_first(world.chunks);
        let chunk = world.chunks[0];
        let n = chunk.len() as usize;
        assert(run_upload(world, state, fuel) == run_upload(taken, next, (fuel - 1) as nat));
        assert(next.1 == UploadStepView::Perform(Action::ReadExact(n)));
        let (after, event) = taken.perform(Action::ReadExact(n));
        let again = upload::upload_next(next.0, event);
        assert(run_upload(taken, next, (fuel - 1) as nat) == run_upload(
            after,
            again,
            (fuel - 2) as nat,
        ));
        if n <= rest.len() && rest.take(n as int) == chunk {
            assert(range::bytes_from(after.handle.data, after.handle.position) =~= rest.skip(
                n as int,
            ));
            assert forall|i: int| 0 <= i < after.chunks.len() implies (
            #[trigger] after.chunks[i]).len() <= usize::MAX by {
                assert(after.chunks[i] == world.chunks[i + 1]);
            }
            lemma_check(after, again.0, to_end, (fuel - 2) as nat);
        }
    }
}

/// An upload that is accepted, whose body is whole and within the limit, and
/// with which nothing goes wrong is answered and changes the store as its
/// outcome says, however the body comes in chunks.
pub proof fn law_upload_has_its_outcome(
    store: Store,
    now: Timestamp,
    bucket: Seq<char>,
    filename: Seq<char>,
    kind: UploadKind<Seq<char>>,
    limit: int,
    chunks: Seq<Seq<u8>>,
    fuel: nat,
)
    requires
        chunks.flatten().len() <= limit <= u128::MAX,
        sizes_fit(store, chunks),
        fuel >= 2 * chunks.len() + 8,
    ensures
        run_upload(
            arrival(store, now, chunks, None, seq![]),
            accepted(filename, bucket, kind, limit),
            fuel,
        ) matches Some(end) && (end.1, end.0.store) == upload_outcome(
            store,
            now,
            bucket,
            filename,
            kind,
            chunks.flatten(),
        ),
{
    let world = arrival(store, now, chunks, None, seq![]);
    let start = accepted(filename, bucket, kind, limit);
    let body = chunks.flatten();
    let (w1, e1) = world.perform(Action::OpenBucket(bucket));
    let s1 = upload::upload_next(start.0, e1);
    assert(run_upload(world, start, fuel) == run_upload(w1, s1, (fuel - 1) as nat));
    if store.contains_key(bucket) {
        match kind {
            UploadKind::Write { content_type } => {
                let (w2, e2) = w1.perform(Action::CreateFile { filename, content_type });
                let s2 = upload::upload_next(s1.0, e2);
                assert(run_upload(w1, s1, (fuel - 1) as nat) == run_upload(
                    w2,
                    s2,
                    (fuel - 2) as nat,
                ));
                if has_file(store, bucket, filename) {
                    let file = store[bucket][filename];
                    let (w3, e3) = w2.perform(Action::OpenFile(filename));
                    let s3 = upload::upload_next(s2.0, e3);
                    assert(run_upload(w2, s2, (fuel - 2) as nat) == run_upload(
                        w3,
                        s3,
                        (fuel - 3) as nat,
                    ));
                    let (w4, e4) = w3.perform(Action::Seek(SeekFrom::Start(0)));
                    let s4 = upload::upload_next(s3.0, e4);
                    assert(run_upload(w3, s3, (fuel - 3) as nat) == run_upload(
                        w4,
                        s4,
                        (fuel - 4) as nat,
                    ));
                    lemma_check(w4, s4.0, true, (fuel - 4) as nat);
                    assert(range::bytes_from(file.data, 0) =~= file.data);
                    range::law_match_means_equal(file.data, chunks);
                } else {
                    lemma_receive(w2, s2.0, (fuel - 2) as nat);
                    assert(seq![] + body =~= body);
                    let end = run_upload(w2, s2, (fuel - 2) as nat)->0;
                    let created = StoredFile { data: body, content_type, modified: now };
                    assert(end.0.store[bucket] =~= store[bucket].insert(filename, created));
                    assert(end.0.store =~= with_file(store, bucket, filename, created));
                }
            },
            UploadKind::Append { write_offset } => {
                let (w2, e2) = w1.perform(Action::OpenFile(filename));
                let s2 = upload::upload_next(s1.0, e2);
                assert(run_upload(w1, s1, (fuel - 1) as nat) == run_upload(
                    w2,
                    s2,
                    (fuel - 2) as nat,
                ));
                if has_file(store, bucket, filename) {
                    let file = store[bucket][filename];
                    let (w3, e3) = w2.perform(Action::Seek(SeekFrom::End(0)));
                    let s3 = upload::upload_next(s2.0, e3);
                    assert(run_upload(w2, s2, (fuel - 2) as nat) == run_upload(
                        w3,
                        s3,
                        (fuel - 3) as nat,
                    ));
                    if write_offset < file.data.len() {
                        let (w4, e4) = w3.perform(Action::Seek(SeekFrom::Start(write_offset)));
                        let s4 = upload::upload_next(s3.0, e4);
                        assert(run_upload(w3, s3, (fuel - 3) as nat) == run_upload(
                            w4,
                            s4,
                            (fuel - 4) as nat,
                        ));
                        lemma_check(w4, s4.0, false, (fuel - 4) as nat);
                        range::law_match_means_prefix(
                            file.data.skip(write_offset as int),
                            chunks,
                        );
                    } else {
                        lemma_receive(w3, s3.0, (fuel - 3) as nat);
                    }
                }
            },
        }
    }
}

/// An action that fails ends the upload with an error.
proof fn lemma_fault_ends(up: UploadView, action: Action<Seq<char>, Seq<u8>>, e: Seq<char>)
    ensures
        upload::upload_next(up, failed(action, e)).1 matches Step::Finish(Err(_)),
{
}

/// Once an upload has ended, more fuel changes nothing.
proof fn lemma_more_fuel(
    world: World,
    state: (UploadView, UploadStepView),
    fuel: nat,
    more: nat,
)
    requires
        fuel <= more,
        run_upload(world, state, fuel) is Some,
    ensures
        run_upload(world, state, more) == run_upload(world, state, fuel),
    decreases fuel,
{
    if let Step::Perform(action) = state.1 {
        let (after, event) = world.perform(action);
        lemma_more_fuel(
            after,
            upload::upload_next(state.0, event),
            (fuel - 1) as nat,
            (more - 1) as nat,
        );
    }
}

/// An upload that ends well met no fault.
proof fn lemma_success_without_faults(
    world: World,
    state: (UploadView, UploadStepView),
    fuel: nat,
)
    requires
        run_upload(world, state, fuel) matches Some(end) && end.1 is Ok,
    ensures
        ({
            let spared = World { faults: seq![], ..world };
            match (run_upload(world, state, fuel), run_upload(spared, state, fuel)) {
                (Some(end), Some(same)) => same.1 == end.1 && same.0.store == end.0.store,
                _ => false,
            }
        }),
    decreases fuel,
{
    if let Step::Perform(action) = state.1 {
        let spared = World { faults: seq![], ..world };
        let (after, event) = world.perform(action);
        if world.faults.len() > 0 {
            if let Some(e) = world.faults[0] {
                lemma_fault_ends(state.0, action, e);
                assert(run_upload(
                    after,
                    upload::upload_next(state.0, event),
                    (fuel - 1) as nat,
                ) matches Some(end) && end.1 is Err);
            }
        }
        let next = upload::upload_next(state.0, event);
        lemma_success_without_faults(after, next, (fuel - 1) as nat);
        let (spared_after, same) = spared.act(action);
        assert(same == event);
        assert(spared_after == World { faults: seq![], ..after });
    }
}

/// In these phases the body has come to its end.
pub open spec fn body_ended(phase: UploadPhase<Seq<u8>>) -> bool {
    match phase {
        UploadPhase::Committing => true,
        UploadPhase::Checking(check) => check.phase == RangePhase::<Seq<u8>>::Ending,
        _ => false,
    }
}

/// What was received and what is still to come are `total` together, and the
/// action is the one that the phase waits for.
pub open spec fn accounts(world: World, state: (UploadView, UploadStepView), total: int) -> bool {
    &&& state.0.received + world.chunks.flatten().len() == total
    &&& state.0.wf()
    &&& body_ended(state.0.phase) ==> world.chunks.len() == 0 && world.broken is None
    &&& match state.1 {
        Step::Perform(action) => awaits_outcome_of(state.0.phase, action),
        Step::Finish(Ok(_)) => world.chunks.len() == 0 && world.broken is None,
        Step::Finish(Err(_)) => true,
    }
}

/// The phase waits for the outcome of the action.
pub open spec fn awaits_outcome_of(
    phase: UploadPhase<Seq<u8>>,
    action: Action<Seq<char>, Seq<u8>>,
) -> bool {
    match phase {
        UploadPhase::OpeningBucket => action is OpenBucket,
        UploadPhase::Creating => action is CreateFile,
        UploadPhase::Reopening => action is OpenFile,
        UploadPhase::Opening => action is OpenFile,
        UploadPhase::Sizing => action is Seek,
        UploadPhase::Receiving => action is NextChunk,
        UploadPhase::Appending => action is Append,
        UploadPhase::Committing => action is Commit,
        UploadPhase::Checking(check) => match check.phase {
            RangePhase::Seeking => action is Seek,
            RangePhase::Receiving => action is NextChunk,
            RangePhase::Comparing(_) => action is ReadExact,
            RangePhase::Ending => action is ReadExact,
            RangePhase::Done => false,
        },
        UploadPhase::Done => false,
    }
}

/// An upload ends well only when all of its body has come and is within the
/// limit.
proof fn lemma_success_is_whole(
    world: World,
    state: (UploadView, UploadStepView),
    total: int,
    fuel: nat,
)
    requires
        accounts(world, state, total),
        run_upload(world, state, fuel) matches Some(end) && end.1 is Ok,
    ensures
        world.broken is None,
        total <= state.0.limit,
    decreases fuel,
{
    match state.1 {
        Step::Perform(action) => {
            let (after, event) = world.perform(action);
            let next = upload::upload_next(state.0, event);
            if world.chunks.len() > 0 {
                lemma_flatten_first(world.chunks);
            }
            if world.faults.len() > 0 {
                if let Some(e) = world.faults[0] {
                    lemma_fault_ends(state.0, action, e);
                    assert(run_upload(
                        after,
                        upload::upload_next(state.0, event),
                        (fuel - 1) as nat,
                    ) matches Some(end) && end.1 is Err);
                }
            }
            assert(next.0.limit == state.0.limit);
            assert(accounts(after, next, total) || next.1 is Finish && next.1->Finish_0 is Err);
            lemma_success_is_whole(after, next, total, (fuel - 1) as nat);
        },
        Step::Finish(_) => {
            assert(world.chunks.flatten() =~= seq![]);
        },
    }
}

/// Whatever goes wrong with the store or the body, an upload is answered with
/// success only if all of its body came, within the limit, and the store is as
/// its outcome says.
pub proof fn law_success_is_earned(
    store: Store,
    now: Timestamp,
    bucket: Seq<char>,
    filename: Seq<char>,
    kind: UploadKind<Seq<char>>,
    limit: int,
    chunks: Seq<Seq<u8>>,
    broken: Option<Seq<char>>,
    faults: Seq<Option<Seq<char>>>,
    fuel: nat,
)
    requires
        0 <= limit <= 1_000_000 * u64::MAX,
        sizes_fit(store, chunks),
    ensures
        run_upload(
            arrival(store, now, chunks, broken, faults),
            accepted(filename, bucket, kind, limit),
            fuel,
        ) matches Some(end) ==> end.1 is Ok ==> {
            &&& broken is None
            &&& chunks.flatten().len() <= limit
            &&& (end.1, end.0.store) == upload_outcome(
                store,
                now,
                bucket,
                filename,
                kind,
                chunks.flatten(),
            )
        },
{
    let world = arrival(store, now, chunks, broken, faults);
    let start = accepted(filename, bucket, kind, limit);
    if let Some(end) = run_upload(world, start, fuel) {
        if end.1 is Ok {
            lemma_success_is_whole(world, start, chunks.flatten().len() as int, fuel);
            lemma_success_without_faults(world, start, fuel);
            let spared = arrival(store, now, chunks, None, seq![]);
            assert(spared == World { faults: seq![], ..world });
            let enough = fuel + 2 * chunks.len() + 8;
            lemma_more_fuel(spared, start, fuel, enough);
            law_upload_has_its_outcome(
                store,
                now,
                bucket,
                filename,
                kind,
                limit,
                chunks,
                enough,
            );
        }
    }
}

/// Nothing of the upload's data is in the store: it is as it was, but for the
/// file that a `PUT` has just created and that is still empty.
pub open spec fn nothing_written(before: Store, now: Timestamp, up: UploadView, after: Store) -> bool {
    ||| after == before
    ||| match up.kind {
        UploadKind::Write { content_type } => {
            &&& before.contains_key(up.bucket_name)
            &&& !has_file(before, up.bucket_name, up.filename)
            &&& after == with_file(
                before,
                up.bucket_name,
                up.filename,
                StoredFile { data: seq![], content_type, modified: now },
            )
        },
        UploadKind::Append { .. } => false,
    }
}

/// What holds of the store while an upload is not committed.
pub open spec fn not_committed(
    before: Store,
    world: World,
    state: (UploadView, UploadStepView),
) -> bool {
    let up = state.0;
    match state.1 {
        Step::Finish(Ok(_)) => true,
        Step::Finish(Err(_)) => nothing_written(before, world.now, up, world.store),
        Step::Perform(action) => awaits_outcome_of(up.phase, action) && match up.phase {
            UploadPhase::OpeningBucket => world.store == before && action == Action::<
                Seq<char>,
                Seq<u8>,
            >::OpenBucket(up.bucket_name),
            UploadPhase::Creating => {
                &&& world.store == before
                &&& world.bucket == up.bucket_name
                &&& before.contains_key(up.bucket_name)
                &&& up.kind matches UploadKind::Write { content_type }
                &&& action == Action::<Seq<char>, Seq<u8>>::CreateFile {
                    filename: up.filename,
                    content_type,
                }
            },
            UploadPhase::Receiving | UploadPhase::Appending
            | UploadPhase::Committing => nothing_written(before, world.now, up, world.store),
            _ => world.store == before,
        },
    }
}

proof fn lemma_error_writes_nothing(
    before: Store,
    world: World,
    state: (UploadView, UploadStepView),
    fuel: nat,
)
    requires
        not_committed(before, world, state),
    ensures
        run_upload(world, state, fuel) matches Some(end) ==> end.1 is Err ==> nothing_written(
            before,
            world.now,
            state.0,
            end.0.store,
        ),
    decreases fuel,
{
    if let Step::Perform(action) = state.1 {
        if fuel > 0 {
            let (after, event) = world.perform(action);
            let next = upload::upload_next(state.0, event);
            if world.faults.len() > 0 {
                if let Some(e) = world.faults[0] {
                    lemma_fault_ends(state.0, action, e);
                }
            }
            assert(next.0.kind == state.0.kind);
            assert(next.0.bucket_name == state.0.bucket_name);
            assert(next.0.filename == state.0.filename);
            assert(after.now == world.now);
            assert(not_committed(before, after, next));
            lemma_error_writes_nothing(before, after, next, (fuel - 1) as nat);
        }
    }
}

/// Whatever goes wrong with the store or the body, an upload that is answered
/// with an error has written none of its data: the store is as it was, but for
/// an empty file that a `PUT` may have created.
pub proof fn law_failed_upload_writes_nothing(
    store: Store,
    now: Timestamp,
    bucket: Seq<char>,
    filename: Seq<char>,
    kind: UploadKind<Seq<char>>,
    limit: int,
    chunks: Seq<Seq<u8>>,
    broken: Option<Seq<char>>,
    faults: Seq<Option<Seq<char>>>,
    fuel: nat,
)
    ensures
        run_upload(
            arrival(store, now, chunks, broken, faults),
            accepted(filename, bucket, kind, limit),
            fuel,
        ) matches Some(end) ==> end.1 is Err ==> nothing_written(
            store,
            now,
            accepted(filename, bucket, kind, limit).0,
            end.0.store,
        ),
{
    lemma_error_writes_nothing(
        store,
        arrival(store, now, chunks, broken, faults),
        accepted(filename, bucket, kind, limit),
        fuel,
    );
}

/// How many more actions an upload can take.
pub open spec fn actions_left(phase: UploadPhase<Seq<u8>>, chunks: nat) -> nat {
    match phase {
        UploadPhase::OpeningBucket => 2 * chunks + 7,
        UploadPhase::Creating => 2 * chunks + 6,
        UploadPhase::Opening => 2 * chunks + 6,
        UploadPhase::Reopening => 2 * chunks + 5,
        UploadPhase::Sizing => 2 * chunks + 5,
        UploadPhase::Appending => 2 * chunks + 3,
        UploadPhase::Receiving => 2 * chunks + 2,
        UploadPhase::Committing => 1,
        UploadPhase::Checking(check) => match check.phase {
            RangePhase::Seeking => 2 * chunks + 4,
            RangePhase::Comparing(_) => 2 * chunks + 3,
            RangePhase::Receiving => 2 * chunks + 2,
            RangePhase::Ending => 1,
            RangePhase::Done => 0,
        },
        UploadPhase::Done => 0,
    }
}

proof fn lemma_upload_ends(world: World, state: (UploadView, UploadStepView), fuel: nat)
    requires
        state.1 matches Step::Perform(action) ==> awaits_outcome_of(state.0.phase, action),
        fuel >= actions_left(state.0.phase, world.chunks.len()),
    ensures
        run_upload(world, state, fuel) is Some,
    decreases fuel,
{
    if let Step::Perform(action) = state.1 {
        let (after, event) = world.perform(action);
        let next = upload::upload_next(state.0, event);
        if world.faults.len() > 0 {
            if let Some(e) = world.faults[0] {
                lemma_fault_ends(state.0, action, e);
            }
        }
        lemma_upload_ends(after, next, (fuel - 1) as nat);
    }
}

/// Whatever goes wrong, an upload is answered after at most two actions for
/// each chunk of its body and seven more.
pub proof fn law_upload_ends(
    store: Store,
    now: Timestamp,
    bucket: Seq<char>,
    filename: Seq<char>,
    kind: UploadKind<Seq<char>>,
    limit: int,
    chunks: Seq<Seq<u8>>,
    broken: Option<Seq<char>>,
    faults: Seq<Option<Seq<char>>>,
)
    ensures
        run_upload(
            arrival(store, now, chunks, broken, faults),
            accepted(filename, bucket, kind, limit),
            2 * chunks.len() + 7,
        ) is Some,
{
    lemma_upload_ends(
        arrival(store, now, chunks, broken, faults),
        accepted(filename, bucket, kind, limit),
        2 * chunks.len() + 7,
    );
}

/// Whatever goes wrong and however it is answered, an upload changes no file
/// but its own.
pub proof fn law_upload_touches_only_its_file(
    store: Store,
    now: Timestamp,
    bucket: Seq<char>,
    filename: Seq<char>,
    kind: UploadKind<Seq<char>>,
    limit: int,
    chunks: Seq<Seq<u8>>,
    broken: Option<Seq<char>>,
    faults: Seq<Option<Seq<char>>>,
    fuel: nat,
    other_bucket: Seq<char>,
    other_file: Seq<char>,
)
    requires
        0 <= limit <= 1_000_000 * u64::MAX,
        sizes_fit(store, chunks),
        (other_bucket, other_file) != (bucket, filename),
    ensures
        run_upload(
            arrival(store, now, chunks, broken, faults),
            accepted(filename, bucket, kind, limit),
            fuel,
        ) matches Some(end) ==> {
            &&& end.0.store.contains_key(other_bucket) == store.contains_key(other_bucket)
            &&& has_file(end.0.store, other_bucket, other_file) == has_file(
                store,
                other_bucket,
                other_file,
            )
            &&& has_file(store, other_bucket, other_file)
                ==> end.0.store[other_bucket][other_file] == store[other_bucket][other_file]
        },
{
    law_success_is_earned(
        store,
        now,
        bucket,
        filename,
        kind,
        limit,
        chunks,
        broken,
        faults,
        fuel,
    );
    law_failed_upload_writes_nothing(
        store,
        now,
        bucket,
        filename,
        kind,
        limit,
        chunks,
        broken,
        faults,
        fuel,
    );
}

/// A `PUT` request.
pub struct PutRequest {
    pub filename: Seq<char>,
    pub bucket: Seq<char>,
    /// Its Content-Type, if it has one.
    pub header: Option<Seq<char>>,
    /// The length that it announces, if it does.
    pub content_length: Option<u64>,
    pub chunks: Seq<Seq<u8>>,
}

/// A `POST` request.
pub struct PostRequest {
    pub filename: Seq<char>,
    pub bucket: Seq<char>,
    pub write_offset: u64,
    /// The length that it announces, if it does.
    pub content_length: Option<u64>,
    pub chunks: Seq<Seq<u8>>,
}

/// The answer to a `PUT` with which nothing goes wrong, and the store after it.
pub open spec fn put(store: Store, now: Timestamp, config: AppConfigView, request: PutRequest) -> (
    Result<Success, ApiError<Seq<char>>>,
    Store,
) {
    let end = run_upload(
        arrival(store, now, request.chunks, None, seq![]),
        upload::put_start(
            request.filename,
            request.bucket,
            request.header,
            request.content_length,
            config,
        ),
        2 * request.chunks.len() + 8,
    )->0;
    (end.1, end.0.store)
}

/// The answer to a `POST` with which nothing goes wrong, and the store after
/// it.
pub open spec fn post(
    store: Store,
    now: Timestamp,
    config: AppConfigView,
    request: PostRequest,
) -> (Result<Success, ApiError<Seq<char>>>, Store) {
    let end = run_upload(
        arrival(store, now, request.chunks, None, seq![]),
        upload::post_start(
            request.filename,
            request.bucket,
            request.write_offset,
            request.content_length,
            config,
        ),
        2 * request.chunks.len() + 8,
    )->0;
    (end.1, end.0.store)
}

/// The answer to a `GET` with which nothing goes wrong: the file's head, and
/// all that can be read from the file then.
pub open spec fn get(store: Store, bucket: Seq<char>, filename: Seq<char>, now: Timestamp) -> (
    Result<FileHead<Seq<char>>, ApiError<Seq<char>>>,
    Seq<u8>,
) {
    let end = run_explore(
        arrival(store, now, seq![], None, seq![]),
        explore::explore_start(bucket, filename),
        6,
    )->0;
    (end.1, range::bytes_from(end.0.handle.data, end.0.handle.position))
}

/// The HTTP status of an answer to an upload.
pub open spec fn answer_status(answer: Result<Success, ApiError<Seq<char>>>) -> u16 {
    match answer {
        Ok(success) => success.http_status(),
        Err(e) => e.http_status(),
    }
}

/// The request does not rule itself out, its body is within the limit, and
/// lengths are such as a machine can hold.
pub open spec fn put_acceptable(store: Store, config: AppConfigView, request: PutRequest) -> bool {
    &&& request.content_length matches Some(length) ==> length <= config.max_upload_size_mb
        * 1_000_000
    &&& match request.header {
        Some(content_type) => config.allowed_content_types.contains(content_type),
        None => config.allowed_content_types.contains("text/plain"@),
    }
    &&& request.chunks.flatten().len() <= config.max_upload_size_mb * 1_000_000
    &&& sizes_fit(store, request.chunks)
}

/// The same of a `POST`.
pub open spec fn post_acceptable(
    store: Store,
    config: AppConfigView,
    request: PostRequest,
) -> bool {
    &&& request.content_length matches Some(length) ==> length <= config.max_upload_size_mb
        * 1_000_000
    &&& request.chunks.flatten().len() <= config.max_upload_size_mb * 1_000_000
    &&& sizes_fit(store, request.chunks)
}

/// `PUT` creates a file in the bucket with the given name and returns 201. If
/// the file already exists with the provided content, 200 is returned, and if
/// the content is not matching, 409; either way nothing changes.
pub proof fn law_put(store: Store, now: Timestamp, config: AppConfigView, request: PutRequest)
    requires
        put_acceptable(store, config, request),
    ensures
        put(store, now, config, request) == put_outcome(
            store,
            now,
            request.bucket,
            request.filename,
            upload::upload_content_type(request.header),
            request.chunks.flatten(),
        ),
        ({
            let status = answer_status(put(store, now, config, request).0);
            if !store.contains_key(request.bucket) {
                status == 404
            } else if !has_file(store, request.bucket, request.filename) {
                status == 201
            } else if store[request.bucket][request.filename].data == request.chunks.flatten() {
                status == 200
            } else {
                status == 409
            }
        }),
        put(store, now, config, request).1 == if store.contains_key(request.bucket)
            && !store[request.bucket].contains_key(request.filename) {
            store.insert(
                request.bucket,
                store[request.bucket].insert(
                    request.filename,
                    StoredFile {
                        data: request.chunks.flatten(),
                        content_type: match request.header {
                            Some(content_type) => content_type,
                            None => "text/plain"@,
                        },
                        modified: now,
                    },
                ),
            )
        } else {
            store
        },
{
    law_upload_has_its_outcome(
        store,
        now,
        request.bucket,
        request.filename,
        UploadKind::Write { content_type: upload::upload_content_type(request.header) },
        config.max_upload_bytes(),
        request.chunks,
        2 * request.chunks.len() + 8,
    );
}

/// A `PUT` that announces more than may be uploaded, or whose Content-Type is
/// not permitted, is a bad request.
pub proof fn law_put_refused(
    store: Store,
    now: Timestamp,
    config: AppConfigView,
    request: PutRequest,
)
    requires
        (request.content_length matches Some(length) && length > config.max_upload_size_mb
            * 1_000_000) || match request.header {
            Some(content_type) => !config.allowed_content_types.contains(content_type),
            None => !config.allowed_content_types.contains("text/plain"@),
        },
    ensures
        answer_status(put(store, now, config, request).0) == 400,
        put(store, now, config, request).1 == store,
{
}

/// Repeating a `PUT` that went well returns 200 and changes nothing, even if
/// the body comes in other chunks.
pub proof fn law_put_is_idempotent(
    store: Store,
    now: Timestamp,
    later: Timestamp,
    config: AppConfigView,
    request: PutRequest,
    again: PutRequest,
)
    requires
        put_acceptable(store, config, request),
        put(store, now, config, request).0 is Ok,
        put_acceptable(put(store, now, config, request).1, config, again),
        again.bucket == request.bucket,
        again.filename == request.filename,
        again.chunks.flatten() == request.chunks.flatten(),
    ensures
        put(put(store, now, config, request).1, later, config, again) == (
            Ok::<Success, ApiError<Seq<char>>>(Success::Okay),
            put(store, now, config, request).1,
        ),
        answer_status(put(put(store, now, config, request).1, later, config, again).0) == 200,
{
    law_put(store, now, config, request);
    law_put(put(store, now, config, request).1, later, config, again);
}

/// `POST` appends to the file if the given position is at its end or past it.
/// If the position is before the end and the file holds the data there, 200 is
/// returned; if it does not, 409. Either way nothing changes.
pub proof fn law_append(store: Store, now: Timestamp, config: AppConfigView, request: PostRequest)
    requires
        post_acceptable(store, config, request),
    ensures
        post(store, now, config, request) == append_outcome(
            store,
            now,
            request.bucket,
            request.filename,
            request.write_offset,
            request.chunks.flatten(),
        ),
        ({
            let status = answer_status(post(store, now, config, request).0);
            let data = store[request.bucket][request.filename].data;
            if !has_file(store, request.bucket, request.filename) {
                status == 404
            } else if request.write_offset >= data.len() {
                status == 200
            } else if request.chunks.flatten().is_prefix_of(
                data.skip(request.write_offset as int),
            ) {
                status == 200
            } else {
                status == 409
            }
        }),
        ({
            let after = post(store, now, config, request).1;
            let file = store[request.bucket][request.filename];
            if has_file(store, request.bucket, request.filename) && request.write_offset
                >= file.data.len() {
                after == store.insert(
                    request.bucket,
                    store[request.bucket].insert(
                        request.filename,
                        StoredFile {
                            data: file.data + request.chunks.flatten(),
                            content_type: file.content_type,
                            modified: if request.chunks.flatten().len() == 0 {
                                file.modified
                            } else {
                                now
                            },
                        },
                    ),
                )
            } else {
                after == store
            }
        }),
{
    if request.chunks.flatten().len() > 0 {
        let data = store[request.bucket][request.filename].data;
        assert((data + request.chunks.flatten()).len() > data.len());
    } else {
        let data = store[request.bucket][request.filename].data;
        assert(data + request.chunks.flatten() =~= data);
    }
    law_upload_has_its_outcome(
        store,
        now,
        request.bucket,
        request.filename,
        UploadKind::Append { write_offset: request.write_offset },
        config.max_upload_bytes(),
        request.chunks,
        2 * request.chunks.len() + 8,
    );
}

/// A `POST` that announces more than may be uploaded is a bad request.
pub proof fn law_append_refused(
    store: Store,
    now: Timestamp,
    config: AppConfigView,
    request: PostRequest,
)
    requires
        request.content_length matches Some(length) && length > config.max_upload_size_mb
            * 1_000_000,
    ensures
        answer_status(post(store, now, config, request).0) == 400,
        post(store, now, config, request).1 == store,
{
}

/// Repeating a `POST` that went well at a position up to the end of the file
/// returns 200 and changes nothing, even if the body comes in other chunks.
pub proof fn law_append_is_idempotent(
    store: Store,
    now: Timestamp,
    later: Timestamp,
    config: AppConfigView,
    request: PostRequest,
    again: PostRequest,
)
    requires
        post_acceptable(store, config, request),
        post(store, now, config, request).0 is Ok,
        request.write_offset <= store[request.bucket][request.filename].data.len(),
        post_acceptable(post(store, now, config, request).1, config, again),
        again.bucket == request.bucket,
        again.filename == request.filename,
        again.write_offset == request.write_offset,
        again.chunks.flatten() == request.chunks.flatten(),
    ensures
        post(post(store, now, config, request).1, later, config, again) == (
            Ok::<Success, ApiError<Seq<char>>>(Success::Okay),
            post(store, now, config, request).1,
        ),
        answer_status(post(post(store, now, config, request).1, later, config, again).0) == 200,
{
    law_append(store, now, config, request);
    let after = post(store, now, config, request).1;
    law_append(after, later, config, again);
    let body = request.chunks.flatten();
    let before = store[request.bucket][request.filename];
    let file = after[request.bucket][request.filename];
    if request.write_offset == before.data.len() {
        assert(file.data == before.data + body);
        if body.len() > 0 {
            assert(file.data.skip(request.write_offset as int) =~= body);
            assert(body.is_prefix_of(file.data.skip(request.write_offset as int)));
        } else {
            assert(file.data + body =~= file.data);
            assert(changed(file, file.data + body, later) == file);
            assert(after[request.bucket].insert(request.filename, file)
                =~= after[request.bucket]);
            assert(with_file(after, request.bucket, request.filename, file) =~= after);
        }
    }
}

/// Receiving more than may be uploaded ends the upload.
proof fn lemma_receive_too_much(world: World, up: UploadView, fuel: nat)
    requires
        world.faults.len() == 0,
        up.phase == UploadPhase::<Seq<u8>>::Receiving,
        up.wf(),
        up.received + world.chunks.flatten().len() > up.limit,
        fuel >= 2 * world.chunks.len(),
    ensures
        run_upload(world, (up, Step::Perform(Action::NextChunk)), fuel) matches Some(end)
            && end.1 == Err::<Success, ApiError<Seq<char>>>(ApiError::UploadTooLarge),
    decreases world.chunks.len(),
{
    let state: (UploadView, UploadStepView) = (up, Step::Perform(Action::NextChunk));
    if world.chunks.len() == 0 {
        assert(world.chunks.flatten() =~= seq![]);
    } else {
        lemma_flatten_first(world.chunks);
        let chunk = world.chunks[0];
        let (taken, got) = world.perform(Action::NextChunk);
        let next = upload::upload_next(up, got);
        assert(run_upload(world, state, fuel) == run_upload(taken, next, (fuel - 1) as nat));
        if up.received + chunk.len() <= up.limit {
            let (appended, written) = taken.perform(Action::Append(chunk));
            let again = upload::upload_next(next.0, written);
            assert(run_upload(taken, next, (fuel - 1) as nat) == run_upload(
                appended,
                again,
                (fuel - 2) as nat,
            ));
            lemma_receive_too_much(appended, again.0, (fuel - 2) as nat);
        }
    }
}

/// An answer that refuses an upload: it is too large or conflicts with the file.
pub open spec fn is_refusal(answer: Result<Success, ApiError<Seq<char>>>) -> bool {
    answer == Err::<Success, ApiError<Seq<char>>>(ApiError::UploadTooLarge) || answer == Err::<
        Success,
        ApiError<Seq<char>>,
    >(ApiError::FileExistsWithConflictingContent)
}

/// Comparing more than may be uploaded ends the upload, if not before that with
/// a conflict.
proof fn lemma_check_too_much(world: World, up: UploadView, to_end: bool, fuel: nat)
    requires
        world.faults.len() == 0,
        world.handle.position >= 0,
        up.phase == UploadPhase::Checking(
            RangeCheck::<Seq<u8>> { to_end, phase: RangePhase::Receiving },
        ),
        up.wf(),
        up.received + world.chunks.flatten().len() > up.limit,
        forall|i: int| 0 <= i < world.chunks.len() ==> (#[trigger] world.chunks[i]).len()
            <= usize::MAX,
        fuel >= 2 * world.chunks.len(),
    ensures
        run_upload(world, (up, Step::Perform(Action::NextChunk)), fuel) matches Some(end)
            && is_refusal(end.1),
    decreases world.chunks.len(),
{
    let state: (UploadView, UploadStepView) = (up, Step::Perform(Action::NextChunk));
    if world.chunks.len() == 0 {
        assert(world.chunks.flatten() =~= seq![]);
    } else {
        lemma_flatten_first(world.chunks);
        let chunk = world.chunks[0];
        let n = chunk.len() as usize;
        let rest = range::bytes_from(world.handle.data, world.handle.position);
        let (taken, got) = world.perform(Action::NextChunk);
        let next = upload::upload_next(up, got);
        assert(run_upload(world, state, fuel) == run_upload(taken, next, (fuel - 1) as nat));
        if up.received + chunk.len() <= up.limit {
            assert(next.1 == UploadStepView::Perform(Action::ReadExact(n)));
            let (after, event) = taken.perform(Action::ReadExact(n));
            let again = upload::upload_next(next.0, event);
            assert(run_upload(taken, next, (fuel - 1) as nat) == run_upload(
                after,
                again,
                (fuel - 2) as nat,
            ));
            if n <= rest.len() && rest.take(n as int) == chunk {
                assert forall|i: int| 0 <= i < after.chunks.len() implies (
                #[trigger] after.chunks[i]).len() <= usize::MAX by {
                    assert(after.chunks[i] == world.chunks[i + 1]);
                }
                lemma_check_too_much(after, again.0, to_end, (fuel - 2) as nat);
            }
        }
    }
}

/// The data of the upload is to be written, not to be compared with what is
/// there: the file is new, or the position is not before its end.
pub open spec fn is_to_write(
    store: Store,
    bucket: Seq<char>,
    filename: Seq<char>,
    kind: UploadKind<Seq<char>>,
) -> bool {
    match kind {
        UploadKind::Write { .. } => !has_file(store, bucket, filename),
        UploadKind::Append { write_offset } => write_offset
            >= store[bucket][filename].data.len(),
    }
}

/// An upload over the limit is refused, even if its length was not announced,
/// and none of its data is written. Data that is to be written is a bad request;
/// data that is to be compared can be a conflict before that.
pub proof fn law_oversized_body_is_refused(
    store: Store,
    now: Timestamp,
    bucket: Seq<char>,
    filename: Seq<char>,
    kind: UploadKind<Seq<char>>,
    limit: int,
    chunks: Seq<Seq<u8>>,
    broken: Option<Seq<char>>,
)
    requires
        0 <= limit < chunks.flatten().len(),
        limit <= 1_000_000 * u64::MAX,
        sizes_fit(store, chunks),
        store.contains_key(bucket),
        kind is Append ==> has_file(store, bucket, filename),
    ensures
        run_upload(
            arrival(store, now, chunks, broken, seq![]),
            accepted(filename, bucket, kind, limit),
            2 * chunks.len() + 8,
        ) matches Some(end) && {
            &&& is_refusal(end.1)
            &&& answer_status(end.1) == 400 || answer_status(end.1) == 409
            &&& is_to_write(store, bucket, filename, kind) ==> answer_status(end.1) == 400
            &&& nothing_written(
                store,
                now,
                accepted(filename, bucket, kind, limit).0,
                end.0.store,
            )
            &&& !is_to_write(store, bucket, filename, kind) ==> end.0.store == store
        },
{
    let world = arrival(store, now, chunks, broken, seq![]);
    let start = accepted(filename, bucket, kind, limit);
    let fuel = 2 * chunks.len() + 8;
    law_failed_upload_writes_nothing(
        store,
        now,
        bucket,
        filename,
        kind,
        limit,
        chunks,
        broken,
        seq![],
        fuel,
    );
    let (w1, e1) = world.perform(Action::OpenBucket(bucket));
    let s1 = upload::upload_next(start.0, e1);
    assert(run_upload(world, start, fuel) == run_upload(w1, s1, (fuel - 1) as nat));
    match kind {
        UploadKind::Write { content_type } => {
            let (w2, e2) = w1.perform(Action::CreateFile { filename, content_type });
            let s2 = upload::upload_next(s1.0, e2);
            assert(run_upload(w1, s1, (fuel - 1) as nat) == run_upload(w2, s2, (fuel - 2) as nat));
            if has_file(store, bucket, filename) {
                let (w3, e3) = w2.perform(Action::OpenFile(filename));
                let s3 = upload::upload_next(s2.0, e3);
                assert(run_upload(w2, s2, (fuel - 2) as nat) == run_upload(
                    w3,
                    s3,
                    (fuel - 3) as nat,
                ));
                let (w4, e4) = w3.perform(Action::Seek(SeekFrom::Start(0)));
                let s4 = upload::upload_next(s3.0, e4);
                assert(run_upload(w3, s3, (fuel - 3) as nat) == run_upload(
                    w4,
                    s4,
                    (fuel - 4) as nat,
                ));
                lemma_check_too_much(w4, s4.0, true, (fuel - 4) as nat);
            } else {
                lemma_receive_too_much(w2, s2.0, (fuel - 2) as nat);
            }
        },
        UploadKind::Append { write_offset } => {
            let (w2, e2) = w1.perform(Action::OpenFile(filename));
            let s2 = upload::upload_next(s1.0, e2);
            assert(run_upload(w1, s1, (fuel - 1) as nat) == run_upload(w2, s2, (fuel - 2) as nat));
            let (w3, e3) = w2.perform(Action::Seek(SeekFrom::End(0)));
            let s3 = upload::upload_next(s2.0, e3);
            assert(run_upload(w2, s2, (fuel - 2) as nat) == run_upload(w3, s3, (fuel - 3) as nat));
            if write_offset < store[bucket][filename].data.len() {
                let (w4, e4) = w3.perform(Action::Seek(SeekFrom::Start(write_offset)));
                let s4 = upload::upload_next(s3.0, e4);
                assert(run_upload(w3, s3, (fuel - 3) as nat) == run_upload(
                    w4,
                    s4,
                    (fuel - 4) as nat,
                ));
                lemma_check_too_much(w4, s4.0, false, (fuel - 4) as nat);
            } else {
                lemma_receive_too_much(w3, s3.0, (fuel - 3) as nat);
            }
        },
    }
}

/// A request that announces as much as it sends, which is no more than may be
/// uploaded, is answered as one that announces nothing: the length that is
/// announced makes no difference but to a request that is too large.
pub proof fn law_announced_length_makes_no_difference(
    store: Store,
    now: Timestamp,
    config: AppConfigView,
    put_request: PutRequest,
    post_request: PostRequest,
    length: u64,
)
    requires
        length <= config.max_upload_size_mb * 1_000_000,
        put_acceptable(
            store,
            config,
            PutRequest { content_length: None, ..put_request },
        ),
        post_acceptable(
            store,
            config,
            PostRequest { content_length: None, ..post_request },
        ),
    ensures
        put(store, now, config, PutRequest { content_length: Some(length), ..put_request }) == put(
            store,
            now,
            config,
            PutRequest { content_length: None, ..put_request },
        ),
        post(store, now, config, PostRequest { content_length: Some(length), ..post_request })
            == post(
            store,
            now,
            config,
            PostRequest { content_length: None, ..post_request },
        ),
        length == put_request.chunks.flatten().len() && store.contains_key(put_request.bucket)
            && !has_file(store, put_request.bucket, put_request.filename) ==> answer_status(
            put(
                store,
                now,
                config,
                PutRequest { content_length: Some(length), ..put_request },
            ).0,
        ) == 201,
        length == post_request.chunks.flatten().len() && has_file(
            store,
            post_request.bucket,
            post_request.filename,
        ) && post_request.write_offset >= store[post_request.bucket][post_request.filename].data.len()
            ==> answer_status(
            post(
                store,
                now,
                config,
                PostRequest { content_length: Some(length), ..post_request },
            ).0,
        ) == 200,
{
    law_put(store, now, config, PutRequest { content_length: None, ..put_request });
    law_put(store, now, config, PutRequest { content_length: Some(length), ..put_request });
    law_append(store, now, config, PostRequest { content_length: None, ..post_request });
    law_append(
        store,
        now,
        config,
        PostRequest { content_length: Some(length), ..post_request },
    );
}

/// A `PUT` whose body is larger than the configured number of megabytes is
/// refused, though it announces less or nothing, and none of it becomes a file's
/// data: a file that was there stays as it was. If there is no such file, it is
/// a bad request.
pub proof fn law_put_over_the_limit(
    store: Store,
    now: Timestamp,
    config: AppConfigView,
    request: PutRequest,
)
    requires
        request.content_length matches Some(length) ==> length <= config.max_upload_size_mb
            * 1_000_000,
        match request.header {
            Some(content_type) => config.allowed_content_types.contains(content_type),
            None => config.allowed_content_types.contains("text/plain"@),
        },
        request.chunks.flatten().len() > config.max_upload_size_mb * 1_000_000,
        sizes_fit(store, request.chunks),
        store.contains_key(request.bucket),
    ensures
        ({
            let (answer, after) = put(store, now, config, request);
            &&& answer is Err
            &&& answer_status(answer) == 400 || answer_status(answer) == 409
            &&& if has_file(store, request.bucket, request.filename) {
                after == store
            } else {
                &&& answer_status(answer) == 400
                &&& forall|bucket: Seq<char>, filename: Seq<char>|
                    has_file(after, bucket, filename) && (bucket, filename) != (
                        request.bucket,
                        request.filename,
                    ) ==> has_file(store, bucket, filename) && #[trigger] after[bucket][filename]
                        == store[bucket][filename]
                &&& has_file(after, request.bucket, request.filename)
                    ==> after[request.bucket][request.filename].data.len() == 0
            }
        }),
{
    law_oversized_body_is_refused(
        store,
        now,
        request.bucket,
        request.filename,
        UploadKind::Write { content_type: upload::upload_content_type(request.header) },
        config.max_upload_bytes(),
        request.chunks,
        None,
    );
}

/// A `POST` whose body is larger than the configured number of megabytes is
/// refused, though it announces less or nothing, and changes nothing. If its
/// data was to be appended, it is a bad request.
pub proof fn law_append_over_the_limit(
    store: Store,
    now: Timestamp,
    config: AppConfigView,
    request: PostRequest,
)
    requires
        request.content_length matches Some(length) ==> length <= config.max_upload_size_mb
            * 1_000_000,
        request.chunks.flatten().len() > config.max_upload_size_mb * 1_000_000,
        sizes_fit(store, request.chunks),
        has_file(store, request.bucket, request.filename),
    ensures
        ({
            let (answer, after) = post(store, now, config, request);
            &&& answer is Err
            &&& answer_status(answer) == 400 || answer_status(answer) == 409
            &&& request.write_offset >= store[request.bucket][request.filename].data.len()
                ==> answer_status(answer) == 400
            &&& after == store
        }),
{
    law_oversized_body_is_refused(
        store,
        now,
        request.bucket,
        request.filename,
        UploadKind::Append { write_offset: request.write_offset },
        config.max_upload_bytes(),
        request.chunks,
        None,
    );
}

proof fn lemma_explore_keeps_the_store(
    world: World,
    state: (Explore<Seq<char>>, ExploreStepView),
    fuel: nat,
)
    requires
        state.1 matches Step::Perform(action) ==> (action is OpenBucket || action is OpenFile
            || action is Seek || action is Metadata),
    ensures
        run_explore(world, state, fuel) matches Some(end) ==> end.0.store == world.store,
    decreases fuel,
{
    if let Step::Perform(action) = state.1 {
        if fuel > 0 {
            let (after, event) = world.perform(action);
            lemma_explore_keeps_the_store(
                after,
                explore::explore_next(state.0, event),
                (fuel - 1) as nat,
            );
        }
    }
}

/// Whatever goes wrong, asking for a file changes nothing.
pub proof fn law_get_changes_nothing(
    store: Store,
    now: Timestamp,
    bucket: Seq<char>,
    filename: Seq<char>,
    faults: Seq<Option<Seq<char>>>,
    fuel: nat,
)
    ensures
        run_explore(
            arrival(store, now, seq![], None, faults),
            explore::explore_start(bucket, filename),
            fuel,
        ) matches Some(end) ==> end.0.store == store,
{
    lemma_explore_keeps_the_store(
        arrival(store, now, seq![], None, faults),
        explore::explore_start(bucket, filename),
        fuel,
    );
}

/// The head of a stored file.
pub open spec fn head_of(file: StoredFile) -> FileHead<Seq<char>> {
    FileHead {
        length: file.data.len() as u64,
        metadata: FileMetadata {
            last_modified_at: file.modified,
            content_type: file.content_type,
        },
    }
}

/// `GET` shows the file: its length, its Content-Type and time of modification,
/// and then its content. A missing bucket or file is not found.
pub proof fn law_get(store: Store, bucket: Seq<char>, filename: Seq<char>, now: Timestamp)
    requires
        sizes_fit(store, seq![]),
    ensures
        ({
            let (answer, content) = get(store, bucket, filename, now);
            if !store.contains_key(bucket) {
                answer == Err::<FileHead<Seq<char>>, ApiError<Seq<char>>>(
                    ApiError::BucketDoesNotExist(bucket),
                )
            } else if !has_file(store, bucket, filename) {
                answer == Err::<FileHead<Seq<char>>, ApiError<Seq<char>>>(
                    ApiError::FileDoesNotExist(filename),
                )
            } else {
                &&& answer == Ok::<FileHead<Seq<char>>, ApiError<Seq<char>>>(
                    head_of(store[bucket][filename]),
                )
                &&& content == store[bucket][filename].data
            }
        }),
{
    let w0 = arrival(store, now, seq![], None, seq![]);
    let s0 = explore::explore_start(bucket, filename);
    let (w1, e1) = w0.perform(Action::OpenBucket(bucket));
    let s1 = explore::explore_next(s0.0, e1);
    assert(run_explore(w0, s0, 6) == run_explore(w1, s1, 5));
    if store.contains_key(bucket) {
        let (w2, e2) = w1.perform(Action::OpenFile(filename));
        let s2 = explore::explore_next(s1.0, e2);
        assert(run_explore(w1, s1, 5) == run_explore(w2, s2, 4));
        if has_file(store, bucket, filename) {
            let data = store[bucket][filename].data;
            let (w3, e3) = w2.perform(Action::Seek(SeekFrom::End(0)));
            let s3 = explore::explore_next(s2.0, e3);
            assert(run_explore(w2, s2, 4) == run_explore(w3, s3, 3));
            let (w4, e4) = w3.perform(Action::Seek(SeekFrom::Start(0)));
            let s4 = explore::explore_next(s3.0, e4);
            assert(run_explore(w3, s3, 3) == run_explore(w4, s4, 2));
            let (w5, e5) = w4.perform(Action::Metadata);
            let s5 = explore::explore_next(s4.0, e5);
            assert(run_explore(w4, s4, 2) == run_explore(w5, s5, 1));
            assert(run_explore(w5, s5, 1) == Some((w5, s5.1->Finish_0)));
            assert(range::bytes_from(data, 0) =~= data);
        }
    }
}

/// What was `PUT` with success is what `GET` shows, and if the file was created
/// then, with the Content-Type given on upload.
pub proof fn law_put_then_get(
    store: Store,
    now: Timestamp,
    later: Timestamp,
    config: AppConfigView,
    request: PutRequest,
)
    requires
        put_acceptable(store, config, request),
        put(store, now, config, request).0 is Ok,
        request.chunks.flatten().len() <= u64::MAX,
    ensures
        ({
            let (answer, content) = get(
                put(store, now, config, request).1,
                request.bucket,
                request.filename,
                later,
            );
            &&& content == request.chunks.flatten()
            &&& answer matches Ok(head)
            &&& head.length == content.len()
            &&& !has_file(store, request.bucket, request.filename) ==> head.metadata == (
            FileMetadata {
                last_modified_at: now,
                content_type: match request.header {
                    Some(content_type) => content_type,
                    None => "text/plain"@,
                },
            })
        }),
{
    law_put(store, now, config, request);
    let after = put(store, now, config, request).1;
    assert forall|b: Seq<char>, f: Seq<char>| has_file(after, b, f) implies (
    #[trigger] after[b][f]).data.len() <= u64::MAX by {
        if (b, f) != (request.bucket, request.filename) {
            assert(has_file(store, b, f));
            assert(store[b][f].data.len() <= u64::MAX);
        }
    }
    law_get(after, request.bucket, request.filename, later);
}

/// What was `POST`ed with success is in what `GET` shows, at the given position
/// or, if that was past the end, where the file ended. The rest of the file and
/// its Content-Type are as before.
pub proof fn law_append_then_get(
    store: Store,
    now: Timestamp,
    later: Timestamp,
    config: AppConfigView,
    request: PostRequest,
)
    requires
        post_acceptable(store, config, request),
        post(store, now, config, request).0 is Ok,
        (store[request.bucket][request.filename].data + request.chunks.flatten()).len()
            <= u64::MAX,
    ensures
        ({
            let before = store[request.bucket][request.filename];
            let body = request.chunks.flatten();
            let (answer, content) = get(
                post(store, now, config, request).1,
                request.bucket,
                request.filename,
                later,
            );
            &&& if request.write_offset >= before.data.len() {
                content == before.data + body
            } else {
                content == before.data && body.is_prefix_of(
                    content.skip(request.write_offset as int),
                )
            }
            &&& answer matches Ok(head)
            &&& head.length == content.len()
            &&& head.metadata.content_type == before.content_type
        }),
{
    law_append(store, now, config, request);
    let after = post(store, now, config, request).1;
    assert forall|b: Seq<char>, f: Seq<char>| has_file(after, b, f) implies (
    #[trigger] after[b][f]).data.len() <= u64::MAX by {
        if (b, f) != (request.bucket, request.filename) {
            assert(has_file(store, b, f));
            assert(store[b][f].data.len() <= u64::MAX);
        }
    }
    law_get(after, request.bucket, request.filename, later);
}

} // verus!
