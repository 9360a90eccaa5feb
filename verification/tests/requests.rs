//! Uploads and downloads, run against a store in memory.

use std::collections::{BTreeMap, VecDeque};

use locally_euclidean::config::AppConfig;
use locally_euclidean::errors::{ApiError, FileCreateError, FileOpenError, ServiceError};
use locally_euclidean::exchange::{Action, Event, FileMetadata, ReadReply, SeekFrom, Step};
use locally_euclidean::explore::{self, Explore, ExploreStep, FileHead};
use locally_euclidean::time::Timestamp;
use locally_euclidean::upload::{self, Success, Upload, UploadStep};

#[derive(Clone, Debug, PartialEq)]
struct MemFile {
    data: Vec<u8>,
    content_type: String,
    modified: Timestamp,
}

#[derive(Clone, Debug, PartialEq)]
struct MemStore {
    buckets: BTreeMap<String, BTreeMap<String, MemFile>>,
    now: i64,
}

/// One request on a store.
struct Session<'a> {
    store: &'a mut MemStore,
    bucket: String,
    filename: String,
    data: Vec<u8>,
    position: usize,
    body: VecDeque<Result<Vec<u8>, String>>,
    /// The action, counted from the first, that fails.
    fails_at: Option<usize>,
    count: usize,
}

impl MemStore {
    fn with_bucket(name: &str) -> MemStore {
        let mut buckets = BTreeMap::new();
        buckets.insert(name.to_owned(), BTreeMap::new());
        MemStore { buckets, now: 1_000 }
    }

    fn session(&mut self, body: Vec<Result<Vec<u8>, String>>) -> Session<'_> {
        Session {
            store: self,
            bucket: String::new(),
            filename: String::new(),
            data: Vec::new(),
            position: 0,
            body: body.into_iter().collect(),
            fails_at: None,
            count: 0,
        }
    }

    fn file(&self, bucket: &str, filename: &str) -> &MemFile {
        &self.buckets[bucket][filename]
    }
}

impl Session<'_> {
    fn files(&mut self) -> &mut BTreeMap<String, MemFile> {
        self.store.buckets.get_mut(&self.bucket).unwrap()
    }

    fn perform(&mut self, action: Action) -> Event {
        self.count += 1;
        if self.fails_at == Some(self.count) {
            let e = "out of luck".to_owned();
            return match action {
                Action::OpenBucket(_) => Event::Bucket(Err(FileOpenError::OtherError(e))),
                Action::CreateFile { .. } => Event::Created(Err(FileCreateError::OtherError(e))),
                Action::OpenFile(_) => Event::Opened(Err(FileOpenError::OtherError(e))),
                Action::Seek(_) => Event::Position(Err(e)),
                Action::NextChunk => Event::Chunk(Err(e)),
                Action::ReadExact(_) => Event::Read(ReadReply::Failed(e)),
                Action::Append(_) | Action::Commit => Event::Written(Err(e)),
                Action::Metadata => Event::Metadata(Err(e)),
            };
        }
        match action {
            Action::OpenBucket(name) => {
                if self.store.buckets.contains_key(&name) {
                    self.bucket = name;
                    Event::Bucket(Ok(()))
                } else {
                    Event::Bucket(Err(FileOpenError::DoesNotExist))
                }
            }
            Action::CreateFile { filename, content_type } => {
                let modified = Timestamp { secs: self.store.now, nanos: 0 };
                if self.files().contains_key(&filename) {
                    return Event::Created(Err(FileCreateError::FileExists));
                }
                let file = MemFile { data: Vec::new(), content_type, modified };
                self.files().insert(filename.clone(), file);
                self.filename = filename;
                self.data = Vec::new();
                self.position = 0;
                Event::Created(Ok(()))
            }
            Action::OpenFile(filename) => match self.files().get(&filename) {
                Some(file) => {
                    self.data = file.data.clone();
                    self.filename = filename;
                    self.position = 0;
                    Event::Opened(Ok(()))
                }
                None => Event::Opened(Err(FileOpenError::DoesNotExist)),
            },
            Action::Seek(to) => {
                let target = match to {
                    SeekFrom::Start(n) => n as i64,
                    SeekFrom::End(n) => self.data.len() as i64 + n,
                    SeekFrom::Current(n) => self.position as i64 + n,
                };
                self.position = target as usize;
                Event::Position(Ok(target as u64))
            }
            Action::NextChunk => match self.body.pop_front() {
                Some(Ok(chunk)) => Event::Chunk(Ok(Some(chunk))),
                Some(Err(e)) => Event::Chunk(Err(e)),
                None => Event::Chunk(Ok(None)),
            },
            Action::ReadExact(n) => {
                let start = self.position.min(self.data.len());
                if start + n <= self.data.len() {
                    self.position = start + n;
                    Event::Read(ReadReply::Bytes(self.data[start..start + n].to_vec()))
                } else {
                    Event::Read(ReadReply::UnexpectedEof)
                }
            }
            Action::Append(chunk) => {
                self.data.extend_from_slice(&chunk);
                self.position = self.data.len();
                Event::Written(Ok(()))
            }
            Action::Commit => {
                let modified = Timestamp { secs: self.store.now, nanos: 0 };
                let data = self.data.clone();
                let filename = self.filename.clone();
                let file = self.files().get_mut(&filename).unwrap();
                if file.data != data {
                    file.data = data;
                    file.modified = modified;
                }
                Event::Written(Ok(()))
            }
            Action::Metadata => {
                let filename = self.filename.clone();
                let file = &self.files()[&filename];
                Event::Metadata(Ok(FileMetadata {
                    last_modified_at: file.modified,
                    content_type: file.content_type.clone(),
                }))
            }
        }
    }

    fn upload(&mut self, start: (Upload, UploadStep)) -> Result<Success, ApiError> {
        let (mut upload, mut step) = start;
        loop {
            match step {
                Step::Finish(result) => return result,
                Step::Perform(action) => {
                    let event = self.perform(action);
                    step = upload.step(event);
                }
            }
        }
    }

    fn explore(&mut self, start: (Explore, ExploreStep)) -> Result<(FileHead, Vec<u8>), ApiError> {
        let (mut explore, mut step) = start;
        loop {
            match step {
                Step::Finish(result) => {
                    return result.map(|head| (head, self.data[self.position..].to_vec()));
                }
                Step::Perform(action) => {
                    let event = self.perform(action);
                    step = explore.step(event);
                }
            }
        }
    }
}

fn chunks(body: &[&str]) -> Vec<Result<Vec<u8>, String>> {
    body.iter().map(|chunk| Ok(chunk.as_bytes().to_vec())).collect()
}

fn config() -> AppConfig {
    AppConfig::build_for_test()
}

fn put(store: &mut MemStore, bucket: &str, filename: &str, body: &[&str]) -> Result<Success, ApiError> {
    let start = upload::put_write_filename(
        filename.to_owned(),
        bucket.to_owned(),
        Some("text/plain".to_owned()),
        None,
        &config(),
    );
    store.session(chunks(body)).upload(start)
}

fn post(
    store: &mut MemStore,
    bucket: &str,
    filename: &str,
    write_offset: u64,
    body: &[&str],
) -> Result<Success, ApiError> {
    let start = upload::post_append_filename(
        filename.to_owned(),
        bucket.to_owned(),
        write_offset,
        None,
        &config(),
    );
    store.session(chunks(body)).upload(start)
}

fn get(store: &mut MemStore, bucket: &str, filename: &str) -> Result<(FileHead, Vec<u8>), ApiError> {
    let start = explore::get_explore(bucket.to_owned(), filename.to_owned());
    store.session(Vec::new()).explore(start)
}

fn status(answer: &Result<Success, ApiError>) -> u16 {
    match answer {
        Ok(success) => success.status_code(),
        Err(e) => e.status_code(),
    }
}

#[test]
fn put_write_filename() {
    let mut store = MemStore::with_bucket("my_bucket");
    let answer = put(&mut store, "my_bucket", "meowmeow", &["meow!"]);
    assert_eq!(answer.unwrap(), Success::Created);

    // Can write twice if it's idempotent
    let answer = put(&mut store, "my_bucket", "meowmeow", &["meow!"]);
    assert_eq!(answer.unwrap(), Success::Okay);

    // But can't overwrite files
    let answer = put(&mut store, "my_bucket", "meowmeow", &["kitty"]);
    assert_eq!(status(&answer), 409);
    assert_eq!(answer.unwrap_err().message(), "File already exists with conflicting content");
}

#[test]
fn post_append_filename() {
    let mut store = MemStore::with_bucket("my_bucket");
    // Can't append to a file that doesn't exist
    let answer = post(&mut store, "my_bucket", "meowmeow", 0, &["meow!"]);
    assert_eq!(status(&answer), 404);
    assert_eq!(answer.unwrap_err().message(), "File does not exist: \"meowmeow\"");

    // Appending to a file that exists works
    assert!(put(&mut store, "my_bucket", "meowmeow", &["meow!"]).is_ok());
    assert!(post(&mut store, "my_bucket", "meowmeow", 6, &["meow!"]).is_ok());

    let (_, content) = get(&mut store, "my_bucket", "meowmeow").unwrap();
    assert_eq!(content, b"meow!meow!");
}

#[test]
fn get_buck2_log() {
    let mut store = MemStore::with_bucket("my_bucket");
    store.buckets.insert("buck2_logs".to_owned(), BTreeMap::new());
    assert!(put(&mut store, "buck2_logs", "flat/abcde.pb.zst", &["meow!"]).is_ok());

    let start = explore::get_buck2_log("abcde");
    let (_, content) = store.session(Vec::new()).explore(start).unwrap();
    assert_eq!(content, b"meow!");
}

#[test]
fn success_statuses() {
    assert_eq!(Success::Created.status_code(), 201);
    assert_eq!(Success::Okay.status_code(), 200);
}

#[test]
fn put_into_a_missing_bucket() {
    let mut store = MemStore::with_bucket("my_bucket");
    let before = store.clone();
    let answer = put(&mut store, "other", "meowmeow", &["meow!"]);
    assert_eq!(status(&answer), 404);
    assert_eq!(answer.unwrap_err().message(), "Bucket does not exist: \"other\"");
    assert_eq!(store, before);
}

#[test]
fn put_does_not_care_about_chunks() {
    let mut store = MemStore::with_bucket("b");
    assert_eq!(put(&mut store, "b", "f", &["kitty meow", "creature"]).unwrap(), Success::Created);
    let before = store.clone();
    store.now = 2_000;
    for body in [&["kitty meowcreature"][..], &["kit", "", "ty meowcreatur", "e"][..]] {
        assert_eq!(put(&mut store, "b", "f", body).unwrap(), Success::Okay);
    }
    for body in [&["kitty meow"][..], &["kitty meowcreature!"][..], &["Kitty meowcreature"][..], &[][..]] {
        assert_eq!(status(&put(&mut store, "b", "f", body)), 409);
    }
    assert_eq!(store.buckets, before.buckets);
}

#[test]
fn put_keeps_the_content_type() {
    let mut store = MemStore::with_bucket("b");
    let start = upload::put_write_filename("a".to_owned(), "b".to_owned(), None, None, &config());
    assert_eq!(store.session(chunks(&["x"])).upload(start).unwrap(), Success::Created);
    let html = Some("text/html".to_owned());
    let start = upload::put_write_filename("h".to_owned(), "b".to_owned(), html, None, &config());
    assert_eq!(store.session(chunks(&["x"])).upload(start).unwrap(), Success::Created);

    let (head, _) = get(&mut store, "b", "a").unwrap();
    assert_eq!(head.metadata.content_type, "text/plain");
    let (head, _) = get(&mut store, "b", "h").unwrap();
    assert_eq!(head.metadata.content_type, "text/html");
}

#[test]
fn put_of_a_type_that_is_not_permitted() {
    let mut store = MemStore::with_bucket("b");
    let before = store.clone();
    let svg = Some("image/svg+xml".to_owned());
    let start = upload::put_write_filename("f".to_owned(), "b".to_owned(), svg, None, &config());
    let answer = store.session(chunks(&["x"])).upload(start);
    assert_eq!(status(&answer), 400);
    assert_eq!(
        answer.unwrap_err().message(),
        "Content-Type may not be uploaded: \"image/svg+xml\""
    );
    assert_eq!(store, before);
}

#[test]
fn announced_length_over_the_limit() {
    let mut store = MemStore::with_bucket("b");
    assert!(put(&mut store, "b", "f", &["x"]).is_ok());
    let before = store.clone();
    for (length, refused) in [(5_000_000, false), (5_000_001, true), (u64::MAX, true)] {
        let start = upload::put_write_filename(
            "f".to_owned(),
            "b".to_owned(),
            None,
            Some(length),
            &config(),
        );
        let answer = store.session(chunks(&["x"])).upload(start);
        assert_eq!(status(&answer), if refused { 400 } else { 200 });
        let start = upload::post_append_filename(
            "f".to_owned(),
            "b".to_owned(),
            0,
            Some(length),
            &config(),
        );
        let answer = store.session(chunks(&["x"])).upload(start);
        assert_eq!(status(&answer), if refused { 400 } else { 200 });
    }
    assert_eq!(store, before);
}

#[test]
fn received_length_over_the_limit() {
    let mut store = MemStore::with_bucket("b");
    let million = "m".repeat(1_000_000);
    let full: Vec<&str> = vec![&million; 5];
    assert_eq!(put(&mut store, "b", "full", &full).unwrap(), Success::Created);

    let mut over = full.clone();
    over.push("m");
    let answer = put(&mut store, "b", "over", &over);
    assert_eq!(status(&answer), 400);
    assert_eq!(answer.unwrap_err().message(), "Upload is larger than the maximum upload size");
    // The file was created, but holds none of the data.
    assert_eq!(store.file("b", "over").data, b"");

    // A body that is compared counts too, and may conflict before that.
    let before = store.clone();
    let mut other = vec!["x"];
    other.extend(&full);
    assert_eq!(status(&put(&mut store, "b", "full", &other)), 409);
    assert_eq!(status(&post(&mut store, "b", "full", 0, &over)), 400);
    assert_eq!(status(&post(&mut store, "b", "full", 1, &over)), 409);
    assert_eq!(store, before);
    assert_eq!(status(&post(&mut store, "b", "full", 5_000_000, &["m"])), 200);
    let answer = put(&mut store, "b", "full", &over);
    assert_eq!(status(&answer), 400);
}

#[test]
fn append_at_the_end() {
    let mut store = MemStore::with_bucket("b");
    assert!(put(&mut store, "b", "f", &["meow"]).is_ok());
    assert_eq!(post(&mut store, "b", "f", 4, &["aw", "oo"]).unwrap(), Success::Okay);
    assert_eq!(store.file("b", "f").data, b"meowawoo");
}

#[test]
fn append_is_idempotent() {
    let mut store = MemStore::with_bucket("b");
    assert!(put(&mut store, "b", "f", &["meow"]).is_ok());
    assert!(post(&mut store, "b", "f", 4, &["awoo"]).is_ok());
    let before = store.clone();
    store.now = 2_000;
    assert_eq!(post(&mut store, "b", "f", 4, &["a", "woo"]).unwrap(), Success::Okay);
    assert_eq!(post(&mut store, "b", "f", 8, &[]).unwrap(), Success::Okay);
    // A chunk in the middle of the file matches, too.
    assert_eq!(post(&mut store, "b", "f", 2, &["owaw"]).unwrap(), Success::Okay);
    assert_eq!(store.buckets, before.buckets);
}

#[test]
fn append_that_conflicts() {
    let mut store = MemStore::with_bucket("b");
    assert!(put(&mut store, "b", "f", &["meowawoo"]).is_ok());
    let before = store.clone();
    // Other data there, and data that goes on past the end.
    for (offset, body) in [(4, "bark"), (0, "purr"), (4, "awooo"), (7, "oo")] {
        let answer = post(&mut store, "b", "f", offset, &[body]);
        assert_eq!(status(&answer), 409);
    }
    assert_eq!(store, before);
}

#[test]
fn append_to_a_missing_bucket() {
    let mut store = MemStore::with_bucket("b");
    let answer = post(&mut store, "c", "f", 0, &["x"]);
    assert_eq!(status(&answer), 404);
    assert_eq!(answer.unwrap_err().message(), "Bucket does not exist: \"c\"");
}

#[test]
fn get_shows_the_file() {
    let mut store = MemStore::with_bucket("b");
    assert!(put(&mut store, "b", "dir/f", &["me", "ow"]).is_ok());
    let before = store.clone();
    let (head, content) = get(&mut store, "b", "dir/f").unwrap();
    assert_eq!(head.length, 4);
    assert_eq!(head.metadata.last_modified_at, Timestamp { secs: 1_000, nanos: 0 });
    assert_eq!(content, b"meow");
    assert_eq!(store, before);
}

#[test]
fn get_of_what_is_not_there() {
    let mut store = MemStore::with_bucket("b");
    let e = get(&mut store, "c", "f").unwrap_err();
    assert_eq!((e.status_code(), e.message()), (404, "Bucket does not exist: \"c\"".to_owned()));
    let e = get(&mut store, "b", "f").unwrap_err();
    assert_eq!((e.status_code(), e.message()), (404, "File does not exist: \"f\"".to_owned()));
}

#[test]
fn a_body_that_breaks_off_is_not_committed() {
    let mut store = MemStore::with_bucket("b");
    assert!(put(&mut store, "b", "f", &["meow"]).is_ok());
    let before = store.clone();
    let body = vec![Ok(b"aw".to_vec()), Err("connection reset".to_owned())];

    let start = upload::post_append_filename("f".to_owned(), "b".to_owned(), 4, None, &config());
    let answer = store.session(body.clone()).upload(start);
    assert_eq!(status(&answer), 500);
    assert_eq!(answer.unwrap_err().message(), "Internal error: connection reset");
    assert_eq!(store, before);

    let start = upload::put_write_filename("g".to_owned(), "b".to_owned(), None, None, &config());
    let answer = store.session(body).upload(start);
    assert_eq!(status(&answer), 500);
    assert_eq!(store.file("b", "g").data, b"");
    assert_eq!(store.file("b", "f"), before.file("b", "f"));
}

#[test]
fn nothing_is_written_when_an_action_fails() {
    let mut store = MemStore::with_bucket("b");
    assert!(put(&mut store, "b", "f", &["meow"]).is_ok());
    let before = store.clone();
    // Every action of an append, of a repeated append and of a repeated write.
    for (offset, body, actions) in [(4, &["aw", "oo"][..], 9), (0, &["me", "ow"][..], 8)] {
        for at in 1..=actions {
            let start =
                upload::post_append_filename("f".to_owned(), "b".to_owned(), offset, None, &config());
            let mut session = store.session(chunks(body));
            session.fails_at = Some(at);
            let answer = session.upload(start);
            assert_eq!(status(&answer), 500);
            assert_eq!(store, before);
        }
    }
    for at in 1..=10 {
        let start = upload::put_write_filename("f".to_owned(), "b".to_owned(), None, None, &config());
        let mut session = store.session(chunks(&["me", "ow"]));
        session.fails_at = Some(at);
        let answer = session.upload(start);
        assert_eq!(status(&answer), 500);
        assert_eq!(store, before);
    }
}

#[test]
fn errors_of_a_get_are_internal() {
    let mut store = MemStore::with_bucket("b");
    assert!(put(&mut store, "b", "f", &["meow"]).is_ok());
    for at in 1..=5 {
        let mut session = store.session(Vec::new());
        session.fails_at = Some(at);
        let e = session.explore(explore::get_explore("b".to_owned(), "f".to_owned())).unwrap_err();
        assert_eq!(e.status_code(), 500);
        assert_eq!(
            e.message(),
            if at <= 2 {
                "Internal error: Unknown file open error: out of luck"
            } else {
                "Internal error: out of luck"
            }
        );
    }
}

#[test]
fn errors_of_creating_a_file_are_internal() {
    let mut store = MemStore::with_bucket("b");
    let start = upload::put_write_filename("f".to_owned(), "b".to_owned(), None, None, &config());
    let mut session = store.session(chunks(&["x"]));
    session.fails_at = Some(2);
    let e = session.upload(start).unwrap_err();
    assert_eq!(e.message(), "Internal error: Unknown file create error: out of luck");
    assert_eq!(e.status_code(), 500);
}

#[test]
fn buffer_is_64_kib() {
    assert_eq!(explore::BUFFER_SIZE, 65_536);
}
