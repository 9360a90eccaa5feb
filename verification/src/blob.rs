//! Blob library for postgres using [Large
//! Objects](https://www.postgresql.org/docs/17/largeobjects.html).
//!
//! A [`BlobHandle`] says which statement an operation on the blob is and what
//! its outcome means; running the statements, in the transaction that the
//! handle stands for, is up to the caller.

use vstd::prelude::*;

use crate::errors::FileHandleError;
use crate::exchange::SeekFrom;
use crate::range;
use crate::sql;
use crate::sql::{Arg, Statement, StatementView};

verus! {

/// The unit of the limit on how much is read at once.
pub const MIB: usize = 2 * 1024 * 1024;

/// Mode to open a file with, corresponding with `INV_READ` and `INV_WRITE` in
/// Postgres land (`libpq-fs.h`).
#[derive(Clone, Copy, Debug, PartialEq, Eq, Structural)]
pub enum OpenMode {
    /// `INV_READ`
    Read,
    /// `INV_READ | INV_WRITE`
    ReadWrite,
}

impl OpenMode {
    /// The mode as Postgres takes it.
    pub open spec fn flags(self) -> i32 {
        match self {
            OpenMode::Read => 0x0002_0000,
            OpenMode::ReadWrite => 0x0006_0000,
        }
    }

    /// The mode as Postgres takes it.
    pub fn bits(&self) -> (bits: i32)
        ensures
            bits == self.flags(),
    {
        match self {
            OpenMode::Read => 0x0002_0000,
            OpenMode::ReadWrite => 0x0006_0000,
        }
    }
}

/// What an offset to seek to is relative to.
#[derive(Clone, Copy, Debug, PartialEq, Eq, Structural)]
pub enum Origin {
    Start,
    Current,
    End,
}

/// Casts nix's `Whence` to its number, which is that of the C library:
/// `SEEK_SET`, `SEEK_CUR` and `SEEK_END` are 0, 1 and 2.
#[verifier::external_body]
fn whence(origin: Origin) -> (number: i32)
    ensures
        number == match origin {
            Origin::Start => 0i32,
            Origin::Current => 1i32,
            Origin::End => 2i32,
        },
{
    match origin {
        Origin::Start => nix::unistd::Whence::SeekSet as i32,
        Origin::Current => nix::unistd::Whence::SeekCur as i32,
        Origin::End => nix::unistd::Whence::SeekEnd as i32,
    }
}

/// The same bits as a signed number.
pub open spec fn as_signed(n: u64) -> int {
    if n <= i64::MAX {
        n as int
    } else {
        n - 0x1_0000_0000_0000_0000
    }
}

fn to_signed(n: u64) -> (out: i64)
    ensures
        out == as_signed(n),
{
    if n <= 0x7fff_ffff_ffff_ffff {
        n as i64
    } else {
        -((0xffff_ffff_ffff_ffff - n) as i64) - 1
    }
}

/// Opens the given oid as a file.
pub open spec fn open_call(oid: u32, mode: OpenMode) -> StatementView {
    Statement {
        sql: "select lo_open($1, $2)"@,
        args: seq![Arg::Oid(oid), Arg::Int(mode.flags())],
    }
}

/// Seeks to the given position in a file.
pub open spec fn seek_call(fd_num: i32, seek: SeekFrom) -> StatementView {
    let (n, whence) = match seek {
        SeekFrom::Start(n) => (as_signed(n) as i64, 0i32),
        SeekFrom::Current(n) => (n, 1i32),
        SeekFrom::End(n) => (n, 2i32),
    };
    Statement {
        sql: "select lo_lseek64($1, $2, $3)"@,
        args: seq![Arg::Int(fd_num), Arg::BigInt(n), Arg::Int(whence)],
    }
}

/// How much is read at once into a buffer with this much room.
pub open spec fn read_count(remaining: usize) -> int {
    if remaining <= 8 * MIB {
        remaining as int
    } else {
        8 * MIB
    }
}

/// Reads bytes from the file at the current position.
pub open spec fn read_call(fd_num: i32, count: int) -> StatementView {
    Statement {
        sql: "select loread($1, $2)"@,
        args: seq![Arg::Int(fd_num), Arg::Int(count as i32)],
    }
}

/// Writes bytes to the file at the current position.
pub open spec fn write_call(fd_num: i32, data: Seq<u8>) -> StatementView {
    Statement {
        sql: "select lowrite($1, $2)"@,
        args: seq![Arg::Int(fd_num), Arg::Bytes(data)],
    }
}

/// Closes the file.
pub open spec fn close_call(fd_num: i32) -> StatementView {
    Statement { sql: "select lo_close($1)"@, args: seq![Arg::Int(fd_num)] }
}

/// The operation that a handle is in the middle of.
///
/// It can only be in one at once, and cancellation can mean that a read could
/// be interrupted and then the handle is used to seek or whatever. We don't
/// support that.
#[derive(Clone, Copy, Debug, PartialEq, Eq, Structural)]
pub enum HandleState {
    Reading,
    Seeking,
    Writing,
    ShuttingDown,
    /// Shutting down, with the blob closed and the transaction to be committed.
    Committing,
}

/// What polling a read, a write or a shutdown means.
#[derive(Clone, Copy, Debug, PartialEq, Eq, Structural)]
pub enum PollStep {
    /// Nothing is in progress: begin the operation.
    Begin,
    /// The operation is in progress: wait for it.
    Await,
    /// Another operation was cancelled in the middle.
    Cancelled,
}

/// What completing a seek means.
#[derive(Debug)]
pub enum CompleteStep<S = String> {
    /// The answer is there: a position, or why there is none.
    Ready(Result<u64, FileHandleError<S>>),
    /// The seek is in progress: wait for it.
    Await,
    /// Another operation was cancelled in the middle.
    Cancelled,
}

impl View for CompleteStep<String> {
    type V = CompleteStep<Seq<char>>;

    open spec fn view(&self) -> CompleteStep<Seq<char>> {
        match self {
            CompleteStep::Ready(Ok(position)) => CompleteStep::Ready(Ok(*position)),
            CompleteStep::Ready(Err(e)) => CompleteStep::Ready(Err(e@)),
            CompleteStep::Await => CompleteStep::Await,
            CompleteStep::Cancelled => CompleteStep::Cancelled,
        }
    }
}

/// File handle to a file in the Postgres store.
#[derive(Debug)]
pub struct BlobHandle {
    /// The number that the blob was opened as. There is none once the handle is
    /// closed, without the type system being able to be told of it.
    pub inner: Option<i32>,
    /// Whether some operation is in progress, basically.
    pub state: Option<HandleState>,
    /// Where the last seek that completed led to. Reads and writes do not
    /// change it, so it becomes stale.
    pub position: u64,
}

/// What happens to a handle. A seek ends with the position that it led to, if
/// it went well; closing ends well or not.
#[derive(Clone, Copy, Debug, PartialEq, Eq, Structural)]
pub enum BlobOp {
    BeginRead,
    EndRead,
    BeginWrite,
    EndWrite,
    BeginSeek,
    EndSeek(Option<u64>),
    /// A seek on a closed handle is answered.
    RefuseSeek,
    BeginShutdown,
    EndClose(bool),
    EndCommit,
}

impl BlobHandle {
    /// The handle after something happened to it. A closed handle does not begin
    /// to read, to write or to shut down.
    pub open spec fn after(self, op: BlobOp) -> BlobHandle {
        match op {
            BlobOp::BeginRead => if self.inner is Some {
                BlobHandle { state: Some(HandleState::Reading), ..self }
            } else {
                self
            },
            BlobOp::BeginWrite => if self.inner is Some {
                BlobHandle { state: Some(HandleState::Writing), ..self }
            } else {
                self
            },
            BlobOp::BeginShutdown => if self.inner is Some {
                BlobHandle { inner: None, state: Some(HandleState::ShuttingDown), ..self }
            } else {
                self
            },
            BlobOp::BeginSeek => BlobHandle { state: Some(HandleState::Seeking), ..self },
            BlobOp::EndSeek(Some(position)) => BlobHandle { state: None, position, ..self },
            BlobOp::EndClose(true) => BlobHandle { state: Some(HandleState::Committing), ..self },
            _ => BlobHandle { state: None, ..self },
        }
    }

    /// What completing a seek on the handle means. With nothing in progress, the
    /// position of the last seek is given again.
    pub open spec fn complete_step(self) -> CompleteStep<Seq<char>> {
        match self.state {
            None => CompleteStep::Ready(Ok(self.position)),
            Some(HandleState::Seeking) => if self.inner is Some {
                CompleteStep::Await
            } else {
                CompleteStep::Ready(Err(FileHandleError::IsShutdown))
            },
            Some(_) => CompleteStep::Cancelled,
        }
    }
}

/// The position that a seek came to.
pub open spec fn sought(reply: Result<Option<i64>, String>) -> Option<u64> {
    match reply {
        Ok(Some(offset)) => Some(offset as u64),
        _ => None,
    }
}

/// Says what came of opening a blob, given whether a transaction was begun and
/// then what `lo_open` came to.
pub open spec fn opened(begun: Result<Result<Option<i32>, Seq<char>>, Seq<char>>) -> Result<
    i32,
    FileHandleError<Seq<char>>,
> {
    match begun {
        Err(e) => Err(FileHandleError::TransactionBeginFailed("lo_open"@, e)),
        Ok(Err(e)) => Err(FileHandleError::QueryFailed("select lo_open($1, $2)"@, e)),
        Ok(Ok(None)) => Err(FileHandleError::EmptyOpen),
        Ok(Ok(Some(fd_num))) => Ok(fd_num),
    }
}

impl BlobHandle {
    /// The statement that opens a blob by OID.
    pub fn open_statement(oid: u32, mode: OpenMode) -> (out: Statement)
        ensures
            out@ == open_call(oid, mode),
    {
        sql::statement2("select lo_open($1, $2)", Arg::Oid(oid), Arg::Int(mode.bits()))
    }

    /// Opens a file handle, given whether a transaction was begun and then what
    /// the statement came to.
    pub fn open(begun: Result<Result<Option<i32>, String>, String>) -> (out: Result<
        BlobHandle,
        FileHandleError,
    >)
        ensures
            ({
                let outcome = opened(
                    match begun {
                        Err(e) => Err(e@),
                        Ok(Err(e)) => Ok(Err(e@)),
                        Ok(Ok(reply)) => Ok(Ok(reply)),
                    },
                );
                match out {
                    Ok(handle) => outcome == Ok::<i32, FileHandleError<Seq<char>>>(
                        handle.inner->0,
                    ) && handle == (BlobHandle {
                        inner: handle.inner,
                        state: None,
                        position: 0,
                    }) && handle.inner is Some,
                    Err(e) => outcome == Err::<i32, FileHandleError<Seq<char>>>(e@),
                }
            }),
    {
        match begun {
            Err(e) => Err(FileHandleError::TransactionBeginFailed("lo_open".to_owned(), e)),
            Ok(Err(e)) => Err(
                FileHandleError::QueryFailed("select lo_open($1, $2)".to_owned(), e),
            ),
            Ok(Ok(None)) => Err(FileHandleError::EmptyOpen),
            Ok(Ok(Some(fd_num))) => Ok(
                BlobHandle { inner: Some(fd_num), state: None, position: 0 },
            ),
        }
    }

    /// Says what polling an operation means: begin it if nothing is in
    /// progress, wait for it if it is the one in progress.
    pub fn poll(&self, wanted: HandleState) -> (step: PollStep)
        ensures
            step == match self.state {
                None => PollStep::Begin,
                Some(state) => if state == wanted || (state == HandleState::Committing && wanted
                    == HandleState::ShuttingDown) {
                    PollStep::Await
                } else {
                    PollStep::Cancelled
                },
            },
    {
        match self.state {
            None => PollStep::Begin,
            Some(state) => if state == wanted || (state == HandleState::Committing && wanted
                == HandleState::ShuttingDown) {
                PollStep::Await
            } else {
                PollStep::Cancelled
            },
        }
    }

    /// Begins a read into a buffer with this much room.
    pub fn begin_read(&mut self, remaining: usize) -> (out: Result<Statement, FileHandleError>)
        requires
            old(self).state is None,
        ensures
            *final(self) == old(self).after(BlobOp::BeginRead),
            match old(self).inner {
                Some(fd_num) => out matches Ok(call) && call@ == read_call(
                    fd_num,
                    read_count(remaining),
                ),
                None => out matches Err(e) && e@ == FileHandleError::<Seq<char>>::IsShutdown,
            },
    {
        let count: u32 = if remaining <= 8 * MIB {
            remaining as u32
        } else {
            (8 * MIB) as u32
        };
        match self.inner {
            Some(fd_num) => {
                self.state = Some(HandleState::Reading);
                Ok(
                    sql::statement2(
                        "select loread($1, $2)",
                        Arg::Int(fd_num),
                        Arg::Int(count as i32),
                    ),
                )
            },
            None => Err(FileHandleError::IsShutdown),
        }
    }

    /// Completes a read with what the statement came to. The data has to fit
    /// into the room that the buffer has left.
    pub fn finish_read(
        &mut self,
        reply: Result<Option<Vec<u8>>, String>,
        remaining: usize,
    ) -> (out: Result<Vec<u8>, FileHandleError>)
        requires
            old(self).state == Some(HandleState::Reading),
            reply matches Ok(Some(data)) ==> data.len() <= remaining,
        ensures
            *final(self) == old(self).after(BlobOp::EndRead),
            match reply {
                Ok(Some(data)) => out == Ok::<Vec<u8>, FileHandleError>(data),
                Ok(None) => out matches Err(e) && e@ == FileHandleError::<Seq<char>>::EmptyRead,
                Err(failure) => out matches Err(e) && e@ == FileHandleError::QueryFailed(
                    "select loread($1, $2)"@,
                    failure@,
                ),
            },
    {
        self.state = None;
        match reply {
            Ok(Some(data)) => Ok(data),
            Ok(None) => Err(FileHandleError::EmptyRead),
            Err(e) => Err(FileHandleError::QueryFailed("select loread($1, $2)".to_owned(), e)),
        }
    }

    /// Begins a seek, whatever was in progress. There is no statement to run on a
    /// closed handle; completing the seek says so.
    pub fn begin_seek(&mut self, position: SeekFrom) -> (out: Option<Statement>)
        ensures
            *final(self) == old(self).after(BlobOp::BeginSeek),
            match old(self).inner {
                Some(fd_num) => out matches Some(call) && call@ == seek_call(fd_num, position),
                None => out is None,
            },
    {
        self.state = Some(HandleState::Seeking);
        match self.inner {
            Some(fd_num) => {
                let (n, origin) = match position {
                    SeekFrom::Start(n) => (to_signed(n), Origin::Start),
                    SeekFrom::Current(n) => (n, Origin::Current),
                    SeekFrom::End(n) => (n, Origin::End),
                };
                let mut args: Vec<Arg> = Vec::new();
                args.push(Arg::Int(fd_num));
                args.push(Arg::BigInt(n));
                args.push(Arg::Int(whence(origin)));
                let call = Statement { sql: "select lo_lseek64($1, $2, $3)".to_owned(), args };
                assert(call@.args =~= seek_call(fd_num, position).args);
                Some(call)
            },
            None => None,
        }
    }

    /// Says what completing a seek means: wait for it if it is in progress. A
    /// seek on a closed handle is answered here. With nothing in progress, the
    /// position of the last seek is given again.
    pub fn poll_complete(&mut self) -> (step: CompleteStep)
        ensures
            step@ == old(self).complete_step(),
            *final(self) == if old(self).state == Some(HandleState::Seeking)
                && old(self).inner is None {
                old(self).after(BlobOp::RefuseSeek)
            } else {
                *old(self)
            },
    {
        match self.state {
            None => CompleteStep::Ready(Ok(self.position)),
            Some(HandleState::Seeking) => if self.inner.is_some() {
                CompleteStep::Await
            } else {
                self.state = None;
                CompleteStep::Ready(Err(FileHandleError::IsShutdown))
            },
            Some(_) => CompleteStep::Cancelled,
        }
    }

    /// Completes a seek with what the statement came to.
    pub fn finish_seek(&mut self, reply: Result<Option<i64>, String>) -> (out: Result<
        u64,
        FileHandleError,
    >)
        requires
            old(self).state == Some(HandleState::Seeking),
            reply matches Ok(Some(offset)) ==> offset >= 0,
        ensures
            *final(self) == old(self).after(BlobOp::EndSeek(sought(reply))),
            match reply {
                Ok(Some(offset)) => out == Ok::<u64, FileHandleError>(offset as u64),
                Ok(None) => out matches Err(e) && e@ == FileHandleError::<Seq<char>>::EmptyLseek64,
                Err(failure) => out matches Err(e) && e@ == FileHandleError::QueryFailed(
                    "select lo_lseek64($1, $2, $3)"@,
                    failure@,
                ),
            },
    {
        self.state = None;
        match reply {
            Ok(Some(offset)) => {
                self.position = offset as u64;
                Ok(self.position)
            },
            Ok(None) => Err(FileHandleError::EmptyLseek64),
            Err(e) => Err(
                FileHandleError::QueryFailed("select lo_lseek64($1, $2, $3)".to_owned(), e),
            ),
        }
    }

    /// Begins a write.
    pub fn begin_write(&mut self, data: Vec<u8>) -> (out: Result<Statement, FileHandleError>)
        requires
            old(self).state is None,
        ensures
            *final(self) == old(self).after(BlobOp::BeginWrite),
            match old(self).inner {
                Some(fd_num) => out matches Ok(call) && call@ == write_call(fd_num, data@),
                None => out matches Err(e) && e@ == FileHandleError::<Seq<char>>::IsShutdown,
            },
    {
        match self.inner {
            Some(fd_num) => {
                self.state = Some(HandleState::Writing);
                Ok(sql::statement2("select lowrite($1, $2)", Arg::Int(fd_num), Arg::Bytes(data)))
            },
            None => Err(FileHandleError::IsShutdown),
        }
    }

    /// Completes a write with what the statement came to.
    pub fn finish_write(&mut self, reply: Result<Option<i32>, String>) -> (out: Result<
        usize,
        FileHandleError,
    >)
        requires
            old(self).state == Some(HandleState::Writing),
            reply matches Ok(Some(written)) ==> written >= 0,
        ensures
            *final(self) == old(self).after(BlobOp::EndWrite),
            match reply {
                Ok(Some(written)) => out == Ok::<usize, FileHandleError>(written as usize),
                Ok(None) => out matches Err(e) && e@ == FileHandleError::<Seq<char>>::EmptyWrite,
                Err(failure) => out matches Err(e) && e@ == FileHandleError::QueryFailed(
                    "select lowrite($1, $2)"@,
                    failure@,
                ),
            },
    {
        self.state = None;
        match reply {
            Ok(Some(written)) => Ok(written as usize),
            Ok(None) => Err(FileHandleError::EmptyWrite),
            Err(e) => Err(FileHandleError::QueryFailed("select lowrite($1, $2)".to_owned(), e)),
        }
    }

    /// Begins to shut the handle down. From here on the handle is closed.
    ///
    /// File handles must be closed or else they *will* just get rolled back!
    pub fn begin_shutdown(&mut self) -> (out: Result<Statement, FileHandleError>)
        requires
            old(self).state is None,
        ensures
            *final(self) == old(self).after(BlobOp::BeginShutdown),
            match old(self).inner {
                Some(fd_num) => out matches Ok(call) && call@ == close_call(fd_num),
                None => out matches Err(e) && e@ == FileHandleError::<Seq<char>>::IsShutdown,
            },
    {
        match self.inner {
            Some(fd_num) => {
                self.inner = None;
                self.state = Some(HandleState::ShuttingDown);
                Ok(sql::statement1("select lo_close($1)", Arg::Int(fd_num)))
            },
            None => Err(FileHandleError::IsShutdown),
        }
    }

    /// Goes on with what closing the blob came to: if that went well, the
    /// transaction is to be committed.
    pub fn finish_close(&mut self, reply: Result<Option<i32>, String>) -> (out: Result<
        (),
        FileHandleError,
    >)
        requires
            old(self).state == Some(HandleState::ShuttingDown),
        ensures
            *final(self) == old(self).after(BlobOp::EndClose(reply matches Ok(Some(_)))),
            match reply {
                Ok(Some(_)) => out is Ok,
                Ok(None) => out matches Err(e) && e@ == FileHandleError::<Seq<char>>::EmptyClose,
                Err(failure) => out matches Err(e) && e@ == FileHandleError::QueryFailed(
                    "select lo_close($1)"@,
                    failure@,
                ),
            },
    {
        self.state = None;
        match reply {
            Ok(Some(_)) => {
                self.state = Some(HandleState::Committing);
                Ok(())
            },
            Ok(None) => Err(FileHandleError::EmptyClose),
            Err(e) => Err(FileHandleError::QueryFailed("select lo_close($1)".to_owned(), e)),
        }
    }

    /// Completes a shutdown with what committing the transaction came to.
    pub fn finish_commit(&mut self, reply: Result<(), String>) -> (out: Result<
        (),
        FileHandleError,
    >)
        requires
            old(self).state == Some(HandleState::Committing),
        ensures
            *final(self) == old(self).after(BlobOp::EndCommit),
            match reply {
                Ok(()) => out is Ok,
                Err(failure) => out matches Err(e) && e@
                    == FileHandleError::TransactionCommitFailed("lo_close"@, failure@),
            },
    {
        self.state = None;
        match reply {
            Ok(()) => Ok(()),
            Err(e) => Err(FileHandleError::TransactionCommitFailed("lo_close".to_owned(), e)),
        }
    }
}

/// An open large object as Postgres keeps it.
pub struct LargeObject {
    pub data: Seq<u8>,
    pub offset: int,
}

impl LargeObject {
    /// What `lo_lseek64` does.
    pub open spec fn seek(self, call: StatementView) -> LargeObject {
        let n = call.args[1]->BigInt_0;
        let offset = match call.args[2]->Int_0 {
            0 => n as int,
            1 => self.offset + n,
            _ => self.data.len() + n,
        };
        LargeObject { offset, ..self }
    }

    /// What `loread` gives.
    pub open spec fn read(self, call: StatementView) -> Seq<u8> {
        let rest = range::bytes_from(self.data, self.offset);
        let count = call.args[1]->Int_0;
        if count <= rest.len() {
            rest.take(count as int)
        } else {
            rest
        }
    }

    /// What `lowrite` does: it overwrites what is at the offset, and fills a gap
    /// behind the end with zeros.
    pub open spec fn write(self, call: StatementView) -> LargeObject {
        let new = call.args[1]->Bytes_0;
        let end = self.offset + new.len();
        let before = if self.offset <= self.data.len() {
            self.data.take(self.offset)
        } else {
            self.data + Seq::new((self.offset - self.data.len()) as nat, |i: int| 0u8)
        };
        LargeObject { data: before + new + range::bytes_from(self.data, end), offset: end }
    }
}

impl LargeObject {
    /// What writing the parts one after the other does.
    pub open spec fn write_all(self, fd_num: i32, parts: Seq<Seq<u8>>) -> LargeObject
        decreases parts.len(),
    {
        if parts.len() == 0 {
            self
        } else {
            self.write(write_call(fd_num, parts[0])).write_all(fd_num, parts.drop_first())
        }
    }
}

proof fn lemma_write_all_at_end(object: LargeObject, fd_num: i32, parts: Seq<Seq<u8>>)
    requires
        object.offset == object.data.len(),
    ensures
        object.write_all(fd_num, parts).data == object.data + parts.flatten(),
    decreases parts.len(),
{
    if parts.len() == 0 {
        assert(object.data + parts.flatten() =~= object.data);
    } else {
        let after = object.write(write_call(fd_num, parts[0]));
        assert(object.data.take(object.data.len() as int) =~= object.data);
        assert(after.data =~= object.data + parts[0]);
        lemma_write_all_at_end(after, fd_num, parts.drop_first());
        assert(object.data + parts[0] + parts.drop_first().flatten() =~= object.data
            + parts.flatten());
    }
}

/// Seeking to the end and then writing appends the data, in however many parts
/// it is written: the handle of a file never overwrites.
pub proof fn law_seek_to_end_and_write_appends(
    object: LargeObject,
    fd_num: i32,
    parts: Seq<Seq<u8>>,
)
    ensures
        object.seek(seek_call(fd_num, SeekFrom::End(0))).write_all(fd_num, parts).data
            == object.data + parts.flatten(),
{
    lemma_write_all_at_end(object.seek(seek_call(fd_num, SeekFrom::End(0))), fd_num, parts);
}

/// What is read after seeking is what the file holds there, as far as there is
/// room for it and as much as is read at once.
pub proof fn law_seek_and_read(
    object: LargeObject,
    fd_num: i32,
    position: u64,
    remaining: usize,
)
    requires
        position <= i64::MAX,
    ensures
        ({
            let rest = range::bytes_from(object.data, position as int);
            let count = read_count(remaining);
            object.seek(seek_call(fd_num, SeekFrom::Start(position))).read(
                read_call(fd_num, count),
            ) == if count <= rest.len() {
                rest.take(count)
            } else {
                rest
            }
        }),
{
}

/// A handle after all that happened to it since it was opened.
pub open spec fn after_all(fd_num: i32, ops: Seq<BlobOp>) -> BlobHandle
    decreases ops.len(),
{
    if ops.len() == 0 {
        BlobHandle { inner: Some(fd_num), state: None, position: 0 }
    } else {
        after_all(fd_num, ops.drop_last()).after(ops.last())
    }
}

/// Where the last seek that went well led to, or the start if there was none.
pub open spec fn last_sought(ops: Seq<BlobOp>) -> u64
    decreases ops.len(),
{
    if ops.len() == 0 {
        0
    } else {
        match ops.last() {
            BlobOp::EndSeek(Some(position)) => position,
            _ => last_sought(ops.drop_last()),
        }
    }
}

/// Whatever happened to a handle, its position is where the last seek that went
/// well led to: reads, writes and failed seeks do not change it. Completing a
/// seek with nothing in progress gives that position, and as often as it is
/// asked for.
pub proof fn law_position_is_that_of_the_last_seek(fd_num: i32, ops: Seq<BlobOp>)
    ensures
        after_all(fd_num, ops).position == last_sought(ops),
        after_all(fd_num, ops).state is None ==> after_all(fd_num, ops).complete_step()
            == CompleteStep::<Seq<char>>::Ready(Ok(last_sought(ops))),
    decreases ops.len(),
{
    if ops.len() > 0 {
        law_position_is_that_of_the_last_seek(fd_num, ops.drop_last());
    }
}

/// A handle that began to shut down stays closed, whatever happens to it then.
pub proof fn law_shut_handle_stays_closed(fd_num: i32, ops: Seq<BlobOp>)
    requires
        ops.contains(BlobOp::BeginShutdown),
    ensures
        after_all(fd_num, ops).inner is None,
    decreases ops.len(),
{
    let i = choose|i: int| 0 <= i < ops.len() && ops[i] == BlobOp::BeginShutdown;
    if i < ops.len() - 1 {
        assert(ops.drop_last()[i] == BlobOp::BeginShutdown);
        law_shut_handle_stays_closed(fd_num, ops.drop_last());
    }
}

/// A blob that a transaction has open.
pub struct OpenBlob {
    pub oid: u32,
    pub offset: int,
    pub readable: bool,
    pub writable: bool,
}

/// Postgres as a transaction sees it: the blobs by their numbers, and which of
/// them are open under which descriptors.
pub struct Session {
    pub blobs: Map<u32, Seq<u8>>,
    pub open: Map<i32, OpenBlob>,
}

/// What Postgres answers.
pub enum Answer {
    Opened(i32),
    Position(int),
    Data(Seq<u8>),
    Written(int),
    Closed,
    Failed,
}

impl Session {
    /// The blob that is open under a descriptor.
    pub open spec fn object(self, fd_num: i32) -> LargeObject {
        LargeObject { data: self.blobs[self.open[fd_num].oid], offset: self.open[fd_num].offset }
    }

    /// The session with the blob under a descriptor, and its position, changed.
    pub open spec fn with_object(self, fd_num: i32, object: LargeObject) -> Session {
        let entry = self.open[fd_num];
        Session {
            blobs: self.blobs.insert(entry.oid, object.data),
            open: self.open.insert(fd_num, OpenBlob { offset: object.offset, ..entry }),
        }
    }

    /// Opens a blob under the descriptor `free`. Of the mode, `INV_WRITE` allows
    /// reading and writing, `INV_READ` allows reading.
    pub open spec fn lo_open(self, call: StatementView, free: i32) -> (Session, Answer) {
        let oid = call.args[0]->Oid_0;
        let mode = call.args[1]->Int_0 as int;
        let writable = mode / 0x4_0000 % 2 == 1;
        if !self.blobs.contains_key(oid) || self.open.contains_key(free) {
            (self, Answer::Failed)
        } else {
            (
                Session {
                    open: self.open.insert(
                        free,
                        OpenBlob {
                            oid,
                            offset: 0,
                            readable: writable || mode / 0x2_0000 % 2 == 1,
                            writable,
                        },
                    ),
                    ..self
                },
                Answer::Opened(free),
            )
        }
    }

    /// Runs a statement. It is the text that says what is done, and the first
    /// parameter to which blob: but for opening, a descriptor, which fails if
    /// nothing is open under it.
    pub open spec fn run(self, call: StatementView, free: i32) -> (Session, Answer) {
        let fd_num = call.args[0]->Int_0;
        if call.sql == "select lo_open($1, $2)"@ {
            self.lo_open(call, free)
        } else if !(call.args[0] is Int) || !self.open.contains_key(fd_num) {
            (self, Answer::Failed)
        } else if call.sql == "select lo_lseek64($1, $2, $3)"@ {
            let after = self.object(fd_num).seek(call);
            if after.offset < 0 {
                (self, Answer::Failed)
            } else {
                (self.with_object(fd_num, after), Answer::Position(after.offset))
            }
        } else if call.sql == "select loread($1, $2)"@ {
            let object = self.object(fd_num);
            let data = object.read(call);
            if !self.open[fd_num].readable || call.args[1]->Int_0 < 0 {
                (self, Answer::Failed)
            } else {
                (
                    self.with_object(
                        fd_num,
                        LargeObject { offset: object.offset + data.len(), ..object },
                    ),
                    Answer::Data(data),
                )
            }
        } else if call.sql == "select lowrite($1, $2)"@ {
            if !self.open[fd_num].writable {
                (self, Answer::Failed)
            } else {
                (
                    self.with_object(fd_num, self.object(fd_num).write(call)),
                    Answer::Written(call.args[1]->Bytes_0.len() as int),
                )
            }
        } else if call.sql == "select lo_close($1)"@ {
            (Session { open: self.open.remove(fd_num), ..self }, Answer::Closed)
        } else {
            (self, Answer::Failed)
        }
    }

    /// A descriptor is that of an open blob, at a position in it or behind it.
    pub open spec fn has_open(self, fd_num: i32) -> bool {
        &&& self.open.contains_key(fd_num)
        &&& self.blobs.contains_key(self.open[fd_num].oid)
        &&& self.open[fd_num].offset >= 0
    }
}

/// The texts of the statements are all different.
proof fn lemma_texts_differ()
    ensures
        "select lo_open($1, $2)"@ != "select lo_lseek64($1, $2, $3)"@,
        "select lo_open($1, $2)"@ != "select loread($1, $2)"@,
        "select lo_open($1, $2)"@ != "select lowrite($1, $2)"@,
        "select lo_open($1, $2)"@ != "select lo_close($1)"@,
        "select lo_lseek64($1, $2, $3)"@ != "select loread($1, $2)"@,
        "select lo_lseek64($1, $2, $3)"@ != "select lowrite($1, $2)"@,
        "select lo_lseek64($1, $2, $3)"@ != "select lo_close($1)"@,
        "select loread($1, $2)"@ != "select lowrite($1, $2)"@,
        "select loread($1, $2)"@ != "select lo_close($1)"@,
        "select lowrite($1, $2)"@ != "select lo_close($1)"@,
{
    reveal_strlit("select lo_open($1, $2)");
    reveal_strlit("select lo_lseek64($1, $2, $3)");
    reveal_strlit("select loread($1, $2)");
    reveal_strlit("select lowrite($1, $2)");
    reveal_strlit("select lo_close($1)");
    assert("select lo_open($1, $2)"@[9] == '_' && "select lo_open($1, $2)"@[10] == 'o');
    assert("select lo_lseek64($1, $2, $3)"@[9] == '_');
    assert("select lo_lseek64($1, $2, $3)"@[10] == 'l');
    assert("select loread($1, $2)"@[9] == 'r');
    assert("select lowrite($1, $2)"@[9] == 'w');
    assert("select lo_close($1)"@[9] == '_' && "select lo_close($1)"@[10] == 'c');
}

/// Opening a blob for reading and writing gives a handle that can do both with
/// that blob; one that was opened for reading cannot write, and changes nothing
/// when it tries. Opening itself changes no blob and no other descriptor.
pub proof fn law_open_gives_access(
    session: Session,
    oid: u32,
    mode: OpenMode,
    free: i32,
    data: Seq<u8>,
    room: usize,
)
    requires
        session.blobs.contains_key(oid),
        !session.open.contains_key(free),
    ensures
        ({
            let (then, answer) = session.run(open_call(oid, mode), free);
            &&& answer == Answer::Opened(free)
            &&& opened(Ok(Ok(Some(free)))) == Ok::<i32, FileHandleError<Seq<char>>>(free)
            &&& then.has_open(free)
            &&& then.blobs == session.blobs
            &&& then.open[free].oid == oid
            &&& then.open[free].offset == 0
            &&& then.open.remove(free) == session.open
            &&& then.run(read_call(free, read_count(room)), 0).1 is Data
            &&& if mode == OpenMode::ReadWrite {
                then.run(write_call(free, data), 0).1 == Answer::Written(data.len() as int)
            } else {
                then.run(write_call(free, data), 0) == (then, Answer::Failed)
            }
        }),
{
    lemma_texts_differ();
    let then = session.run(open_call(oid, mode), free).0;
    assert(then.open.remove(free) =~= session.open);
}

/// Seeks in the blob under a descriptor to its end and writes the parts.
pub open spec fn append_parts(session: Session, fd_num: i32, parts: Seq<Seq<u8>>) -> Session {
    write_parts(session.run(seek_call(fd_num, SeekFrom::End(0)), 0).0, fd_num, parts)
}

/// Writes the parts one after the other.
pub open spec fn write_parts(session: Session, fd_num: i32, parts: Seq<Seq<u8>>) -> Session
    decreases parts.len(),
{
    if parts.len() == 0 {
        session
    } else {
        write_parts(
            session.run(write_call(fd_num, parts[0]), 0).0,
            fd_num,
            parts.drop_first(),
        )
    }
}

proof fn lemma_write_parts(session: Session, fd_num: i32, parts: Seq<Seq<u8>>)
    requires
        session.has_open(fd_num),
        session.open[fd_num].writable,
        session.open[fd_num].offset == session.object(fd_num).data.len(),
    ensures
        write_parts(session, fd_num, parts).blobs == session.blobs.insert(
            session.open[fd_num].oid,
            session.object(fd_num).data + parts.flatten(),
        ),
        write_parts(session, fd_num, parts).open.remove(fd_num) == session.open.remove(fd_num),
    decreases parts.len(),
{
    let oid = session.open[fd_num].oid;
    let data = session.object(fd_num).data;
    if parts.len() == 0 {
        assert(data + parts.flatten() =~= data);
        assert(session.blobs.insert(oid, data) =~= session.blobs);
    } else {
        lemma_texts_differ();
        let after = session.run(write_call(fd_num, parts[0]), 0).0;
        assert(data.take(data.len() as int) =~= data);
        assert(after.object(fd_num).data =~= data + parts[0]);
        lemma_write_parts(after, fd_num, parts.drop_first());
        assert(data + parts[0] + parts.drop_first().flatten() =~= data + parts.flatten());
        assert(after.blobs.insert(oid, data + parts.flatten()) =~= session.blobs.insert(
            oid,
            data + parts.flatten(),
        ));
        assert(after.open.remove(fd_num) =~= session.open.remove(fd_num));
    }
}

/// Appending, in however many parts, through the descriptor that a blob was
/// opened as adds the data at the end of that blob, and changes no other blob
/// and no other descriptor.
pub proof fn law_append_reaches_the_open_blob(
    session: Session,
    fd_num: i32,
    parts: Seq<Seq<u8>>,
)
    requires
        session.has_open(fd_num),
        session.open[fd_num].writable,
    ensures
        session.run(seek_call(fd_num, SeekFrom::End(0)), 0).1 == Answer::Position(
            session.blobs[session.open[fd_num].oid].len() as int,
        ),
        append_parts(session, fd_num, parts).blobs == session.blobs.insert(
            session.open[fd_num].oid,
            session.blobs[session.open[fd_num].oid] + parts.flatten(),
        ),
        append_parts(session, fd_num, parts).open.remove(fd_num) == session.open.remove(fd_num),
{
    lemma_texts_differ();
    let at_end = session.run(seek_call(fd_num, SeekFrom::End(0)), 0).0;
    assert(at_end.blobs =~= session.blobs);
    lemma_write_parts(at_end, fd_num, parts);
    assert(at_end.open.remove(fd_num) =~= session.open.remove(fd_num));
}

/// A seek through the descriptor that a blob was opened as leads, in that blob,
/// to the position asked for, counted from where it says; a position before the
/// start fails, and so does one from the start that takes all of 64 bits. It
/// changes no blob and no other descriptor.
pub proof fn law_seek_leads_there(session: Session, fd_num: i32, seek: SeekFrom)
    requires
        session.has_open(fd_num),
    ensures
        ({
            let (then, answer) = session.run(seek_call(fd_num, seek), 0);
            let target = match seek {
                SeekFrom::Start(n) => if n <= i64::MAX {
                    n as int
                } else {
                    -1
                },
                SeekFrom::Current(n) => session.open[fd_num].offset + n,
                SeekFrom::End(n) => session.blobs[session.open[fd_num].oid].len() + n,
            };
            &&& then.blobs == session.blobs
            &&& then.open.remove(fd_num) == session.open.remove(fd_num)
            &&& if target >= 0 {
                answer == Answer::Position(target) && then.open[fd_num].offset == target
            } else {
                answer is Failed && then.open[fd_num].offset == session.open[fd_num].offset
            }
        }),
{
    lemma_texts_differ();
    let then = session.run(seek_call(fd_num, seek), 0).0;
    assert(then.blobs =~= session.blobs);
    assert(then.open.remove(fd_num) =~= session.open.remove(fd_num));
}

/// A number to seek to from the start goes to Postgres as the signed number of
/// the same 64 bits.
pub proof fn law_seek_keeps_the_bits(n: u64)
    ensures
        i64::MIN <= as_signed(n) <= i64::MAX,
        (n - as_signed(n)) % 0x1_0000_0000_0000_0000 == 0,
{
}

/// A read through the descriptor that a blob was opened as gives the bytes at
/// the position: as many as there are, there is room for and 16 MiB hold. The
/// position moves past them, and nothing else changes.
pub proof fn law_read_fills_the_room(session: Session, fd_num: i32, room: usize)
    requires
        session.has_open(fd_num),
        session.open[fd_num].readable,
    ensures
        ({
            let (then, answer) = session.run(read_call(fd_num, read_count(room)), 0);
            let offset = session.open[fd_num].offset;
            let data = session.blobs[session.open[fd_num].oid];
            let left = if offset < data.len() {
                data.len() - offset
            } else {
                0
            };
            &&& answer matches Answer::Data(bytes)
            &&& bytes.len() <= left && bytes.len() <= room && bytes.len() <= 0x100_0000
            &&& bytes.len() == left || bytes.len() == room || bytes.len() == 0x100_0000
            &&& forall|i: int| 0 <= i < bytes.len() ==> bytes[i] == #[trigger] data[offset + i]
            &&& then.blobs == session.blobs
            &&& then.open[fd_num].offset == offset + bytes.len()
            &&& then.open.remove(fd_num) == session.open.remove(fd_num)
        }),
{
    lemma_texts_differ();
    let then = session.run(read_call(fd_num, read_count(room)), 0).0;
    assert(then.blobs =~= session.blobs);
    assert(then.open.remove(fd_num) =~= session.open.remove(fd_num));
    assert forall|i: int|
        0 <= i < session.object(fd_num).read(read_call(fd_num, read_count(room))).len() implies
        session.object(fd_num).read(read_call(fd_num, read_count(room)))[i]
        == #[trigger] session.object(fd_num).data[session.open[fd_num].offset + i] by {}
}

/// What reading on, into buffers with this much room, gives.
pub open spec fn read_on(session: Session, fd_num: i32, rooms: Seq<usize>) -> Seq<Seq<u8>>
    decreases rooms.len(),
{
    if rooms.len() == 0 {
        seq![]
    } else {
        let (then, answer) = session.run(read_call(fd_num, read_count(rooms[0])), 0);
        seq![answer->Data_0] + read_on(then, fd_num, rooms.drop_first())
    }
}

/// Reading on, into buffers of any room, gives what the blob holds from the
/// position on, in order; and when a read gives nothing, it was all of it.
pub proof fn law_reading_on_gives_the_whole_blob(
    session: Session,
    fd_num: i32,
    rooms: Seq<usize>,
)
    requires
        session.has_open(fd_num),
        session.open[fd_num].readable,
        forall|i: int| 0 <= i < rooms.len() ==> #[trigger] rooms[i] > 0,
    ensures
        ({
            let rest = range::bytes_from(
                session.blobs[session.open[fd_num].oid],
                session.open[fd_num].offset,
            );
            let pieces = read_on(session, fd_num, rooms);
            &&& pieces.len() == rooms.len()
            &&& pieces.flatten().is_prefix_of(rest)
            &&& (exists|i: int| 0 <= i < pieces.len() && (#[trigger] pieces[i]).len() == 0)
                ==> pieces.flatten() == rest
        }),
    decreases rooms.len(),
{
    let offset = session.open[fd_num].offset;
    let data = session.blobs[session.open[fd_num].oid];
    let rest = range::bytes_from(data, offset);
    let pieces = read_on(session, fd_num, rooms);
    if rooms.len() == 0 {
        assert(pieces.flatten() =~= seq![]);
    } else {
        law_read_fills_the_room(session, fd_num, rooms[0]);
        let (then, answer) = session.run(read_call(fd_num, read_count(rooms[0])), 0);
        let first = answer->Data_0;
        lemma_texts_differ();
        assert(then.open[fd_num].readable && then.open[fd_num].oid == session.open[fd_num].oid);
        assert forall|i: int|
            0 <= i < rooms.drop_first().len() implies #[trigger] rooms.drop_first()[i] > 0 by {
            assert(rooms.drop_first()[i] == rooms[i + 1]);
        }
        law_reading_on_gives_the_whole_blob(then, fd_num, rooms.drop_first());
        let later = read_on(then, fd_num, rooms.drop_first());
        let rest_later = range::bytes_from(data, offset + first.len());
        assert(pieces =~= seq![first] + later);
        assert(pieces.drop_first() =~= later);
        assert(pieces[0] == first);
        assert(pieces.flatten() == first + later.flatten());
        assert(first =~= rest.take(first.len() as int));
        assert(rest =~= first + rest_later);
        assert forall|i: int| 0 <= i < later.flatten().len() implies rest[first.len() + i]
            == later.flatten()[i] by {
            assert(rest_later[i] == later.flatten()[i]);
        }
        assert(pieces.flatten().is_prefix_of(rest)) by {
            assert(rest.subrange(0, pieces.flatten().len() as int) =~= pieces.flatten());
        }
        if exists|i: int| 0 <= i < pieces.len() && (#[trigger] pieces[i]).len() == 0 {
            let i = choose|i: int| 0 <= i < pieces.len() && (#[trigger] pieces[i]).len() == 0;
            if i == 0 {
                assert(rest.len() == 0);
                assert(pieces.flatten() =~= rest);
            } else {
                assert(later[i - 1] == pieces[i]);
            }
        }
    }
}

/// Closing gives up the descriptor that the blob was opened as, after which
/// nothing can be done through it, and no other; no blob changes.
pub proof fn law_close_gives_up_the_descriptor(
    session: Session,
    fd_num: i32,
    data: Seq<u8>,
    seek: SeekFrom,
    room: usize,
)
    requires
        session.has_open(fd_num),
    ensures
        ({
            let (then, answer) = session.run(close_call(fd_num), 0);
            &&& answer is Closed
            &&& then.blobs == session.blobs
            &&& then.open == session.open.remove(fd_num)
            &&& then.run(write_call(fd_num, data), 0) == (then, Answer::Failed)
            &&& then.run(seek_call(fd_num, seek), 0) == (then, Answer::Failed)
            &&& then.run(read_call(fd_num, read_count(room)), 0) == (then, Answer::Failed)
        }),
{
    lemma_texts_differ();
}

/// A read or a write that has ended, well or not, leaves the handle as it was
/// before it; while it runs, polling it waits and polling anything else is an
/// error. So does a seek, but for the position that it led to.
pub proof fn law_operations_leave_the_handle(handle: BlobHandle, position: u64)
    requires
        handle.inner is Some,
        handle.state is None,
    ensures
        handle.after(BlobOp::BeginRead).after(BlobOp::EndRead) == handle,
        handle.after(BlobOp::BeginWrite).after(BlobOp::EndWrite) == handle,
        handle.after(BlobOp::BeginSeek).after(BlobOp::EndSeek(None)) == handle,
        handle.after(BlobOp::BeginSeek).after(BlobOp::EndSeek(Some(position))) == (BlobHandle {
            position,
            ..handle
        }),
        handle.after(BlobOp::BeginRead).complete_step() is Cancelled,
        handle.after(BlobOp::BeginWrite).complete_step() is Cancelled,
        handle.after(BlobOp::BeginSeek).complete_step() is Await,
        handle.after(BlobOp::BeginShutdown).complete_step() is Cancelled,
        handle.after(BlobOp::BeginShutdown).after(BlobOp::EndClose(false)).state is None,
        handle.after(BlobOp::BeginShutdown).after(BlobOp::EndClose(true)).after(
            BlobOp::EndCommit,
        ).state is None,
        handle.after(BlobOp::BeginShutdown).after(BlobOp::EndClose(true)).after(
            BlobOp::EndCommit,
        ).after(BlobOp::BeginSeek).complete_step() == CompleteStep::<Seq<char>>::Ready(
            Err(FileHandleError::IsShutdown),
        ),
{
}

/// A blob is open only if a transaction was begun and `lo_open` gave a
/// descriptor, which is the one that the handle has then. Otherwise the error
/// says at which of the steps it failed, and with what.
pub proof fn law_open_tells_what_failed(fd_num: i32, e: Seq<char>)
    ensures
        opened(Ok(Ok(Some(fd_num)))) == Ok::<i32, FileHandleError<Seq<char>>>(fd_num),
        opened(Ok(Ok(None))) matches Err(FileHandleError::EmptyOpen),
        opened(Ok(Err(e))) matches Err(FileHandleError::QueryFailed(sql, why)) && sql
            == open_call(0, OpenMode::Read).sql && why == e,
        opened(Err(e)) matches Err(FileHandleError::TransactionBeginFailed(_, why)) && why == e,
{
}

/// What a handle writes goes to the blob that it was opened as, at the position
/// there: behind the end, which is where a file is written, it is appended. No
/// other blob changes, and the handle is busy writing until it is told that the
/// write has ended.
pub proof fn law_handle_writes_to_its_blob(session: Session, fd_num: i32, data: Vec<u8>)
    requires
        session.has_open(fd_num),
        session.open[fd_num].writable,
        session.open[fd_num].offset == session.object(fd_num).data.len(),
    ensures
        forall|handle: &mut BlobHandle, out: Result<Statement, FileHandleError>|
            (*handle).inner == Some(fd_num) && (*handle).state is None && #[trigger] call_ensures(
                BlobHandle::begin_write,
                (handle, data),
                out,
            ) ==> ({
                let oid = session.open[fd_num].oid;
                &&& out matches Ok(call)
                &&& session.run(call@, 0).1 == Answer::Written(data@.len() as int)
                &&& session.run(call@, 0).0.blobs == session.blobs.insert(
                    oid,
                    session.blobs[oid] + data@,
                )
                &&& session.run(call@, 0).0.open.remove(fd_num) == session.open.remove(fd_num)
                &&& final(handle).inner == Some(fd_num)
                &&& final(handle).state == Some(HandleState::Writing)
                &&& final(handle).position == (*handle).position
            }),
{
    lemma_write_parts(session, fd_num, seq![data@]);
    let after = session.run(write_call(fd_num, data@), 0).0;
    assert(seq![data@].drop_first() =~= seq![]);
    assert(write_parts(after, fd_num, seq![]) == after);
    assert(write_parts(session, fd_num, seq![data@]) == after);
    assert(seq![data@].flatten() =~= data@) by {
        seq![data@].lemma_flatten_one_element();
    }
    lemma_texts_differ();
}

/// A handle reads from the blob that it was opened as, at the position there,
/// as much as there is, there is room for and 16 MiB hold. With room for
/// something, it gets nothing only at the end. The handle is busy reading until
/// it is told that the read has ended.
pub proof fn law_handle_reads_from_its_blob(session: Session, fd_num: i32, room: usize)
    requires
        session.has_open(fd_num),
        session.open[fd_num].readable,
    ensures
        forall|handle: &mut BlobHandle, out: Result<Statement, FileHandleError>|
            (*handle).inner == Some(fd_num) && (*handle).state is None && #[trigger] call_ensures(
                BlobHandle::begin_read,
                (handle, room),
                out,
            ) ==> ({
                let rest = range::bytes_from(
                    session.object(fd_num).data,
                    session.open[fd_num].offset,
                );
                &&& out matches Ok(call)
                &&& session.run(call@, 0).1 matches Answer::Data(bytes)
                &&& bytes.is_prefix_of(rest)
                &&& bytes.len() <= room && bytes.len() <= 16_777_216
                &&& bytes.len() == rest.len() || bytes.len() == room || bytes.len() == 16_777_216
                &&& room > 0 && bytes.len() == 0 ==> rest.len() == 0
                &&& session.run(call@, 0).0.blobs == session.blobs
                &&& final(handle).inner == Some(fd_num)
                &&& final(handle).state == Some(HandleState::Reading)
                &&& final(handle).position == (*handle).position
            }),
{
    law_read_fills_the_room(session, fd_num, room);
    lemma_texts_differ();
}

/// A handle seeks in the blob that it was opened as, to the position asked for,
/// counted from where it says. A position before the start fails, and so does
/// one from the start that takes all of 64 bits.
pub proof fn law_handle_seeks_in_its_blob(session: Session, fd_num: i32, seek: SeekFrom)
    requires
        session.has_open(fd_num),
    ensures
        forall|handle: &mut BlobHandle, out: Option<Statement>|
            (*handle).inner == Some(fd_num) && #[trigger] call_ensures(
                BlobHandle::begin_seek,
                (handle, seek),
                out,
            ) ==> ({
                let target = match seek {
                    SeekFrom::Start(n) => if n <= i64::MAX {
                        n as int
                    } else {
                        -1
                    },
                    SeekFrom::Current(n) => session.open[fd_num].offset + n,
                    SeekFrom::End(n) => session.object(fd_num).data.len() + n,
                };
                &&& out matches Some(call)
                &&& session.run(call@, 0).0.blobs == session.blobs
                &&& if target >= 0 {
                    session.run(call@, 0).1 == Answer::Position(target)
                        && session.run(call@, 0).0.open[fd_num].offset == target
                } else {
                    session.run(call@, 0).1 is Failed
                }
                &&& final(handle).inner == Some(fd_num)
                &&& final(handle).state == Some(HandleState::Seeking)
                &&& final(handle).position == (*handle).position
            }),
{
    law_seek_leads_there(session, fd_num, seek);
}

/// Shutting a handle down closes the descriptor that it was opened as, and no
/// other; from then on the handle has none.
pub proof fn law_handle_closes_its_blob(session: Session, fd_num: i32)
    requires
        session.has_open(fd_num),
    ensures
        forall|handle: &mut BlobHandle, out: Result<Statement, FileHandleError>|
            (*handle).inner == Some(fd_num) && (*handle).state is None && #[trigger] call_ensures(
                BlobHandle::begin_shutdown,
                (handle,),
                out,
            ) ==> ({
                &&& out matches Ok(call)
                &&& session.run(call@, 0).1 is Closed
                &&& session.run(call@, 0).0.blobs == session.blobs
                &&& session.run(call@, 0).0.open == session.open.remove(fd_num)
                &&& final(handle).inner is None
                &&& final(handle).state == Some(HandleState::ShuttingDown)
            }),
{
    lemma_texts_differ();
}

/// A handle that is closed runs no statement: reading, writing and shutting it
/// down are refused, and so is a seek, when it is completed.
pub proof fn law_closed_handle_runs_nothing(data: Vec<u8>, room: usize, seek: SeekFrom)
    ensures
        forall|handle: &mut BlobHandle, out: Result<Statement, FileHandleError>|
            (*handle).inner is None && #[trigger] call_ensures(
                BlobHandle::begin_write,
                (handle, data),
                out,
            ) ==> (out matches Err(FileHandleError::IsShutdown)) && *final(handle) == *handle,
        forall|handle: &mut BlobHandle, out: Result<Statement, FileHandleError>|
            (*handle).inner is None && #[trigger] call_ensures(
                BlobHandle::begin_read,
                (handle, room),
                out,
            ) ==> (out matches Err(FileHandleError::IsShutdown)) && *final(handle) == *handle,
        forall|handle: &mut BlobHandle, out: Result<Statement, FileHandleError>|
            (*handle).inner is None && #[trigger] call_ensures(
                BlobHandle::begin_shutdown,
                (handle,),
                out,
            ) ==> (out matches Err(FileHandleError::IsShutdown)) && *final(handle) == *handle,
        forall|handle: &mut BlobHandle, out: Option<Statement>|
            (*handle).inner is None && #[trigger] call_ensures(
                BlobHandle::begin_seek,
                (handle, seek),
                out,
            ) ==> out is None,
        forall|handle: &mut BlobHandle, step: CompleteStep|
            (*handle).inner is None && (*handle).state == Some(HandleState::Seeking)
                && #[trigger] call_ensures(BlobHandle::poll_complete, (handle,), step) ==> (
            step@ matches CompleteStep::Ready(Err(FileHandleError::IsShutdown)))
                && final(handle).state is None,
{
}

/// What a read gave is given, and what a write or a seek came to; a seek is
/// remembered. A statement that gave no row or that failed is an error, which
/// says what failed and how. After it, the handle is free again.
pub proof fn law_replies_are_given(
    read: Result<Option<Vec<u8>>, String>,
    room: usize,
    sought: Result<Option<i64>, String>,
    written: Result<Option<i32>, String>,
)
    requires
        sought matches Ok(Some(offset)) ==> offset >= 0,
        written matches Ok(Some(n)) ==> n >= 0,
    ensures
        forall|handle: &mut BlobHandle, out: Result<Vec<u8>, FileHandleError>| #[trigger]
            call_ensures(BlobHandle::finish_read, (handle, read, room), out) ==> {
                &&& final(handle).state is None
                &&& final(handle).inner == (*handle).inner
                &&& final(handle).position == (*handle).position
                &&& match read {
                    Ok(Some(data)) => out matches Ok(given) && given == data,
                    Ok(None) => out matches Err(FileHandleError::EmptyRead),
                    Err(e) => out matches Err(FileHandleError::QueryFailed(sql, why)) && why@ == e@
                        && sql@ == read_call(0, 0).sql,
                }
            },
        forall|handle: &mut BlobHandle, out: Result<u64, FileHandleError>| #[trigger]
            call_ensures(BlobHandle::finish_seek, (handle, sought), out) ==> {
                &&& final(handle).state is None
                &&& final(handle).inner == (*handle).inner
                &&& match sought {
                    Ok(Some(offset)) => out matches Ok(given) && given == offset
                        && final(handle).position == offset,
                    Ok(None) => (out matches Err(FileHandleError::EmptyLseek64))
                        && final(handle).position == (*handle).position,
                    Err(e) => (out matches Err(FileHandleError::QueryFailed(sql, why)) && why@
                        == e@ && sql@ == seek_call(0, SeekFrom::End(0)).sql)
                        && final(handle).position == (*handle).position,
                }
            },
        forall|handle: &mut BlobHandle, out: Result<usize, FileHandleError>| #[trigger]
            call_ensures(BlobHandle::finish_write, (handle, written), out) ==> {
                &&& final(handle).state is None
                &&& final(handle).inner == (*handle).inner
                &&& final(handle).position == (*handle).position
                &&& match written {
                    Ok(Some(n)) => out matches Ok(given) && given == n,
                    Ok(None) => out matches Err(FileHandleError::EmptyWrite),
                    Err(e) => out matches Err(FileHandleError::QueryFailed(sql, why)) && why@ == e@
                        && sql@ == write_call(0, seq![]).sql,
                }
            },
{
}

/// A shutdown goes on to the commit only if the blob was closed, and ends well
/// only if the transaction was committed. Whatever fails is told, and the handle
/// is left with nothing in progress.
pub proof fn law_shutdown_commits(
    closed: Result<Option<i32>, String>,
    committed: Result<(), String>,
)
    ensures
        forall|handle: &mut BlobHandle, out: Result<(), FileHandleError>| #[trigger]
            call_ensures(BlobHandle::finish_close, (handle, closed), out) ==> {
                &&& final(handle).inner == (*handle).inner
                &&& match closed {
                    Ok(Some(_)) => out is Ok && final(handle).state == Some(
                        HandleState::Committing,
                    ),
                    Ok(None) => (out matches Err(FileHandleError::EmptyClose))
                        && final(handle).state is None,
                    Err(e) => (out matches Err(FileHandleError::QueryFailed(sql, why)) && why@
                        == e@ && sql@ == close_call(0).sql) && final(handle).state is None,
                }
            },
        forall|handle: &mut BlobHandle, out: Result<(), FileHandleError>| #[trigger]
            call_ensures(BlobHandle::finish_commit, (handle, committed), out) ==> {
                &&& final(handle).inner == (*handle).inner
                &&& final(handle).state is None
                &&& match committed {
                    Ok(_) => out is Ok,
                    Err(e) => out matches Err(FileHandleError::TransactionCommitFailed(_, why))
                        && why@ == e@,
                }
            },
{
}

/// An operation begins only if none is in progress, is waited for if it is the
/// one in progress (committing is a part of shutting down), and finds every
/// other one cancelled.
pub proof fn law_one_operation_at_a_time(handle: BlobHandle, wanted: HandleState, step: PollStep)
    requires
        call_ensures(BlobHandle::poll, (&handle, wanted), step),
    ensures
        step is Begin <==> handle.state is None,
        step is Await ==> handle.state == Some(wanted) || (handle.state == Some(
            HandleState::Committing,
        ) && wanted == HandleState::ShuttingDown),
        handle.state == Some(wanted) ==> step is Await,
        handle.state == Some(HandleState::Committing) && wanted == HandleState::ShuttingDown
            ==> step is Await,
{
}

/// A handle that was opened has the descriptor that came back and has nothing in
/// progress, at the start; what failed is told.
pub proof fn law_opened_handle_is_fresh(
    begun: Result<Result<Option<i32>, String>, String>,
    out: Result<BlobHandle, FileHandleError>,
)
    requires
        call_ensures(BlobHandle::open, (begun,), out),
    ensures
        begun matches Ok(Ok(Some(fd_num))) ==> (out matches Ok(handle) && handle.inner == Some(
            fd_num,
        ) && handle.state is None && handle.position == 0),
        begun matches Ok(Ok(None)) ==> (out matches Err(FileHandleError::EmptyOpen)),
        begun matches Ok(Err(e)) ==> (out matches Err(FileHandleError::QueryFailed(sql, why))
            && why@ == e@ && sql@ == open_call(0, OpenMode::Read).sql),
        begun matches Err(e) ==> (out matches Err(FileHandleError::TransactionBeginFailed(_, why))
            && why@ == e@),
{
}

} // verus!
