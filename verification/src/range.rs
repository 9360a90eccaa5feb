//! Comparing a request body with what a file holds at some position.

use vstd::prelude::*;

use crate::exchange;
use crate::exchange::{Action, Event, ReadReply, SeekFrom, Step};

verus! {

/// Result of matching ranges of data.
#[derive(Clone, Copy, Debug, PartialEq, Eq, Structural)]
pub enum RangeMatch {
    Matches,
    LengthMismatch,
    DataMismatch,
}

/// Compares `chunks`, in this order, with the bytes `rest` of a file from some
/// position on. A chunk for which the file is too short is a length mismatch,
/// whatever it holds. If `to_end`, the file has to end where the chunks do.
pub open spec fn range_match(rest: Seq<u8>, chunks: Seq<Seq<u8>>, to_end: bool) -> RangeMatch
    decreases chunks.len(),
{
    if chunks.len() == 0 {
        if to_end && rest.len() > 0 {
            RangeMatch::LengthMismatch
        } else {
            RangeMatch::Matches
        }
    } else if chunks[0].len() > rest.len() {
        RangeMatch::LengthMismatch
    } else if rest.take(chunks[0].len() as int) != chunks[0] {
        RangeMatch::DataMismatch
    } else {
        range_match(rest.skip(chunks[0].len() as int), chunks.drop_first(), to_end)
    }
}

/// Where a comparison stands.
#[derive(Debug)]
pub enum RangePhase<B = Vec<u8>> {
    /// Seeking to the start of the range.
    Seeking,
    /// Waiting for a chunk of the request body.
    Receiving,
    /// Reading as much of the file as the chunk is long.
    Comparing(B),
    /// The body has ended; seeing whether the file has, too.
    Ending,
    Done,
}

impl View for RangePhase<Vec<u8>> {
    type V = RangePhase<Seq<u8>>;

    open spec fn view(&self) -> RangePhase<Seq<u8>> {
        match self {
            RangePhase::Seeking => RangePhase::Seeking,
            RangePhase::Receiving => RangePhase::Receiving,
            RangePhase::Comparing(data) => RangePhase::Comparing(data@),
            RangePhase::Ending => RangePhase::Ending,
            RangePhase::Done => RangePhase::Done,
        }
    }
}

/// What a comparison comes to: a verdict, or what went wrong.
pub type RangeStep = Step<Result<RangeMatch, String>>;

/// The same over mathematical values.
pub type RangeStepView = Step<Result<RangeMatch, Seq<char>>, Seq<char>, Seq<u8>>;

impl View for Step<Result<RangeMatch, String>, String, Vec<u8>> {
    type V = RangeStepView;

    open spec fn view(&self) -> RangeStepView {
        match self {
            Step::Perform(action) => Step::Perform(action@),
            Step::Finish(Ok(verdict)) => Step::Finish(Ok(*verdict)),
            Step::Finish(Err(e)) => Step::Finish(Err(e@)),
        }
    }
}

/// Checks that a range of data from a stream matches in length and content.
#[derive(Debug)]
pub struct RangeCheck<B = Vec<u8>> {
    /// Whether the file has to end where the data does.
    pub to_end: bool,
    pub phase: RangePhase<B>,
}

impl View for RangeCheck<Vec<u8>> {
    type V = RangeCheck<Seq<u8>>;

    open spec fn view(&self) -> RangeCheck<Seq<u8>> {
        RangeCheck { to_end: self.to_end, phase: self.phase@ }
    }
}

/// The event is one that the comparison waits for.
pub open spec fn range_awaits(
    check: RangeCheck<Seq<u8>>,
    event: Event<Seq<char>, Seq<u8>>,
) -> bool {
    match check.phase {
        RangePhase::Seeking => event is Position,
        RangePhase::Receiving => event is Chunk,
        RangePhase::Comparing(_) => event is Read,
        RangePhase::Ending => event is Read,
        RangePhase::Done => false,
    }
}

/// What follows in a comparison after `event`.
pub open spec fn range_next(
    check: RangeCheck<Seq<u8>>,
    event: Event<Seq<char>, Seq<u8>>,
) -> (RangeCheck<Seq<u8>>, RangeStepView) {
    let (phase, step): (RangePhase<Seq<u8>>, RangeStepView) = match (check.phase, event) {
        (RangePhase::Seeking, Event::Position(Ok(_))) => (
            RangePhase::Receiving,
            Step::Perform(Action::NextChunk),
        ),
        (RangePhase::Seeking, Event::Position(Err(e))) => (RangePhase::Done, Step::Finish(Err(e))),
        (RangePhase::Receiving, Event::Chunk(Ok(Some(data)))) => (
            RangePhase::Comparing(data),
            Step::Perform(Action::ReadExact(data.len() as usize)),
        ),
        (RangePhase::Receiving, Event::Chunk(Ok(None))) => if check.to_end {
            (RangePhase::Ending, Step::Perform(Action::ReadExact(1)))
        } else {
            (RangePhase::Done, Step::Finish(Ok(RangeMatch::Matches)))
        },
        (RangePhase::Receiving, Event::Chunk(Err(e))) => (RangePhase::Done, Step::Finish(Err(e))),
        (RangePhase::Comparing(data), Event::Read(ReadReply::Bytes(found))) => if found == data {
            (RangePhase::Receiving, Step::Perform(Action::NextChunk))
        } else {
            (RangePhase::Done, Step::Finish(Ok(RangeMatch::DataMismatch)))
        },
        (RangePhase::Comparing(_), Event::Read(ReadReply::UnexpectedEof)) => (
            RangePhase::Done,
            Step::Finish(Ok(RangeMatch::LengthMismatch)),
        ),
        (RangePhase::Ending, Event::Read(ReadReply::Bytes(_))) => (
            RangePhase::Done,
            Step::Finish(Ok(RangeMatch::LengthMismatch)),
        ),
        (RangePhase::Ending, Event::Read(ReadReply::UnexpectedEof)) => (
            RangePhase::Done,
            Step::Finish(Ok(RangeMatch::Matches)),
        ),
        (_, Event::Read(ReadReply::Failed(e))) => (RangePhase::Done, Step::Finish(Err(e))),
        (_, _) => (RangePhase::Done, Step::Finish(Err(exchange::unexpected()))),
    };
    (RangeCheck { phase, ..check }, step)
}

impl RangeCheck {
    /// Starts a comparison at `start_position`. This might seek off the end of
    /// the file. However, that's okay.
    pub fn start(start_position: u64, to_end: bool) -> (out: (RangeCheck, Action))
        ensures
            out.0@ == (RangeCheck { to_end, phase: RangePhase::<Seq<u8>>::Seeking }),
            out.1@ == Action::<Seq<char>, Seq<u8>>::Seek(SeekFrom::Start(start_position)),
    {
        (
            RangeCheck { to_end, phase: RangePhase::Seeking },
            Action::Seek(SeekFrom::Start(start_position)),
        )
    }

    /// Takes what the last action came to and says what to do next.
    pub fn step(&mut self, event: Event) -> (out: RangeStep)
        requires
            range_awaits(old(self)@, event@),
        ensures
            (final(self)@, out@) == range_next(old(self)@, event@),
    {
        let mut phase = RangePhase::Done;
        std::mem::swap(&mut phase, &mut self.phase);
        match (phase, event) {
            (RangePhase::Seeking, Event::Position(Ok(_))) => {
                self.phase = RangePhase::Receiving;
                Step::Perform(Action::NextChunk)
            },
            (RangePhase::Seeking, Event::Position(Err(e))) => Step::Finish(Err(e)),
            (RangePhase::Receiving, Event::Chunk(Ok(Some(data)))) => {
                let length = data.len();
                self.phase = RangePhase::Comparing(data);
                Step::Perform(Action::ReadExact(length))
            },
            (RangePhase::Receiving, Event::Chunk(Ok(None))) => if self.to_end {
                self.phase = RangePhase::Ending;
                Step::Perform(Action::ReadExact(1))
            } else {
                Step::Finish(Ok(RangeMatch::Matches))
            },
            (RangePhase::Receiving, Event::Chunk(Err(e))) => Step::Finish(Err(e)),
            (RangePhase::Comparing(data), Event::Read(ReadReply::Bytes(found))) => if same_bytes(
                &found,
                &data,
            ) {
                self.phase = RangePhase::Receiving;
                Step::Perform(Action::NextChunk)
            } else {
                Step::Finish(Ok(RangeMatch::DataMismatch))
            },
            (RangePhase::Comparing(_), Event::Read(ReadReply::UnexpectedEof)) => Step::Finish(
                Ok(RangeMatch::LengthMismatch),
            ),
            (RangePhase::Ending, Event::Read(ReadReply::Bytes(_))) => Step::Finish(
                Ok(RangeMatch::LengthMismatch),
            ),
            (RangePhase::Ending, Event::Read(ReadReply::UnexpectedEof)) => Step::Finish(
                Ok(RangeMatch::Matches),
            ),
            (_, Event::Read(ReadReply::Failed(e))) => Step::Finish(Err(e)),
            (_, _) => Step::Finish(Err(exchange::unexpected_event())),
        }
    }
}

/// Whether two byte strings are the same.
pub(crate) fn same_bytes(a: &Vec<u8>, b: &Vec<u8>) -> (same: bool)
    ensures
        same == (a@ == b@),
{
    let same = *a == *b;
    assert(same ==> a@ =~= b@);
    same
}

/// The bytes of a file from `position` on, of which there are none past its
/// end.
pub open spec fn bytes_from(file: Seq<u8>, position: int) -> Seq<u8> {
    if position <= file.len() {
        file.skip(position)
    } else {
        seq![]
    }
}

/// The bytes that each chunk of a body holds.
pub open spec fn chunk_views(chunks: Seq<Vec<u8>>) -> Seq<Seq<u8>> {
    chunks.map_values(|chunk: Vec<u8>| chunk@)
}

/// Reads exactly `count` bytes of a file held in memory.
fn read_exact(file: &Vec<u8>, position: usize, count: usize) -> (reply: ReadReply)
    requires
        position <= file.len(),
    ensures
        reply@ == if position + count <= file.len() {
            ReadReply::<Seq<char>, Seq<u8>>::Bytes(
                file@.subrange(position as int, position + count),
            )
        } else {
            ReadReply::<Seq<char>, Seq<u8>>::UnexpectedEof
        },
{
    if count > file.len() - position {
        return ReadReply::UnexpectedEof;
    }
    let mut data: Vec<u8> = Vec::new();
    for i in position..position + count
        invariant
            position + count <= file.len(),
            position <= i,
            data@ == file@.subrange(position as int, i as int),
    {
        data.push(file[i]);
        assert(data@ =~= file@.subrange(position as int, i + 1));
    }
    ReadReply::Bytes(data)
}

/// Checks that a range of data from a stream matches in length and content, on
/// a file held in memory.
pub fn check_range_matches(
    stream: &Vec<Vec<u8>>,
    start_position: u64,
    file: &Vec<u8>,
) -> (verdict: RangeMatch)
    ensures
        verdict == range_match(
            bytes_from(file@, start_position as int),
            chunk_views(stream@),
            true,
        ),
{
    let ghost chunks = chunk_views(stream@);
    let (mut check, _) = RangeCheck::start(start_position, true);
    let mut position: usize = if start_position <= file.len() as u64 {
        start_position as usize
    } else {
        file.len()
    };
    let _ = check.step(Event::Position(Ok(start_position)));
    assert(bytes_from(file@, start_position as int) =~= file@.skip(position as int));
    assert(chunks.skip(0) =~= chunks);
    for i in 0..stream.len()
        invariant
            check.to_end,
            check.phase@ == RangePhase::<Seq<u8>>::Receiving,
            position <= file.len(),
            chunks == chunk_views(stream@),
            range_match(bytes_from(file@, start_position as int), chunks, true) == range_match(
                file@.skip(position as int),
                chunks.skip(i as int),
                true,
            ),
    {
        let data = stream[i].clone();
        let length = data.len();
        let reply = read_exact(file, position, length);
        let ghost rest = file@.skip(position as int);
        assert(data@ =~= chunks[i as int]);
        assert(chunks.skip(i as int)[0] == data@);
        assert(chunks.skip(i as int).drop_first() =~= chunks.skip(i + 1));
        let _ = check.step(Event::Chunk(Ok(Some(data))));
        if length <= file.len() - position {
            assert(rest.take(length as int) =~= file@.subrange(
                position as int,
                position + length,
            ));
            assert(rest.skip(length as int) =~= file@.skip(position + length));
        }
        if let Step::Finish(Ok(verdict)) = check.step(Event::Read(reply)) {
            return verdict;
        }
        position = position + length;
    }
    assert(chunks.skip(chunks.len() as int) =~= seq![]);
    let _ = check.step(Event::Chunk(Ok(None)));
    match check.step(Event::Read(read_exact(file, position, 1))) {
        Step::Finish(Ok(verdict)) => verdict,
        _ => RangeMatch::Matches,
    }
}

/// A body matches the rest of a file if and only if all of it, however it came
/// in chunks, equals the rest of the file.
pub proof fn law_match_means_equal(rest: Seq<u8>, chunks: Seq<Seq<u8>>)
    ensures
        (range_match(rest, chunks, true) == RangeMatch::Matches) == (chunks.flatten() == rest),
    decreases chunks.len(),
{
    if chunks.len() > 0 {
        let n = chunks[0].len() as int;
        if n <= rest.len() {
            law_match_means_equal(rest.skip(n), chunks.drop_first());
            assert(rest =~= rest.take(n) + rest.skip(n));
        }
        let whole = chunks[0] + chunks.drop_first().flatten();
        assert(whole.take(n) =~= chunks[0]);
        assert(whole.skip(n) =~= chunks.drop_first().flatten());
    } else if rest.len() == 0 {
        assert(rest =~= chunks.flatten());
    }
}

/// A body matches the file at a position without reaching to its end if and
/// only if all of it, however it came in chunks, is what the file holds there.
pub proof fn law_match_means_prefix(rest: Seq<u8>, chunks: Seq<Seq<u8>>)
    ensures
        (range_match(rest, chunks, false) == RangeMatch::Matches) == chunks.flatten().is_prefix_of(
            rest,
        ),
    decreases chunks.len(),
{
    if chunks.len() > 0 {
        let n = chunks[0].len() as int;
        let tail = chunks.drop_first().flatten();
        let whole = chunks[0] + tail;
        if n <= rest.len() {
            law_match_means_prefix(rest.skip(n), chunks.drop_first());
            assert(rest =~= rest.take(n) + rest.skip(n));
            if whole.is_prefix_of(rest) {
                assert(rest.take(n) =~= chunks[0]);
                assert forall|i: int| 0 <= i < tail.len() implies rest.skip(n)[i] == tail[i] by {
                    assert(whole[n + i] == rest[n + i]);
                }
                assert(rest.skip(n).take(tail.len() as int) =~= tail);
            }
            if rest.take(n) == chunks[0] && tail.is_prefix_of(rest.skip(n)) {
                assert(rest.take(whole.len() as int) =~= whole);
            }
        }
    }
}

/// A body is said to differ in its data only if some byte of it differs from
/// the one at its place in the file, and in its length only if it is longer
/// than the rest of the file or, if it has to reach the end, shorter. A body
/// that is too long or too short, and otherwise the same, differs in its length.
pub proof fn law_mismatch_says_what_differs(rest: Seq<u8>, chunks: Seq<Seq<u8>>, to_end: bool)
    ensures
        range_match(rest, chunks, to_end) == RangeMatch::DataMismatch ==> exists|i: int|
            0 <= i < rest.len() && i < chunks.flatten().len() && #[trigger] chunks.flatten()[i]
                != rest[i],
        range_match(rest, chunks, to_end) == RangeMatch::LengthMismatch ==> chunks.flatten().len()
            > rest.len() || (to_end && chunks.flatten().len() < rest.len()),
        rest.is_prefix_of(chunks.flatten()) && rest.len() < chunks.flatten().len()
            ==> range_match(rest, chunks, to_end) == RangeMatch::LengthMismatch,
        to_end && chunks.flatten().is_prefix_of(rest) && chunks.flatten().len() < rest.len()
            ==> range_match(rest, chunks, to_end) == RangeMatch::LengthMismatch,
    decreases chunks.len(),
{
    let body = chunks.flatten();
    if chunks.len() == 0 {
        assert(body =~= seq![]);
    } else {
        let first = chunks[0];
        let tail = chunks.drop_first();
        let n = first.len() as int;
        assert(body == first + tail.flatten());
        if n > rest.len() {
            if to_end && body.is_prefix_of(rest) {
                assert(body.len() <= rest.len());
            }
        } else if rest.take(n) != first {
            let i = choose|i: int| 0 <= i < n && rest.take(n)[i] != first[i];
            if !(exists|i: int| 0 <= i < n && rest.take(n)[i] != first[i]) {
                assert(rest.take(n) =~= first);
            }
            assert(body[i] == first[i]);
            assert(body[i] != rest[i]);
            if rest.is_prefix_of(body) {
                assert(body.subrange(0, rest.len() as int)[i] == rest[i]);
            }
            if body.is_prefix_of(rest) {
                assert(rest.subrange(0, body.len() as int)[i] == body[i]);
            }
        } else {
            let later = rest.skip(n);
            law_mismatch_says_what_differs(later, tail, to_end);
            if exists|i: int|
                0 <= i < later.len() && i < tail.flatten().len() && #[trigger] tail.flatten()[i]
                    != later[i] {
                let i = choose|i: int|
                    0 <= i < later.len() && i < tail.flatten().len() && #[trigger] tail.flatten()[i]
                        != later[i];
                assert(body[n + i] == tail.flatten()[i]);
                assert(rest[n + i] == later[i]);
            }
            if rest.is_prefix_of(body) {
                assert(tail.flatten().subrange(0, later.len() as int) =~= later) by {
                    assert forall|i: int| 0 <= i < later.len() implies tail.flatten()[i]
                        == later[i] by {
                        assert(body.subrange(0, rest.len() as int)[n + i] == rest[n + i]);
                    }
                }
            }
            if body.is_prefix_of(rest) {
                assert(later.subrange(0, tail.flatten().len() as int) =~= tail.flatten()) by {
                    assert forall|i: int| 0 <= i < tail.flatten().len() implies later[i]
                        == tail.flatten()[i] by {
                        assert(rest.subrange(0, body.len() as int)[n + i] == body[n + i]);
                    }
                }
            }
        }
    }
}

/// A stream matches a file from a position on if and only if it is all that the
/// file holds from there on; past the end, that is nothing.
pub proof fn law_stream_matches_the_rest_of_the_file(
    stream: Vec<Vec<u8>>,
    start_position: u64,
    file: Vec<u8>,
    verdict: RangeMatch,
)
    requires
        call_ensures(check_range_matches, (&stream, start_position, &file), verdict),
    ensures
        start_position <= file@.len() ==> (verdict == RangeMatch::Matches <==> chunk_views(
            stream@,
        ).flatten() == file@.skip(start_position as int)),
        start_position > file@.len() ==> (verdict == RangeMatch::Matches <==> chunk_views(
            stream@,
        ).flatten().len() == 0),
{
    let body = chunk_views(stream@).flatten();
    law_match_means_equal(bytes_from(file@, start_position as int), chunk_views(stream@));
    if body.len() == 0 {
        assert(body =~= seq![]);
    }
}

/// Whatever goes wrong in a comparison ends it with an error that says what it
/// was: it is neither a match nor a mismatch.
pub proof fn law_failed_comparison_decides_nothing(
    check: RangeCheck<Seq<u8>>,
    event: Event<Seq<char>, Seq<u8>>,
    e: Seq<char>,
)
    requires
        range_awaits(check, event),
        ({
            ||| event == Event::<Seq<char>, Seq<u8>>::Position(Err(e))
            ||| event == Event::<Seq<char>, Seq<u8>>::Chunk(Err(e))
            ||| event == Event::<Seq<char>, Seq<u8>>::Read(ReadReply::Failed(e))
        }),
    ensures
        range_next(check, event).1 matches Step::Finish(Err(why)) && why == e,
{
}

/// A comparison starts by going to where it is to start, and reads on from
/// there what the body says, byte for byte as much as has come.
pub proof fn law_comparison_starts_at_its_position(
    start_position: u64,
    to_end: bool,
    out: (RangeCheck, Action),
    data: Seq<u8>,
)
    requires
        call_ensures(RangeCheck::start, (start_position, to_end), out),
        data.len() <= usize::MAX,
    ensures
        out.1 matches Action::Seek(SeekFrom::Start(position)) && position == start_position,
        ({
            let sought = range_next(out.0@, Event::Position(Ok(start_position)));
            let came = range_next(sought.0, Event::Chunk(Ok(Some(data))));
            &&& sought.1 matches Step::Perform(Action::NextChunk)
            &&& came.1 matches Step::Perform(Action::ReadExact(count))
            &&& count == data.len()
        }),
{
}

} // verus!
