//! Skip/limit trimming of a chunked byte stream.

use bytes::Bytes;
use vstd::prelude::*;

verus! {

/// The reference-counted byte buffer that chunks travel in.
#[verifier::external_type_specification]
#[verifier::external_body]
pub struct ExBytes(Bytes);

/// The bytes that a buffer holds, first to last.
pub uninterp spec fn bytes_content(b: Bytes) -> Seq<u8>;

/// `Bytes::len`: the number of bytes the buffer holds.
pub assume_specification[ Bytes::len ](b: &Bytes) -> (n: usize)
    ensures
        n == bytes_content(*b).len(),
;

/// `Bytes::new`: a buffer that holds nothing.
pub assume_specification[ Bytes::new ]() -> (b: Bytes)
    ensures
        bytes_content(b) == Seq::<u8>::empty(),
;

/// `Bytes::as_ref`: the bytes of the buffer as a slice.
#[verifier::external_body]
pub(crate) fn bytes_as_slice(b: &Bytes) -> (r: &[u8])
    ensures
        r@ == bytes_content(*b),
{
    b.as_ref()
}

/// `Bytes::slice` on the range `begin..end`: a buffer over exactly those
/// bytes. The outside function panics unless `begin <= end <= len`.
#[verifier::external_body]
fn bytes_slice(b: &Bytes, begin: usize, end: usize) -> (r: Bytes)
    requires
        begin <= end <= bytes_content(*b).len(),
    ensures
        bytes_content(r) == bytes_content(*b).subrange(begin as int, end as int),
{
    b.slice(begin..end)
}

/// The trimming state: how many bytes are still to be dropped, and how many
/// may still be let through (`None`: no bound).
pub struct Window {
    pub skip: nat,
    pub limit: Option<nat>,
}

/// What the filter does with one chunk.
pub enum Verdict {
    /// The whole chunk falls into the part to skip; nothing is emitted.
    Skipped,
    /// These bytes are emitted.
    Emitted(Seq<u8>),
    /// The limit was used up before this chunk: the output ends here.
    Ended,
}

impl Window {
    /// The untrimmed window.
    pub open spec fn full() -> Window {
        Window { skip: 0, limit: None }
    }

    /// The verdict on `chunk`.
    pub open spec fn verdict(self, chunk: Seq<u8>) -> Verdict {
        if chunk.len() <= self.skip {
            Verdict::Skipped
        } else {
            let rest = chunk.skip(self.skip as int);
            match self.limit {
                None => Verdict::Emitted(rest),
                Some(l) => if l == 0 {
                    Verdict::Ended
                } else if rest.len() > l {
                    Verdict::Emitted(rest.take(l as int))
                } else {
                    Verdict::Emitted(rest)
                },
            }
        }
    }

    /// The window after `chunk` has been seen.
    pub open spec fn after(self, chunk: Seq<u8>) -> Window {
        if chunk.len() <= self.skip {
            Window { skip: (self.skip - chunk.len()) as nat, limit: self.limit }
        } else {
            let rest = chunk.skip(self.skip as int);
            match self.limit {
                None => Window { skip: 0, limit: None },
                Some(l) => if rest.len() > l {
                    Window { skip: 0, limit: Some(0) }
                } else {
                    Window { skip: 0, limit: Some((l - rest.len()) as nat) }
                },
            }
        }
    }

    /// The chunks that come out when `chunks` go in, in order. The output
    /// stops at the first chunk whose verdict is `Ended`.
    pub open spec fn emitted(self, chunks: Seq<Seq<u8>>) -> Seq<Seq<u8>>
        decreases chunks.len(),
    {
        if chunks.len() == 0 {
            Seq::empty()
        } else {
            match self.verdict(chunks[0]) {
                Verdict::Skipped => self.after(chunks[0]).emitted(chunks.drop_first()),
                Verdict::Emitted(bytes) => seq![bytes] + self.after(chunks[0]).emitted(
                    chunks.drop_first(),
                ),
                Verdict::Ended => Seq::empty(),
            }
        }
    }

    /// The part of `bytes` that the window lets through: everything from
    /// offset `skip` on, cut after `limit` bytes.
    pub open spec fn cut(self, bytes: Seq<u8>) -> Seq<u8> {
        let from = if self.skip <= bytes.len() {
            self.skip as int
        } else {
            bytes.len() as int
        };
        let rest = bytes.skip(from);
        match self.limit {
            None => rest,
            Some(l) => if l <= rest.len() {
                rest.take(l as int)
            } else {
                rest
            },
        }
    }
}

/// All bytes of `chunks`, in order.
pub open spec fn joined(chunks: Seq<Seq<u8>>) -> Seq<u8>
    decreases chunks.len(),
{
    if chunks.len() == 0 {
        Seq::empty()
    } else {
        chunks[0] + joined(chunks.drop_first())
    }
}

/// What polling the wrapped stream gave.
pub enum Polled<E> {
    /// The next chunk.
    Chunk(Bytes),
    /// The stream failed.
    Failed(E),
    /// The stream is over.
    Finished,
    /// Nothing is ready yet.
    Pending,
}

/// What the filtered stream answers to a poll.
pub enum Emission<E> {
    /// A trimmed chunk.
    Chunk(Bytes),
    /// The wrapped stream's failure, unchanged.
    Failed(E),
    /// The output is over.
    Finished,
    /// Nothing is ready yet; the wrapped stream will wake the consumer.
    Pending,
    /// A chunk was swallowed by the skip. Nothing is ready, and the consumer
    /// is to be woken at once to poll again.
    Skipped,
}

/// What the wrapped stream answers to a poll, as far as the filter looks at
/// it.
pub enum Event {
    /// The next chunk, with these bytes.
    Chunk(Seq<u8>),
    /// The stream failed.
    Failure,
    /// The stream is over.
    End,
    /// Nothing is ready yet.
    Wait,
}

/// What the filtered stream answers to a poll.
pub enum Answer {
    /// A chunk with these bytes.
    Chunk(Seq<u8>),
    /// The failure of the wrapped stream.
    Failure,
    /// The output is over.
    End,
    /// Nothing is ready yet.
    Wait,
    /// Nothing is ready yet, and the consumer is to poll again at once.
    Skip,
}

/// The state of the filter: the trimming still to be done, and whether the
/// output is over. The output is over once the limit has cut it off, the
/// wrapped stream has ended or the wrapped stream has failed.
pub struct Filter {
    pub window: Window,
    pub ended: bool,
}

impl Filter {
    /// What the filter answers when the wrapped stream answers `event`.
    /// Once the output is over, the answer is that it is over, whatever the
    /// wrapped stream says.
    pub open spec fn answer(self, event: Event) -> Answer {
        if self.ended {
            Answer::End
        } else {
            match event {
                Event::Chunk(chunk) => match self.window.verdict(chunk) {
                    Verdict::Skipped => Answer::Skip,
                    Verdict::Emitted(bytes) => Answer::Chunk(bytes),
                    Verdict::Ended => Answer::End,
                },
                Event::Failure => Answer::Failure,
                Event::End => Answer::End,
                Event::Wait => Answer::Wait,
            }
        }
    }

    /// The state after the wrapped stream has answered `event`.
    pub open spec fn after(self, event: Event) -> Filter {
        if self.ended {
            self
        } else {
            match event {
                Event::Chunk(chunk) => Filter {
                    window: self.window.after(chunk),
                    ended: self.window.verdict(chunk) is Ended,
                },
                Event::Failure => Filter { window: self.window, ended: true },
                Event::End => Filter { window: self.window, ended: true },
                Event::Wait => self,
            }
        }
    }

    /// The state after the wrapped stream has answered `events`, in order.
    pub open spec fn after_all(self, events: Seq<Event>) -> Filter
        decreases events.len(),
    {
        if events.len() == 0 {
            self
        } else {
            self.after_all(events.drop_last()).after(events.last())
        }
    }

    /// What the filter answers to the last of `events`, after the wrapped
    /// stream has answered those before it.
    pub open spec fn last_answer(self, events: Seq<Event>) -> Answer
        recommends
            events.len() > 0,
    {
        self.after_all(events.drop_last()).answer(events.last())
    }
}

/// The event that an answer of the wrapped stream is.
pub open spec fn event_of<E>(polled: Polled<E>) -> Event {
    match polled {
        Polled::Chunk(bytes) => Event::Chunk(bytes_content(bytes)),
        Polled::Failed(_) => Event::Failure,
        Polled::Finished => Event::End,
        Polled::Pending => Event::Wait,
    }
}

/// Whether `emission` is the answer `answer` to `polled`: a chunk holds the
/// bytes of the answer, and a failure is that of the wrapped stream,
/// unchanged.
pub open spec fn is_answer<E>(emission: Emission<E>, polled: Polled<E>, answer: Answer) -> bool {
    match answer {
        Answer::Chunk(bytes) => emission matches Emission::Chunk(b) && bytes_content(b) == bytes,
        Answer::Failure => polled matches Polled::Failed(e) && emission == Emission::Failed(e),
        Answer::End => emission is Finished,
        Answer::Wait => emission is Pending,
        Answer::Skip => emission is Skipped,
    }
}

/// A chunked byte stream with `skip_bytes` bytes dropped from the front and
/// at most `limit_bytes` bytes let through. A failure of the wrapped stream
/// is handed on and ends the output.
pub struct ByteStream<T> {
    stream: T,
    skip_bytes: usize,
    limit_bytes: Option<usize>,
    ended: bool,
}

impl<T> ByteStream<T> {
    /// The wrapped stream.
    pub closed spec fn inner(&self) -> T {
        self.stream
    }

    /// The trimming still to be done.
    pub closed spec fn window(&self) -> Window {
        Window {
            skip: self.skip_bytes as nat,
            limit: match self.limit_bytes {
                None => None,
                Some(l) => Some(l as nat),
            },
        }
    }

    /// Whether the output is over.
    pub closed spec fn has_ended(&self) -> bool {
        self.ended
    }

    /// The state of the filter.
    pub open spec fn state(&self) -> Filter {
        Filter { window: self.window(), ended: self.has_ended() }
    }

    /// Wraps `stream` without trimming anything.
    pub fn new(stream: T) -> (r: Self)
        ensures
            r.inner() == stream,
            r.window() == Window::full(),
            !r.has_ended(),
    {
        ByteStream { stream, skip_bytes: 0, limit_bytes: None, ended: false }
    }

    /// Drops the first `bytes` bytes of the stream.
    pub fn skip_bytes(self, bytes: usize) -> (r: Self)
        ensures
            r.inner() == self.inner(),
            r.window() == (Window { skip: bytes as nat, limit: self.window().limit }),
            r.has_ended() == self.has_ended(),
    {
        ByteStream {
            stream: self.stream,
            skip_bytes: bytes,
            limit_bytes: self.limit_bytes,
            ended: self.ended,
        }
    }

    /// Ends the output after `bytes` bytes.
    pub fn limit_bytes(self, bytes: usize) -> (r: Self)
        ensures
            r.inner() == self.inner(),
            r.window() == (Window { skip: self.window().skip, limit: Some(bytes as nat) }),
            r.has_ended() == self.has_ended(),
    {
        ByteStream {
            stream: self.stream,
            skip_bytes: self.skip_bytes,
            limit_bytes: Some(bytes),
            ended: self.ended,
        }
    }

    /// The wrapped stream, to poll it.
    pub fn stream_mut(&mut self) -> (r: &mut T)
        ensures
            *r == old(self).inner(),
            final(self).inner() == *final(r),
            final(self).window() == old(self).window(),
            final(self).has_ended() == old(self).has_ended(),
    {
        &mut self.stream
    }

    /// Whether the output is over, so that the wrapped stream need not be
    /// polled any more.
    pub fn is_ended(&self) -> (r: bool)
        ensures
            r == self.has_ended(),
    {
        self.ended
    }

    /// The number of bytes still to be dropped.
    pub fn remaining_skip(&self) -> (n: usize)
        ensures
            n == self.window().skip,
    {
        self.skip_bytes
    }

    /// The number of bytes that may still be let through.
    pub fn remaining_limit(&self) -> (n: Option<usize>)
        ensures
            match n {
                None => self.window().limit is None,
                Some(l) => self.window().limit == Some(l as nat),
            },
    {
        self.limit_bytes
    }

    /// Trims one chunk and moves the window on.
    fn trim<E>(&mut self, bytes: &Bytes) -> (r: Emission<E>)
        ensures
            final(self).inner() == old(self).inner(),
            final(self).window() == old(self).window().after(bytes_content(*bytes)),
            final(self).has_ended() == (old(self).has_ended() || old(self).window().verdict(
                bytes_content(*bytes),
            ) is Ended),
            match old(self).window().verdict(bytes_content(*bytes)) {
                Verdict::Skipped => r is Skipped,
                Verdict::Emitted(out) => r matches Emission::Chunk(b) && bytes_content(b) == out,
                Verdict::Ended => r is Finished,
            },
    {
        let len = bytes.len();
        if len <= self.skip_bytes {
            self.skip_bytes = self.skip_bytes - len;
            return Emission::Skipped;
        }
        let bytes = bytes_slice(bytes, self.skip_bytes, len);
        self.skip_bytes = 0;
        match self.limit_bytes {
            None => Emission::Chunk(bytes),
            Some(limit_bytes) => {
                if limit_bytes == 0 {
                    self.ended = true;
                    Emission::Finished
                } else if bytes.len() > limit_bytes {
                    let bytes = bytes_slice(&bytes, 0, limit_bytes);
                    self.limit_bytes = Some(0);
                    Emission::Chunk(bytes)
                } else {
                    self.limit_bytes = Some(limit_bytes - bytes.len());
                    Emission::Chunk(bytes)
                }
            },
        }
    }

    /// Decides what the filtered stream answers when the wrapped stream has
    /// answered `polled`, and moves the filter on. A chunk is trimmed; a
    /// failure is handed on unchanged and ends the output, as the end of
    /// the wrapped stream and the end of the limit do. Once the output is
    /// over, the answer is `Finished` whatever was polled.
    pub fn advance<E>(&mut self, polled: Polled<E>) -> (r: Emission<E>)
        ensures
            final(self).inner() == old(self).inner(),
            final(self).state() == old(self).state().after(event_of(polled)),
            is_answer(r, polled, old(self).state().answer(event_of(polled))),
    {
        if self.ended {
            return Emission::Finished;
        }
        match polled {
            Polled::Chunk(bytes) => self.trim(&bytes),
            Polled::Failed(e) => {
                self.ended = true;
                Emission::Failed(e)
            },
            Polled::Finished => {
                self.ended = true;
                Emission::Finished
            },
            Polled::Pending => Emission::Pending,
        }
    }
}

/// Once the output is over it stays over: every later answer is that it is
/// over, and the filter does not change any more.
pub proof fn ended_output_stays_ended(filter: Filter, events: Seq<Event>)
    requires
        filter.ended,
    ensures
        filter.after_all(events) == filter,
        events.len() > 0 ==> filter.last_answer(events) is End,
    decreases events.len(),
{
    if events.len() > 0 {
        ended_output_stays_ended(filter, events.drop_last());
    }
}

/// A failure of the wrapped stream ends the output: it is handed on, unless
/// the output was over before, and whatever the wrapped stream answers
/// afterwards, the filter answers that the output is over.
pub proof fn failure_ends_the_output(filter: Filter, before: Seq<Event>, after: Seq<Event>)
    requires
        after.len() > 0,
    ensures
        filter.last_answer(before.push(Event::Failure)) is Failure || filter.last_answer(
            before.push(Event::Failure),
        ) is End,
        !filter.after_all(before).ended ==> filter.last_answer(before.push(Event::Failure))
            is Failure,
        filter.after_all(before.push(Event::Failure)).ended,
        filter.last_answer(before.push(Event::Failure) + after) is End,
{
    let failed = before.push(Event::Failure);
    assert(failed.drop_last() == before);
    assert(failed.last() == Event::Failure);
    let stopped = filter.after_all(failed);
    assert(stopped.ended);
    let all = failed + after;
    let earlier = after.drop_last();
    assert(all.drop_last() == failed + earlier);
    assert(all.last() == after.last());
    after_all_in_two(filter, failed, earlier);
    ended_output_stays_ended(stopped, earlier);
}

/// Taking events in two runs is taking them in one.
proof fn after_all_in_two(filter: Filter, first: Seq<Event>, second: Seq<Event>)
    ensures
        filter.after_all(first + second) == filter.after_all(first).after_all(second),
    decreases second.len(),
{
    if second.len() == 0 {
        assert(first + second == first);
    } else {
        let all = first + second;
        assert(all.drop_last() == first + second.drop_last());
        assert(all.last() == second.last());
        after_all_in_two(filter, first, second.drop_last());
    }
}

/// The contents of each buffer of `chunks`.
pub open spec fn contents(chunks: Seq<Bytes>) -> Seq<Seq<u8>> {
    chunks.map_values(|b: Bytes| bytes_content(b))
}

impl ByteStream<Vec<Bytes>> {
    /// Runs the filter over a stream that is held in memory and returns the
    /// chunks that come out.
    pub fn collect(self) -> (out: Vec<Bytes>)
        ensures
            contents(out@) == self.window().emitted(contents(self.inner()@)),
            joined(contents(out@)) == self.window().cut(joined(contents(self.inner()@))),
    {
        let ghost start = self.window();
        let ghost all = contents(self.inner()@);
        let mut this = self;
        let mut out: Vec<Bytes> = Vec::new();
        let mut i: usize = 0;
        let mut ended = false;
        assert(all.skip(0) == all);
        assert(contents(out@) + start.emitted(all) == start.emitted(all));
        while i < this.stream.len() && !ended
            invariant
                i <= this.stream.len(),
                contents(this.stream@) == all,
                ended ==> start.emitted(all) == contents(out@),
                !ended ==> start.emitted(all) == contents(out@) + this.window().emitted(
                    all.skip(i as int),
                ),
            decreases this.stream.len() - i, if ended { 0int } else { 1int },
        {
            let ghost before = this.window();
            let ghost rest = all.skip(i as int);
            let ghost chunk = bytes_content(this.stream@[i as int]);
            assert(rest[0] == chunk);
            assert(rest.drop_first() == all.skip(i + 1));
            let chunk_copy = bytes_slice(&this.stream[i], 0, this.stream[i].len());
            assert(bytes_content(chunk_copy) == chunk);
            match this.trim::<()>(&chunk_copy) {
                Emission::Chunk(bytes) => {
                    let ghost shown = contents(out@);
                    out.push(bytes);
                    assert(contents(out@) == shown + seq![bytes_content(bytes)]);
                    i = i + 1;
                },
                Emission::Finished => {
                    ended = true;
                },
                _ => {
                    i = i + 1;
                },
            }
        }
        proof {
            if !ended {
                assert(all.skip(i as int).len() == 0);
            }
            lemma_emitted_is_cut(start, all);
        }
        out
    }
}

/// Joining distributes over appending one chunk in front.
proof fn lemma_joined_cons(first: Seq<u8>, rest: Seq<Seq<u8>>)
    ensures
        joined(seq![first] + rest) == first + joined(rest),
{
    let all = seq![first] + rest;
    assert(all[0] == first);
    assert(all.drop_first() == rest);
}

/// The bytes that come out of the filter are the window's cut of the bytes
/// that go in: whatever the chunking, the output is the input from offset
/// `skip` on, cut after `limit` bytes.
pub proof fn lemma_emitted_is_cut(window: Window, chunks: Seq<Seq<u8>>)
    ensures
        joined(window.emitted(chunks)) == window.cut(joined(chunks)),
    decreases chunks.len(),
{
    if chunks.len() == 0 {
        assert(window.cut(joined(chunks)) == Seq::<u8>::empty());
    } else {
        let first = chunks[0];
        let rest = chunks.drop_first();
        let next = window.after(first);
        lemma_emitted_is_cut(next, rest);
        match window.verdict(first) {
            Verdict::Skipped => {
                assert(window.cut(first + joined(rest)) == next.cut(joined(rest)));
            },
            Verdict::Emitted(bytes) => {
                lemma_joined_cons(bytes, next.emitted(rest));
                assert(window.cut(first + joined(rest)) == bytes + next.cut(joined(rest)));
            },
            Verdict::Ended => {
                assert(window.cut(first + joined(rest)) == Seq::<u8>::empty());
            },
        }
    }
}

/// Skipping `skip` bytes of a stream that is at least that long, with no
/// limit, gives exactly the bytes from offset `skip` to the end.
pub proof fn skip_emits_the_tail(chunks: Seq<Seq<u8>>, skip: nat)
    requires
        skip <= joined(chunks).len(),
    ensures
        joined((Window { skip, limit: None }).emitted(chunks)) == joined(chunks).skip(skip as int),
{
    lemma_emitted_is_cut(Window { skip, limit: None }, chunks);
}

/// With neither skip nor limit the output has the bytes of the input.
pub proof fn full_window_passes_everything(chunks: Seq<Seq<u8>>)
    ensures
        joined(Window::full().emitted(chunks)) == joined(chunks),
{
    lemma_emitted_is_cut(Window::full(), chunks);
    assert(joined(chunks).skip(0) == joined(chunks));
}

/// The output is never longer than the limit; a limit that the stream does
/// not reach changes nothing.
pub proof fn limit_bounds_the_output(chunks: Seq<Seq<u8>>, skip: nat, limit: nat)
    ensures
        joined((Window { skip, limit: Some(limit) }).emitted(chunks)).len() <= limit,
        limit >= joined(chunks).len() ==> joined(
            (Window { skip, limit: Some(limit) }).emitted(chunks),
        ) == joined((Window { skip, limit: None }).emitted(chunks)),
{
    lemma_emitted_is_cut(Window { skip, limit: Some(limit) }, chunks);
    lemma_emitted_is_cut(Window { skip, limit: None }, chunks);
}

/// Nothing comes out when the skip reaches the end of the stream, when the
/// limit is zero, or when nothing goes in.
pub proof fn nothing_is_emitted(window: Window, chunks: Seq<Seq<u8>>)
    requires
        window.skip >= joined(chunks).len() || window.limit == Some(0nat) || chunks.len() == 0,
    ensures
        window.emitted(chunks) == Seq::<Seq<u8>>::empty(),
    decreases chunks.len(),
{
    if chunks.len() > 0 {
        let first = chunks[0];
        let rest = chunks.drop_first();
        assert(joined(chunks).len() == first.len() + joined(rest).len());
        if first.len() <= window.skip {
            nothing_is_emitted(window.after(first), rest);
        }
    }
}

/// Every chunk that comes out holds at least one byte, and no more chunks
/// come out than go in.
pub proof fn emitted_chunks_are_nonempty(window: Window, chunks: Seq<Seq<u8>>)
    ensures
        window.emitted(chunks).len() <= chunks.len(),
        forall|i: int|
            0 <= i < window.emitted(chunks).len() ==> (#[trigger] window.emitted(chunks)[i]).len()
                > 0,
    decreases chunks.len(),
{
    if chunks.len() > 0 {
        emitted_chunks_are_nonempty(window.after(chunks[0]), chunks.drop_first());
    }
}

} // verus!
