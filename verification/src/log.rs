use vstd::prelude::*;

verus! {

/// One step of reading a fan-out log at some index: the chunk at that
/// index, end-of-stream (past the tail of a closed log), or not ready
/// yet (past the tail of a log whose writer is still alive).
pub enum ReadOutcome<'a, T> {
    Ready(&'a T),
    EndOfStream,
    Pending,
}

/// The guarded state of one fan-out log: every chunk ever written, in
/// write order, and whether the writer is gone. In the daemon this
/// state sits behind a readers/writer lock supplied by the runtime;
/// the transitions below are what each critical section does.
pub struct SharedInternal<T> {
    items: Vec<T>,
    closed: bool,
}

impl<T> SharedInternal<T> {
    /// Every chunk ever written, in write order.
    pub closed spec fn spec_items(&self) -> Seq<T> {
        self.items@
    }

    /// Whether the writer is gone.
    pub closed spec fn spec_closed(&self) -> bool {
        self.closed
    }

    pub fn new() -> (s: SharedInternal<T>)
        ensures
            s.spec_items() == Seq::<T>::empty(),
            !s.spec_closed(),
    {
        SharedInternal { items: Vec::new(), closed: false }
    }
}

/// A fan-out log: an append-only sequence of chunks that any number of
/// late-joining readers replay from the start, with a closed flag that
/// marks the end of the stream.
pub struct Shared<T> {
    inner: SharedInternal<T>,
}

impl<T> Shared<T> {
    /// Every chunk ever written, in write order.
    pub closed spec fn items(&self) -> Seq<T> {
        self.inner.items@
    }

    /// Whether the writer is gone; once true, readers past the tail
    /// resolve to end-of-stream.
    pub closed spec fn is_closed(&self) -> bool {
        self.inner.closed
    }

    pub fn new() -> (s: Shared<T>)
        ensures
            s.items() == Seq::<T>::empty(),
            !s.is_closed(),
    {
        Shared { inner: SharedInternal::new() }
    }

    /// What a reader positioned at `idx` observes right now.
    pub fn read(&self, idx: usize) -> (r: ReadOutcome<'_, T>)
        ensures
            idx < self.items().len() ==> r == ReadOutcome::Ready(&self.items()[idx as int]),
            idx >= self.items().len() && self.is_closed() ==> r == ReadOutcome::<T>::EndOfStream,
            idx >= self.items().len() && !self.is_closed() ==> r == ReadOutcome::<T>::Pending,
    {
        if idx < self.inner.items.len() {
            ReadOutcome::Ready(&self.inner.items[idx])
        } else if self.inner.closed {
            ReadOutcome::EndOfStream
        } else {
            ReadOutcome::Pending
        }
    }

    /// Appends a chunk at the tail. Never fails and never blocks; in
    /// the daemon the write also wakes every suspended reader.
    pub fn write(&mut self, data: T)
        ensures
            final(self).items() == old(self).items().push(data),
            final(self).is_closed() == old(self).is_closed(),
    {
        self.inner.items.push(data);
    }

    /// Marks the end of the stream; existing chunks stay readable.
    pub fn close(&mut self)
        ensures
            final(self).items() == old(self).items(),
            final(self).is_closed(),
    {
        self.inner.closed = true;
    }
}

/// The writing half of a fan-out log; it owns the log state. Dropping
/// the writer in the daemon closes the log; here closing is explicit.
pub struct LogWriter<T> {
    shared: Shared<T>,
}

/// Mints independent readers, each starting at the head of the log.
pub struct LogReaderFactory<T> {
    marker: core::marker::PhantomData<T>,
}

/// A reader's cursor into a fan-out log: the index of the next chunk
/// it will observe. Every reader replays the log from the start.
pub struct LogReader<T> {
    idx: usize,
    marker: core::marker::PhantomData<T>,
}

impl<T> LogWriter<T> {
    /// The current log state.
    pub closed spec fn log(&self) -> Shared<T> {
        self.shared
    }

    /// Appends a chunk to the log.
    pub fn write(&mut self, data: T)
        ensures
            final(self).log().items() == old(self).log().items().push(data),
            final(self).log().is_closed() == old(self).log().is_closed(),
    {
        self.shared.write(data);
    }

    /// Ends the stream: what dropping the writer does in the daemon.
    pub fn close(&mut self)
        ensures
            final(self).log().items() == old(self).log().items(),
            final(self).log().is_closed(),
    {
        self.shared.close();
    }

    /// Read access to the log state, for readers to poll against.
    pub fn state(&self) -> (s: &Shared<T>)
        ensures
            *s == self.log(),
    {
        &self.shared
    }
}

impl<T> LogReaderFactory<T> {
    /// A fresh, independent reader at index 0: it will observe every
    /// chunk written before (and after) its creation.
    pub fn create_reader(&self) -> (r: LogReader<T>)
        ensures
            r.position() == 0,
    {
        LogReader { idx: 0, marker: core::marker::PhantomData }
    }
}

impl<T> LogReader<T> {
    /// The index of the next chunk this reader will observe, which is
    /// also how many chunks it has already observed.
    pub closed spec fn position(&self) -> int {
        self.idx as int
    }

    /// The chunks this reader has observed so far.
    pub open spec fn emitted(&self, shared: Shared<T>) -> Seq<T>
        recommends
            0 <= self.position() <= shared.items().len(),
    {
        shared.items().take(self.position())
    }

    /// One poll against the log: the next chunk if it exists (the
    /// cursor advances), end-of-stream if the log is closed and fully
    /// consumed, or pending (a suspension, in the daemon) otherwise.
    pub fn read_next<'a>(&mut self, shared: &'a Shared<T>) -> (r: ReadOutcome<'a, T>)
        ensures
            old(self).position() < shared.items().len() ==> {
                &&& r == ReadOutcome::Ready(&shared.items()[old(self).position()])
                &&& final(self).position() == old(self).position() + 1
            },
            old(self).position() >= shared.items().len() ==> {
                &&& final(self).position() == old(self).position()
                &&& shared.is_closed() ==> r == ReadOutcome::<T>::EndOfStream
                &&& !shared.is_closed() ==> r == ReadOutcome::<T>::Pending
            },
    {
        let tail = shared.inner.items.len();
        let r = shared.read(self.idx);
        if self.idx < tail {
            self.idx = self.idx + 1;
        }
        r
    }

    /// Replays everything that is left of a closed log: every chunk
    /// from the cursor to the tail, in write order. The sequential
    /// counterpart of draining the reader's stream.
    pub fn read_to_end<'a>(&mut self, shared: &'a Shared<T>) -> (out: Vec<&'a T>)
        requires
            shared.is_closed(),
            0 <= old(self).position() <= shared.items().len(),
        ensures
            out@.len() == shared.items().len() - old(self).position(),
            forall|i: int|
                0 <= i < out@.len() ==> out@[i] == &shared.items()[old(self).position() + i],
            final(self).position() == shared.items().len(),
    {
        let ghost start = self.position();
        let mut out: Vec<&'a T> = Vec::new();
        loop
            invariant
                shared.is_closed(),
                start == old(self).position(),
                start <= self.position() <= shared.items().len(),
                out@.len() == self.position() - start,
                forall|i: int| 0 <= i < out@.len() ==> out@[i] == &shared.items()[start + i],
            decreases shared.items().len() - self.position(),
        {
            match self.read_next(shared) {
                ReadOutcome::Ready(item) => {
                    out.push(item);
                },
                ReadOutcome::EndOfStream => {
                    return out;
                },
                ReadOutcome::Pending => {
                    return out;
                },
            }
        }
    }
}

/// Construction of a fan-out log, yielding the reader-minting half and
/// the writing half.
pub fn log_channel<T>() -> (r: (LogReaderFactory<T>, LogWriter<T>))
    ensures
        r.1.log().items() == Seq::<T>::empty(),
        !r.1.log().is_closed(),
{
    let shared = Shared::new();
    let factory = LogReaderFactory { marker: core::marker::PhantomData };
    (factory, LogWriter { shared })
}

/// The fan-out log is prefix-consistent: two readers of the same log
/// that have each emitted `k` chunks have emitted the same first `k`
/// chunks, whatever interleaving got them there.
pub proof fn lemma_prefix_consistent<T>(shared: Shared<T>, r1: LogReader<T>, r2: LogReader<T>, k: int)
    requires
        r1.position() == k,
        r2.position() == k,
        0 <= k <= shared.items().len(),
    ensures
        r1.emitted(shared) == r2.emitted(shared),
        r1.emitted(shared).len() == k,
{
}

/// What is left for a reader positioned at `idx` to observe, once the
/// writer is gone: the chunks from `idx` to the tail, in write order.
pub open spec fn replay<T>(shared: Shared<T>, idx: int) -> Seq<T>
    recommends
        0 <= idx <= shared.items().len(),
    decreases shared.items().len() - idx,
{
    if 0 <= idx < shared.items().len() {
        seq![shared.items()[idx]] + replay(shared, idx + 1)
    } else {
        Seq::empty()
    }
}

/// A reader created at the head of a log observes, once the log is
/// closed, every chunk ever written to it, in write order, and then
/// terminates; `replay` from index 0 is exactly the log's contents.
pub proof fn lemma_reader_observes_all<T>(shared: Shared<T>)
    requires
        shared.is_closed(),
    ensures
        replay(shared, 0) == shared.items(),
{
    lemma_replay_is_suffix(shared, 0);
    assert(replay(shared, 0) =~= shared.items());
}

/// `replay` from any in-range index is the suffix of the log that
/// starts there.
pub proof fn lemma_replay_is_suffix<T>(shared: Shared<T>, idx: int)
    requires
        0 <= idx <= shared.items().len(),
    ensures
        replay(shared, idx) == shared.items().skip(idx),
    decreases shared.items().len() - idx,
{
    if idx < shared.items().len() {
        lemma_replay_is_suffix(shared, idx + 1);
        assert(replay(shared, idx) =~= shared.items().skip(idx));
    } else {
        assert(replay(shared, idx) =~= shared.items().skip(idx));
    }
}

} // verus!
