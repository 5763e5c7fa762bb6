use vstd::prelude::*;

verus! {

/// The first `max` bytes of `s`, or all of `s` when it is no longer.
pub open spec fn truncate_to(s: Seq<u8>, max: nat) -> Seq<u8> {
    if s.len() <= max {
        s
    } else {
        s.take(max as int)
    }
}

/// The chunks of a body joined in the order they came.
pub open spec fn concat_chunks(chunks: Seq<Seq<u8>>) -> Seq<u8>
    decreases chunks.len(),
{
    if chunks.len() == 0 {
        Seq::empty()
    } else {
        concat_chunks(chunks.drop_last()) + chunks.last()
    }
}

/// What a body stream reports next, as the collector sees it.
pub enum BodyEvent {
    /// A chunk of data.
    Chunk(Vec<u8>),
    /// The stream failed; what came before is kept.
    StreamError,
    /// The stream has no more data.
    End,
}

/// The model of a [`BodyEvent`].
pub enum BodyEventView {
    Chunk(Seq<u8>),
    StreamError,
    End,
}

impl View for BodyEvent {
    type V = BodyEventView;

    open spec fn view(&self) -> BodyEventView {
        match self {
            BodyEvent::Chunk(c) => BodyEventView::Chunk(c@),
            BodyEvent::StreamError => BodyEventView::StreamError,
            BodyEvent::End => BodyEventView::End,
        }
    }
}

/// Whether the reader of a body stream should read on.
#[derive(Clone, Copy, Debug, PartialEq, Eq, Structural)]
pub enum Flow {
    /// Read the next event of the stream.
    Continue,
    /// Stop reading; the collected bytes are final.
    Stop,
}

/// The model of a [`BodyCollector`]: the bytes kept, the limit, and whether
/// collection has ended.
pub struct CollectorView {
    pub bytes: Seq<u8>,
    pub limit: nat,
    pub stopped: bool,
}

/// A collector that has seen nothing yet, with limit `max`.
pub open spec fn fresh_collector(max: nat) -> CollectorView {
    CollectorView { bytes: Seq::empty(), limit: max, stopped: false }
}

/// The collector after `event`. A chunk that fits under the limit is kept whole;
/// a chunk that crosses the limit is cut at it and ends collection; a failed or
/// finished stream ends collection with what was kept. An ended collector stays as
/// it is.
pub open spec fn next_collector(v: CollectorView, event: BodyEventView) -> CollectorView {
    if v.stopped {
        v
    } else {
        match event {
            BodyEventView::Chunk(c) => CollectorView {
                bytes: truncate_to(v.bytes + c, v.limit),
                limit: v.limit,
                stopped: v.bytes.len() + c.len() > v.limit,
            },
            _ => CollectorView { stopped: true, ..v },
        }
    }
}

/// The collector after the chunks `chunks`, in order.
pub open spec fn collect_chunks(v: CollectorView, chunks: Seq<Seq<u8>>) -> CollectorView
    decreases chunks.len(),
{
    if chunks.len() == 0 {
        v
    } else {
        next_collector(collect_chunks(v, chunks.drop_last()), BodyEventView::Chunk(chunks.last()))
    }
}

/// The flow that a collector in state `v` asks for.
pub open spec fn flow_of(v: CollectorView) -> Flow {
    if v.stopped {
        Flow::Stop
    } else {
        Flow::Continue
    }
}

/// Collects the body of a request up to a maximum number of bytes. Reaching the
/// limit is no error: the bytes collected so far are kept, cut at the limit.
pub struct BodyCollector {
    collected: Vec<u8>,
    max_bytes: usize,
    stopped: bool,
}

impl View for BodyCollector {
    type V = CollectorView;

    closed spec fn view(&self) -> CollectorView {
        CollectorView { bytes: self.collected@, limit: self.max_bytes as nat, stopped: self.stopped }
    }
}

impl BodyCollector {
    #[verifier::type_invariant]
    spec fn within_limit(self) -> bool {
        self.collected@.len() <= self.max_bytes
    }

    /// A collector that keeps at most `max_bytes` bytes.
    pub fn new(max_bytes: usize) -> (r: BodyCollector)
        ensures
            r@ == fresh_collector(max_bytes as nat),
    {
        BodyCollector { collected: Vec::new(), max_bytes, stopped: false }
    }

    /// Takes the next event of the body stream, and says whether to read on.
    pub fn step(&mut self, event: BodyEvent) -> (flow: Flow)
        ensures
            final(self)@ == next_collector(old(self)@, event@),
            final(self)@.bytes.len() <= final(self)@.limit,
            flow == flow_of(final(self)@),
            final(self)@.limit == old(self)@.limit,
            !(event@ is Chunk) ==> final(self)@.bytes == old(self)@.bytes && final(self)@.stopped,
            old(self)@.stopped ==> final(self)@ == old(self)@,
    {
        proof {
            use_type_invariant(&*self);
        }
        if self.stopped {
            return Flow::Stop;
        }
        match event {
            BodyEvent::Chunk(chunk) => self.push_chunk(chunk.as_slice()),
            _ => {
                self.stopped = true;
                Flow::Stop
            },
        }
    }

    fn push_chunk(&mut self, chunk: &[u8]) -> (flow: Flow)
        requires
            !old(self)@.stopped,
        ensures
            final(self)@ == next_collector(old(self)@, BodyEventView::Chunk(chunk@)),
            final(self)@.bytes.len() <= final(self)@.limit,
            flow == flow_of(final(self)@),
    {
        proof {
            use_type_invariant(&*self);
        }
        let mut collected: Vec<u8> = Vec::new();
        std::mem::swap(&mut collected, &mut self.collected);
        let ghost start = collected@;
        let room = self.max_bytes - collected.len();
        let overflow = chunk.len() > room;
        let take = if overflow { room } else { chunk.len() };
        let mut i: usize = 0;
        while i < take
            invariant
                i <= take <= chunk@.len(),
                take <= room,
                room == self.max_bytes - start.len(),
                start.len() <= self.max_bytes,
                collected@ == start + chunk@.take(i as int),
            decreases take - i,
        {
            collected.push(chunk[i]);
            assert(chunk@.take(i + 1) =~= chunk@.take(i as int).push(chunk@[i as int]));
            i = i + 1;
        }
        assert(collected@ =~= truncate_to(start + chunk@, self.max_bytes as nat)) by {
            if !overflow {
                assert(chunk@.take(take as int) =~= chunk@);
            } else {
                assert((start + chunk@).take(self.max_bytes as int) =~= start + chunk@.take(take as int));
            }
        }
        self.collected = collected;
        if overflow {
            self.stopped = true;
            Flow::Stop
        } else {
            Flow::Continue
        }
    }

    /// Whether collection has ended.
    pub fn is_stopped(&self) -> (r: bool)
        ensures
            r == self@.stopped,
    {
        self.stopped
    }

    /// The collected bytes.
    pub fn into_bytes(self) -> (r: Vec<u8>)
        ensures
            r@ == self@.bytes,
            r@.len() <= self@.limit,
    {
        proof {
            use_type_invariant(&self);
        }
        self.collected
    }
}

/// Cutting a body at the limit and then adding more bytes and cutting again keeps
/// the same bytes as cutting the whole once: collecting chunk by chunk loses nothing
/// that a single cut of the whole body would keep.
pub proof fn law_truncate_absorbs(a: Seq<u8>, b: Seq<u8>, max: nat)
    ensures
        truncate_to(truncate_to(a, max) + b, max) == truncate_to(a + b, max),
{
    if a.len() <= max {
    } else {
        assert((a + b).take(max as int) =~= a.take(max as int));
        assert((a.take(max as int) + b).take(max as int) =~= a.take(max as int));
    }
}

/// Once the bytes seen exceed the limit, whatever comes after them does not change
/// what is kept: the collector may stop reading.
pub proof fn law_bytes_past_limit_are_dropped(seen: Seq<u8>, rest: Seq<u8>, max: nat)
    requires
        seen.len() > max,
    ensures
        truncate_to(seen + rest, max) == truncate_to(seen, max),
{
    assert((seen + rest).take(max as int) =~= seen.take(max as int));
}

/// Feeding a fresh collector the chunks of a body one at a time keeps exactly the
/// first `max` bytes of the whole body (all of it when it is no longer), and ends
/// collection exactly when the body is longer than `max`.
pub proof fn law_collect_keeps_prefix(max: nat, chunks: Seq<Seq<u8>>)
    ensures
        collect_chunks(fresh_collector(max), chunks).bytes == truncate_to(concat_chunks(chunks), max),
        collect_chunks(fresh_collector(max), chunks).stopped == (concat_chunks(chunks).len() > max),
        collect_chunks(fresh_collector(max), chunks).limit == max,
    decreases chunks.len(),
{
    if chunks.len() == 0 {
    } else {
        let before = chunks.drop_last();
        let c = chunks.last();
        law_collect_keeps_prefix(max, before);
        let v = collect_chunks(fresh_collector(max), before);
        if v.stopped {
            law_bytes_past_limit_are_dropped(concat_chunks(before), c, max);
        } else {
            law_truncate_absorbs(concat_chunks(before), c, max);
        }
    }
}

/// The end of the stream, or a failure of the stream, ends collection and keeps
/// every byte collected so far.
pub proof fn law_end_keeps_bytes(v: CollectorView)
    ensures
        next_collector(v, BodyEventView::End).bytes == v.bytes,
        next_collector(v, BodyEventView::StreamError).bytes == v.bytes,
        next_collector(v, BodyEventView::End).stopped,
        next_collector(v, BodyEventView::StreamError).stopped,
        next_collector(v, BodyEventView::End).limit == v.limit,
{
}

/// A chunk given to a collector that is still reading and within its limit adds
/// the chunk's bytes after the kept ones, as many as fit under the limit: the kept
/// bytes become a prefix of the old bytes followed by the chunk, of length the
/// smaller of their total and the limit. Collection ends exactly when they did not
/// all fit.
pub proof fn law_chunk_appends_up_to_limit(v: CollectorView, chunk: Seq<u8>)
    requires
        !v.stopped,
        v.bytes.len() <= v.limit,
    ensures
        ({
            let w = next_collector(v, BodyEventView::Chunk(chunk));
            let all = v.bytes + chunk;
            &&& w.limit == v.limit
            &&& w.bytes.len() == if all.len() <= v.limit { all.len() } else { v.limit }
            &&& forall|i: int| 0 <= i < w.bytes.len() ==> #[trigger] w.bytes[i] == all[i]
            &&& w.stopped == (all.len() > v.limit)
        }),
{
}

/// Feeding a fresh collector the chunks of a body and then the end of the stream
/// keeps the first `max` bytes of the whole body: all of it when it is no longer.
pub proof fn law_chunks_then_end_keep_prefix(max: nat, chunks: Seq<Seq<u8>>)
    ensures
        ({
            let w = next_collector(collect_chunks(fresh_collector(max), chunks), BodyEventView::End);
            let all = concat_chunks(chunks);
            &&& w.bytes.len() == if all.len() <= max { all.len() } else { max }
            &&& forall|i: int| 0 <= i < w.bytes.len() ==> #[trigger] w.bytes[i] == all[i]
            &&& w.stopped
        }),
{
    law_collect_keeps_prefix(max, chunks);
}

} // verus!
