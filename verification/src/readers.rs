//! A bounded replay window over a byte stream that cannot seek.
//!
//! Reading the source is the caller's work. The reader decides, for each read
//! request, whether it is answered from the retained window or by the source,
//! and which of the source's bytes are retained.

use vstd::prelude::*;

verus! {

/// How many leading bytes of a stream are kept for replay.
pub const CACHE_LEN: usize = 4096;

/// The retained window and the position in it from which the next read is served.
///
/// A cursor at the end of the window means that the next read goes to the source.
pub struct ReaderModel {
    pub cache: Seq<u8>,
    pub cursor: nat,
}

impl ReaderModel {
    /// The cursor lies in the window, and the window is no longer than `CACHE_LEN`.
    pub open spec fn wf(self) -> bool {
        self.cursor <= self.cache.len() <= CACHE_LEN
    }

    /// A reader that has seen nothing.
    pub open spec fn fresh() -> ReaderModel {
        ReaderModel { cache: Seq::empty(), cursor: 0 }
    }

    /// The same window with the cursor at its start.
    pub open spec fn rewound(self) -> ReaderModel {
        ReaderModel { cache: self.cache, cursor: 0 }
    }

    /// Nothing retained lies ahead of the cursor.
    pub open spec fn at_end(self) -> bool {
        self.cursor >= self.cache.len()
    }

    /// How many retained bytes answer a request for `want` bytes.
    pub open spec fn available(self, want: nat) -> nat {
        if self.at_end() {
            0
        } else if self.cache.len() - self.cursor <= want {
            (self.cache.len() - self.cursor) as nat
        } else {
            want
        }
    }

    /// The retained bytes that answer a request for `want` bytes.
    pub open spec fn served(self, want: nat) -> Seq<u8> {
        self.cache.subrange(self.cursor as int, (self.cursor + self.available(want)) as int)
    }

    /// The state after a request for `want` bytes was answered from the window.
    pub open spec fn after_serving(self, want: nat) -> ReaderModel {
        ReaderModel { cache: self.cache, cursor: self.cursor + self.available(want) }
    }

    /// How many of `len` bytes handed out by the source still fit the window.
    pub open spec fn kept(self, len: nat) -> nat {
        if self.cache.len() >= CACHE_LEN {
            0
        } else if CACHE_LEN - self.cache.len() <= len {
            (CACHE_LEN - self.cache.len()) as nat
        } else {
            len
        }
    }

    /// The state after the source handed out `bytes` for a read at the end of the window.
    /// A reader whose cursor is inside the window keeps its state.
    pub open spec fn absorbed(self, bytes: Seq<u8>) -> ReaderModel {
        if self.cursor == self.cache.len() {
            let cache = self.cache + bytes.subrange(0, self.kept(bytes.len()) as int);
            ReaderModel { cache, cursor: cache.len() }
        } else {
            self
        }
    }
}

/// Where a sequence of read requests leaves a reader.
pub struct Session {
    pub reader: ReaderModel,
    /// Everything handed to the caller, in order.
    pub delivered: Seq<u8>,
    /// How many reads reached the source and were answered by it.
    pub consumed: nat,
}

/// Serves the requests `wants` in turn, starting from `m`.
///
/// `chunks` holds what the source hands out on its successive reads. A request
/// that reaches a source with no chunk left delivers nothing.
pub open spec fn read_all(m: ReaderModel, wants: Seq<nat>, chunks: Seq<Seq<u8>>) -> Session
    decreases wants.len(),
{
    if wants.len() == 0 {
        Session { reader: m, delivered: Seq::empty(), consumed: 0 }
    } else if !m.at_end() {
        let rest = read_all(m.after_serving(wants[0]), wants.drop_first(), chunks);
        Session {
            reader: rest.reader,
            delivered: m.served(wants[0]) + rest.delivered,
            consumed: rest.consumed,
        }
    } else if chunks.len() == 0 {
        read_all(m, wants.drop_first(), chunks)
    } else {
        let rest = read_all(m.absorbed(chunks[0]), wants.drop_first(), chunks.drop_first());
        Session {
            reader: rest.reader,
            delivered: chunks[0] + rest.delivered,
            consumed: rest.consumed + 1,
        }
    }
}

proof fn lemma_flatten_take_first(chunks: Seq<Seq<u8>>, k: nat)
    requires
        k < chunks.len(),
    ensures
        chunks.take(k as int + 1).flatten() == chunks[0] + chunks.drop_first().take(
            k as int,
        ).flatten(),
{
    assert(chunks.take(k as int + 1).drop_first() =~= chunks.drop_first().take(k as int));
}

/// What a run of requests delivers, from any state a reader can be in.
///
/// Until a read reaches the source the caller receives the retained bytes
/// from the cursor on, and the window stays as it is. From the first answer of
/// the source on, the caller has received all that was retained ahead of the
/// cursor followed by every byte the source handed out.
pub proof fn lemma_read_all(m: ReaderModel, wants: Seq<nat>, chunks: Seq<Seq<u8>>)
    requires
        m.wf(),
    ensures
        ({
            let s = read_all(m, wants, chunks);
            let live = chunks.take(s.consumed as int).flatten();
            &&& s.reader.wf()
            &&& s.consumed <= chunks.len()
            &&& s.consumed <= wants.len()
            &&& m.cursor <= s.reader.cursor
            &&& s.consumed == 0 ==> s.reader.cache == m.cache && s.delivered == m.cache.subrange(
                m.cursor as int,
                s.reader.cursor as int,
            )
            &&& s.consumed > 0 ==> s.reader.at_end() && s.delivered == m.cache.skip(m.cursor as int)
                + live
            &&& m.at_end() ==> {
                &&& s.reader.at_end()
                &&& s.consumed == if wants.len() <= chunks.len() {
                    wants.len()
                } else {
                    chunks.len()
                }
                &&& s.reader.cache == if m.cache.len() + live.len() <= CACHE_LEN {
                    m.cache + live
                } else {
                    (m.cache + live).subrange(0, CACHE_LEN as int)
                }
            }
        }),
    decreases wants.len(),
{
    let s = read_all(m, wants, chunks);
    if wants.len() == 0 {
        assert(chunks.take(0).flatten() =~= Seq::<u8>::empty());
        assert(m.cache + Seq::<u8>::empty() =~= m.cache);
    } else if !m.at_end() {
        let next = m.after_serving(wants[0]);
        lemma_read_all(next, wants.drop_first(), chunks);
        let rest = read_all(next, wants.drop_first(), chunks);
        if rest.consumed == 0 {
            assert(s.delivered =~= m.cache.subrange(m.cursor as int, s.reader.cursor as int));
        } else {
            assert(s.delivered =~= m.cache.skip(m.cursor as int) + chunks.take(
                s.consumed as int,
            ).flatten());
        }
    } else if chunks.len() == 0 {
        lemma_read_all(m, wants.drop_first(), chunks);
    } else {
        let next = m.absorbed(chunks[0]);
        let tail = chunks.drop_first();
        lemma_read_all(next, wants.drop_first(), tail);
        let rest = read_all(next, wants.drop_first(), tail);
        let live_rest = tail.take(rest.consumed as int).flatten();
        lemma_flatten_take_first(chunks, rest.consumed);
        let live = chunks.take(s.consumed as int).flatten();
        assert(live == chunks[0] + live_rest);
        assert(m.cache.skip(m.cursor as int) =~= Seq::<u8>::empty());
        assert(next.cache.skip(next.cursor as int) =~= Seq::<u8>::empty());
        if rest.consumed == 0 {
            assert(tail.take(0).flatten() =~= Seq::<u8>::empty());
            assert(rest.delivered =~= Seq::<u8>::empty());
        }
        assert(s.delivered =~= m.cache.skip(m.cursor as int) + live);
        if m.cache.len() + live.len() <= CACHE_LEN {
            assert(s.reader.cache =~= m.cache + live);
        } else {
            assert(s.reader.cache =~= (m.cache + live).subrange(0, CACHE_LEN as int));
        }
    }
}

/// A reader that is never rewound hands on what the source hands out, byte for
/// byte: every request reaches the source, and what the caller has received is
/// what the source has handed out so far.
pub proof fn lemma_reads_without_rewind(wants: Seq<nat>, chunks: Seq<Seq<u8>>)
    ensures
        ({
            let s = read_all(ReaderModel::fresh(), wants, chunks);
            &&& s.consumed == if wants.len() <= chunks.len() {
                wants.len()
            } else {
                chunks.len()
            }
            &&& s.delivered == chunks.take(s.consumed as int).flatten()
        }),
{
    let m = ReaderModel::fresh();
    lemma_read_all(m, wants, chunks);
    let s = read_all(m, wants, chunks);
    assert(m.cache.skip(m.cursor as int) =~= Seq::<u8>::empty());
    if s.consumed == 0 {
        assert(chunks.take(0).flatten() =~= Seq::<u8>::empty());
        assert(s.delivered =~= Seq::<u8>::empty());
    } else {
        assert(s.delivered =~= chunks.take(s.consumed as int).flatten());
    }
}

/// A rewind after no more than `CACHE_LEN` bytes starts the stream over: the
/// requests that follow receive the bytes already read, from the first one on,
/// without a read of the source, and after them what the source hands out next.
pub proof fn lemma_rewind_replays(wants: Seq<nat>, chunks: Seq<Seq<u8>>, again: Seq<nat>)
    requires
        read_all(ReaderModel::fresh(), wants, chunks).delivered.len() <= CACHE_LEN,
    ensures
        ({
            let first = read_all(ReaderModel::fresh(), wants, chunks);
            let second = read_all(
                first.reader.rewound(),
                again,
                chunks.skip(first.consumed as int),
            );
            let stream = chunks.take((first.consumed + second.consumed) as int).flatten();
            &&& first.consumed + second.consumed <= chunks.len()
            &&& second.consumed == 0 ==> second.delivered == first.delivered.subrange(
                0,
                second.reader.cursor as int,
            )
            &&& second.consumed > 0 ==> second.delivered == stream
            &&& second.delivered.len() <= stream.len()
            &&& second.delivered == stream.subrange(0, second.delivered.len() as int)
        }),
{
    let fresh = ReaderModel::fresh();
    lemma_reads_without_rewind(wants, chunks);
    lemma_read_all(fresh, wants, chunks);
    let first = read_all(fresh, wants, chunks);
    let head = chunks.take(first.consumed as int).flatten();
    assert(fresh.cache + head =~= head);
    assert(first.reader.cache == first.delivered);
    let m = first.reader.rewound();
    let later = chunks.skip(first.consumed as int);
    lemma_read_all(m, again, later);
    let second = read_all(m, again, later);
    let stream = chunks.take((first.consumed + second.consumed) as int).flatten();
    lemma_flatten_split(chunks.take((first.consumed + second.consumed) as int), first.consumed);
    assert(chunks.take((first.consumed + second.consumed) as int).take(first.consumed as int)
        =~= chunks.take(first.consumed as int));
    assert(chunks.take((first.consumed + second.consumed) as int).skip(first.consumed as int)
        =~= later.take(second.consumed as int));
    assert(stream == head + later.take(second.consumed as int).flatten());
    assert(m.cache.skip(0) =~= m.cache);
    if second.consumed == 0 {
        assert(later.take(0).flatten() =~= Seq::<u8>::empty());
        assert(stream =~= head);
        assert(second.delivered =~= stream.subrange(0, second.delivered.len() as int));
    } else {
        assert(second.delivered =~= stream.subrange(0, second.delivered.len() as int));
    }
}

proof fn lemma_flatten_split(chunks: Seq<Seq<u8>>, k: nat)
    requires
        k <= chunks.len(),
    ensures
        chunks.flatten() == chunks.take(k as int).flatten() + chunks.skip(k as int).flatten(),
    decreases k,
{
    if k == 0 {
        assert(chunks.take(0).flatten() =~= Seq::<u8>::empty());
        assert(chunks.skip(0) =~= chunks);
        assert(Seq::<u8>::empty() + chunks.flatten() =~= chunks.flatten());
    } else {
        let tail = chunks.drop_first();
        lemma_flatten_split(tail, (k - 1) as nat);
        assert(chunks.take(k as int).drop_first() =~= tail.take(k - 1));
        assert(chunks.skip(k as int) =~= tail.skip(k - 1));
        assert(chunks.take(k as int).first() == chunks[0]);
        assert(chunks.flatten() =~= chunks.take(k as int).flatten() + chunks.skip(
            k as int,
        ).flatten());
    }
}

/// What answers one read request.
pub enum ReadStep {
    /// The request is answered by these retained bytes; the source is not touched.
    Cached(Vec<u8>),
    /// The request goes to the source; what it hands out is reported with `absorb`.
    Live,
}

/// The replay state of one input.
pub struct CachedReader {
    buffer: Vec<u8>,
    index: usize,
}

impl View for CachedReader {
    type V = ReaderModel;

    closed spec fn view(&self) -> ReaderModel {
        ReaderModel { cache: self.buffer@, cursor: self.index as nat }
    }
}

impl CachedReader {
    #[verifier::type_invariant]
    spec fn inv(&self) -> bool {
        self.index <= self.buffer@.len() <= CACHE_LEN
    }

    /// A reader for a stream of which nothing is read yet.
    pub fn new() -> (r: Self)
        ensures
            r@ == ReaderModel::fresh(),
    {
        CachedReader { buffer: Vec::new(), index: 0 }
    }

    /// Moves the cursor back to the first byte of the stream.
    ///
    /// The reads that follow are answered from the window up to its end. A
    /// stream of which more than `CACHE_LEN` bytes were read does not start
    /// over in full: after the window it goes on where the source stands.
    pub fn rewind(&mut self)
        ensures
            final(self)@ == old(self)@.rewound(),
    {
        proof {
            use_type_invariant(&*self);
        }
        self.index = 0;
    }

    /// How many bytes are retained.
    pub fn retained(&self) -> (n: usize)
        ensures
            n == self@.cache.len(),
            self@.wf(),
    {
        proof {
            use_type_invariant(self);
        }
        self.buffer.len()
    }

    /// The retained bytes: the first bytes of the stream.
    pub fn window(&self) -> (bytes: Vec<u8>)
        ensures
            bytes@ == self@.cache,
            self@.wf(),
    {
        proof {
            use_type_invariant(self);
        }
        vstd::slice::slice_to_vec(self.buffer.as_slice())
    }

    /// Decides what answers a request for up to `want` bytes.
    ///
    /// With retained bytes ahead of the cursor the request is answered from
    /// them alone, by as many as fit, and the cursor moves past them. Otherwise
    /// the state stays as it is and the request goes to the source.
    pub fn begin_read(&mut self, want: usize) -> (step: ReadStep)
        ensures
            old(self)@.wf(),
            final(self)@.wf(),
            match step {
                ReadStep::Cached(bytes) => {
                    &&& !old(self)@.at_end()
                    &&& bytes@ == old(self)@.served(want as nat)
                    &&& final(self)@ == old(self)@.after_serving(want as nat)
                },
                ReadStep::Live => old(self)@.at_end() && final(self)@ == old(self)@,
            },
    {
        proof {
            use_type_invariant(&*self);
        }
        if self.index < self.buffer.len() {
            let left: usize = self.buffer.len() - self.index;
            let count: usize = if left <= want { left } else { want };
            let bytes = vstd::slice::slice_to_vec(
                vstd::slice::slice_subrange(self.buffer.as_slice(), self.index, self.index + count),
            );
            self.index = self.index + count;
            ReadStep::Cached(bytes)
        } else {
            ReadStep::Live
        }
    }

    /// Takes note of the bytes that the source handed out for a live read.
    ///
    /// As many of them as the window still has room for are retained, and the
    /// cursor stays at the end of the window.
    pub fn absorb(&mut self, bytes: &[u8])
        ensures
            old(self)@.wf(),
            final(self)@.wf(),
            final(self)@ == old(self)@.absorbed(bytes@),
    {
        proof {
            use_type_invariant(&*self);
        }
        if self.index == self.buffer.len() {
            let room: usize = CACHE_LEN - self.buffer.len();
            let keep: usize = if room <= bytes.len() { room } else { bytes.len() };
            let mut buffer: Vec<u8> = vstd::slice::slice_to_vec(self.buffer.as_slice());
            let mut k: usize = 0;
            while k < keep
                invariant
                    k <= keep <= bytes@.len(),
                    buffer@ == old(self)@.cache + bytes@.subrange(0, k as int),
                    old(self)@.cache.len() + keep <= CACHE_LEN,
                decreases keep - k,
            {
                buffer.push(bytes[k]);
                k = k + 1;
            }
            let index = buffer.len();
            *self = CachedReader { buffer, index };
        }
    }
}

} // verus!
