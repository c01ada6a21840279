//! Staged values: bytes on their way into the store (written, then
//! finished) and on their way out (taken whole or in chunks).
use vstd::prelude::*;
use std::sync::Arc;
use crate::sync::{new_mutex, with_locked};
use crate::types::{fails_with, result_view, BlobstoreError, BlobstoreResult, ErrorView};

verus! {

/// Chunk size of a fresh incoming stream.
pub const DEFAULT_CHUNK_SIZE: usize = 8192;

/// A staged write as the model sees it: its bytes, and whether it is finished.
pub struct StagedBytes {
    pub data: Seq<u8>,
    pub finished: bool,
}

/// `write`: appends while open; a finished value refuses it.
pub open spec fn append_spec(s: StagedBytes, chunk: Seq<u8>) -> (StagedBytes, Result<(), ErrorView>) {
    if s.finished {
        (s, Err(ErrorView::InvalidOperation))
    } else {
        (StagedBytes { data: s.data + chunk, finished: false }, Ok(()))
    }
}

/// `finish`: closes an open value for good; finishing twice is refused.
pub open spec fn finish_spec(s: StagedBytes) -> (StagedBytes, Result<(), ErrorView>) {
    if s.finished {
        (s, Err(ErrorView::InvalidOperation))
    } else {
        (StagedBytes { data: s.data, finished: true }, Ok(()))
    }
}

/// `get_data`: the bytes of a finished value; an open one is refused.
pub open spec fn committed_spec(s: StagedBytes) -> Result<Seq<u8>, ErrorView> {
    if s.finished {
        Ok(s.data)
    } else {
        Err(ErrorView::InvalidOperation)
    }
}

/// An unfinished value stays unfinished however much is written to it, and
/// its bytes are refused with `InvalidOperation`; once finished, exactly the
/// bytes written come out.
pub proof fn law_only_finished_commits(s: StagedBytes, chunk: Seq<u8>)
    requires
        !s.finished,
    ensures
        !append_spec(s, chunk).0.finished,
        committed_spec(s) == Err::<Seq<u8>, ErrorView>(ErrorView::InvalidOperation),
        committed_spec(append_spec(s, chunk).0) == Err::<Seq<u8>, ErrorView>(
            ErrorView::InvalidOperation,
        ),
        committed_spec(finish_spec(append_spec(s, chunk).0).0) == Ok::<Seq<u8>, ErrorView>(
            s.data + chunk,
        ),
{
}

/// The write side of a staged value: open and growing, or finished.
pub enum StagedWrite {
    Open(Vec<u8>),
    Finished(Vec<u8>),
}

impl View for StagedWrite {
    type V = StagedBytes;

    open spec fn view(&self) -> StagedBytes {
        match self {
            StagedWrite::Open(d) => StagedBytes { data: d@, finished: false },
            StagedWrite::Finished(d) => StagedBytes { data: d@, finished: true },
        }
    }
}

impl Default for StagedWrite {
    fn default() -> (r: StagedWrite)
        ensures
            r@ == (StagedBytes { data: Seq::empty(), finished: false }),
    {
        StagedWrite::Open(Vec::new())
    }
}

impl StagedWrite {
    /// An open value without bytes.
    pub fn new() -> (r: StagedWrite)
        ensures
            r@ == (StagedBytes { data: Seq::empty(), finished: false }),
    {
        StagedWrite::Open(Vec::new())
    }

    /// Appends `chunk` to an open value.
    pub fn append(self, chunk: &[u8]) -> (r: (StagedWrite, BlobstoreResult<()>))
        ensures
            (r.0@, result_view(r.1)) == append_spec(self@, chunk@),
    {
        match self {
            StagedWrite::Open(mut d) => {
                let mut i: usize = 0;
                let ghost d0 = d@;
                while i < chunk.len()
                    invariant
                        i <= chunk@.len(),
                        d@ == d0 + chunk@.subrange(0, i as int),
                    decreases chunk@.len() - i
                {
                    d.push(chunk[i]);
                    i = i + 1;
                    assert(d@ =~= d0 + chunk@.subrange(0, i as int));
                }
                assert(chunk@.subrange(0, chunk@.len() as int) =~= chunk@);
                (StagedWrite::Open(d), Ok(()))
            },
            StagedWrite::Finished(d) => (
                StagedWrite::Finished(d),
                Err(BlobstoreError::InvalidOperation("cannot write to a finished value".to_string())),
            ),
        }
    }

    /// Finishes an open value.
    pub fn finish(self) -> (r: (StagedWrite, BlobstoreResult<()>))
        ensures
            (r.0@, result_view(r.1)) == finish_spec(self@),
    {
        match self {
            StagedWrite::Open(d) => (StagedWrite::Finished(d), Ok(())),
            StagedWrite::Finished(d) => (
                StagedWrite::Finished(d),
                Err(BlobstoreError::InvalidOperation("value already finished".to_string())),
            ),
        }
    }

    /// Whether the value is finished.
    pub fn is_finished(&self) -> (r: bool)
        ensures
            r == self@.finished,
    {
        match self {
            StagedWrite::Open(_) => false,
            StagedWrite::Finished(_) => true,
        }
    }

    /// A copy of the bytes of a finished value.
    pub fn committed(&self) -> (r: BlobstoreResult<Vec<u8>>)
        ensures
            result_view(r) == committed_spec(self@),
    {
        match self {
            StagedWrite::Open(_) => Err(
                BlobstoreError::InvalidOperation("value not finished yet".to_string()),
            ),
            StagedWrite::Finished(d) => {
                let mut out: Vec<u8> = Vec::new();
                let mut i: usize = 0;
                while i < d.len()
                    invariant
                        i <= d@.len(),
                        out@ == d@.subrange(0, i as int),
                    decreases d@.len() - i
                {
                    out.push(d[i]);
                    i = i + 1;
                    assert(out@ =~= d@.subrange(0, i as int));
                }
                assert(d@.subrange(0, d@.len() as int) =~= d@);
                Ok(out)
            },
        }
    }
}

/// Bytes being written toward the store. Streams from `write_body` append
/// to it until it is finished; only a finished value hands its bytes out.
pub struct OutgoingValue {
    state: Arc<parking_lot::Mutex<StagedWrite>>,
}

impl OutgoingValue {
    /// An open value without bytes.
    pub fn new() -> (r: OutgoingValue) {
        OutgoingValue { state: Arc::new(new_mutex(StagedWrite::new())) }
    }

    /// A stream that appends to this value; refused once it is finished.
    pub fn write_body(&self) -> (r: BlobstoreResult<OutgoingValueStream>)
        ensures
            r is Ok || fails_with(r, ErrorView::InvalidOperation),
    {
        let finished = with_locked(
            &self.state,
            |s: StagedWrite| -> (out: (StagedWrite, bool))
                ensures
                    out.0 == s,
                    out.1 == s@.finished
                {
                    let f = s.is_finished();
                    (s, f)
                },
        );
        if finished {
            return Err(BlobstoreError::InvalidOperation("value already finished".to_string()));
        }
        Ok(OutgoingValueStream { state: self.state.clone() })
    }

    /// Finishes the value; a second finish is refused.
    pub fn finish(&self) -> (r: BlobstoreResult<()>)
        ensures
            exists|s: StagedBytes| #[trigger] finish_spec(s).1 == result_view(r),
    {
        let step = |s: StagedWrite| -> (out: (StagedWrite, BlobstoreResult<()>))
            ensures
                (out.0@, result_view(out.1)) == finish_spec(s@)
            { s.finish() };
        let r = with_locked(&self.state, step);
        proof {
            let (s, next) = choose|s: StagedWrite, next: StagedWrite| #[trigger] step.ensures((s,), (next, r));
            assert(finish_spec(s@).1 == result_view(r));
        }
        r
    }

    /// The bytes written, once the value is finished.
    pub fn get_data(&self) -> (r: BlobstoreResult<Vec<u8>>)
        ensures
            exists|s: StagedBytes| #[trigger] committed_spec(s) == result_view(r),
    {
        let step = |s: StagedWrite| -> (out: (StagedWrite, BlobstoreResult<Vec<u8>>))
            ensures
                out.0 == s,
                result_view(out.1) == committed_spec(s@)
            {
                let d = s.committed();
                (s, d)
            };
        let r = with_locked(&self.state, step);
        proof {
            let (s, next) = choose|s: StagedWrite, next: StagedWrite| #[trigger] step.ensures((s,), (next, r));
            assert(committed_spec(s@) == result_view(r));
        }
        r
    }

    /// Whether the value is finished.
    pub fn is_finished(&self) -> (r: bool) {
        with_locked(
            &self.state,
            |s: StagedWrite| -> (out: (StagedWrite, bool))
                ensures
                    out.0 == s,
                    out.1 == s@.finished
                {
                    let f = s.is_finished();
                    (s, f)
                },
        )
    }
}

impl Default for OutgoingValue {
    fn default() -> (r: OutgoingValue) {
        OutgoingValue::new()
    }
}

/// A stream that appends to an outgoing value.
pub struct OutgoingValueStream {
    state: Arc<parking_lot::Mutex<StagedWrite>>,
}

impl OutgoingValueStream {
    /// Appends `chunk`; refused once the value is finished.
    pub fn write(&self, chunk: &[u8]) -> (r: BlobstoreResult<()>)
        ensures
            exists|s: StagedBytes| #[trigger] append_spec(s, chunk@).1 == result_view(r),
    {
        let step = |s: StagedWrite| -> (out: (StagedWrite, BlobstoreResult<()>))
            ensures
                (out.0@, result_view(out.1)) == append_spec(s@, chunk@)
            { s.append(chunk) };
        let r = with_locked(&self.state, step);
        proof {
            let (s, next) = choose|s: StagedWrite, next: StagedWrite| #[trigger] step.ensures((s,), (next, r));
            assert(append_spec(s@, chunk@).1 == result_view(r));
        }
        r
    }

    /// Closes the stream. The value stays open: only `finish` ends it.
    pub fn close(&self) -> (r: BlobstoreResult<()>)
        ensures
            r is Ok,
    {
        Ok(())
    }
}

/// Bytes read out of the store.
pub struct IncomingValue {
    data: Vec<u8>,
}

impl View for IncomingValue {
    type V = Seq<u8>;

    closed spec fn view(&self) -> Seq<u8> {
        self.data@
    }
}

impl IncomingValue {
    /// A value holding `data`.
    pub fn new(data: Vec<u8>) -> (r: IncomingValue)
        ensures
            r@ == data@,
    {
        IncomingValue { data }
    }

    /// All the bytes at once.
    pub fn consume_sync(self) -> (r: BlobstoreResult<Vec<u8>>)
        ensures
            r is Ok,
            r->Ok_0@ == self@,
    {
        Ok(self.data)
    }

    /// A stream over the bytes, at its start, with the default chunk size.
    pub fn consume_async(self) -> (r: BlobstoreResult<IncomingValueStream>)
        ensures
            r is Ok,
            r->Ok_0@ == (ByteCursor { data: self@, position: 0, chunk_size: DEFAULT_CHUNK_SIZE as int }),
    {
        Ok(IncomingValueStream::new(self.data))
    }

    /// Number of bytes.
    pub fn size(&self) -> (r: u64)
        ensures
            r == self@.len(),
    {
        self.data.len() as u64
    }
}

/// A byte stream as the model sees it.
pub struct ByteCursor {
    pub data: Seq<u8>,
    pub position: int,
    pub chunk_size: int,
}

/// Where a read of one chunk from `pos` stops.
pub open spec fn chunk_end(total: int, pos: int, chunk: int) -> int {
    if pos + chunk < total {
        pos + chunk
    } else {
        total
    }
}

/// Reads the bytes of an incoming value chunk by chunk. The position only
/// moves forward, except through a new stream.
pub struct IncomingValueStream {
    data: Vec<u8>,
    position: usize,
    chunk_size: usize,
}

impl View for IncomingValueStream {
    type V = ByteCursor;

    closed spec fn view(&self) -> ByteCursor {
        ByteCursor {
            data: self.data@,
            position: self.position as int,
            chunk_size: self.chunk_size as int,
        }
    }
}

impl IncomingValueStream {
    #[verifier::type_invariant]
    closed spec fn inv(self) -> bool {
        self.position <= self.data@.len()
    }

    /// A stream at the start of `data`, with the default chunk size.
    pub fn new(data: Vec<u8>) -> (r: IncomingValueStream)
        ensures
            r@ == (ByteCursor { data: data@, position: 0, chunk_size: DEFAULT_CHUNK_SIZE as int }),
    {
        IncomingValueStream { data, position: 0, chunk_size: DEFAULT_CHUNK_SIZE }
    }

    /// Sets how many bytes one `read` returns at most.
    pub fn set_chunk_size(&mut self, size: usize)
        ensures
            final(self)@ == (ByteCursor { chunk_size: size as int, ..old(self)@ }),
    {
        proof {
            use_type_invariant(&*self);
        }
        self.chunk_size = size;
    }

    /// The next chunk, or nothing at the end.
    pub fn read(&mut self) -> (r: BlobstoreResult<Option<Vec<u8>>>)
        ensures
            r is Ok,
            final(self)@.data == old(self)@.data,
            final(self)@.chunk_size == old(self)@.chunk_size,
            old(self)@.position >= old(self)@.data.len() ==> r->Ok_0 is None && final(self)@.position
                == old(self)@.position,
            old(self)@.position < old(self)@.data.len() ==> ({
                let next = chunk_end(
                    old(self)@.data.len() as int,
                    old(self)@.position,
                    old(self)@.chunk_size,
                );
                &&& r->Ok_0 is Some
                &&& r->Ok_0->Some_0@ == old(self)@.data.subrange(old(self)@.position, next)
                &&& final(self)@.position == next
            }),
    {
        proof {
            use_type_invariant(&*self);
        }
        if self.position >= self.data.len() {
            return Ok(None);
        }
        let remaining = self.data.len() - self.position;
        let take: usize = if self.chunk_size < remaining {
            self.chunk_size
        } else {
            remaining
        };
        let end = self.position + take;
        let mut chunk: Vec<u8> = Vec::new();
        let mut i: usize = self.position;
        while i < end
            invariant
                self.position <= i <= end,
                end <= self.data@.len(),
                chunk@ == self.data@.subrange(self.position as int, i as int),
            decreases end - i,
        {
            chunk.push(self.data[i]);
            i = i + 1;
            assert(chunk@ =~= self.data@.subrange(self.position as int, i as int));
        }
        self.position = end;
        Ok(Some(chunk))
    }

    /// Every byte left; the stream ends at the end.
    pub fn read_all(&mut self) -> (r: BlobstoreResult<Vec<u8>>)
        ensures
            r is Ok,
            final(self)@ == (ByteCursor { position: old(self)@.data.len() as int, ..old(self)@ }),
            r->Ok_0@ == old(self)@.data.subrange(old(self)@.position, old(self)@.data.len() as int),
    {
        proof {
            use_type_invariant(&*self);
        }
        let mut rest: Vec<u8> = Vec::new();
        let mut i: usize = self.position;
        while i < self.data.len()
            invariant
                self.position <= i <= self.data@.len(),
                rest@ == self.data@.subrange(self.position as int, i as int),
            decreases self.data@.len() - i,
        {
            rest.push(self.data[i]);
            i = i + 1;
            assert(rest@ =~= self.data@.subrange(self.position as int, i as int));
        }
        self.position = self.data.len();
        Ok(rest)
    }

    /// Whether every byte has been read.
    pub fn is_end(&self) -> (r: bool)
        ensures
            r == (self@.position == self@.data.len()),
    {
        proof {
            use_type_invariant(self);
        }
        self.position >= self.data.len()
    }

    /// How many bytes have been read.
    pub fn position(&self) -> (r: usize)
        ensures
            r == self@.position,
    {
        self.position
    }

    /// How many bytes the stream holds.
    pub fn size(&self) -> (r: usize)
        ensures
            r == self@.data.len(),
    {
        self.data.len()
    }

    /// Moves to the end without reading.
    pub fn close(&mut self) -> (r: BlobstoreResult<()>)
        ensures
            r is Ok,
            final(self)@ == (ByteCursor { position: old(self)@.data.len() as int, ..old(self)@ }),
    {
        self.position = self.data.len();
        Ok(())
    }
}

} // verus!
