use vstd::prelude::*;

verus! {

/// Where a seek callback measures its offset from.
#[derive(Clone, Copy, Debug, PartialEq, Eq, Structural)]
pub enum C2paSeekMode {
    /// From the start of the stream.
    Start,
    /// From the current position in the stream.
    Current,
    /// From the end of the stream.
    End,
}

/// A seek as the stream's users ask for it: an unsigned distance from the
/// start, or a signed offset from the current position or from the end.
#[derive(Clone, Copy, Debug, PartialEq, Eq, Structural)]
pub enum SeekRequest {
    Start(u64),
    Current(i64),
    End(i64),
}

/// The failures that a stream operation reports.
#[derive(Debug)]
pub enum StreamError {
    /// The buffer is longer than a signed size can count; no callback was made.
    InvalidInput,
    /// A callback returned a negative sentinel; the text is the detail that the
    /// backend recorded, or a generic description where it recorded none.
    Io(String),
}

/// The detail that goes with an `Io` error when the backend recorded none.
pub open spec fn generic_detail() -> Seq<char> {
    "stream callback failed"@
}

/// The text of a detail that may be absent.
pub open spec fn view_detail(d: Option<String>) -> Option<Seq<char>> {
    match d {
        Some(s) => Some(s@),
        None => None,
    }
}

/// `d` is a detail that the stream may report for a failed callback of a
/// backend left in state `post`.
pub open spec fn reported<C: StreamCallbacks>(post: C, d: Seq<char>) -> bool {
    exists|rep: Option<Seq<char>>| #[trigger] C::error_report(post, rep) && d == io_detail(rep)
}

/// The detail that the stream reports for a failed callback.
pub open spec fn io_detail(recorded: Option<Seq<char>>) -> Seq<char> {
    match recorded {
        Some(d) => d,
        None => generic_detail(),
    }
}

/// The four callbacks that back a stream. Every result is a signed integer:
/// a negative value is a failure, whose detail the backend can then report
/// through `last_error`; a non-negative value is a byte count or a position.
///
/// Each callback is described by a relation between the backend before the
/// call, what was handed to it, the backend after the call and the result.
/// A backend that gives no relation is taken to allow any outcome.
pub trait StreamCallbacks: Sized {
    /// The read callback may go from `pre` to `post`, leave `filled` in a
    /// destination that held `dst`, and return `r`.
    open spec fn read_step(pre: Self, dst: Seq<u8>, post: Self, filled: Seq<u8>, r: isize) -> bool {
        true
    }

    /// The seek callback may go from `pre` to `post` and return `r`.
    open spec fn seek_step(pre: Self, offset: isize, mode: C2paSeekMode, post: Self, r: isize) -> bool {
        true
    }

    /// The write callback may take `src`, go from `pre` to `post` and return `r`.
    open spec fn write_step(pre: Self, src: Seq<u8>, post: Self, r: isize) -> bool {
        true
    }

    /// The flush callback may go from `pre` to `post` and return `r`.
    open spec fn flush_step(pre: Self, post: Self, r: isize) -> bool {
        true
    }

    /// `last_error` may report `detail` for the backend in state `s`.
    open spec fn error_report(s: Self, detail: Option<Seq<char>>) -> bool {
        true
    }

    /// Reads up to `data.len()` bytes into the front of `data`.
    fn reader(&mut self, data: &mut [u8]) -> (r: isize)
        requires
            old(data)@.len() <= isize::MAX,
        ensures
            final(data)@.len() == old(data)@.len(),
            Self::read_step(*old(self), old(data)@, *final(self), final(data)@, r),
    ;

    /// Moves the position; a `Start` offset is never negative.
    fn seeker(&mut self, offset: isize, mode: C2paSeekMode) -> (r: isize)
        requires
            mode == C2paSeekMode::Start ==> offset >= 0,
        ensures
            Self::seek_step(*old(self), offset, mode, *final(self), r),
    ;

    /// Writes the bytes of `data`, or a prefix of them.
    fn writer(&mut self, data: &[u8]) -> (r: isize)
        requires
            data@.len() <= isize::MAX,
        ensures
            Self::write_step(*old(self), data@, *final(self), r),
    ;

    /// Pushes out whatever the backend holds back; 0 on success.
    fn flusher(&mut self) -> (r: isize)
        ensures
            Self::flush_step(*old(self), *final(self), r),
    ;

    /// The detail of the last failure, if one was recorded.
    fn last_error(&self) -> (r: Option<String>)
        ensures
            Self::error_report(*self, view_detail(r)),
    ;
}

/// The handle to a backend that a stream owns: either a backend, or the
/// empty placeholder that is left once the backend has been taken out.
pub struct StreamContext<C> {
    backend: Option<C>,
}

impl<C> View for StreamContext<C> {
    type V = Option<C>;

    closed spec fn view(&self) -> Option<C> {
        self.backend
    }
}

impl<C> StreamContext<C> {
    /// A handle that owns `backend`.
    pub fn new(backend: C) -> (r: Self)
        ensures
            r@ == Some(backend),
    {
        StreamContext { backend: Some(backend) }
    }

    /// The empty placeholder.
    pub fn empty() -> (r: Self)
        ensures
            r@ is None,
    {
        StreamContext { backend: None }
    }

    /// Gives up the handle and returns the backend it owned.
    pub fn into_inner(self) -> (r: Option<C>)
        ensures
            r == self@,
    {
        self.backend
    }
}

/// What a stream returns for a callback result that counts bytes: the count
/// when it is non-negative, else an `Io` error with the recorded detail.
pub open spec fn count_outcome<C: StreamCallbacks>(res: Result<usize, StreamError>, r: isize, post: C) -> bool {
    if r >= 0 {
        res matches Ok(n) && n == r
    } else {
        res matches Err(StreamError::Io(d)) && reported(post, d@)
    }
}

/// The offset and mode that a seek request is handed to the callback as.
pub open spec fn wire_seek(from: SeekRequest) -> (int, C2paSeekMode) {
    match from {
        SeekRequest::Start(u) => (u as int, C2paSeekMode::Start),
        SeekRequest::Current(i) => (i as int, C2paSeekMode::Current),
        SeekRequest::End(i) => (i as int, C2paSeekMode::End),
    }
}

/// The offset of the request fits the signed wire type.
pub open spec fn seek_fits(from: SeekRequest) -> bool {
    isize::MIN <= wire_seek(from).0 <= isize::MAX
}

/// The position that a stream reports for a seek callback's result: the value
/// read as an unsigned 64-bit integer, so that a negative result wraps.
pub open spec fn reported_position(r: isize) -> u64 {
    if r >= 0 {
        r as u64
    } else {
        (r + 0x1_0000_0000_0000_0000int) as u64
    }
}

/// A stream whose operations are carried out by the callbacks of a backend
/// `C`. It is live while it owns its backend, and released once the backend
/// has been taken out; a released stream must not be used.
pub struct CStream<C: StreamCallbacks> {
    context: StreamContext<C>,
}

impl<C: StreamCallbacks> View for CStream<C> {
    type V = Option<C>;

    /// The backend that the stream owns, or `None` once it was released.
    closed spec fn view(&self) -> Option<C> {
        self.context@
    }
}

/// The detail for a failed callback: what the backend recorded, or a generic
/// description.
fn failure_detail<C: StreamCallbacks>(backend: &C) -> (r: String)
    ensures
        reported(*backend, r@),
{
    let rep = backend.last_error();
    assert(C::error_report(*backend, view_detail(rep)));
    match rep {
        Some(d) => d,
        None => {
            proof {
                reveal_strlit("stream callback failed");
            }
            "stream callback failed".to_string()
        },
    }
}

/// Turns a callback's byte count into the stream's result.
fn count_result<C: StreamCallbacks>(backend: &C, r: isize) -> (res: Result<usize, StreamError>)
    ensures
        count_outcome(res, r, *backend),
{
    if r < 0 {
        Err(StreamError::Io(failure_detail(backend)))
    } else {
        Ok(r as usize)
    }
}

/// Maps a seek request to the offset and mode of the seek callback; the
/// mapping keeps the offset and tells the three origins apart.
pub fn to_wire(from: SeekRequest) -> (r: (isize, C2paSeekMode))
    requires
        seek_fits(from),
    ensures
        r.0 as int == wire_seek(from).0,
        r.1 == wire_seek(from).1,
{
    match from {
        SeekRequest::Start(u) => (u as isize, C2paSeekMode::Start),
        SeekRequest::Current(i) => (i as isize, C2paSeekMode::Current),
        SeekRequest::End(i) => (i as isize, C2paSeekMode::End),
    }
}

impl<C: StreamCallbacks> CStream<C> {
    /// A live stream that owns the backend in `context`.
    pub fn new(context: StreamContext<C>) -> (r: Self)
        requires
            context@ is Some,
        ensures
            r@ == context@,
    {
        CStream { context }
    }

    /// Takes the backend's handle out of the stream and leaves the empty
    /// placeholder, so that the backend's owner can reclaim it. A second call
    /// hands out only the placeholder: the backend leaves the stream once.
    pub fn extract_context(&mut self) -> (r: StreamContext<C>)
        ensures
            r@ == old(self)@,
            final(self)@ is None,
    {
        let mut taken = StreamContext::empty();
        core::mem::swap(&mut self.context, &mut taken);
        taken
    }

    /// Reads into `buf` through the read callback. A buffer longer than a
    /// signed size can count is refused before any callback is made.
    pub fn read(&mut self, buf: &mut [u8]) -> (res: Result<usize, StreamError>)
        requires
            old(self)@ is Some,
        ensures
            final(buf)@.len() == old(buf)@.len(),
            old(buf)@.len() > isize::MAX ==> (res matches Err(StreamError::InvalidInput))
                && final(self)@ == old(self)@ && final(buf)@ == old(buf)@,
            old(buf)@.len() <= isize::MAX ==> final(self)@ is Some && exists|r: isize|
                #[trigger] C::read_step(old(self)@->0, old(buf)@, final(self)@->0, final(buf)@, r)
                && count_outcome(res, r, final(self)@->0),
    {
        if buf.len() > isize::MAX as usize {
            return Err(StreamError::InvalidInput);
        }
        let ghost dst = buf@;
        let mut backend = self.context.backend.take().unwrap();
        let ghost pre = backend;
        let r = backend.reader(buf);
        let res = count_result(&backend, r);
        self.context.backend = Some(backend);
        assert(C::read_step(pre, dst, self@->0, buf@, r));
        res
    }

    /// Seeks through the seek callback and returns the position it reports.
    /// The callback's result is passed on as it is: a negative result is not
    /// taken for a failure but wraps into a large position, as the callback
    /// protocol has always done. Callers that mean to trust positions should
    /// check their backends against this.
    pub fn seek(&mut self, from: SeekRequest) -> (res: Result<u64, StreamError>)
        requires
            old(self)@ is Some,
            seek_fits(from),
            wire_seek(from).1 == C2paSeekMode::Start ==> wire_seek(from).0 >= 0,
        ensures
            final(self)@ is Some,
            exists|r: isize|
                #[trigger] C::seek_step(old(self)@->0, wire_seek(from).0 as isize, wire_seek(from).1,
                final(self)@->0, r) && res == Ok::<u64, StreamError>(reported_position(r)),
    {
        let (offset, mode) = to_wire(from);
        let mut backend = self.context.backend.take().unwrap();
        let ghost pre = backend;
        let r = backend.seeker(offset, mode);
        self.context.backend = Some(backend);
        assert(C::seek_step(pre, wire_seek(from).0 as isize, wire_seek(from).1, self@->0, r));
        if r >= 0 {
            Ok(r as u64)
        } else {
            let below: u64 = (-(r + 1)) as u64;
            Ok(u64::MAX - below)
        }
    }

    /// Writes `buf`, or a prefix of it, through the write callback. A buffer
    /// longer than a signed size can count is refused before any callback is
    /// made.
    pub fn write(&mut self, buf: &[u8]) -> (res: Result<usize, StreamError>)
        requires
            old(self)@ is Some,
        ensures
            buf@.len() > isize::MAX ==> (res matches Err(StreamError::InvalidInput))
                && final(self)@ == old(self)@,
            buf@.len() <= isize::MAX ==> final(self)@ is Some && exists|r: isize|
                #[trigger] C::write_step(old(self)@->0, buf@, final(self)@->0, r)
                && count_outcome(res, r, final(self)@->0),
    {
        if buf.len() > isize::MAX as usize {
            return Err(StreamError::InvalidInput);
        }
        let mut backend = self.context.backend.take().unwrap();
        let ghost pre = backend;
        let r = backend.writer(buf);
        let res = count_result(&backend, r);
        self.context.backend = Some(backend);
        assert(C::write_step(pre, buf@, self@->0, r));
        res
    }

    /// Flushes through the flush callback; a negative result is an `Io` error.
    pub fn flush(&mut self) -> (res: Result<(), StreamError>)
        requires
            old(self)@ is Some,
        ensures
            final(self)@ is Some,
            exists|r: isize|
                #[trigger] C::flush_step(old(self)@->0, final(self)@->0, r) && if r >= 0 {
                    res is Ok
                } else {
                    res matches Err(StreamError::Io(d)) && reported(final(self)@->0, d@)
                },
    {
        let mut backend = self.context.backend.take().unwrap();
        let ghost pre = backend;
        let r = backend.flusher();
        let res = if r < 0 {
            Err(StreamError::Io(failure_detail(&backend)))
        } else {
            Ok(())
        };
        self.context.backend = Some(backend);
        assert(C::flush_step(pre, self@->0, r));
        res
    }
}

/// Makes a live stream on the heap that owns the backend in `context`. The
/// stream is given back to `c2pa_release_stream` when it is no longer used.
pub fn c2pa_create_stream<C: StreamCallbacks>(context: StreamContext<C>) -> (r: Box<CStream<C>>)
    requires
        context@ is Some,
    ensures
        (*r)@ == context@,
{
    Box::new(CStream::new(context))
}

/// Releases a stream made by `c2pa_create_stream`, with the backend it owns.
/// The stream is moved in, so it cannot be released twice; `None`, the null
/// handle, is accepted and nothing is done.
pub fn c2pa_release_stream<C: StreamCallbacks>(stream: Option<Box<CStream<C>>>) {
    if let Some(s) = stream {
        let CStream { context } = *s;
        let _backend = context.into_inner();
    }
}

} // verus!
