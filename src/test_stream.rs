use vstd::prelude::*;

use crate::c_stream::{
    count_outcome, io_detail, reported_position, C2paSeekMode, CStream, StreamCallbacks, StreamContext,
    StreamError,
};

verus! {

/// The detail recorded for a seek whose target is negative or too large.
pub open spec fn seek_error_text() -> Seq<char> {
    "invalid seek to a negative or overflowing position"@
}

/// The detail recorded for a write that would grow the buffer past what a
/// signed size can count.
pub open spec fn write_error_text() -> Seq<char> {
    "cursor position exceeds maximum possible vector length"@
}

/// The number of bytes that a read of `want` bytes at position `pos` of
/// `bytes` copies.
pub open spec fn read_count(bytes: Seq<u8>, pos: nat, want: nat) -> nat {
    let start = if pos < bytes.len() { pos } else { bytes.len() };
    let avail = (bytes.len() - start) as nat;
    if want < avail { want } else { avail }
}

/// The position that a seek asks for, before it is checked.
pub open spec fn seek_target(bytes: Seq<u8>, pos: nat, offset: int, mode: C2paSeekMode) -> int {
    match mode {
        C2paSeekMode::Start => offset,
        C2paSeekMode::Current => pos + offset,
        C2paSeekMode::End => bytes.len() + offset,
    }
}

/// `bytes` after `src` is written at `pos`: a gap before `pos` is filled
/// with zeros, bytes under `src` are replaced, and bytes past it are kept.
pub open spec fn written(bytes: Seq<u8>, pos: nat, src: Seq<u8>) -> Seq<u8> {
    let end = pos + src.len();
    let len = if bytes.len() < end { end } else { bytes.len() };
    Seq::new(
        len as nat,
        |i: int|
            if pos <= i < end {
                src[i - pos]
            } else if i < bytes.len() {
                bytes[i]
            } else {
                0u8
            },
    )
}

/// An in-memory backend: a growable byte buffer and a cursor, with the four
/// callbacks that a stream needs. A failure is recorded and kept until the
/// next one.
pub struct TestCStream {
    data: Vec<u8>,
    pos: usize,
    error: Option<String>,
}

impl TestCStream {
    /// The bytes of the buffer.
    pub closed spec fn bytes(self) -> Seq<u8> {
        self.data@
    }

    /// The cursor; it may lie past the end of the buffer.
    pub closed spec fn position(self) -> nat {
        self.pos as nat
    }

    /// The detail of the last failure.
    pub closed spec fn error(self) -> Option<Seq<char>> {
        match self.error {
            Some(s) => Some(s@),
            None => None,
        }
    }

    /// A backend over `data` with the cursor at the start.
    fn new(data: Vec<u8>) -> (r: Self)
        ensures
            r.bytes() == data@,
            r.position() == 0,
            r.error() is None,
    {
        TestCStream { data, pos: 0, error: None }
    }

    fn into_c_stream(self) -> (r: CStream<TestCStream>)
        ensures
            r@ == Some(self),
    {
        CStream::new(StreamContext::new(self))
    }

    /// A stream backed by a new in-memory backend over `data`, with the
    /// cursor at the start.
    pub fn from_bytes(data: Vec<u8>) -> (r: CStream<TestCStream>)
        ensures
            r@ is Some,
            (r@->0).bytes() == data@,
            (r@->0).position() == 0,
            (r@->0).error() is None,
    {
        let test_stream = Self::new(data);
        test_stream.into_c_stream()
    }

    /// Takes the backend back out of a live stream, with its buffer and
    /// cursor as the stream left them.
    pub fn from_c_stream(c_stream: CStream<TestCStream>) -> (r: Self)
        requires
            c_stream@ is Some,
        ensures
            c_stream@ == Some(r),
    {
        let mut c_stream = c_stream;
        let original_context = c_stream.extract_context();
        original_context.into_inner().unwrap()
    }

    /// Releases a live stream together with its backend.
    pub fn drop_c_stream(c_stream: CStream<TestCStream>)
        requires
            c_stream@ is Some,
    {
        let _backend = Self::from_c_stream(c_stream);
    }

    /// Records the detail of a failure.
    fn record(&mut self, detail: String)
        ensures
            final(self).bytes() == old(self).bytes(),
            final(self).position() == old(self).position(),
            final(self).error() == Some(detail@),
    {
        self.error = Some(detail);
    }
}

/// `base + offset` when it lies in `0..=isize::MAX`.
fn offset_target(base: usize, offset: isize) -> (r: Option<usize>)
    ensures
        r is Some <==> 0 <= base + offset <= isize::MAX,
        r matches Some(t) ==> t == base + offset,
{
    if base > isize::MAX as usize {
        if offset >= 0 {
            return None;
        }
        let back: usize = ((-(offset + 1)) as usize) + 1;
        if back > base || base - back > isize::MAX as usize {
            None
        } else {
            Some(base - back)
        }
    } else if offset >= 0 {
        if offset as usize > isize::MAX as usize - base {
            None
        } else {
            Some(base + offset as usize)
        }
    } else {
        let back: usize = ((-(offset + 1)) as usize) + 1;
        if back > base {
            None
        } else {
            Some(base - back)
        }
    }
}

impl StreamCallbacks for TestCStream {
    /// Copies what lies between the cursor and the end of the buffer, as much
    /// as fits, to the front of the destination, which keeps its other bytes;
    /// the cursor moves past what was copied. It never fails.
    open spec fn read_step(pre: Self, dst: Seq<u8>, post: Self, filled: Seq<u8>, r: isize) -> bool {
        let n = read_count(pre.bytes(), pre.position(), dst.len());
        let start = if pre.position() < pre.bytes().len() {
            pre.position()
        } else {
            pre.bytes().len()
        };
        &&& r == n
        &&& post.bytes() == pre.bytes()
        &&& post.position() == pre.position() + n
        &&& post.error() == pre.error()
        &&& filled == pre.bytes().subrange(start as int, (start + n) as int) + dst.subrange(
            n as int,
            dst.len() as int,
        )
    }

    /// Moves the cursor to the target and returns it; the target may lie
    /// past the end. A target below zero or past `isize::MAX` is a failure
    /// that leaves the cursor where it was.
    open spec fn seek_step(pre: Self, offset: isize, mode: C2paSeekMode, post: Self, r: isize) -> bool {
        let target = seek_target(pre.bytes(), pre.position(), offset as int, mode);
        &&& post.bytes() == pre.bytes()
        &&& if 0 <= target <= isize::MAX {
            &&& r == target
            &&& post.position() == target
            &&& post.error() == pre.error()
        } else {
            &&& r == -1
            &&& post.position() == pre.position()
            &&& post.error() == Some(seek_error_text())
        }
    }

    /// Writes all of `src` at the cursor and moves the cursor past it. A
    /// write that would end past `isize::MAX` is a failure that changes
    /// nothing but the recorded detail.
    open spec fn write_step(pre: Self, src: Seq<u8>, post: Self, r: isize) -> bool {
        if pre.position() + src.len() <= isize::MAX {
            &&& r == src.len()
            &&& post.bytes() == written(pre.bytes(), pre.position(), src)
            &&& post.position() == pre.position() + src.len()
            &&& post.error() == pre.error()
        } else {
            &&& r == -1
            &&& post.bytes() == pre.bytes()
            &&& post.position() == pre.position()
            &&& post.error() == Some(write_error_text())
        }
    }

    /// Nothing is held back: flushing changes nothing and succeeds.
    open spec fn flush_step(pre: Self, post: Self, r: isize) -> bool {
        post == pre && r == 0
    }

    /// The detail reported is the one recorded last.
    open spec fn error_report(s: Self, detail: Option<Seq<char>>) -> bool {
        detail == s.error()
    }

    fn reader(&mut self, data: &mut [u8]) -> (r: isize) {
        let len = self.data.len();
        let start = if self.pos < len {
            self.pos
        } else {
            len
        };
        let avail = len - start;
        let n = if data.len() < avail {
            data.len()
        } else {
            avail
        };
        let ghost dst = data@;
        let mut i: usize = 0;
        while i < n
            invariant
                i <= n,
                start + n <= self.data@.len(),
                data@.len() == dst.len(),
                n <= dst.len(),
                dst.len() <= isize::MAX,
                self.data@.len() == len,
                forall|j: int| 0 <= j < i ==> data@[j] == self.data@[start + j],
                forall|j: int| i <= j < dst.len() ==> data@[j] == dst[j],
            decreases n - i,
        {
            data[i] = self.data[start + i];
            i = i + 1;
        }
        self.pos = self.pos + n;
        assert(data@ =~= self.data@.subrange(start as int, start + n) + dst.subrange(
            n as int,
            dst.len() as int,
        ));
        n as isize
    }

    fn seeker(&mut self, offset: isize, mode: C2paSeekMode) -> (r: isize) {
        let target = match mode {
            C2paSeekMode::Start => offset_target(0, offset),
            C2paSeekMode::Current => offset_target(self.pos, offset),
            C2paSeekMode::End => offset_target(self.data.len(), offset),
        };
        match target {
            Some(t) => {
                self.pos = t;
                t as isize
            },
            None => {
                proof {
                    reveal_strlit("invalid seek to a negative or overflowing position");
                }
                self.record("invalid seek to a negative or overflowing position".to_string());
                -1
            },
        }
    }

    fn writer(&mut self, data: &[u8]) -> (r: isize) {
        let len = data.len();
        if self.pos > isize::MAX as usize - len {
            proof {
                reveal_strlit("cursor position exceeds maximum possible vector length");
            }
            self.record("cursor position exceeds maximum possible vector length".to_string());
            return -1;
        }
        let ghost old_bytes = self.data@;
        let pos = self.pos;
        while self.data.len() < pos
            invariant
                self.pos == pos,
                self.error == old(self).error,
                old_bytes.len() <= self.data@.len() <= if old_bytes.len() < pos {
                    pos as int
                } else {
                    old_bytes.len() as int
                },
                forall|j: int|
                    0 <= j < self.data@.len() ==> self.data@[j] == if j < old_bytes.len() {
                        old_bytes[j]
                    } else {
                        0u8
                    },
            decreases pos - self.data@.len(),
        {
            self.data.push(0);
        }
        let mut i: usize = 0;
        while i < len
            invariant
                self.pos == pos,
                self.error == old(self).error,
                pos + len <= isize::MAX,
                len == data@.len(),
                i <= len,
                self.data@.len() == if old_bytes.len() < pos + i {
                    (pos + i) as int
                } else {
                    old_bytes.len() as int
                },
                self.data@.len() >= pos,
                forall|j: int|
                    0 <= j < self.data@.len() ==> self.data@[j] == if pos <= j < pos + i {
                        data@[j - pos]
                    } else if j < old_bytes.len() {
                        old_bytes[j]
                    } else {
                        0u8
                    },
            decreases len - i,
        {
            let at = pos + i;
            if at < self.data.len() {
                self.data.set(at, data[i]);
            } else {
                self.data.push(data[i]);
            }
            i = i + 1;
        }
        self.pos = pos + len;
        assert(self.data@ =~= written(old_bytes, pos as nat, data@));
        len as isize
    }

    fn flusher(&mut self) -> (r: isize) {
        0
    }

    fn last_error(&self) -> (r: Option<String>) {
        match &self.error {
            Some(s) => Some(s.clone()),
            None => None,
        }
    }
}

/// Sequential reads give the bytes back in order: when what was read so far
/// is the part of `b` before the cursor, a read hands out the bytes that
/// follow, so that this still holds after it, and a read into a non-empty
/// buffer that returns nothing comes only once all of `b` was read. A stream
/// made by `from_bytes` starts with nothing read and the cursor at 0.
pub proof fn lemma_read_round_trip(
    b: Seq<u8>,
    so_far: Seq<u8>,
    pre: TestCStream,
    dst: Seq<u8>,
    post: TestCStream,
    filled: Seq<u8>,
    r: isize,
)
    requires
        pre.bytes() == b,
        pre.position() <= b.len(),
        so_far == b.subrange(0, pre.position() as int),
        TestCStream::read_step(pre, dst, post, filled, r),
    ensures
        r >= 0,
        post.bytes() == b,
        post.position() <= b.len(),
        so_far + filled.subrange(0, r as int) == b.subrange(0, post.position() as int),
        r == 0 && dst.len() > 0 ==> so_far == b,
{
    let p = pre.position() as int;
    let q = post.position() as int;
    assert(filled.subrange(0, r as int) =~= b.subrange(p, q));
    assert(so_far + b.subrange(p, q) =~= b.subrange(0, q));
    if r == 0 && dst.len() > 0 {
        assert(so_far =~= b);
    }
}

/// A read into a buffer longer than what is left returns exactly what is
/// left, puts it at the front of the buffer and leaves the rest untouched.
pub proof fn lemma_partial_read(pre: TestCStream, dst: Seq<u8>, post: TestCStream, filled: Seq<u8>, r: isize)
    requires
        pre.position() <= pre.bytes().len(),
        dst.len() > pre.bytes().len() - pre.position(),
        TestCStream::read_step(pre, dst, post, filled, r),
    ensures
        r == pre.bytes().len() - pre.position(),
        post.position() == pre.bytes().len(),
        filled.subrange(0, r as int) == pre.bytes().subrange(pre.position() as int, pre.bytes().len() as int),
        filled.subrange(r as int, dst.len() as int) == dst.subrange(r as int, dst.len() as int),
{
    let n = r as int;
    assert(filled.subrange(0, n) =~= pre.bytes().subrange(pre.position() as int, pre.bytes().len() as int));
    assert(filled.subrange(n, dst.len() as int) =~= dst.subrange(n, dst.len() as int));
}

/// Writing `src` at the end of the buffer appends it and leaves the cursor at
/// the new end, and a seek to offset 0 from the end then reports the new
/// length.
pub proof fn lemma_write_at_end(
    pre: TestCStream,
    src: Seq<u8>,
    mid: TestCStream,
    r: isize,
    post: TestCStream,
    r2: isize,
)
    requires
        pre.position() == pre.bytes().len(),
        pre.bytes().len() + src.len() <= isize::MAX,
        TestCStream::write_step(pre, src, mid, r),
        TestCStream::seek_step(mid, 0, C2paSeekMode::End, post, r2),
    ensures
        r == src.len(),
        mid.bytes() == pre.bytes() + src,
        mid.position() == mid.bytes().len(),
        r2 == mid.bytes().len(),
        reported_position(r2) == pre.bytes().len() + src.len(),
        post.position() == mid.bytes().len(),
{
    assert(mid.bytes() =~= pre.bytes() + src);
}

/// A failed callback surfaces as an `Io` error that carries exactly the
/// detail the backend recorded.
pub proof fn lemma_failure_detail(post: TestCStream, r: isize, res: Result<usize, StreamError>)
    requires
        r < 0,
        count_outcome(res, r, post),
        post.error() is Some,
    ensures
        res matches Err(StreamError::Io(d)) && post.error() == Some(d@),
{
    if let Err(StreamError::Io(d)) = res {
        let rep = choose|rep: Option<Seq<char>>| #[trigger] TestCStream::error_report(post, rep) && d@ == io_detail(rep);
        assert(rep == post.error());
    }
}

} // verus!
