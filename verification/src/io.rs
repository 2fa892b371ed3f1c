//! Byte streams. `ByteRead` and `ByteWrite` are the stream interfaces that the
//! payload readers and writers work over, in the shape of `embedded_io`'s
//! `Read` and `Write`: `read_exact` and `write_all` loop over `read` and
//! `write` as `embedded_io`'s do, and any `embedded_io` stream can implement
//! them by delegation. `SliceReader` and `SliceWriter` are the in-memory
//! streams, backed by `embedded_io`'s implementations for byte slices.

use vstd::prelude::*;

verus! {

/// Error of `ByteRead::read_exact`.
#[derive(Debug, PartialEq, Eq)]
pub enum ReadExactError<E> {
    /// The stream ended before the requested number of bytes was read.
    UnexpectedEof,
    /// The stream reported an error.
    Other(E),
}

/// A stream of bytes that can be read.
///
/// `consumed` is every byte the stream has handed out so far, oldest first;
/// `pending` is what it will hand out next, up to the end it would report
/// now. A `reliable` stream never reports an error, and each read hands
/// out as many bytes as were asked for and are pending. `read_limit` bounds
/// how many more bytes may be requested; streams that keep a running count
/// of the bytes they pass on use it to keep that count from overflowing.
/// `source` is every byte taken from what lies beneath the stream; it grows
/// by exactly what the stream hands out. `setting` is fixed when the stream
/// is made.
pub trait ByteRead: Sized {
    type Error;

    /// Every byte handed out so far.
    /// A stream that does not define it gets some fixed but unknown
    /// function.
    closed spec fn consumed(&self) -> Seq<u8> {
        vstd::pervasive::arbitrary::<spec_fn(Self) -> Seq<u8>>()(*self)
    }

    /// The bytes the stream will hand out next.
    /// A stream that does not define it gets some fixed but unknown
    /// function.
    closed spec fn pending(&self) -> Seq<u8> {
        vstd::pervasive::arbitrary::<spec_fn(Self) -> Seq<u8>>()(*self)
    }

    /// Whether the stream never reports an error.
    /// A stream that does not define it gets some fixed but unknown
    /// function.
    closed spec fn reliable(&self) -> bool {
        vstd::pervasive::arbitrary::<spec_fn(Self) -> bool>()(*self)
    }

    /// How many more bytes may be requested. A stream that does not say
    /// sets no limit of its own.
    closed spec fn read_limit(&self) -> nat {
        usize::MAX as nat
    }

    /// Every byte taken from what lies beneath the stream, oldest first: for
    /// a stream that reads from another, that one's source; for a stream that
    /// reads from memory, what it has handed out.
    /// A stream that does not define it gets some fixed but unknown
    /// function.
    closed spec fn source(&self) -> Seq<u8> {
        vstd::pervasive::arbitrary::<spec_fn(Self) -> Seq<u8>>()(*self)
    }

    /// A value fixed when the stream was made, which no read changes (such as
    /// the checksum a checksumming stream started from).
    /// A stream that does not define it gets some fixed but unknown
    /// function.
    closed spec fn setting(&self) -> int {
        vstd::pervasive::arbitrary::<spec_fn(Self) -> int>()(*self)
    }

    /// Reads at most `max` bytes, from the front of what is pending. An empty
    /// result for `max > 0` means that nothing is pending: the stream is at
    /// its end.
    fn read(&mut self, max: usize) -> (r: Result<Vec<u8>, Self::Error>)
        requires
            max <= (*old(self)).read_limit(),
        ensures
            (*final(self)).source() == (*old(self)).source() + (*final(self)).consumed().skip((*old(self)).consumed().len() as int),
            (*final(self)).setting() == (*old(self)).setting(),
            (*final(self)).reliable() == (*old(self)).reliable(),
            (*old(self)).reliable() ==> (r matches Ok(bytes) && bytes@.len() == (if max
                < (*old(self)).pending().len() {
                max as nat
            } else {
                (*old(self)).pending().len()
            })),
            match r {
                Ok(bytes) => {
                    &&& bytes@.len() <= max
                    &&& bytes@.len() <= (*old(self)).pending().len()
                    &&& bytes@ == (*old(self)).pending().take(bytes@.len() as int)
                    &&& (*final(self)).pending() == (*old(self)).pending().skip(
                        bytes@.len() as int,
                    )
                    &&& max > 0 && bytes@.len() == 0 ==> (*old(self)).pending().len() == 0
                    &&& (*final(self)).consumed() == (*old(self)).consumed() + bytes@
                    &&& (*final(self)).read_limit() + bytes@.len() >= (*old(self)).read_limit()
                },
                Err(_) => {
                    &&& !(*old(self)).reliable()
                    &&& (*final(self)).pending() == (*old(self)).pending()
                    &&& (*final(self)).consumed() == (*old(self)).consumed()
                    &&& (*final(self)).read_limit() >= (*old(self)).read_limit()
                },
            },
    ;

    /// Reads exactly `len` bytes, calling `read` until they are all there. A
    /// read that returns nothing ends the loop with `UnexpectedEof`; an error
    /// of the stream ends it with `Other`. Bytes read before a failure are
    /// consumed and lost. A reliable stream succeeds exactly when `len` bytes
    /// are pending.
    fn read_exact(&mut self, len: usize) -> (r: Result<Vec<u8>, ReadExactError<Self::Error>>)
        requires
            len <= (*old(self)).read_limit(),
        ensures
            ({
                let taken = (*final(self)).consumed().len() - (*old(self)).consumed().len();
                &&& 0 <= taken <= (*old(self)).pending().len()
                &&& (*final(self)).consumed() == (*old(self)).consumed() + (*old(
                    self,
                )).pending().take(taken)
                &&& (*final(self)).pending() == (*old(self)).pending().skip(taken)
                &&& (*final(self)).read_limit() + taken >= (*old(self)).read_limit()
            }),
            (*final(self)).source() == (*old(self)).source() + (*final(self)).consumed().skip((*old(self)).consumed().len() as int),
            (*final(self)).setting() == (*old(self)).setting(),
            (*final(self)).reliable() == (*old(self)).reliable(),
            (*old(self)).reliable() ==> (r is Ok <==> len <= (*old(self)).pending().len()),
            match r {
                Ok(bytes) => bytes@.len() == len && bytes@ == (*old(self)).pending().take(
                    len as int,
                ) && (*final(self)).consumed().len() == (*old(self)).consumed().len() + len,
                Err(ReadExactError::UnexpectedEof) => {
                    &&& (*final(self)).pending().len() == 0
                    &&& (*final(self)).consumed().len() < (*old(self)).consumed().len() + len
                },
                Err(ReadExactError::Other(_)) => {
                    &&& !(*old(self)).reliable()
                    &&& (*final(self)).consumed().len() < (*old(self)).consumed().len() + len
                },
            },
    {
        let ghost start = self.consumed();
        let ghost limit = self.read_limit();
        let ghost waiting = self.pending();
        let mut out: Vec<u8> = Vec::new();
        while out.len() < len
            invariant
                out@.len() <= len,
                len <= limit,
                start == (*old(self)).consumed(),
                limit == (*old(self)).read_limit(),
                waiting == (*old(self)).pending(),
                self.setting() == (*old(self)).setting(),
                self.source() == (*old(self)).source() + self.consumed().skip(start.len() as int),
                self.reliable() == (*old(self)).reliable(),
                out@.len() <= waiting.len(),
                out@ == waiting.take(out@.len() as int),
                self.pending() == waiting.skip(out@.len() as int),
                self.consumed() == start + out@,
                self.read_limit() + out@.len() >= limit,
            decreases len - out@.len(),
        {
            let want: usize = len - out.len();
            match self.read(want) {
                Ok(chunk) => {
                    if chunk.len() == 0 {
                        return Err(ReadExactError::UnexpectedEof);
                    }
                    let ghost before = out@;
                    out.extend_from_slice(chunk.as_slice());
                    assert(out@ == before + chunk@);
                    assert(out@ =~= waiting.take(out@.len() as int));
                    assert(self.pending() =~= waiting.skip(out@.len() as int));
                },
                Err(e) => {
                    return Err(ReadExactError::Other(e));
                },
            }
        }
        Ok(out)
    }
}

/// What is left of `s` once its first `k` bytes are overwritten: nothing
/// when `k` reaches past its end.
pub open spec fn after_front(s: Seq<u8>, k: int) -> Seq<u8> {
    if k <= s.len() {
        s.skip(k)
    } else {
        Seq::empty()
    }
}

/// Overwriting `a` bytes and then `b` more is overwriting `a + b`.
pub proof fn lemma_after_front_twice(s: Seq<u8>, a: int, b: int)
    requires
        0 <= a,
        0 <= b,
    ensures
        after_front(after_front(s, a), b) == after_front(s, a + b),
{
    if a + b <= s.len() {
        assert(s.skip(a).skip(b) =~= s.skip(a + b));
    }
}

/// A stream of bytes that can be written.
///
/// `sent` is every byte the stream has accepted so far, oldest first;
/// `space` is how many more bytes it will accept. A `reliable` stream fails
/// only for want of space: each write takes as much as fits, and fails only
/// when something is offered and nothing fits. `write_limit` bounds how many
/// bytes one call may offer; streams that keep a running count of the bytes
/// they pass on use it to keep that count from overflowing. `destination`
/// is every byte passed on to what lies beneath the stream; it grows by
/// exactly what the stream accepts. `buffered` counts accepted bytes held
/// back until a flush. `setting` is fixed when the stream is made.
pub trait ByteWrite: Sized {
    type Error;

    /// Every byte accepted so far.
    /// A stream that does not define it gets some fixed but unknown
    /// function.
    closed spec fn sent(&self) -> Seq<u8> {
        vstd::pervasive::arbitrary::<spec_fn(Self) -> Seq<u8>>()(*self)
    }

    /// How many more bytes the stream will accept.
    /// A stream that does not define it gets some fixed but unknown
    /// function.
    closed spec fn space(&self) -> nat {
        vstd::pervasive::arbitrary::<spec_fn(Self) -> nat>()(*self)
    }

    /// Whether the stream fails only for want of space.
    /// A stream that does not define it gets some fixed but unknown
    /// function.
    closed spec fn reliable(&self) -> bool {
        vstd::pervasive::arbitrary::<spec_fn(Self) -> bool>()(*self)
    }

    /// How many bytes one call may offer. A stream that does not say sets no
    /// limit of its own.
    closed spec fn write_limit(&self) -> nat {
        usize::MAX as nat
    }

    /// A value fixed when the stream was made, which no write changes (such as
    /// the checksum a checksumming stream started from).
    /// A stream that does not define it gets some fixed but unknown
    /// function.
    closed spec fn setting(&self) -> int {
        vstd::pervasive::arbitrary::<spec_fn(Self) -> int>()(*self)
    }

    /// Every byte the stream has passed on to what lies beneath it, oldest
    /// first: for a stream that writes to another, that one's destination; for
    /// a stream that writes to memory, what it holds there.
    /// A stream that does not define it gets some fixed but unknown
    /// function.
    closed spec fn destination(&self) -> Seq<u8> {
        vstd::pervasive::arbitrary::<spec_fn(Self) -> Seq<u8>>()(*self)
    }

    /// What the destination holds beyond the bytes passed on so far, which
    /// the next bytes overwrite from the front: for a stream into a buffer of
    /// fixed size, the rest of that buffer; for a stream with no such buffer,
    /// nothing.
    /// A stream that does not define it gets some fixed but unknown
    /// function.
    closed spec fn unwritten(&self) -> Seq<u8> {
        vstd::pervasive::arbitrary::<spec_fn(Self) -> Seq<u8>>()(*self)
    }

    /// How many accepted bytes the stream still holds back in a buffer of its
    /// own, not yet pushed on; a successful `flush` empties it.
    /// A stream that does not define it gets some fixed but unknown
    /// function.
    closed spec fn buffered(&self) -> nat {
        vstd::pervasive::arbitrary::<spec_fn(Self) -> nat>()(*self)
    }

    /// Writes a prefix of `buf` and returns its length, which is not zero
    /// unless `buf` is empty.
    fn write(&mut self, buf: &[u8]) -> (r: Result<usize, Self::Error>)
        requires
            buf@.len() <= (*old(self)).write_limit(),
        ensures
            (*final(self)).destination() == (*old(self)).destination() + (*final(self)).sent().skip((*old(self)).sent().len() as int),
            (*final(self)).unwritten() == after_front((*old(self)).unwritten(), (*final(self)).sent().len() - (*old(self)).sent().len()),
            (*final(self)).setting() == (*old(self)).setting(),
            (*final(self)).reliable() == (*old(self)).reliable(),
            (*old(self)).reliable() ==> (r is Err <==> buf@.len() > 0 && (*old(self)).space()
                == 0),
            match r {
                Ok(n) => {
                    &&& n <= buf@.len()
                    &&& buf@.len() > 0 ==> n > 0
                    &&& (*final(self)).sent() == (*old(self)).sent() + buf@.take(n as int)
                    &&& (*final(self)).write_limit() + n >= (*old(self)).write_limit()
                    &&& (*old(self)).reliable() ==> n == (if buf@.len() < (*old(self)).space() {
                        buf@.len()
                    } else {
                        (*old(self)).space()
                    }) && (*final(self)).space() == (*old(self)).space() - n
                },
                Err(_) => {
                    &&& (*final(self)).sent() == (*old(self)).sent()
                    &&& (*final(self)).space() == (*old(self)).space()
                    &&& (*final(self)).write_limit() >= (*old(self)).write_limit()
                },
            },
    ;

    /// Pushes buffered bytes to their destination.
    fn flush(&mut self) -> (r: Result<(), Self::Error>)
        ensures
            (*final(self)).destination() == (*old(self)).destination() + (*final(self)).sent().skip((*old(self)).sent().len() as int),
            (*final(self)).unwritten() == after_front((*old(self)).unwritten(), (*final(self)).sent().len() - (*old(self)).sent().len()),
            (*final(self)).setting() == (*old(self)).setting(),
            (*final(self)).sent() == (*old(self)).sent(),
            (*final(self)).space() == (*old(self)).space(),
            (*final(self)).reliable() == (*old(self)).reliable(),
            (*final(self)).write_limit() >= (*old(self)).write_limit(),
            (*old(self)).reliable() ==> r is Ok,
            r is Ok ==> (*final(self)).buffered() == 0,
    ;

    /// Writes all of `buf`, calling `write` until it is all accepted. An error
    /// of the stream ends the loop; the bytes accepted before it stay sent. A
    /// reliable stream succeeds exactly when `buf` fits.
    fn write_all(&mut self, buf: &[u8]) -> (r: Result<(), Self::Error>)
        requires
            buf@.len() <= (*old(self)).write_limit(),
        ensures
            (*final(self)).destination() == (*old(self)).destination() + (*final(self)).sent().skip((*old(self)).sent().len() as int),
            (*final(self)).unwritten() == after_front((*old(self)).unwritten(), (*final(self)).sent().len() - (*old(self)).sent().len()),
            (*final(self)).setting() == (*old(self)).setting(),
            (*old(self)).sent().is_prefix_of((*final(self)).sent()),
            (*final(self)).write_limit() + (*final(self)).sent().len() >= (*old(self)).write_limit()
                + (*old(self)).sent().len(),
            (*final(self)).reliable() == (*old(self)).reliable(),
            r is Ok ==> (*final(self)).sent() == (*old(self)).sent() + buf@,
            r is Err ==> (*final(self)).sent().len() < (*old(self)).sent().len() + buf@.len(),
            (*old(self)).reliable() ==> (r is Ok <==> buf@.len() <= (*old(self)).space()),
            (*old(self)).reliable() && r is Ok ==> (*final(self)).space() == (*old(self)).space()
                - buf@.len(),
            (*old(self)).reliable() && r is Err ==> (*final(self)).space() == 0
                && (*final(self)).sent() == (*old(self)).sent() + buf@.take(
                (*old(self)).space() as int,
            ),
    {
        let ghost start = self.sent();
        let ghost start_unwritten = self.unwritten();
        let ghost limit = self.write_limit();
        let ghost room = self.space();
        let mut done: usize = 0;
        while done < buf.len()
            invariant
                done <= buf@.len(),
                buf@.len() <= limit,
                start == (*old(self)).sent(),
                limit == (*old(self)).write_limit(),
                room == (*old(self)).space(),
                self.reliable() == (*old(self)).reliable(),
                self.destination() == (*old(self)).destination() + self.sent().skip(
                    start.len() as int,
                ),
                self.setting() == (*old(self)).setting(),
                start_unwritten == (*old(self)).unwritten(),
                self.unwritten() == after_front(start_unwritten, done as int),
                self.reliable() ==> done <= room && self.space() == room - done,
                self.sent() == start + buf@.take(done as int),
                self.write_limit() + done >= limit,
            decreases buf@.len() - done,
        {
            let rest = vstd::slice::slice_subrange(buf, done, buf.len());
            match self.write(rest) {
                Ok(n) => {
                    assert(buf@.take(done as int) + rest@.take(n as int) =~= buf@.take(
                        (done + n) as int,
                    ));
                    proof {
                        lemma_after_front_twice(start_unwritten, done as int, n as int);
                    }
                    done = done + n;
                },
                Err(e) => {
                    assert(start.is_prefix_of(self.sent())) by {
                        assert(self.sent().take(start.len() as int) =~= start);
                    }
                    return Err(e);
                },
            }
        }
        assert(buf@.take(done as int) =~= buf@);
        Ok(())
    }
}

/// Copies the first `len` bytes of `source` out through `embedded_io`'s
/// `Read` implementation for `&[u8]`.
///
/// Trusted: `<&[u8] as embedded_io::Read>::read` copies `min(buf.len(),
/// source.len())` bytes from the front of the slice into `buf` and never
/// fails; with a buffer of `len <= source.len()` bytes it returns exactly the
/// first `len` bytes.
#[verifier::external_body]
fn slice_read(source: &[u8], len: usize) -> (r: Vec<u8>)
    requires
        len <= source@.len(),
    ensures
        r@ == source@.take(len as int),
{
    let mut rest = source;
    let mut buf = vec![0u8; len];
    let n: usize = match embedded_io::Read::read(&mut rest, &mut buf) {
        Ok(n) => n,
        Err(never) => match never {},
    };
    buf.truncate(n);
    buf
}

/// An in-memory stream that hands out the bytes of a slice, front to back.
#[derive(Debug)]
pub struct SliceReader<'a> {
    data: &'a [u8],
    pos: usize,
}

impl<'a> SliceReader<'a> {
    #[verifier::type_invariant]
    spec fn inv(self) -> bool {
        self.pos <= self.data@.len()
    }

    /// All the bytes of the slice.
    pub closed spec fn data(&self) -> Seq<u8> {
        self.data@
    }

    /// How many bytes have been handed out.
    pub closed spec fn position(&self) -> nat {
        self.pos as nat
    }

    /// The bytes not yet handed out.
    pub open spec fn remaining(&self) -> Seq<u8> {
        self.data().skip(self.position() as int)
    }

    /// A reader positioned at the start of `data`.
    pub fn new(data: &'a [u8]) -> (r: Self)
        ensures
            r.data() == data@,
            r.position() == 0,
            r.consumed() == Seq::<u8>::empty(),
            r.remaining() == data@,
    {
        let r = SliceReader { data, pos: 0 };
        assert(r.data@.take(0) =~= Seq::<u8>::empty());
        assert(r.data@.skip(0) =~= data@);
        r
    }

    /// The number of bytes not yet handed out.
    pub fn remaining_len(&self) -> (n: usize)
        ensures
            n == self.remaining().len(),
    {
        proof {
            use_type_invariant(self);
        }
        self.data.len() - self.pos
    }
}

impl<'a> ByteRead for SliceReader<'a> {
    type Error = core::convert::Infallible;

    open spec fn consumed(&self) -> Seq<u8> {
        self.data().take(self.position() as int)
    }

    open spec fn pending(&self) -> Seq<u8> {
        self.remaining()
    }

    open spec fn reliable(&self) -> bool {
        true
    }

    open spec fn source(&self) -> Seq<u8> {
        self.consumed()
    }

    open spec fn setting(&self) -> int {
        0
    }

    open spec fn read_limit(&self) -> nat {
        usize::MAX as nat
    }

    /// Hands out the next `min(max, remaining)` bytes; never fails.
    fn read(&mut self, max: usize) -> (r: Result<Vec<u8>, Self::Error>)
        ensures
            (*final(self)).data() == (*old(self)).data(),
            (*final(self)).position() <= (*final(self)).data().len(),
            r matches Ok(bytes) && bytes@ == (*old(self)).remaining().take(bytes@.len() as int)
                && (*final(self)).remaining() == (*old(self)).remaining().skip(bytes@.len() as int)
                && (bytes@.len() == max || (*final(self)).remaining().len() == 0),
    {
        proof {
            use_type_invariant(&*self);
        }
        let rest = vstd::slice::slice_subrange(self.data, self.pos, self.data.len());
        let want: usize = if max < rest.len() {
            max
        } else {
            rest.len()
        };
        let bytes = slice_read(rest, want);
        let ghost before = self.data@.take(self.pos as int);
        self.pos = self.pos + want;
        assert(self.data@.take(self.pos as int) =~= before + bytes@);
        assert(self.data@.skip(self.pos as int) =~= rest@.skip(want as int));
        Ok(bytes)
    }
}

#[verifier::external_type_specification]
#[verifier::external_body]
pub struct ExSliceWriteError(embedded_io::SliceWriteError);

/// Writes `bytes` into `buf` from index `pos` on through `embedded_io`'s
/// `Write` implementation for `&mut [u8]`.
///
/// Trusted: `<&mut [u8] as embedded_io::Write>::write` copies
/// `amt = min(bytes.len(), room)` bytes, where `room` is the length of the
/// slice, to its front and returns `Ok(amt)`, except that it returns
/// `Err(SliceWriteError::Full)` and copies nothing when `bytes` is not empty
/// and `room` is zero. It does not panic.
#[verifier::external_body]
fn slice_write(buf: &mut Vec<u8>, pos: usize, bytes: &[u8]) -> (r: Result<
    usize,
    embedded_io::SliceWriteError,
>)
    requires
        pos <= old(buf)@.len(),
    ensures
        ({
            let room: int = old(buf)@.len() - pos;
            let amt: int = if bytes@.len() < room {
                bytes@.len() as int
            } else {
                room
            };
            if bytes@.len() > 0 && amt == 0 {
                r is Err && final(buf)@ == old(buf)@
            } else {
                r == Ok::<usize, embedded_io::SliceWriteError>(amt as usize) && final(buf)@
                    == old(buf)@.take(pos as int) + bytes@.take(amt) + old(buf)@.skip(pos + amt)
            }
        }),
    no_unwind
{
    let mut rest: &mut [u8] = &mut buf[pos..];
    embedded_io::Write::write(&mut rest, bytes)
}

/// An in-memory stream that overwrites a buffer of fixed length, front to
/// back. Once the buffer is full, writes fail with `SliceWriteError::Full`.
#[derive(Debug)]
pub struct SliceWriter {
    buf: Vec<u8>,
    pos: usize,
}

impl SliceWriter {
    #[verifier::type_invariant]
    spec fn inv(self) -> bool {
        self.pos <= self.buf@.len()
    }

    /// The whole buffer: the bytes written so far followed by the untouched
    /// rest of the original buffer.
    pub closed spec fn contents(&self) -> Seq<u8> {
        self.buf@
    }

    /// How many bytes have been written.
    pub closed spec fn position(&self) -> nat {
        self.pos as nat
    }

    /// A writer that overwrites `buf` from its first byte on.
    pub fn new(buf: Vec<u8>) -> (w: Self)
        ensures
            w.position() == 0,
            w.sent() == Seq::<u8>::empty(),
            w.contents() == buf@,
    {
        let w = SliceWriter { buf, pos: 0 };
        assert(w.buf@.take(0) =~= Seq::<u8>::empty());
        w
    }

    /// The number of bytes that still fit.
    pub fn room(&self) -> (n: usize)
        ensures
            n == self.contents().len() - self.sent().len(),
    {
        proof {
            use_type_invariant(self);
        }
        self.buf.len() - self.pos
    }

    /// Gives back the buffer.
    pub fn into_inner(self) -> (buf: Vec<u8>)
        ensures
            buf@ == self.contents(),
            self.position() <= buf@.len(),
            buf@ == self.sent() + self.unwritten(),
    {
        proof {
            use_type_invariant(&self);
            assert(self.buf@ =~= self.buf@.take(self.pos as int) + self.buf@.skip(
                self.pos as int,
            ));
        }
        self.buf
    }
}

impl ByteWrite for SliceWriter {
    type Error = embedded_io::SliceWriteError;

    open spec fn sent(&self) -> Seq<u8> {
        self.contents().take(self.position() as int)
    }

    open spec fn space(&self) -> nat {
        (self.contents().len() - self.position()) as nat
    }

    open spec fn reliable(&self) -> bool {
        true
    }

    open spec fn write_limit(&self) -> nat {
        usize::MAX as nat
    }

    open spec fn destination(&self) -> Seq<u8> {
        self.sent()
    }

    open spec fn unwritten(&self) -> Seq<u8> {
        self.contents().skip(self.position() as int)
    }

    open spec fn setting(&self) -> int {
        0
    }

    open spec fn buffered(&self) -> nat {
        0
    }

    /// Copies as much of `buf` as fits; fails only when `buf` is not empty and
    /// nothing fits.
    fn write(&mut self, buf: &[u8]) -> (r: Result<usize, Self::Error>)
        ensures
            (*final(self)).contents().len() == (*old(self)).contents().len(),
            (*final(self)).position() <= (*final(self)).contents().len(),
            ({
                let room: int = (*old(self)).contents().len() - (*old(self)).sent().len();
                match r {
                    Ok(n) => n == (if buf@.len() < room {
                        buf@.len() as int
                    } else {
                        room
                    }) && (*final(self)).contents() == (*old(self)).sent() + buf@.take(n as int)
                        + (*old(self)).contents().skip((*old(self)).sent().len() + n),
                    Err(_) => buf@.len() > 0 && room == 0 && (*final(self)).contents() == old(
                        self,
                    ).contents(),
                }
            }),
    {
        proof {
            use_type_invariant(&*self);
        }
        let ghost old_buf = self.buf@;
        let cap: usize = self.buf.len();
        let r = slice_write(&mut self.buf, self.pos, buf);
        match r {
            Ok(n) => {
                let ghost p = self.pos;
                assert(p + n <= cap);
                self.pos = self.pos + n;
                assert(self.buf@.take(self.pos as int) =~= old_buf.take(p as int) + buf@.take(
                    n as int,
                ));
                assert(old_buf.take(p as int).len() == p);
                Ok(n)
            },
            Err(e) => Err(e),
        }
    }

    /// Nothing is buffered, so this does nothing.
    fn flush(&mut self) -> (r: Result<(), Self::Error>)
        ensures
            r is Ok,
            (*final(self)).contents() == (*old(self)).contents(),
            (*final(self)).position() == (*old(self)).position(),
    {
        Ok(())
    }
}

} // verus!
