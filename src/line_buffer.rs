//! A byte buffer that collects received text and hands it out line by line.
use vstd::prelude::*;

use resol_vbus::BlobBuffer;

verus! {

/// The byte buffer of `resol_vbus` (`BlobBuffer`), opaque here.
#[verifier::external_type_specification]
#[verifier::external_body]
pub struct ExBlobBuffer(BlobBuffer);

/// The bytes that a `BlobBuffer` holds and that have not been consumed.
pub uninterp spec fn blob_bytes(b: BlobBuffer) -> Seq<u8>;

/// Relies on `resol_vbus::BlobBuffer::new`: an empty buffer.
#[verifier::external_body]
fn blob_new() -> (r: BlobBuffer)
    ensures
        blob_bytes(r) == Seq::<u8>::empty(),
{
    BlobBuffer::new()
}

/// Relies on `resol_vbus::BlobBuffer::extend_from_slice`: appends the bytes.
#[verifier::external_body]
fn blob_extend(b: &mut BlobBuffer, bytes: &[u8])
    ensures
        blob_bytes(*final(b)) == blob_bytes(*old(b)) + bytes@,
{
    b.extend_from_slice(bytes)
}

/// Relies on `resol_vbus::BlobBuffer::len`: the number of unconsumed bytes.
#[verifier::external_body]
fn blob_len(b: &BlobBuffer) -> (r: usize)
    ensures
        r == blob_bytes(*b).len(),
{
    b.len()
}

/// Relies on the `Index` impl of `resol_vbus::BlobBuffer`: the unconsumed bytes
/// in `from..to`.
#[verifier::external_body]
fn blob_range(b: &BlobBuffer, from: usize, to: usize) -> (r: &[u8])
    requires
        from <= to <= blob_bytes(*b).len(),
    ensures
        r@ == blob_bytes(*b).subrange(from as int, to as int),
{
    &b[from..to]
}

/// Relies on `resol_vbus::BlobBuffer::consume`: drops the first `n` unconsumed bytes.
#[verifier::external_body]
fn blob_consume(b: &mut BlobBuffer, n: usize)
    requires
        n <= blob_bytes(*old(b)).len(),
    ensures
        blob_bytes(*final(b)) == blob_bytes(*old(b)).skip(n as int),
{
    b.consume(n)
}

/// The index of the first line feed (byte 10) in `b`, or `b.len()` if there is none.
pub open spec fn first_lf(b: Seq<u8>) -> int
    decreases b.len(),
{
    if b.len() == 0 {
        0
    } else if b[0] == 10 {
        0
    } else {
        1 + first_lf(b.drop_first())
    }
}

proof fn lemma_first_lf(b: Seq<u8>, k: int)
    requires
        0 <= k <= b.len(),
        forall|i: int| 0 <= i < k ==> b[i] != 10,
        k == b.len() || b[k] == 10,
    ensures
        first_lf(b) == k,
    decreases k,
{
    if k > 0 {
        lemma_first_lf(b.drop_first(), k - 1);
    }
}

/// Received bytes waiting to be taken line by line.
#[derive(Debug)]
pub struct LineBuffer {
    buf: BlobBuffer,
}

impl View for LineBuffer {
    type V = Seq<u8>;

    closed spec fn view(&self) -> Seq<u8> {
        blob_bytes(self.buf)
    }
}

impl LineBuffer {
    /// An empty buffer.
    pub fn new() -> (r: LineBuffer)
        ensures
            r@ == Seq::<u8>::empty(),
    {
        LineBuffer { buf: blob_new() }
    }

    /// Appends received bytes.
    pub fn extend_from_slice(&mut self, bytes: &[u8])
        ensures
            final(self)@ == old(self)@ + bytes@,
    {
        blob_extend(&mut self.buf, bytes)
    }

    /// The index of the first line feed, if a whole line is buffered.
    pub fn find_line_end(&self) -> (r: Option<usize>)
        ensures
            r matches Some(i) ==> i == first_lf(self@) && i < self@.len(),
            r is None ==> first_lf(self@) == self@.len(),
            self@.len() <= usize::MAX,
    {
        let len = blob_len(&self.buf);
        let bytes = blob_range(&self.buf, 0, len);
        assert(bytes@ =~= self@);
        let mut i: usize = 0;
        while i < len
            invariant
                len == bytes@.len() == self@.len(),
                bytes@ == self@,
                i <= len,
                forall|j: int| 0 <= j < i ==> self@[j] != 10,
            decreases len - i,
        {
            if bytes[i] == 10 {
                proof {
                    lemma_first_lf(self@, i as int);
                }
                return Some(i);
            }
            i = i + 1;
        }
        proof {
            lemma_first_lf(self@, len as int);
        }
        None
    }

    /// The buffered bytes in `from..to`.
    pub fn range(&self, from: usize, to: usize) -> (r: &[u8])
        requires
            from <= to <= self@.len(),
        ensures
            r@ == self@.subrange(from as int, to as int),
    {
        blob_range(&self.buf, from, to)
    }

    /// Drops the first `n` buffered bytes.
    pub fn consume(&mut self, n: usize)
        requires
            n <= old(self)@.len(),
        ensures
            final(self)@ == old(self)@.skip(n as int),
    {
        blob_consume(&mut self.buf, n)
    }
}

} // verus!
