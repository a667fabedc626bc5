//! In-memory access to gzip-compressed data.
//!
//! A [`GzipData`] holds decompressed bytes behind a read cursor, so the
//! dataset readers can consume headers and then the payload. Decompression
//! itself is done by the `flate2` crate; everything around it is verified
//! against the cursor model.

use vstd::prelude::*;

verus! {

/// What `flate2` produces for a given gzip stream: the decompressed bytes
/// are a function of the compressed bytes alone.
pub uninterp spec fn gunzip_of(bytes: Seq<u8>) -> Seq<u8>;

/// Relies on flate2's `GzDecoder` (driven by `std::io::Read::read_to_end`):
/// decoding either yields the decompressed stream, a function of the input
/// bytes alone, or fails on malformed input.
#[verifier::external_body]
fn gunzip(bytes: &Vec<u8>) -> (r: Result<Vec<u8>, &'static str>)
    ensures
        r matches Ok(v) ==> v@ == gunzip_of(bytes@),
{
    let mut out: Vec<u8> = Vec::new();
    let mut decoder = flate2::read::GzDecoder::new(bytes.as_slice());
    match std::io::Read::read_to_end(&mut decoder, &mut out) {
        Ok(_) => Ok(out),
        Err(_) => Err("Could not unzip data."),
    }
}

/// Copy up to `n` leading elements of `src` over the front of `dst`.
///
/// Copies `c = min(dst.len(), src.len(), n)` elements and returns `c`; the
/// tail of `dst` is untouched.
pub fn copy_memory<T: Copy>(dst: &mut Vec<T>, src: &[T], n: usize) -> (c: usize)
    ensures
        c == vstd::math::min(vstd::math::min(old(dst)@.len() as int, src@.len() as int), n as int),
        final(dst)@.len() == old(dst)@.len(),
        forall|i: int| 0 <= i < c ==> final(dst)@[i] == src@[i],
        forall|i: int| c <= i < final(dst)@.len() ==> final(dst)@[i] == old(dst)@[i],
{
    let mut c = dst.len();
    if src.len() < c {
        c = src.len();
    }
    if n < c {
        c = n;
    }
    let mut i: usize = 0;
    while i < c
        invariant
            c <= old(dst)@.len(),
            c <= src@.len(),
            i <= c,
            dst@.len() == old(dst)@.len(),
            forall|k: int| 0 <= k < i ==> dst@[k] == src@[k],
            forall|k: int| i <= k < dst@.len() ==> dst@[k] == old(dst)@[k],
        decreases c - i,
    {
        dst[i] = src[i];
        i = i + 1;
    }
    c
}

/// Decompressed data with a read cursor.
pub struct GzipData {
    v: Vec<u8>,
    idx: usize,
}

impl GzipData {
    /// The whole decompressed buffer, consumed prefix included.
    pub closed spec fn all_bytes(self) -> Seq<u8> {
        self.v@
    }

    /// How many bytes have been consumed.
    pub closed spec fn pos(self) -> int {
        self.idx as int
    }

    /// The cursor never passes the end of the buffer.
    pub open spec fn wf(self) -> bool {
        0 <= self.pos() <= self.all_bytes().len()
    }

    /// The bytes not yet consumed.
    pub open spec fn remaining(self) -> Seq<u8> {
        self.all_bytes().skip(self.pos())
    }

    /// Wrap already-decompressed bytes.
    pub fn from_buf(v: Vec<u8>) -> (r: GzipData)
        ensures
            r.wf(),
            r.all_bytes() == v@,
            r.pos() == 0,
    {
        GzipData { v, idx: 0 }
    }

    /// Decompress a gzip stream held in memory.
    pub fn from_gzip_bytes(bytes: &Vec<u8>) -> (r: Result<GzipData, &'static str>)
        ensures
            r matches Ok(g) ==> g.wf() && g.pos() == 0 && g.all_bytes() == gunzip_of(bytes@),
    {
        match gunzip(bytes) {
            Ok(v) => Ok(GzipData::from_buf(v)),
            Err(e) => Err(e),
        }
    }

    /// Give up the cursor and return the whole buffer.
    pub fn into_bytes(self) -> (r: Vec<u8>)
        ensures
            r@ == self.all_bytes(),
    {
        self.v
    }

    /// The length of the whole decompressed buffer.
    pub fn len(&self) -> (r: usize)
        ensures
            r == self.all_bytes().len(),
    {
        self.v.len()
    }

    /// The bytes not yet consumed, as a fresh vector.
    pub fn iter(&self) -> (r: Vec<u8>)
        requires
            self.wf(),
        ensures
            r@ == self.remaining(),
    {
        vstd::slice::slice_to_vec(self.buf())
    }

    /// The bytes not yet consumed, borrowed.
    pub fn buf(&self) -> (r: &[u8])
        requires
            self.wf(),
        ensures
            r@ == self.remaining(),
    {
        vstd::slice::slice_subrange(self.v.as_slice(), self.idx, self.v.len())
    }

    /// Read up to `buf.len()` bytes into the front of `buf`, advancing the
    /// cursor; returns how many bytes were read (zero only at the end of
    /// the data or into an empty buffer).
    pub fn read(&mut self, buf: &mut Vec<u8>) -> (c: usize)
        requires
            old(self).wf(),
        ensures
            final(self).wf(),
            final(self).all_bytes() == old(self).all_bytes(),
            c == vstd::math::min(old(buf)@.len() as int, old(self).remaining().len() as int),
            final(self).pos() == old(self).pos() + c,
            final(buf)@.len() == old(buf)@.len(),
            forall|i: int| 0 <= i < c ==> final(buf)@[i] == old(self).remaining()[i],
            forall|i: int| c <= i < final(buf)@.len() ==> final(buf)@[i] == old(buf)@[i],
    {
        if self.idx >= self.v.len() {
            return 0;
        }
        let n = buf.len();
        let src = vstd::slice::slice_subrange(self.v.as_slice(), self.idx, self.v.len());
        let c = copy_memory(buf, src, n);
        self.idx = self.idx + c;
        c
    }
}

} // verus!
