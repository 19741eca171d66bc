//! Content fingerprints: the SHA-1 digest of a file's bytes, taken in
//! chunks and written as upper-case hexadecimal.

use vstd::prelude::*;
use sha1::Digest;
use sha1::Sha1;
use crate::text::hex_upper;
use crate::text::to_hex_upper;

verus! {

/// A running SHA-1 computation of the `sha1` crate. Its state is hidden
/// from the verifier; `absorbed` names the bytes it has taken in.
#[verifier::external_body]
pub struct Hasher {
    inner: Sha1,
}

/// The SHA-1 digest of a byte string.
pub uninterp spec fn sha1_digest(data: Seq<u8>) -> Seq<u8>;

/// The bytes that a hasher has taken in so far.
pub uninterp spec fn absorbed(hasher: Hasher) -> Seq<u8>;

/// `Sha1::new`: a hasher that has taken in nothing yet.
#[verifier::external_body]
fn hasher_new() -> (hasher: Hasher)
    ensures
        absorbed(hasher) == Seq::<u8>::empty(),
{
    Hasher { inner: Sha1::new() }
}

/// The longest content, in bytes, whose length in bits SHA-1 can still
/// record in its last block.
pub const MAX_CONTENT: u64 = 0x1FFF_FFFF_FFFF_FFFF;

/// `Digest::update`: the hasher takes in the chunk after what it already
/// holds. The crate counts the content in 64 bits, so the caller keeps it
/// within what SHA-1 can take.
#[verifier::external_body]
fn hasher_update(hasher: &mut Hasher, chunk: &[u8])
    requires
        absorbed(*old(hasher)).len() + chunk@.len() <= MAX_CONTENT,
    ensures
        absorbed(*final(hasher)) == absorbed(*old(hasher)) + chunk@,
{
    hasher.inner.update(chunk);
}

/// `Digest::finalize`: the twenty-byte SHA-1 digest of everything the
/// hasher has taken in.
#[verifier::external_body]
fn hasher_finalize(hasher: Hasher) -> (digest: Vec<u8>)
    requires
        absorbed(hasher).len() <= MAX_CONTENT,
    ensures
        digest@ == sha1_digest(absorbed(hasher)),
        digest@.len() == 20,
{
    hasher.inner.finalize().to_vec()
}

/// The size of the buffer through which a file is read.
pub const CHUNK_SIZE: usize = 8192;

/// The fingerprint of a byte string: its SHA-1 digest in upper-case
/// hexadecimal, forty characters.
pub open spec fn fingerprint(content: Seq<u8>) -> Seq<char> {
    hex_upper(sha1_digest(content))
}

/// A fingerprint in the making: bytes go in chunk by chunk, so that a file
/// of any size is digested through one bounded buffer.
pub struct FileDigest {
    hasher: Hasher,
    taken: u64,
}

impl FileDigest {
    /// The count kept beside the hasher is the length of what it has
    /// taken in, and that is within what SHA-1 can take.
    pub closed spec fn wf(&self) -> bool {
        &&& self.taken == absorbed(self.hasher).len()
        &&& self.taken <= MAX_CONTENT
    }

    /// The bytes taken in so far.
    pub closed spec fn content(&self) -> Seq<u8> {
        absorbed(self.hasher)
    }

    /// Starts a fingerprint of the empty content.
    pub fn new() -> (digest: FileDigest)
        ensures
            digest.wf(),
            digest.content() == Seq::<u8>::empty(),
    {
        FileDigest { hasher: hasher_new(), taken: 0 }
    }

    /// The number of bytes taken in so far.
    pub fn len(&self) -> (n: u64)
        requires
            self.wf(),
        ensures
            n == self.content().len(),
            n <= MAX_CONTENT,
    {
        self.taken
    }

    /// Takes in the result of one read into `buffer`, of which the first
    /// `bytes_read` bytes were filled. A read of nothing marks the end of
    /// the file: it leaves the content as it is and answers `false`.
    /// Otherwise the bytes read are appended and the answer is `true`.
    /// Where the content would grow beyond `MAX_CONTENT`, nothing is
    /// taken in and there is no answer.
    pub fn absorb(&mut self, buffer: &[u8], bytes_read: usize) -> (more: Option<bool>)
        requires
            old(self).wf(),
            bytes_read <= buffer@.len(),
        ensures
            final(self).wf(),
            (more is Some) == (old(self).content().len() + bytes_read <= MAX_CONTENT),
            match more {
                Some(more) => {
                    &&& more == (bytes_read != 0)
                    &&& final(self).content() == old(self).content() + buffer@.take(
                        bytes_read as int,
                    )
                },
                None => final(self).content() == old(self).content(),
            },
    {
        if bytes_read == 0 {
            assert(buffer@.take(0) =~= Seq::<u8>::empty());
            assert(self.content() + Seq::<u8>::empty() =~= self.content());
            return Some(false);
        }
        if bytes_read as u64 > MAX_CONTENT - self.taken {
            return None;
        }
        let filled = vstd::slice::slice_subrange(buffer, 0, bytes_read);
        hasher_update(&mut self.hasher, filled);
        self.taken = self.taken + bytes_read as u64;
        Some(true)
    }

    /// Ends the computation and gives the fingerprint of all bytes taken
    /// in.
    pub fn finish(self) -> (hex: String)
        requires
            self.wf(),
        ensures
            hex@ == fingerprint(self.content()),
            hex@.len() == 40,
    {
        let raw = hasher_finalize(self.hasher);
        to_hex_upper(raw.as_slice())
    }
}

/// The fingerprint of a content held in memory, taken through windows of
/// `CHUNK_SIZE` bytes as a file's would be.
pub fn fingerprint_of(content: &[u8]) -> (hex: String)
    requires
        content@.len() <= MAX_CONTENT,
    ensures
        hex@ == fingerprint(content@),
        hex@.len() == 40,
{
    let mut digest = FileDigest::new();
    let mut pos: usize = 0;
    assert(content@.take(0) =~= Seq::<u8>::empty());
    while pos < content.len()
        invariant
            pos <= content.len(),
            content@.len() <= MAX_CONTENT,
            digest.wf(),
            digest.content() == content@.take(pos as int),
        decreases content.len() - pos,
    {
        let end: usize = if content.len() - pos > CHUNK_SIZE {
            pos + CHUNK_SIZE
        } else {
            content.len()
        };
        let window = vstd::slice::slice_subrange(content, pos, end);
        let more = digest.absorb(window, end - pos);
        assert(more == Some(true));
        assert(content@.take(pos as int) + window@.take(end - pos) =~= content@.take(end as int));
        pos = end;
    }
    assert(content@.take(pos as int) =~= content@);
    digest.finish()
}

} // verus!
