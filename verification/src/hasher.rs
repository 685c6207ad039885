//! Content digest of a file: SHA-256 over the bytes, written as lowercase
//! hexadecimal text. The bytes arrive in chunks, so that a file of any size is
//! hashed in constant memory.

use crate::hex::{encode_hex_lower, is_lower_hex, lemma_hex_injective, to_hex_lower};
use sha2::{Digest, Sha256};
use vstd::prelude::*;
use vstd::slice::slice_subrange;

verus! {

/// Length in bytes of the buffer that a file is read through.
pub const READ_BUFFER_LEN: usize = 8192;

/// Length in characters of a content hash.
pub const CONTENT_HASH_LEN: usize = 64;

/// `sha2::Sha256`, the running state of a SHA-256 computation. Nothing of
/// its inside is seen here.
#[verifier::external_type_specification]
#[verifier::external_body]
pub struct ExSha256(Sha256);

/// The bytes that a SHA-256 hasher has taken in so far, in order.
pub uninterp spec fn absorbed(hasher: Sha256) -> Seq<u8>;

/// The SHA-256 digest of a byte string.
pub uninterp spec fn sha256(data: Seq<u8>) -> Seq<u8>;

/// `Digest::new` for `Sha256`: a hasher that has taken in nothing.
#[verifier::external_body]
fn sha256_new() -> (hasher: Sha256)
    ensures
        absorbed(hasher) == Seq::<u8>::empty(),
{
    Sha256::new()
}

/// `Digest::update` for `Sha256`: the hasher takes in `data` after what it
/// already holds.
#[verifier::external_body]
fn sha256_update(hasher: &mut Sha256, data: &[u8])
    ensures
        absorbed(*final(hasher)) == absorbed(*old(hasher)) + data@,
{
    hasher.update(data)
}

/// `Digest::finalize` for `Sha256`: the digest of all that the hasher took in,
/// which is 32 bytes long.
#[verifier::external_body]
fn sha256_finalize(hasher: Sha256) -> (digest: Vec<u8>)
    ensures
        digest@ == sha256(absorbed(hasher)),
        digest@.len() == 32,
{
    hasher.finalize().to_vec()
}

/// The content hash of `data`: its SHA-256 digest as lowercase hexadecimal
/// text.
pub open spec fn content_hash(data: Seq<u8>) -> Seq<char> {
    to_hex_lower(sha256(data))
}

/// Whether `text` has the shape of a content hash: 64 lowercase hexadecimal
/// digits.
pub open spec fn is_content_hash_text(text: Seq<char>) -> bool {
    &&& text.len() == CONTENT_HASH_LEN
    &&& forall|i: int| 0 <= i < text.len() ==> is_lower_hex(#[trigger] text[i])
}

/// The hexadecimal text of any 32 bytes has the shape of a content hash.
pub proof fn lemma_digest_text_shape(digest: Seq<u8>)
    requires
        digest.len() == 32,
    ensures
        is_content_hash_text(to_hex_lower(digest)),
{
}

/// Two files have the same content hash exactly where they have the same
/// digest: the text loses nothing of the digest.
pub proof fn lemma_content_hash_tells_digest(first: Seq<u8>, second: Seq<u8>)
    ensures
        content_hash(first) == content_hash(second) <==> sha256(first) == sha256(second),
{
    if content_hash(first) == content_hash(second) {
        lemma_hex_injective(sha256(first), sha256(second));
    }
}

/// A running content hash. Its view is the byte string taken in so far.
pub struct ContentHasher {
    state: Sha256,
}

impl View for ContentHasher {
    type V = Seq<u8>;

    closed spec fn view(&self) -> Seq<u8> {
        absorbed(self.state)
    }
}

impl ContentHasher {
    /// A hasher that has taken in nothing.
    pub fn new() -> (hasher: Self)
        ensures
            hasher@ == Seq::<u8>::empty(),
    {
        ContentHasher { state: sha256_new() }
    }

    /// Takes in `chunk` after what was taken in before.
    pub fn update(&mut self, chunk: &[u8])
        ensures
            final(self)@ == old(self)@ + chunk@,
    {
        sha256_update(&mut self.state, chunk);
    }

    /// Takes in what one read of the file gave: the first `size` bytes of
    /// `buffer`. Returns whether the file may hold more, which is so until a
    /// read gives nothing.
    pub fn take_read(&mut self, buffer: &[u8], size: usize) -> (more: bool)
        requires
            size <= buffer@.len(),
        ensures
            more == (size != 0),
            final(self)@ == old(self)@ + buffer@.take(size as int),
    {
        if size == 0 {
            assert(buffer@.take(0) =~= Seq::<u8>::empty());
            assert(self@ + Seq::<u8>::empty() =~= self@);
            false
        } else {
            let chunk = slice_subrange(buffer, 0, size);
            self.update(chunk);
            true
        }
    }

    /// The content hash of all that was taken in.
    pub fn finish(self) -> (text: String)
        ensures
            text@ == content_hash(self@),
            is_content_hash_text(text@),
    {
        let digest = sha256_finalize(self.state);
        encode_hex_lower(digest.as_slice())
    }
}

/// The content hash of `data`, computed in one step.
pub fn hash_bytes(data: &[u8]) -> (text: String)
    ensures
        text@ == content_hash(data@),
        is_content_hash_text(text@),
{
    let mut hasher = ContentHasher::new();
    hasher.update(data);
    assert(Seq::<u8>::empty() + data@ =~= data@);
    hasher.finish()
}

} // verus!
