//! Content digests: SHA3-256 over a file's bytes, absorbed chunk by chunk,
//! written out as base64 text.

use vstd::prelude::*;

verus! {

/// `tiny_keccak::Keccak`, the state of a sponge. It is carried through as it
/// is: nothing is known of what is inside.
#[verifier::external_type_specification]
#[verifier::external_body]
pub struct ExKeccak(tiny_keccak::Keccak);

/// The bytes that a `tiny_keccak::Keccak` has absorbed since it was made:
/// none at first, and then what each `update` handed to it, in that order.
pub uninterp spec fn absorbed(state: tiny_keccak::Keccak) -> Seq<u8>;

/// The SHA3-256 hash of a byte string: what `tiny_keccak::Keccak::finalize`
/// writes for a SHA3-256 sponge that has absorbed `content`.
pub uninterp spec fn sha3_256(content: Seq<u8>) -> Seq<u8>;

/// The standard base64 text, with padding, of a byte string: what
/// `base64::encode` returns for `bytes`.
pub uninterp spec fn base64_text(bytes: Seq<u8>) -> Seq<char>;

/// The number of characters of a digest: the base64 text of 32 bytes.
pub const DIGEST_LEN: usize = 44;

/// The digest of a file's content, as it stands in a signature.
pub open spec fn digest_text(content: Seq<u8>) -> Seq<char> {
    base64_text(sha3_256(content))
}

/// `tiny_keccak::Keccak::new_sha3_256`: a fresh SHA3-256 sponge, which has
/// absorbed nothing yet.
#[verifier::external_body]
fn keccak_new() -> (state: tiny_keccak::Keccak)
    ensures
        absorbed(state) == Seq::<u8>::empty(),
{
    tiny_keccak::Keccak::new_sha3_256()
}

/// `tiny_keccak::Keccak::update`: the sponge absorbs `chunk` after what it
/// has absorbed before.
#[verifier::external_body]
fn keccak_update(state: &mut tiny_keccak::Keccak, chunk: &[u8])
    ensures
        absorbed(*final(state)) == absorbed(*old(state)) + chunk@,
{
    state.update(chunk)
}

/// `tiny_keccak::Keccak::finalize` with a 32-byte output: the SHA3-256 hash
/// of everything the sponge has absorbed. Every sponge that gets here was
/// made by `keccak_new`.
#[verifier::external_body]
fn keccak_finalize(state: tiny_keccak::Keccak) -> (out: [u8; 32])
    ensures
        out@ == sha3_256(absorbed(state)),
{
    let mut out = [0u8; 32];
    state.finalize(&mut out);
    out
}

/// `base64::encode`: the standard base64 text of `bytes`, four characters
/// for every three bytes begun. It needs that length to fit in `usize`.
#[verifier::external_body]
fn base64_encode(bytes: &[u8]) -> (text: String)
    requires
        4 * ((bytes@.len() + 2) / 3) <= usize::MAX,
    ensures
        text@ == base64_text(bytes@),
        text@.len() == 4 * ((bytes@.len() + 2) / 3),
{
    base64::encode(bytes)
}

/// A running digest computation. Its view is the content fed to it so far.
pub struct ContentHasher {
    state: tiny_keccak::Keccak,
}

impl View for ContentHasher {
    type V = Seq<u8>;

    closed spec fn view(&self) -> Seq<u8> {
        absorbed(self.state)
    }
}

impl ContentHasher {
    /// A hasher that has seen no content.
    pub fn new() -> (hasher: Self)
        ensures
            hasher@ == Seq::<u8>::empty(),
    {
        ContentHasher { state: keccak_new() }
    }

    /// Feeds the next chunk of the content.
    pub fn update(&mut self, chunk: &[u8])
        ensures
            final(self)@ == old(self)@ + chunk@,
    {
        keccak_update(&mut self.state, chunk);
    }

    /// Ends the computation and gives the digest of all the content fed:
    /// 44 characters, whatever the content.
    pub fn finish(self) -> (digest: String)
        ensures
            digest@ == digest_text(self@),
            digest@.len() == DIGEST_LEN,
    {
        let raw = keccak_finalize(self.state);
        base64_encode(raw.as_slice())
    }
}

/// What a list of chunks holds.
pub open spec fn chunk_views(chunks: Seq<Vec<u8>>) -> Seq<Seq<u8>> {
    chunks.map_values(|chunk: Vec<u8>| chunk@)
}

/// The content that a list of chunks makes up: the chunks one after the
/// other.
pub open spec fn content_of(chunks: Seq<Seq<u8>>) -> Seq<u8>
    decreases chunks.len(),
{
    if chunks.len() == 0 {
        Seq::empty()
    } else {
        content_of(chunks.drop_last()) + chunks.last()
    }
}

/// The digest of the content that `chunks` make up. It is the digest of that
/// content, however it is cut into chunks.
pub fn hash_chunks(chunks: &Vec<Vec<u8>>) -> (digest: String)
    ensures
        digest@ == digest_text(content_of(chunk_views(chunks@))),
        digest@.len() == DIGEST_LEN,
{
    let mut hasher = ContentHasher::new();
    let mut i: usize = 0;
    assert(chunk_views(chunks@).take(0) =~= Seq::empty());
    while i < chunks.len()
        invariant
            i <= chunks.len(),
            hasher@ == content_of(chunk_views(chunks@).take(i as int)),
        decreases chunks.len() - i,
    {
        hasher.update(chunks[i].as_slice());
        proof {
            let upto = chunk_views(chunks@).take(i + 1);
            assert(upto.drop_last() =~= chunk_views(chunks@).take(i as int));
            assert(upto.last() == chunks@[i as int]@);
        }
        i += 1;
    }
    assert(chunk_views(chunks@).take(chunks.len() as int) =~= chunk_views(chunks@));
    hasher.finish()
}

/// The digest of `content`.
pub fn hash_bytes(content: &[u8]) -> (digest: String)
    ensures
        digest@ == digest_text(content@),
        digest@.len() == DIGEST_LEN,
{
    let mut hasher = ContentHasher::new();
    hasher.update(content);
    assert(Seq::<u8>::empty() + content@ =~= content@);
    hasher.finish()
}

/// The digest is that of the content alone: two lists of chunks that make
/// up the same content have the same digest, wherever their chunks begin and
/// end.
pub proof fn lemma_digest_ignores_chunking(first: Seq<Seq<u8>>, second: Seq<Seq<u8>>)
    requires
        content_of(first) == content_of(second),
    ensures
        digest_text(content_of(first)) == digest_text(content_of(second)),
{
}

/// Chunks that follow other chunks continue their content.
pub proof fn lemma_content_of_concat(first: Seq<Seq<u8>>, second: Seq<Seq<u8>>)
    ensures
        content_of(first + second) == content_of(first) + content_of(second),
    decreases second.len(),
{
    if second.len() == 0 {
        assert(first + second =~= first);
        assert(content_of(first) + content_of(second) =~= content_of(first));
    } else {
        lemma_content_of_concat(first, second.drop_last());
        assert((first + second).drop_last() =~= first + second.drop_last());
        assert(content_of(first + second) =~= content_of(first) + content_of(second));
    }
}

/// Wherever a content is cut in two, the two pieces make up the content:
/// fed piece by piece, it has the digest that it has when fed at once.
pub proof fn lemma_cut_keeps_content(content: Seq<u8>, at: int)
    requires
        0 <= at <= content.len(),
    ensures
        content_of(seq![content.take(at), content.skip(at)]) == content,
        content_of(seq![content]) == content,
{
    reveal_with_fuel(content_of, 3);
    let pieces = seq![content.take(at), content.skip(at)];
    assert(pieces.drop_last() =~= seq![content.take(at)]);
    assert(seq![content.take(at)].drop_last() =~= Seq::<Seq<u8>>::empty());
    assert(content.take(at) + content.skip(at) =~= content);
    assert(content_of(pieces) =~= content);
    assert(seq![content].drop_last() =~= Seq::<Seq<u8>>::empty());
    assert(content_of(seq![content]) =~= content);
}

} // verus!
