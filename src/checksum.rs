use vstd::prelude::*;

use sha2::Digest;

verus! {

/// Width in bytes of a payload digest.
pub const DIGEST_LEN: usize = 32;

/// The SHA-256 digest of a byte sequence.
pub uninterp spec fn sha256_of(data: Seq<u8>) -> Seq<u8>;

/// The bytes fed so far into a running SHA-256 computation.
pub uninterp spec fn absorbed(h: Sha256State) -> Seq<u8>;

/// A running SHA-256 computation of the `sha2` crate.
#[verifier::external_body]
pub struct Sha256State {
    inner: sha2::Sha256,
}

impl Sha256State {
    /// Relies on `sha2::Sha256::new`: a fresh hasher has absorbed nothing.
    #[verifier::external_body]
    pub(crate) fn fresh() -> (h: Sha256State)
        ensures
            absorbed(h) == Seq::<u8>::empty(),
    {
        Sha256State { inner: sha2::Sha256::new() }
    }

    /// Relies on `sha2::Digest::update`: the input is appended to what was absorbed.
    #[verifier::external_body]
    pub(crate) fn feed(&mut self, data: &[u8])
        ensures
            absorbed(*final(self)) == absorbed(*old(self)) + data@,
    {
        self.inner.update(data);
    }

    /// Relies on `sha2::Digest::finalize`: the 32-byte SHA-256 digest of all absorbed bytes.
    #[verifier::external_body]
    pub(crate) fn finish(self) -> (r: Vec<u8>)
        ensures
            r@ == sha256_of(absorbed(self)),
            r@.len() == DIGEST_LEN,
    {
        self.inner.finalize().to_vec()
    }
}

/// Incremental checksum of a payload that arrives in chunks.
pub struct Checksummer {
    state: Sha256State,
    fed: Ghost<Seq<u8>>,
}

impl Checksummer {
    /// The bytes absorbed so far.
    pub closed spec fn fed(&self) -> Seq<u8> {
        self.fed@
    }

    pub closed spec fn wf(&self) -> bool {
        absorbed(self.state) == self.fed@
    }

    pub fn new() -> (c: Checksummer)
        ensures
            c.wf(),
            c.fed() == Seq::<u8>::empty(),
    {
        Checksummer { state: Sha256State::fresh(), fed: Ghost(Seq::empty()) }
    }

    /// Absorbs the next chunk of the payload.
    pub fn absorb(&mut self, chunk: &[u8])
        requires
            old(self).wf(),
        ensures
            final(self).wf(),
            final(self).fed() == old(self).fed() + chunk@,
    {
        self.state.feed(chunk);
        self.fed = Ghost(self.fed@ + chunk@);
    }

    /// The digest of every byte absorbed.
    pub fn finish(self) -> (r: Vec<u8>)
        requires
            self.wf(),
        ensures
            r@ == sha256_of(self.fed()),
            r@.len() == DIGEST_LEN,
    {
        self.state.finish()
    }
}

/// The digest of a whole payload held in memory.
pub fn digest(payload: &[u8]) -> (r: Vec<u8>)
    ensures
        r@ == sha256_of(payload@),
        r@.len() == DIGEST_LEN,
{
    let mut c = Checksummer::new();
    c.absorb(payload);
    proof {
        assert(Seq::<u8>::empty() + payload@ =~= payload@);
    }
    c.finish()
}

/// Byte-exact comparison of two digests.
pub fn digests_equal(a: &[u8], b: &[u8]) -> (r: bool)
    ensures
        r == (a@ == b@),
{
    if a.len() != b.len() {
        return false;
    }
    let mut i: usize = 0;
    while i < a.len()
        invariant
            a@.len() == b@.len(),
            i <= a@.len(),
            forall|j: int| 0 <= j < i ==> a@[j] == b@[j],
        decreases a@.len() - i,
    {
        if a[i] != b[i] {
            return false;
        }
        i = i + 1;
    }
    proof {
        assert(a@ =~= b@);
    }
    true
}

/// Checksums are a function of the payload alone: equal byte sequences have
/// equal digests.
pub proof fn lemma_digest_deterministic(first: Seq<u8>, second: Seq<u8>)
    requires
        first == second,
    ensures
        sha256_of(first) == sha256_of(second),
{
}

} // verus!
