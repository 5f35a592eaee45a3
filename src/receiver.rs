use vstd::prelude::*;
use vstd::string::*;

use crate::checksum::{digests_equal, sha256_of, Checksummer};
use crate::naming::{artifact_kind, kind_of, restored, restored_name, ArtifactKind};
use crate::wire::TransferHeader;

verus! {

/// Largest number of payload bytes moved by one read.
pub const CHUNK_LEN: usize = 8192;

/// How the received bytes compare with the declared digest.
#[derive(PartialEq, Eq, Structural, Clone, Copy, Debug)]
pub enum Verdict {
    ChecksumOk,
    ChecksumMismatch,
}

pub open spec fn verdict_of(declared: Seq<u8>, computed: Seq<u8>) -> Verdict {
    if declared == computed {
        Verdict::ChecksumOk
    } else {
        Verdict::ChecksumMismatch
    }
}

/// The outcome of one reception, and what is left to do with the file.
pub struct Receipt {
    pub kind: ArtifactKind,
    /// The name of the artifact once restored.
    pub display_name: String,
    pub verdict: Verdict,
    /// Payload bytes that arrived.
    pub received: u64,
    /// Whether the received archive is to be extracted into a directory
    /// named `display_name` and then removed.
    pub extract: bool,
}

/// Whether a receipt is the one owed for the transferred name `name`, the
/// declared and the computed digests, and `received` bytes.
pub open spec fn receipt_for(
    r: Receipt,
    name: Seq<char>,
    declared: Seq<u8>,
    computed: Seq<u8>,
    received: nat,
) -> bool {
    &&& r.kind == kind_of(name)
    &&& r.display_name@ == restored(name)
    &&& r.verdict == verdict_of(declared, computed)
    &&& r.received == received
    &&& r.extract == (r.verdict == Verdict::ChecksumOk && r.kind == ArtifactKind::Directory)
}

/// The receipt for a transfer of `name` once its payload digest is known.
pub fn judge(name: &str, declared: &[u8], computed: &[u8], received: u64) -> (r: Receipt)
    ensures
        receipt_for(r, name@, declared@, computed@, received as nat),
{
    let kind = artifact_kind(name);
    let verdict = if digests_equal(declared, computed) {
        Verdict::ChecksumOk
    } else {
        Verdict::ChecksumMismatch
    };
    let extract = match (verdict, kind) {
        (Verdict::ChecksumOk, ArtifactKind::Directory) => true,
        _ => false,
    };
    Receipt { kind, display_name: restored_name(name), verdict, received, extract }
}

pub open spec fn kind_word(kind: ArtifactKind) -> Seq<char> {
    match kind {
        ArtifactKind::File => "File"@,
        ArtifactKind::Directory => "Directory"@,
    }
}

pub open spec fn verdict_words(verdict: Verdict) -> Seq<char> {
    match verdict {
        Verdict::ChecksumOk => " received successfully. Checksum OK."@,
        Verdict::ChecksumMismatch => " received, but checksum mismatch!"@,
    }
}

impl Receipt {
    /// The status line that reports this outcome.
    pub fn status_line(&self) -> (r: String)
        ensures
            r@ == kind_word(self.kind) + " "@ + self.display_name@ + verdict_words(self.verdict),
    {
        let mut s = match self.kind {
            ArtifactKind::File => String::from_str("File"),
            ArtifactKind::Directory => String::from_str("Directory"),
        };
        s.append(" ");
        s.append(self.display_name.as_str());
        match self.verdict {
            Verdict::ChecksumOk => s.append(" received successfully. Checksum OK."),
            Verdict::ChecksumMismatch => s.append(" received, but checksum mismatch!"),
        }
        s
    }
}

/// The receiving end of one transfer, from the decoded header until the
/// payload is in or the peer has closed the connection.
pub struct Reception {
    name: String,
    payload_size: u64,
    declared: Vec<u8>,
    sum: Checksummer,
    received: u64,
    closed: bool,
}

impl Reception {
    pub closed spec fn name_view(&self) -> Seq<char> {
        self.name@
    }

    pub closed spec fn declared_view(&self) -> Seq<u8> {
        self.declared@
    }

    pub closed spec fn size_view(&self) -> u64 {
        self.payload_size
    }

    /// The payload bytes received so far.
    pub closed spec fn data(&self) -> Seq<u8> {
        self.sum.fed()
    }

    /// Whether the peer closed the connection.
    pub closed spec fn peer_closed(&self) -> bool {
        self.closed
    }

    pub closed spec fn wf(&self) -> bool {
        &&& self.sum.wf()
        &&& self.received == self.sum.fed().len()
        &&& self.received <= self.payload_size
    }

    /// Whether no more payload bytes are to be read.
    pub open spec fn done(&self) -> bool {
        self.peer_closed() || self.data().len() == self.size_view()
    }

    pub fn new(header: TransferHeader) -> (r: Reception)
        ensures
            r.wf(),
            r.name_view() == header.name@,
            r.declared_view() == header.checksum@,
            r.size_view() == header.payload_size,
            r.data() == Seq::<u8>::empty(),
            !r.peer_closed(),
    {
        Reception {
            name: header.name,
            payload_size: header.payload_size,
            declared: header.checksum,
            sum: Checksummer::new(),
            received: 0,
            closed: false,
        }
    }

    /// The transferred name.
    pub fn name(&self) -> (r: &str)
        ensures
            r@ == self.name_view(),
    {
        self.name.as_str()
    }

    pub fn payload_size(&self) -> (r: u64)
        ensures
            r == self.size_view(),
    {
        self.payload_size
    }

    pub fn received(&self) -> (r: u64)
        requires
            self.wf(),
        ensures
            r == self.data().len(),
    {
        self.received
    }

    pub fn is_done(&self) -> (r: bool)
        requires
            self.wf(),
        ensures
            r == self.done(),
    {
        self.closed || self.received == self.payload_size
    }

    /// How many bytes the next read asks for: a chunk, or what is left of
    /// the payload if that is less.
    pub fn next_read_len(&self) -> (r: usize)
        requires
            self.wf(),
        ensures
            r as int == if self.size_view() - self.data().len() < CHUNK_LEN {
                self.size_view() - self.data().len()
            } else {
                CHUNK_LEN as int
            },
    {
        let left = self.payload_size - self.received;
        if left < CHUNK_LEN as u64 {
            left as usize
        } else {
            CHUNK_LEN
        }
    }

    /// Takes the bytes of one read. An empty read means that the peer closed
    /// the connection. Bytes beyond the declared size are not payload; the
    /// result is how many leading bytes of `chunk` were taken, which are the
    /// bytes to store.
    pub fn on_chunk(&mut self, chunk: &[u8]) -> (taken: usize)
        requires
            old(self).wf(),
        ensures
            final(self).wf(),
            final(self).name_view() == old(self).name_view(),
            final(self).declared_view() == old(self).declared_view(),
            final(self).size_view() == old(self).size_view(),
            taken as int == if chunk@.len() < old(self).size_view() - old(self).data().len() {
                chunk@.len() as int
            } else {
                old(self).size_view() - old(self).data().len()
            },
            final(self).data() == old(self).data() + chunk@.subrange(0, taken as int),
            final(self).peer_closed() == (old(self).peer_closed() || chunk@.len() == 0),
    {
        if chunk.len() == 0 {
            self.closed = true;
            proof {
                assert(self.sum.fed() =~= old(self).data() + chunk@.subrange(0, 0));
            }
            return 0;
        }
        let left = self.payload_size - self.received;
        let taken: usize = if (chunk.len() as u64) < left {
            chunk.len()
        } else {
            left as usize
        };
        self.sum.absorb(&chunk[0..taken]);
        self.received = self.received + taken as u64;
        taken
    }

    /// Compares the digest of what arrived with the declared one.
    pub fn finish(self) -> (r: Receipt)
        requires
            self.wf(),
        ensures
            receipt_for(
                r,
                self.name_view(),
                self.declared_view(),
                sha256_of(self.data()),
                self.data().len(),
            ),
    {
        let received = self.received;
        let computed = self.sum.finish();
        judge(self.name.as_str(), self.declared.as_slice(), computed.as_slice(), received)
    }
}

/// A payload that arrives whole and unaltered under the digest its sender
/// computed from it is reported as received successfully.
pub proof fn lemma_faithful_transfer_verifies(rx: Reception, payload: Seq<u8>)
    requires
        rx.wf(),
        rx.declared_view() == sha256_of(payload),
        rx.data() == payload,
    ensures
        verdict_of(rx.declared_view(), sha256_of(rx.data())) == Verdict::ChecksumOk,
{
}

/// A transfer cut short is reported as received successfully only if the
/// bytes that did arrive, which differ from the payload, share its digest.
pub proof fn lemma_truncated_transfer_needs_collision(rx: Reception, payload: Seq<u8>)
    requires
        rx.wf(),
        rx.size_view() == payload.len(),
        rx.declared_view() == sha256_of(payload),
        rx.data().len() < payload.len(),
        verdict_of(rx.declared_view(), sha256_of(rx.data())) == Verdict::ChecksumOk,
    ensures
        rx.data() != payload,
        sha256_of(rx.data()) == sha256_of(payload),
{
}

} // verus!
