use vstd::prelude::*;
use vstd::string::*;

use crate::checksum::sha256_of;
use crate::error::TransferError;
use crate::naming::{archive_name, archive_suffix, ArtifactKind};
use crate::receiver::{verdict_of, Reception, Verdict, CHUNK_LEN};
use crate::wire::{
    checksum_field, frameable, header_fault, header_wire, lemma_header_round_trip, name_field,
    size_field,
};
use vstd::utf8::decode_utf8;

verus! {

/// What the local path to send turned out to be.
#[derive(PartialEq, Eq, Structural, Clone, Copy, Debug)]
pub enum PathKind {
    File,
    Directory,
    Other,
    Missing,
}

/// How one artifact goes out: a file under its own name, a directory as an
/// archive whose name carries the archive suffix.
pub struct SendPlan {
    pub kind: ArtifactKind,
    /// The name written into the header.
    pub wire_name: String,
    /// The artifact's own name, for status lines.
    pub display_name: String,
}

/// Decides how the artifact at a local path is sent, given what the path is
/// and its final component (`None` where it has none, or none in UTF-8).
/// Only a missing path, or one that is neither a file nor a directory, is an
/// invalid target; a file or directory without a UTF-8 name cannot be framed
/// in a header.
pub fn plan_send(path_kind: PathKind, base_name: Option<String>) -> (r: Result<
    SendPlan,
    TransferError,
>)
    ensures
        (path_kind == PathKind::Missing || path_kind == PathKind::Other) ==> r == Err::<
            SendPlan,
            TransferError,
        >(TransferError::InvalidTarget),
        (path_kind == PathKind::File || path_kind == PathKind::Directory) && base_name is None
            ==> r == Err::<SendPlan, TransferError>(TransferError::InvalidHeader),
        (path_kind == PathKind::File || path_kind == PathKind::Directory) && base_name is Some
            ==> r is Ok,
        r is Ok ==> {
            let p = r->Ok_0;
            let b = base_name->Some_0@;
            &&& p.display_name@ == b
            &&& path_kind == PathKind::File ==> p.kind == ArtifactKind::File && p.wire_name@ == b
            &&& path_kind == PathKind::Directory ==> p.kind == ArtifactKind::Directory
                && p.wire_name@ == b + archive_suffix()
        },
{
    match path_kind {
        PathKind::Missing | PathKind::Other => Err(TransferError::InvalidTarget),
        PathKind::File => match base_name {
            Some(b) => {
                let wire_name = b.clone();
                Ok(SendPlan { kind: ArtifactKind::File, wire_name, display_name: b })
            },
            None => Err(TransferError::InvalidHeader),
        },
        PathKind::Directory => match base_name {
            Some(b) => {
                let wire_name = archive_name(b.as_str());
                Ok(SendPlan { kind: ArtifactKind::Directory, wire_name, display_name: b })
            },
            None => Err(TransferError::InvalidHeader),
        },
    }
}

/// The sending end of one payload stream: counts the bytes that went out,
/// which is the progress reported, and never sends past the declared size.
pub struct Transmission {
    total: u64,
    sent: u64,
    ended: bool,
}

impl Transmission {
    pub closed spec fn total_view(&self) -> u64 {
        self.total
    }

    pub closed spec fn sent_view(&self) -> u64 {
        self.sent
    }

    /// Whether the source ran dry before the declared size.
    pub closed spec fn source_ended(&self) -> bool {
        self.ended
    }

    pub closed spec fn wf(&self) -> bool {
        self.sent <= self.total
    }

    pub open spec fn done(&self) -> bool {
        self.source_ended() || self.sent_view() == self.total_view()
    }

    pub fn new(total: u64) -> (r: Transmission)
        ensures
            r.wf(),
            r.total_view() == total,
            r.sent_view() == 0,
            !r.source_ended(),
    {
        Transmission { total, sent: 0, ended: false }
    }

    pub fn total(&self) -> (r: u64)
        ensures
            r == self.total_view(),
    {
        self.total
    }

    pub fn sent(&self) -> (r: u64)
        ensures
            r == self.sent_view(),
    {
        self.sent
    }

    pub fn is_done(&self) -> (r: bool)
        ensures
            r == self.done(),
    {
        self.ended || self.sent == self.total
    }

    /// How many bytes the next read of the source asks for.
    pub fn next_read_len(&self) -> (r: usize)
        requires
            self.wf(),
        ensures
            r as int == if self.total_view() - self.sent_view() < CHUNK_LEN {
                self.total_view() - self.sent_view()
            } else {
                CHUNK_LEN as int
            },
    {
        let left = self.total - self.sent;
        if left < CHUNK_LEN as u64 {
            left as usize
        } else {
            CHUNK_LEN
        }
    }

    /// Records a read of `n` bytes from the source; zero means the source
    /// ended. The result is how many of them go out.
    pub fn on_read(&mut self, n: usize) -> (taken: usize)
        requires
            old(self).wf(),
        ensures
            final(self).wf(),
            final(self).total_view() == old(self).total_view(),
            taken as int == if n < old(self).total_view() - old(self).sent_view() {
                n as int
            } else {
                old(self).total_view() - old(self).sent_view()
            },
            final(self).sent_view() == old(self).sent_view() + taken,
            final(self).source_ended() == (old(self).source_ended() || n == 0),
    {
        if n == 0 {
            self.ended = true;
            return 0;
        }
        let left = self.total - self.sent;
        let taken: usize = if (n as u64) < left {
            n
        } else {
            left as usize
        };
        self.sent = self.sent + taken as u64;
        taken
    }
}

/// An unaltered round trip: the header framed for a payload reads back with
/// the payload's name, size and digest, and a receiver that took in exactly
/// that payload reports it as received successfully.
pub proof fn lemma_transfer_round_trip(name: Seq<char>, payload: Seq<u8>, rx: Reception)
    requires
        frameable(name, sha256_of(payload)),
        payload.len() <= u64::MAX,
        rx.wf(),
        rx.declared_view() == checksum_field(
            header_wire(name, payload.len() as u64, sha256_of(payload)),
        ),
        rx.data() == payload,
    ensures
        header_fault(header_wire(name, payload.len() as u64, sha256_of(payload))) is None,
        decode_utf8(name_field(header_wire(name, payload.len() as u64, sha256_of(payload))))
            == name,
        size_field(header_wire(name, payload.len() as u64, sha256_of(payload))) == payload.len(),
        verdict_of(rx.declared_view(), sha256_of(rx.data())) == Verdict::ChecksumOk,
{
    lemma_header_round_trip(name, payload.len() as u64, sha256_of(payload));
}

} // verus!
