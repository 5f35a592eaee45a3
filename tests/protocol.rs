use deliver::checksum::{digest, digests_equal, Checksummer};
use deliver::error::TransferError;
use deliver::naming::{archive_name, artifact_kind, is_archive_name, restored_name, ArtifactKind};
use deliver::receiver::{judge, Reception, Receipt, Verdict, CHUNK_LEN};
use deliver::sender::{plan_send, PathKind, Transmission};
use deliver::wire::{decode_header, encode_header, name_length, TransferHeader, MAX_NAME_LEN};

const EMPTY_SHA256: [u8; 32] = [
    0xe3, 0xb0, 0xc4, 0x42, 0x98, 0xfc, 0x1c, 0x14, 0x9a, 0xfb, 0xf4, 0xc8, 0x99, 0x6f, 0xb9,
    0x24, 0x27, 0xae, 0x41, 0xe4, 0x64, 0x9b, 0x93, 0x4c, 0xa4, 0x95, 0x99, 0x1b, 0x78, 0x52,
    0xb8, 0x55,
];

const ABC_SHA256: [u8; 32] = [
    0xba, 0x78, 0x16, 0xbf, 0x8f, 0x01, 0xcf, 0xea, 0x41, 0x41, 0x40, 0xde, 0x5d, 0xae, 0x22,
    0x23, 0xb0, 0x03, 0x61, 0xa3, 0x96, 0x17, 0x7a, 0x9c, 0xb4, 0x10, 0xff, 0x61, 0xf2, 0x00,
    0x15, 0xad,
];

fn pseudo_random_bytes(n: usize, seed: u64) -> Vec<u8> {
    let mut x = seed;
    let mut out = Vec::with_capacity(n);
    for _ in 0..n {
        x = x.wrapping_mul(6364136223846793005).wrapping_add(1442695040888963407);
        out.push((x >> 33) as u8);
    }
    out
}

/// Feeds `incoming` to a reception the way a socket would, in reads no
/// larger than the reception asks for; returns the bytes stored.
fn receive_all(rx: &mut Reception, incoming: &[u8], close_after: bool) -> Vec<u8> {
    let mut stored = Vec::new();
    let mut pos = 0;
    while !rx.is_done() {
        let want = rx.next_read_len();
        let end = std::cmp::min(pos + want, incoming.len());
        if end == pos && !close_after {
            break;
        }
        let taken = rx.on_chunk(&incoming[pos..end]);
        stored.extend_from_slice(&incoming[pos..pos + taken]);
        pos += taken;
    }
    stored
}

fn header_from_wire(name: &str, payload: &[u8]) -> TransferHeader {
    let wire = encode_header(name, payload.len() as u64, &digest(payload)).unwrap();
    decode_header(&wire).unwrap()
}

#[test]
fn digest_of_empty_and_abc() {
    assert_eq!(digest(&[]), EMPTY_SHA256.to_vec());
    assert_eq!(digest(b"abc"), ABC_SHA256.to_vec());
}

#[test]
fn digest_is_deterministic_and_chunking_free() {
    let data = pseudo_random_bytes(30000, 7);
    assert_eq!(digest(&data), digest(&data));
    let mut c = Checksummer::new();
    for part in data.chunks(1000) {
        c.absorb(part);
    }
    assert_eq!(c.finish(), digest(&data));
    assert_ne!(digest(&data[..29999]), digest(&data));
}

#[test]
fn digests_compare_byte_exactly() {
    assert!(digests_equal(&EMPTY_SHA256, &EMPTY_SHA256));
    let mut other = EMPTY_SHA256;
    other[31] ^= 1;
    assert!(!digests_equal(&EMPTY_SHA256, &other));
    assert!(!digests_equal(&EMPTY_SHA256, &EMPTY_SHA256[..31]));
}

#[test]
fn empty_file_scenario() {
    let wire = encode_header("empty.txt", 0, &digest(&[])).unwrap();
    let mut expected = vec![0u8, 9];
    expected.extend_from_slice(b"empty.txt");
    expected.extend_from_slice(&[0u8; 8]);
    expected.extend_from_slice(&EMPTY_SHA256);
    assert_eq!(wire, expected);
    let header = decode_header(&wire).unwrap();
    assert_eq!(header.name, "empty.txt");
    assert_eq!(header.payload_size, 0);
    let mut rx = Reception::new(header);
    assert!(rx.is_done());
    assert_eq!(rx.next_read_len(), 0);
    let stored = receive_all(&mut rx, &[], false);
    assert!(stored.is_empty());
    let receipt = rx.finish();
    assert_eq!(receipt.verdict, Verdict::ChecksumOk);
    assert_eq!(receipt.kind, ArtifactKind::File);
    assert_eq!(receipt.display_name, "empty.txt");
    assert!(!receipt.extract);
    assert_eq!(receipt.received, 0);
    assert_eq!(
        receipt.status_line(),
        "File empty.txt received successfully. Checksum OK."
    );
}

#[test]
fn directory_scenario() {
    let plan = plan_send(PathKind::Directory, Some("docs".to_string())).unwrap();
    assert_eq!(plan.kind, ArtifactKind::Directory);
    assert_eq!(plan.wire_name, "docs.uzip");
    assert_eq!(plan.display_name, "docs");
    let archive = pseudo_random_bytes(300, 3);
    let header = header_from_wire(&plan.wire_name, &archive);
    assert_eq!(header.name, "docs.uzip");
    let mut rx = Reception::new(header);
    let stored = receive_all(&mut rx, &archive, true);
    assert_eq!(stored, archive);
    let receipt = rx.finish();
    assert_eq!(receipt.verdict, Verdict::ChecksumOk);
    assert_eq!(receipt.kind, ArtifactKind::Directory);
    assert_eq!(receipt.display_name, "docs");
    assert!(receipt.extract);
    assert_eq!(
        receipt.status_line(),
        "Directory docs received successfully. Checksum OK."
    );
}

#[test]
fn altered_source_scenario() {
    let first_version = b"first version of the file".to_vec();
    let mut altered = first_version.clone();
    altered[0] = b'F';
    let declared = digest(&first_version);
    let wire = encode_header("notes.txt", altered.len() as u64, &declared).unwrap();
    let mut rx = Reception::new(decode_header(&wire).unwrap());
    let stored = receive_all(&mut rx, &altered, true);
    assert_eq!(stored, altered);
    let receipt = rx.finish();
    assert_eq!(receipt.verdict, Verdict::ChecksumMismatch);
    assert!(!receipt.extract);
    assert_eq!(
        receipt.status_line(),
        "File notes.txt received, but checksum mismatch!"
    );
}

#[test]
fn random_file_round_trip() {
    let payload = pseudo_random_bytes(3 * CHUNK_LEN + 123, 42);
    let mut rx = Reception::new(header_from_wire("blob.bin", &payload));
    let stored = receive_all(&mut rx, &payload, true);
    assert_eq!(stored, payload);
    assert_eq!(rx.received(), payload.len() as u64);
    let receipt = rx.finish();
    assert_eq!(receipt.verdict, Verdict::ChecksumOk);
    assert_eq!(receipt.received, payload.len() as u64);
}

#[test]
fn truncated_transfer_is_mismatch() {
    let payload = pseudo_random_bytes(20000, 9);
    let mut rx = Reception::new(header_from_wire("cut.bin", &payload));
    let stored = receive_all(&mut rx, &payload[..10000], true);
    assert_eq!(stored.len(), 10000);
    assert!(rx.is_done());
    let receipt = rx.finish();
    assert_eq!(receipt.received, 10000);
    assert_eq!(receipt.verdict, Verdict::ChecksumMismatch);
    assert!(!receipt.extract);
}

#[test]
fn truncated_directory_is_not_extracted() {
    let payload = pseudo_random_bytes(500, 11);
    let mut rx = Reception::new(header_from_wire("photos.uzip", &payload));
    receive_all(&mut rx, &payload[..499], true);
    let receipt = rx.finish();
    assert_eq!(receipt.kind, ArtifactKind::Directory);
    assert_eq!(receipt.verdict, Verdict::ChecksumMismatch);
    assert!(!receipt.extract);
    assert_eq!(
        receipt.status_line(),
        "Directory photos received, but checksum mismatch!"
    );
}

#[test]
fn reads_never_ask_past_the_payload() {
    let payload = pseudo_random_bytes(CHUNK_LEN + 10, 5);
    let mut rx = Reception::new(header_from_wire("a.bin", &payload));
    assert_eq!(rx.next_read_len(), CHUNK_LEN);
    assert_eq!(rx.on_chunk(&payload[..CHUNK_LEN]), CHUNK_LEN);
    assert_eq!(rx.next_read_len(), 10);
    let mut extra = payload[CHUNK_LEN..].to_vec();
    extra.extend_from_slice(b"trailing");
    assert_eq!(rx.on_chunk(&extra), 10);
    assert!(rx.is_done());
    assert_eq!(rx.finish().verdict, Verdict::ChecksumOk);
}

#[test]
fn empty_read_means_peer_closed() {
    let payload = pseudo_random_bytes(100, 1);
    let mut rx = Reception::new(header_from_wire("b.bin", &payload));
    assert!(!rx.is_done());
    assert_eq!(rx.on_chunk(&[]), 0);
    assert!(rx.is_done());
    assert_eq!(rx.received(), 0);
    assert_eq!(rx.name(), "b.bin");
    assert_eq!(rx.payload_size(), 100);
}

#[test]
fn judge_takes_the_digest_as_given() {
    let r: Receipt = judge("x.uzip", &EMPTY_SHA256, &EMPTY_SHA256, 0);
    assert_eq!(r.verdict, Verdict::ChecksumOk);
    assert!(r.extract);
    assert_eq!(r.display_name, "x");
    let r = judge("x.uzip", &EMPTY_SHA256, &ABC_SHA256, 3);
    assert_eq!(r.verdict, Verdict::ChecksumMismatch);
    assert!(!r.extract);
    assert_eq!(r.received, 3);
}

#[test]
fn header_layout_is_big_endian() {
    let checksum = ABC_SHA256;
    let wire = encode_header("ab", 0x0102030405060708, &checksum).unwrap();
    assert_eq!(&wire[..4], &[0, 2, b'a', b'b']);
    assert_eq!(&wire[4..12], &[1, 2, 3, 4, 5, 6, 7, 8]);
    assert_eq!(&wire[12..], &checksum);
    let header = decode_header(&wire).unwrap();
    assert_eq!(header.payload_size, 0x0102030405060708);
    assert_eq!(header.checksum, checksum.to_vec());
}

#[test]
fn header_with_multibyte_name_round_trips() {
    let name = "résumé.pdf";
    let wire = encode_header(name, 77, &ABC_SHA256).unwrap();
    assert_eq!(wire[1] as usize, name.len());
    let header = decode_header(&wire).unwrap();
    assert_eq!(header.name, name);
    assert_eq!(header.payload_size, 77);
}

#[test]
fn encode_rejects_long_names_and_bad_digests() {
    let long = "n".repeat(MAX_NAME_LEN + 1);
    assert!(matches!(encode_header(&long, 1, &ABC_SHA256), Err(TransferError::InvalidHeader)));
    let longest = "n".repeat(MAX_NAME_LEN);
    assert!(encode_header(&longest, 1, &ABC_SHA256).is_ok());
    assert!(matches!(encode_header("a", 1, &ABC_SHA256[..31]), Err(TransferError::InvalidHeader)));
}

#[test]
fn decode_reports_faults() {
    assert!(matches!(decode_header(&[0]), Err(TransferError::ProtocolError)));
    let wire = encode_header("file.txt", 5, &ABC_SHA256).unwrap();
    assert!(matches!(decode_header(&wire[..wire.len() - 1]), Err(TransferError::ProtocolError)));
    let mut huge = vec![0xff, 0xff];
    huge.extend_from_slice(&[0u8; 40]);
    assert!(matches!(decode_header(&huge), Err(TransferError::InvalidHeader)));
    let mut bad = vec![0u8, 2, 0xff, 0xfe];
    bad.extend_from_slice(&[0u8; 40]);
    assert!(matches!(decode_header(&bad), Err(TransferError::ProtocolError)));
}

#[test]
fn name_length_is_capped() {
    assert_eq!(name_length(0, 9), Ok(9));
    assert_eq!(name_length(0x04, 0x00), Ok(1024));
    assert_eq!(name_length(0x04, 0x01), Err(TransferError::InvalidHeader));
    assert_eq!(name_length(0xff, 0xff), Err(TransferError::InvalidHeader));
}

#[test]
fn archive_names() {
    assert_eq!(archive_name("foo"), "foo.uzip");
    assert!(is_archive_name("foo.uzip"));
    assert!(!is_archive_name("foo.zip"));
    assert!(!is_archive_name("uzip"));
    assert!(is_archive_name(".uzip"));
    assert_eq!(restored_name("foo.uzip"), "foo");
    assert_eq!(restored_name("foo.txt"), "foo.txt");
    assert_eq!(restored_name("a.uzip.uzip"), "a.uzip");
    assert_eq!(artifact_kind("x.uzip"), ArtifactKind::Directory);
    assert_eq!(artifact_kind("x.txt"), ArtifactKind::File);
}

#[test]
fn directory_name_survives_transfer() {
    for dir in ["foo", "foo.bar", "foo.uzip", "ü"] {
        let plan = plan_send(PathKind::Directory, Some(dir.to_string())).unwrap();
        assert!(is_archive_name(&plan.wire_name));
        assert_eq!(restored_name(&plan.wire_name), dir);
    }
}

#[test]
fn plan_send_files_and_invalid_targets() {
    let plan = plan_send(PathKind::File, Some("report.pdf".to_string())).unwrap();
    assert_eq!(plan.kind, ArtifactKind::File);
    assert_eq!(plan.wire_name, "report.pdf");
    assert_eq!(plan.display_name, "report.pdf");
    assert!(matches!(
        plan_send(PathKind::Missing, Some("a".to_string())),
        Err(TransferError::InvalidTarget)
    ));
    assert!(matches!(
        plan_send(PathKind::Other, Some("a".to_string())),
        Err(TransferError::InvalidTarget)
    ));
    assert!(matches!(plan_send(PathKind::Directory, None), Err(TransferError::InvalidHeader)));
    assert!(matches!(plan_send(PathKind::File, None), Err(TransferError::InvalidHeader)));
    assert!(matches!(plan_send(PathKind::Missing, None), Err(TransferError::InvalidTarget)));
}

#[test]
fn transmission_progress() {
    let total = (2 * CHUNK_LEN + 5) as u64;
    let mut tx = Transmission::new(total);
    assert_eq!(tx.total(), total);
    assert_eq!(tx.next_read_len(), CHUNK_LEN);
    let mut last = 0;
    while !tx.is_done() {
        let n = tx.next_read_len();
        assert_eq!(tx.on_read(n), n);
        assert!(tx.sent() > last);
        last = tx.sent();
    }
    assert_eq!(tx.sent(), total);
    assert_eq!(tx.next_read_len(), 0);
}

#[test]
fn transmission_stops_when_source_ends() {
    let mut tx = Transmission::new(100);
    assert_eq!(tx.on_read(40), 40);
    assert_eq!(tx.on_read(500), 60);
    assert_eq!(tx.sent(), 100);
    let mut short = Transmission::new(100);
    assert_eq!(short.on_read(30), 30);
    assert!(!short.is_done());
    assert_eq!(short.on_read(0), 0);
    assert!(short.is_done());
    assert_eq!(short.sent(), 30);
}

#[test]
fn error_descriptions_are_distinct() {
    let all = [
        TransferError::InvalidTarget,
        TransferError::ConnectionError,
        TransferError::ProtocolError,
        TransferError::InvalidHeader,
        TransferError::ArchiveError,
    ];
    for (i, a) in all.iter().enumerate() {
        for b in all.iter().skip(i + 1) {
            assert_ne!(a.describe(), b.describe());
        }
    }
    assert_eq!(TransferError::ConnectionError.describe(), "connection failure");
    assert_eq!(
        TransferError::InvalidTarget.describe(),
        "the path is neither a file nor a directory"
    );
}
