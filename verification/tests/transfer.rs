use file_transfer::codec::{decode_header, encode_header, Limits};
use file_transfer::digest::{bytes_equal, compute_digest, verify_payload, DIGEST_LENGTH};
use file_transfer::errors::{get_required_arg, TransferError};
use file_transfer::receiver::{check_digest_length, check_file_size, receive_frame, VerifyOutcome};
use file_transfer::sender::{plan_transfer, FramePlan};

fn test_limits() -> Limits {
    Limits { max_digest_length: 64, max_file_size: 1 << 20 }
}

fn wire_of(plan: &FramePlan) -> Vec<u8> {
    let mut wire = plan.header.clone();
    for chunk in &plan.chunks {
        wire.extend_from_slice(chunk);
    }
    wire
}

fn sample_file(len: usize) -> Vec<u8> {
    (0..len).map(|i| (i % 251) as u8).collect()
}

#[test]
fn round_trip_small_buffer() {
    let file = sample_file(300);
    for chunk_size in [1usize, 7, 300, 1300] {
        let plan = plan_transfer(&file, chunk_size);
        let wire = wire_of(&plan);
        let reception = receive_frame(&wire, &test_limits()).expect("complete frame");
        assert_eq!(reception.file_size, 300);
        assert_eq!(reception.chunk_size, chunk_size as u64);
        assert_eq!(reception.payload, file);
        assert_eq!(reception.digest, compute_digest(&file));
        assert_eq!(reception.outcome, VerifyOutcome::DigestMatch);
    }
}

#[test]
fn chunk_size_independence() {
    let file = sample_file(1000);
    let payload_one = receive_frame(&wire_of(&plan_transfer(&file, 1)), &test_limits())
        .expect("complete frame")
        .payload;
    let payload_len = receive_frame(&wire_of(&plan_transfer(&file, 1000)), &test_limits())
        .expect("complete frame")
        .payload;
    let payload_over = receive_frame(&wire_of(&plan_transfer(&file, 2000)), &test_limits())
        .expect("complete frame")
        .payload;
    assert_eq!(payload_one, payload_len);
    assert_eq!(payload_len, payload_over);
    assert_eq!(payload_one, file);
}

#[test]
fn zero_length_file() {
    let file: Vec<u8> = Vec::new();
    let plan = plan_transfer(&file, 1024);
    assert_eq!(plan.chunks.len(), 0);
    let wire = wire_of(&plan);
    assert_eq!(wire.len(), 24 + DIGEST_LENGTH as usize);
    let reception = receive_frame(&wire, &test_limits()).expect("complete frame");
    assert_eq!(reception.file_size, 0);
    assert!(reception.payload.is_empty());
    assert_eq!(reception.digest, compute_digest(&Vec::new()));
    assert_eq!(reception.outcome, VerifyOutcome::DigestMatch);
}

#[test]
fn remainder_chunking_2500_by_1000() {
    let file = sample_file(2500);
    let plan = plan_transfer(&file, 1000);
    assert_eq!(plan.chunks.len(), 3);
    assert_eq!(plan.chunks[0].len(), 1000);
    assert_eq!(plan.chunks[1].len(), 1000);
    assert_eq!(plan.chunks[2].len(), 500);
    let total: usize = plan.chunks.iter().map(|c| c.len()).sum();
    assert_eq!(total, 2500);
    let reception = receive_frame(&wire_of(&plan), &test_limits()).expect("complete frame");
    assert_eq!(reception.file_size, 2500);
    assert_eq!(reception.payload.len(), 2500);
}

#[test]
fn exact_division_has_no_remainder_chunk() {
    let file = sample_file(2000);
    let plan = plan_transfer(&file, 1000);
    assert_eq!(plan.chunks.len(), 2);
    assert_eq!(plan.chunks[0].len(), 1000);
    assert_eq!(plan.chunks[1].len(), 1000);
}

#[test]
fn corrupted_payload_reports_mismatch_without_error() {
    let file = sample_file(600);
    let plan = plan_transfer(&file, 128);
    let mut wire = wire_of(&plan);
    let payload_start = wire.len() - 600;
    wire[payload_start + 300] ^= 0x01;
    let reception = receive_frame(&wire, &test_limits()).expect("reception still succeeds");
    assert_eq!(reception.outcome, VerifyOutcome::DigestMismatch);
    assert_eq!(reception.file_size, 600);
}

#[test]
fn oversized_digest_length_rejected() {
    let oversized_digest = vec![0u8; 65];
    let header = encode_header(&oversized_digest, 10, 1);
    assert_eq!(
        decode_header(&header, &test_limits()).err(),
        Some(TransferError::DigestLengthTooLarge)
    );
    assert_eq!(
        receive_frame(&header, &test_limits()).err(),
        Some(TransferError::DigestLengthTooLarge)
    );
}

#[test]
fn oversized_file_size_rejected() {
    let digest = vec![0u8; 16];
    let header = encode_header(&digest, u64::MAX, 1);
    assert_eq!(
        decode_header(&header, &test_limits()).err(),
        Some(TransferError::FileSizeTooLarge)
    );
    assert_eq!(
        receive_frame(&header, &test_limits()).err(),
        Some(TransferError::FileSizeTooLarge)
    );
}

#[test]
fn truncated_header_rejected() {
    let digest = vec![7u8; 16];
    let header = encode_header(&digest, 5, 1);
    let truncated: Vec<u8> = header[..20].to_vec();
    assert_eq!(
        decode_header(&truncated, &test_limits()).err(),
        Some(TransferError::TruncatedHeader)
    );
    let empty: Vec<u8> = Vec::new();
    assert_eq!(
        decode_header(&empty, &test_limits()).err(),
        Some(TransferError::TruncatedHeader)
    );
}

#[test]
fn truncated_payload_rejected() {
    let file = sample_file(100);
    let plan = plan_transfer(&file, 10);
    let wire = wire_of(&plan);
    let cut: Vec<u8> = wire[..wire.len() - 1].to_vec();
    assert_eq!(
        receive_frame(&cut, &test_limits()).err(),
        Some(TransferError::TruncatedPayload)
    );
}

#[test]
fn header_layout_is_little_endian() {
    let digest = vec![0xaau8, 0xbb];
    let header = encode_header(&digest, 0x0102030405060708, 0x1122334455667788);
    let mut expected = vec![2u8, 0, 0, 0, 0, 0, 0, 0];
    expected.extend_from_slice(&[0xaa, 0xbb]);
    expected.extend_from_slice(&[0x08, 0x07, 0x06, 0x05, 0x04, 0x03, 0x02, 0x01]);
    expected.extend_from_slice(&[0x88, 0x77, 0x66, 0x55, 0x44, 0x33, 0x22, 0x11]);
    assert_eq!(header, expected);
}

#[test]
fn decode_header_returns_consumed_length() {
    let digest = vec![1u8; 16];
    let mut header = encode_header(&digest, 3, 9);
    header.extend_from_slice(&[0xde, 0xad, 0xbe]);
    let (decoded, consumed) = decode_header(&header, &test_limits()).expect("valid header");
    assert_eq!(consumed, 40);
    assert_eq!(decoded.digest, digest);
    assert_eq!(decoded.file_size, 3);
    assert_eq!(decoded.chunk_size, 9);
}

#[test]
fn digest_of_known_buffers() {
    let abc = vec![b'a', b'b', b'c'];
    let digest = compute_digest(&abc);
    assert_eq!(
        digest,
        vec![
            0x90, 0x01, 0x50, 0x98, 0x3c, 0xd2, 0x4f, 0xb0, 0xd6, 0x96, 0x3f, 0x7d, 0x28, 0xe1,
            0x7f, 0x72
        ]
    );
    let empty_digest = compute_digest(&Vec::new());
    assert_eq!(
        empty_digest,
        vec![
            0xd4, 0x1d, 0x8c, 0xd9, 0x8f, 0x00, 0xb2, 0x04, 0xe9, 0x80, 0x09, 0x98, 0xec, 0xf8,
            0x42, 0x7e
        ]
    );
    assert_eq!(digest.len() as u64, DIGEST_LENGTH);
}

#[test]
fn verify_payload_agrees_with_digest() {
    let data = sample_file(50);
    let digest = compute_digest(&data);
    assert!(verify_payload(&digest, &data));
    let mut corrupted = data.clone();
    corrupted[0] ^= 0xff;
    assert!(!verify_payload(&digest, &corrupted));
}

#[test]
fn bytes_equal_compares_contents() {
    let a = vec![1u8, 2, 3];
    let b = vec![1u8, 2, 3];
    let c = vec![1u8, 2, 4];
    let d = vec![1u8, 2];
    assert!(bytes_equal(&a, &b));
    assert!(!bytes_equal(&a, &c));
    assert!(!bytes_equal(&a, &d));
}

#[test]
fn size_ceilings_are_inclusive() {
    let limits = test_limits();
    assert!(check_digest_length(64, &limits).is_ok());
    assert_eq!(
        check_digest_length(65, &limits).err(),
        Some(TransferError::DigestLengthTooLarge)
    );
    assert!(check_file_size(1 << 20, &limits).is_ok());
    assert_eq!(
        check_file_size((1 << 20) + 1, &limits).err(),
        Some(TransferError::FileSizeTooLarge)
    );
}

#[test]
fn chunk_size_above_file_length_gives_one_chunk() {
    let file = sample_file(10);
    let plan = plan_transfer(&file, 1000);
    assert_eq!(plan.chunks.len(), 1);
    assert_eq!(plan.chunks[0], file);
}

#[test]
fn empty_declared_digest_decodes_and_mismatches() {
    let empty_digest: Vec<u8> = Vec::new();
    let mut wire = encode_header(&empty_digest, 3, 1);
    wire.extend_from_slice(&[1, 2, 3]);
    let (decoded, consumed) = decode_header(&wire, &test_limits()).expect("valid header");
    assert_eq!(consumed, 24);
    assert!(decoded.digest.is_empty());
    assert_eq!(decoded.file_size, 3);
    let reception = receive_frame(&wire, &test_limits()).expect("complete frame");
    assert_eq!(reception.outcome, VerifyOutcome::DigestMismatch);
}

#[test]
fn required_arg_present_and_missing() {
    assert_eq!(
        get_required_arg(Some(String::from("path"))),
        Ok(String::from("path"))
    );
    assert_eq!(
        get_required_arg(None),
        Err(TransferError::MissingArgument)
    );
}
