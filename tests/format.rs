use appbinder::format::{
    archive_range, assemble_bundle, decode_trailer, encode_trailer, extract_archive, read_offset,
    FormatError, TRAILER_LEN,
};

#[test]
fn trailer_is_little_endian() {
    assert_eq!(encode_trailer(0x0102_0304_0506_0708), vec![8, 7, 6, 5, 4, 3, 2, 1]);
    assert_eq!(encode_trailer(0), vec![0; 8]);
    assert_eq!(encode_trailer(u64::MAX), vec![255; 8]);
    assert_eq!(encode_trailer(300), vec![44, 1, 0, 0, 0, 0, 0, 0]);
}

#[test]
fn trailer_decodes_back() {
    for n in [0u64, 1, 255, 256, 4096, 0xdead_beef, u64::MAX] {
        assert_eq!(decode_trailer(&encode_trailer(n)), n);
    }
    assert_eq!(decode_trailer(&[1, 0, 0, 0, 0, 0, 0, 1]), 0x0100_0000_0000_0001);
}

#[test]
fn bundle_layout_holds() {
    let stub: Vec<u8> = (0..100u32).map(|i| (i * 7 % 256) as u8).collect();
    let archive: Vec<u8> = vec![0x1f, 0x8b, 9, 9, 9];
    let file = assemble_bundle(&stub, &archive);
    assert_eq!(file.len(), stub.len() + archive.len() + TRAILER_LEN);
    assert_eq!(&file[..stub.len()], &stub[..]);
    assert_eq!(&file[stub.len()..stub.len() + archive.len()], &archive[..]);
    let offset = read_offset(&file).unwrap();
    assert_eq!(offset, 100);
    assert_eq!(file.len() as u64 - 8, offset + archive.len() as u64);
    assert_eq!(&file[file.len() - 8..], &(stub.len() as u64).to_le_bytes()[..]);
}

#[test]
fn extraction_returns_the_archive() {
    let stub = b"#!stub-binary".to_vec();
    let archive = b"compressed tree".to_vec();
    let file = assemble_bundle(&stub, &archive);
    assert_eq!(archive_range(&file), Ok((stub.len(), stub.len() + archive.len())));
    assert_eq!(extract_archive(&file), Ok(archive));
}

#[test]
fn reading_the_trailer_twice_agrees() {
    let file = assemble_bundle(&[7u8; 33], &[1u8, 2, 3]);
    let first = read_offset(&file);
    let second = read_offset(&file);
    assert_eq!(first, Ok(33));
    assert_eq!(first, second);
}

#[test]
fn short_file_is_rejected() {
    assert_eq!(read_offset(&[1, 2, 3]), Err(FormatError::TooShort));
    assert_eq!(archive_range(&[]), Err(FormatError::TooShort));
    assert_eq!(extract_archive(&[0; 7]), Err(FormatError::TooShort));
}

#[test]
fn offset_past_archive_is_rejected() {
    // An empty archive: the offset lands on the trailer itself.
    let file = assemble_bundle(&[5u8; 4], &[]);
    assert_eq!(read_offset(&file), Ok(4));
    assert_eq!(archive_range(&file), Err(FormatError::OffsetOutOfRange));
    let mut bad = vec![0u8; 4];
    bad.extend_from_slice(&1000u64.to_le_bytes());
    assert_eq!(extract_archive(&bad), Err(FormatError::OffsetOutOfRange));
}

#[test]
fn trailer_only_file_with_zero_offset() {
    let mut file = vec![9u8, 9];
    file.extend_from_slice(&encode_trailer(0));
    assert_eq!(extract_archive(&file), Ok(vec![9, 9]));
}
