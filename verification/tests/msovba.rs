use projectlens::domain::vba_analyzer::msovba::{decompress, CHUNK_DECOMPRESSED_SIZE};
use projectlens::models::error::AppError;

#[test]
fn decompresses_uncompressed_chunk_verbatim() {
    let mut compressed = vec![0x01u8];
    let payload: Vec<u8> = (0..CHUNK_DECOMPRESSED_SIZE).map(|i| (i % 251) as u8).collect();
    let chunk_size = (CHUNK_DECOMPRESSED_SIZE - 1) as u16 & 0x0FFF;
    let header = chunk_size;
    compressed.extend_from_slice(&header.to_le_bytes());
    compressed.extend_from_slice(&payload);

    let result = decompress(&compressed).unwrap();
    assert_eq!(result, payload);
}

#[test]
fn decompresses_literal_only_compressed_chunk() {
    let data = b"Attribute VB_Name = \"Module1\"";
    let mut chunk_body = Vec::new();
    for group in data.chunks(8) {
        chunk_body.push(0x00u8);
        chunk_body.extend_from_slice(group);
    }
    let chunk_size_field = (chunk_body.len() + 2 - 3) as u16 & 0x0FFF;
    let header = chunk_size_field | 0x8000;
    let mut compressed = vec![0x01u8];
    compressed.extend_from_slice(&header.to_le_bytes());
    compressed.extend_from_slice(&chunk_body);

    let result = decompress(&compressed).unwrap();
    assert_eq!(result, data);
}

#[test]
fn decompresses_copy_token_back_reference() {
    let flag_byte = 0b0000_0100u8;
    let token: u16 = 0x1001;
    let mut chunk_body = vec![flag_byte, b'A', b'B'];
    chunk_body.extend_from_slice(&token.to_le_bytes());

    let chunk_size_field = (chunk_body.len() + 2 - 3) as u16 & 0x0FFF;
    let header = chunk_size_field | 0x8000;
    let mut compressed = vec![0x01u8];
    compressed.extend_from_slice(&header.to_le_bytes());
    compressed.extend_from_slice(&chunk_body);

    let result = decompress(&compressed).unwrap();
    assert_eq!(result, b"ABABAB");
}

#[test]
fn rejects_invalid_signature_byte() {
    let compressed = vec![0x02u8, 0x00, 0x00];
    assert!(decompress(&compressed).is_err());
}

#[test]
fn rejects_empty_stream() {
    match decompress(&[]) {
        Err(AppError::Static { recoverable, .. }) => assert!(recoverable),
        _ => panic!("expected a static analysis error"),
    }
}

#[test]
fn rejects_copy_token_before_output_start() {
    // a copy token as the very first token refers before the start of the output
    let flag_byte = 0b0000_0001u8;
    let token: u16 = 0x0000;
    let mut chunk_body = vec![flag_byte];
    chunk_body.extend_from_slice(&token.to_le_bytes());
    let header = ((chunk_body.len() + 2 - 3) as u16 & 0x0FFF) | 0x8000;
    let mut compressed = vec![0x01u8];
    compressed.extend_from_slice(&header.to_le_bytes());
    compressed.extend_from_slice(&chunk_body);
    assert!(decompress(&compressed).is_err());
}

#[test]
fn ignores_truncated_trailing_header() {
    let compressed = vec![0x01u8, 0x05];
    assert_eq!(decompress(&compressed).unwrap(), Vec::<u8>::new());
}
