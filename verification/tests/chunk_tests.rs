use png_chunk::chunk::Chunk;
use png_chunk::chunk_type::ChunkType;
use png_chunk::errors::ChunkError;

fn testing_chunk_bytes() -> Vec<u8> {
    let data_length: u32 = 42;
    let chunk_type = "RuSt".as_bytes();
    let message_bytes = "This is where your secret message will be!".as_bytes();
    let crc: u32 = 3492869447;

    data_length
        .to_be_bytes()
        .iter()
        .chain(chunk_type.iter())
        .chain(message_bytes.iter())
        .chain(crc.to_be_bytes().iter())
        .copied()
        .collect()
}

fn testing_chunk() -> Chunk {
    Chunk::parse(&testing_chunk_bytes()).unwrap()
}

#[test]
fn test_new_chunk() {
    let chunk_type = ChunkType::from_text("RuSt").unwrap();
    let data = "This is where your secret message will be!"
        .as_bytes()
        .to_vec();
    let chunk = Chunk::new(chunk_type, data);
    assert_eq!(chunk.length(), 42);
    assert_eq!(chunk.crc(), 3492869447);
}

#[test]
fn test_chunk_length() {
    let chunk = testing_chunk();
    assert_eq!(chunk.length(), 42);
}

#[test]
fn test_chunk_type() {
    let chunk = testing_chunk();
    assert_eq!(chunk.chunk_type().to_text(), String::from("RuSt"));
}

#[test]
fn test_chunk_string() {
    let chunk = testing_chunk();
    let chunk_string = chunk.data_as_string().unwrap();
    let expected_chunk_string = String::from("This is where your secret message will be!");
    assert_eq!(chunk_string, expected_chunk_string);
}

#[test]
fn test_chunk_crc() {
    let chunk = testing_chunk();
    assert_eq!(chunk.crc(), 3492869447);
}

#[test]
fn test_valid_chunk_from_bytes() {
    let chunk = Chunk::parse(&testing_chunk_bytes()).unwrap();

    let chunk_string = chunk.data_as_string().unwrap();
    let expected_chunk_string = String::from("This is where your secret message will be!");

    assert_eq!(chunk.length(), 42);
    assert_eq!(chunk.chunk_type().to_text(), String::from("RuSt"));
    assert_eq!(chunk_string, expected_chunk_string);
    assert_eq!(chunk.crc(), 3492869447);
}

#[test]
fn test_invalid_chunk_from_bytes() {
    let data_length: u32 = 42;
    let chunk_type = "RuSt".as_bytes();
    let message_bytes = "This is where your secret message will be!".as_bytes();
    let crc: u32 = 3492869446;

    let chunk_data: Vec<u8> = data_length
        .to_be_bytes()
        .iter()
        .chain(chunk_type.iter())
        .chain(message_bytes.iter())
        .chain(crc.to_be_bytes().iter())
        .copied()
        .collect();

    let chunk = Chunk::parse(&chunk_data);

    assert!(chunk.is_err());
    assert_eq!(chunk.unwrap_err(), ChunkError::ChecksumMismatch);
}

#[test]
fn test_chunk_trait_impls() {
    let chunk: Chunk = Chunk::parse(&testing_chunk_bytes()).unwrap();
    let _chunk_string = format!("{}", chunk.to_text());
}

#[test]
fn test_round_trip_through_bytes() {
    let chunk_type = ChunkType::from_text("RuSt").unwrap();
    let data = vec![0u8, 1, 2, 3, 254, 255];
    let chunk = Chunk::new(chunk_type, data.clone());

    let wire = chunk.as_bytes();
    assert_eq!(wire.len(), 12 + data.len());

    let parsed = Chunk::parse(&wire).unwrap();
    assert_eq!(parsed.length(), chunk.length());
    assert_eq!(parsed.crc(), chunk.crc());
    assert_eq!(parsed.data(), chunk.data());
    assert_eq!(parsed.chunk_type().bytes(), chunk.chunk_type().bytes());
}

#[test]
fn test_round_trip_empty_payload() {
    let chunk_type = ChunkType::from_text("IEND").unwrap();
    let chunk = Chunk::new(chunk_type, Vec::new());
    assert_eq!(chunk.length(), 0);

    let wire = chunk.as_bytes();
    assert_eq!(wire.len(), 12);

    let parsed = Chunk::parse(&wire).unwrap();
    assert_eq!(parsed.length(), 0);
    assert_eq!(parsed.crc(), chunk.crc());
    assert_eq!(parsed.data(), &[] as &[u8]);
}

#[test]
fn test_checksum_deterministic() {
    let make = || {
        let chunk_type = ChunkType::from_text("RuSt").unwrap();
        Chunk::new(chunk_type, vec![10u8, 20, 30])
    };
    assert_eq!(make().crc(), make().crc());

    let other_type = ChunkType::from_text("RuSs").unwrap();
    let other = Chunk::new(other_type, vec![10u8, 20, 30]);
    assert_ne!(other.crc(), make().crc());

    let other_data = Chunk::new(ChunkType::from_text("RuSt").unwrap(), vec![10u8, 20, 31]);
    assert_ne!(other_data.crc(), make().crc());
}

#[test]
fn test_tamper_detection_in_crc_field() {
    let good = testing_chunk_bytes();
    assert!(Chunk::parse(&good).is_ok());

    let len = good.len();
    for pos in len - 4..len {
        let mut bad = good.clone();
        bad[pos] = bad[pos].wrapping_sub(1);
        let result = Chunk::parse(&bad);
        assert_eq!(result.unwrap_err(), ChunkError::ChecksumMismatch);
    }
}

#[test]
fn test_minimum_size_rejection() {
    for n in 0..12usize {
        let buf = vec![7u8; n];
        let result = Chunk::parse(&buf);
        assert_eq!(result.unwrap_err(), ChunkError::TooShort);
    }
}

#[test]
fn test_truncated_payload_rejection() {
    let mut buf = testing_chunk_bytes();
    // Drop the final byte: the declared 42-byte payload no longer fits
    // before the trailing checksum.
    buf.pop();
    let result = Chunk::parse(&buf);
    assert_eq!(result.unwrap_err(), ChunkError::Truncated);
}

#[test]
fn test_parse_rejects_non_alphabetic_type() {
    let mut buf = testing_chunk_bytes();
    buf[6] = 49; // the third type byte becomes '1'
    let result = Chunk::parse(&buf);
    assert_eq!(result.unwrap_err(), ChunkError::NotAlphabetic);
}

#[test]
fn test_chunk_type_from_text_too_short() {
    let result = ChunkType::from_text("Ru");
    assert_eq!(result.unwrap_err(), ChunkError::TooShort);
}

#[test]
fn test_error_messages() {
    assert_eq!(
        &ChunkError::NotAlphabetic.message(),
        "chunk-type byte outside the ASCII ranges 65-90 and 97-122"
    );
    assert_eq!(&ChunkError::TooShort.message(), "fewer bytes than the fields need");
    assert_eq!(
        &ChunkError::Truncated.message(),
        "buffer ends before the declared payload and checksum"
    );
    assert_eq!(
        &ChunkError::ChecksumMismatch.message(),
        "declared checksum differs from the recomputed one"
    );
    assert_eq!(
        &ChunkError::DecodeError.message(),
        "payload byte could not be decoded as text"
    );
}

#[test]
fn test_idempotent_accessors() {
    let chunk = testing_chunk();
    assert_eq!(chunk.length(), chunk.length());
    assert_eq!(chunk.crc(), chunk.crc());
    assert_eq!(chunk.data().to_vec(), chunk.data().to_vec());
    assert_eq!(chunk.chunk_type().bytes(), chunk.chunk_type().bytes());
}
