use deitos_upload::chain::{EncodingError, FileRecord, FILE_HASH_LEN};
use deitos_upload::hasher::hash_bytes;

fn hash_of_len(len: usize) -> String {
    "a".repeat(len)
}

#[test]
fn hash_of_64_bytes_and_name_at_the_bound_are_taken() {
    let record = FileRecord::new(9, hash_of_len(64), "n".repeat(32), 32).unwrap();
    assert_eq!(record.agreement_id(), 9);
    assert_eq!(record.file_hash(), "a".repeat(64).as_bytes());
    assert_eq!(record.file_hash().len(), FILE_HASH_LEN);
    assert_eq!(record.file_name(), "n".repeat(32).as_bytes());
}

#[test]
fn name_one_byte_past_the_bound_is_refused() {
    assert_eq!(
        FileRecord::new(9, hash_of_len(64), "n".repeat(33), 32),
        Err(EncodingError::FileNameTooLong)
    );
}

#[test]
fn hash_of_another_length_is_refused() {
    assert_eq!(FileRecord::new(1, hash_of_len(63), "f".to_string(), 32), Err(EncodingError::HashLength));
    assert_eq!(FileRecord::new(1, hash_of_len(65), "f".to_string(), 32), Err(EncodingError::HashLength));
    assert_eq!(FileRecord::new(1, String::new(), "f".to_string(), 32), Err(EncodingError::HashLength));
}

#[test]
fn hash_is_looked_at_before_the_name() {
    assert_eq!(
        FileRecord::new(1, hash_of_len(10), "n".repeat(100), 32),
        Err(EncodingError::HashLength)
    );
}

#[test]
fn lengths_are_counted_in_bytes() {
    // Two bytes for each of these characters.
    assert_eq!(
        FileRecord::new(1, hash_of_len(64), "\u{e9}\u{e9}".to_string(), 3),
        Err(EncodingError::FileNameTooLong)
    );
    assert!(FileRecord::new(1, hash_of_len(64), "\u{e9}\u{e9}".to_string(), 4).is_ok());
    assert_eq!(
        FileRecord::new(1, "\u{e9}".repeat(64), "f".to_string(), 4),
        Err(EncodingError::HashLength)
    );
    assert!(FileRecord::new(1, "\u{e9}".repeat(32), "f".to_string(), 4).is_ok());
}

#[test]
fn empty_name_and_zero_bound() {
    assert!(FileRecord::new(0, hash_of_len(64), String::new(), 0).is_ok());
    assert_eq!(
        FileRecord::new(0, hash_of_len(64), "x".to_string(), 0),
        Err(EncodingError::FileNameTooLong)
    );
}

#[test]
fn content_hash_of_any_file_is_taken() {
    let record = FileRecord::new(3, hash_bytes(b"some file"), "file.bin".to_string(), 8).unwrap();
    assert_eq!(record.file_hash().len(), 64);
    let empty = FileRecord::new(3, hash_bytes(&[]), "empty".to_string(), 8).unwrap();
    assert_eq!(
        empty.file_hash(),
        b"e3b0c44298fc1c149afbf4c8996fb92427ae41e4649b934ca495991b7852b855"
    );
}
