use jvm::classfile::class_file_stream::ClassFileStream;
use jvm::classfile::error::DecodeError;

#[test]
fn new_stream_starts_at_zero() {
    let stream = ClassFileStream::new(vec![1, 2, 3]);
    assert_eq!(stream.position(), 0);
    assert_eq!(stream.remaining(), 3);
}

#[test]
fn read_u8_takes_one_byte() {
    let mut stream = ClassFileStream::new(vec![0xAB, 0xCD]);
    assert_eq!(stream.read_u8(), Ok(0xAB));
    assert_eq!(stream.position(), 1);
    assert_eq!(stream.read_u8(), Ok(0xCD));
    assert_eq!(stream.position(), 2);
    assert_eq!(stream.read_u8(), Err(DecodeError::TruncatedStream));
    assert_eq!(stream.position(), 2);
}

#[test]
fn read_u16_is_big_endian() {
    let mut stream = ClassFileStream::new(vec![0x12, 0x34, 0xFF, 0xFF, 0x00, 0x01]);
    assert_eq!(stream.read_u16(), Ok(0x1234));
    assert_eq!(stream.read_u16(), Ok(0xFFFF));
    assert_eq!(stream.read_u16(), Ok(1));
    assert_eq!(stream.position(), 6);
}

#[test]
fn read_u16_on_one_byte_is_truncated_and_stays() {
    let mut stream = ClassFileStream::new(vec![0x12]);
    assert_eq!(stream.read_u16(), Err(DecodeError::TruncatedStream));
    assert_eq!(stream.position(), 0);
    assert_eq!(stream.remaining(), 1);
}

#[test]
fn read_u32_is_big_endian() {
    let mut stream = ClassFileStream::new(vec![0xCA, 0xFE, 0xBA, 0xBE, 0xFF, 0xFF, 0xFF, 0xFF]);
    assert_eq!(stream.read_u32(), Ok(0xCAFEBABE));
    assert_eq!(stream.read_u32(), Ok(u32::MAX));
    assert_eq!(stream.position(), 8);
}

#[test]
fn read_u32_on_three_bytes_is_truncated_and_stays() {
    let mut stream = ClassFileStream::new(vec![0, 0, 1]);
    assert_eq!(stream.read_u32(), Err(DecodeError::TruncatedStream));
    assert_eq!(stream.position(), 0);
}

#[test]
fn read_to_length_copies_the_bytes() {
    let mut stream = ClassFileStream::new(vec![9, 8, 7, 6, 5]);
    assert_eq!(stream.read_u8(), Ok(9));
    assert_eq!(stream.read_to_length(3), Ok(vec![8, 7, 6]));
    assert_eq!(stream.position(), 4);
    assert_eq!(stream.read_to_length(0), Ok(vec![]));
    assert_eq!(stream.position(), 4);
    assert_eq!(stream.read_to_length(2), Err(DecodeError::TruncatedStream));
    assert_eq!(stream.position(), 4);
    assert_eq!(stream.read_to_length(1), Ok(vec![5]));
    assert_eq!(stream.remaining(), 0);
}

#[test]
fn read_to_length_takes_more_than_sixteen_bits() {
    let bytes: Vec<u8> = (0..66_000u32).map(|i| (i % 251) as u8).collect();
    let mut stream = ClassFileStream::new(bytes.clone());
    let taken = stream.read_to_length(66_000).unwrap();
    assert_eq!(taken.len(), 66_000);
    assert_eq!(taken, bytes);
    assert_eq!(stream.position(), 66_000);
}

#[test]
fn read_to_length_of_the_largest_count_is_truncated() {
    let mut stream = ClassFileStream::new(vec![1, 2, 3]);
    assert_eq!(stream.read_to_length(u32::MAX), Err(DecodeError::TruncatedStream));
    assert_eq!(stream.position(), 0);
}

#[test]
fn skip_moves_forward_only_when_the_bytes_are_there() {
    let mut stream = ClassFileStream::new(vec![1, 2, 3, 4]);
    assert_eq!(stream.skip(3), Ok(()));
    assert_eq!(stream.position(), 3);
    assert_eq!(stream.skip(2), Err(DecodeError::TruncatedStream));
    assert_eq!(stream.position(), 3);
    assert_eq!(stream.skip(0), Ok(()));
    assert_eq!(stream.skip(1), Ok(()));
    assert_eq!(stream.position(), 4);
    assert_eq!(stream.read_u8(), Err(DecodeError::TruncatedStream));
}
