use jvm::classfile::attribute_info::{readExceptionTable, CodeAttribute, ExceptionTableEntry};
use jvm::classfile::class_file_stream::ClassFileStream;
use jvm::classfile::error::DecodeError;

fn entry(start_pc: u16, end_pc: u16, handler_pc: u16, catch_type: u16) -> ExceptionTableEntry {
    ExceptionTableEntry { start_pc, end_pc, handler_pc, catch_type }
}

fn encode_entries(entries: &[ExceptionTableEntry]) -> Vec<u8> {
    let mut bytes = Vec::new();
    bytes.extend_from_slice(&(entries.len() as u16).to_be_bytes());
    for e in entries {
        bytes.extend_from_slice(&e.start_pc.to_be_bytes());
        bytes.extend_from_slice(&e.end_pc.to_be_bytes());
        bytes.extend_from_slice(&e.handler_pc.to_be_bytes());
        bytes.extend_from_slice(&e.catch_type.to_be_bytes());
    }
    bytes
}

#[test]
fn empty_exception_table_takes_two_bytes() {
    let mut stream = ClassFileStream::new(vec![0, 0, 0xAA]);
    assert_eq!(readExceptionTable(&mut stream), Ok(vec![]));
    assert_eq!(stream.position(), 2);
}

#[test]
fn exception_table_of_one_entry_yields_one_entry() {
    let bytes = vec![0, 1, 0x00, 0x01, 0x00, 0x10, 0x00, 0x20, 0x01, 0x04];
    let mut stream = ClassFileStream::new(bytes);
    assert_eq!(readExceptionTable(&mut stream), Ok(vec![entry(1, 16, 32, 260)]));
    assert_eq!(stream.position(), 10);
}

#[test]
fn exception_table_keeps_every_entry_in_file_order() {
    let entries = vec![
        entry(0, 10, 20, 0),
        entry(10, 20, 30, 5),
        entry(0xFFFF, 0xFFFF, 0xFFFF, 0xFFFF),
        entry(0x0102, 0x0304, 0x0506, 0x0708),
    ];
    let mut bytes = encode_entries(&entries);
    bytes.extend_from_slice(&[0xDE, 0xAD]);
    let mut stream = ClassFileStream::new(bytes);
    let decoded = readExceptionTable(&mut stream).unwrap();
    assert_eq!(decoded.len(), 4);
    assert_eq!(decoded, entries);
    assert_eq!(stream.position(), 2 + 8 * 4);
    assert_eq!(stream.remaining(), 2);
}

#[test]
fn exception_table_round_trips() {
    let bytes = vec![
        0x00, 0x03, 0x00, 0x00, 0x00, 0x05, 0x00, 0x08, 0x00, 0x00, 0x12, 0x34, 0x56, 0x78, 0x9A,
        0xBC, 0xDE, 0xF0, 0xFF, 0xFE, 0xFD, 0xFC, 0xFB, 0xFA, 0xF9, 0xF8,
    ];
    let mut stream = ClassFileStream::new(bytes.clone());
    let decoded = readExceptionTable(&mut stream).unwrap();
    assert_eq!(decoded.len(), 3);
    assert_eq!(decoded[1], entry(0x1234, 0x5678, 0x9ABC, 0xDEF0));
    assert_eq!(encode_entries(&decoded), bytes);
    assert_eq!(stream.remaining(), 0);
}

#[test]
fn exception_table_of_many_entries() {
    let entries: Vec<ExceptionTableEntry> =
        (0..1000u16).map(|i| entry(i, i + 1, i + 2, i % 7)).collect();
    let mut stream = ClassFileStream::new(encode_entries(&entries));
    assert_eq!(readExceptionTable(&mut stream), Ok(entries));
    assert_eq!(stream.position(), 8002);
}

#[test]
fn exception_table_without_its_count_is_truncated() {
    let mut stream = ClassFileStream::new(vec![0]);
    assert_eq!(readExceptionTable(&mut stream), Err(DecodeError::TruncatedStream));
    assert_eq!(stream.position(), 0);
}

#[test]
fn exception_table_with_missing_entries_is_truncated_after_its_count() {
    let mut bytes = encode_entries(&[entry(1, 2, 3, 4), entry(5, 6, 7, 8)]);
    bytes.pop();
    let mut stream = ClassFileStream::new(bytes);
    assert_eq!(readExceptionTable(&mut stream), Err(DecodeError::TruncatedStream));
    assert_eq!(stream.position(), 2);
}

#[test]
fn exception_table_announcing_the_largest_count_is_truncated() {
    let mut stream = ClassFileStream::new(vec![0xFF, 0xFF, 0, 0, 0, 0, 0, 0, 0, 0]);
    assert_eq!(readExceptionTable(&mut stream), Err(DecodeError::TruncatedStream));
    assert_eq!(stream.position(), 2);
}

#[test]
fn entry_is_within_code_of_enough_length() {
    let e = entry(2, 6, 8, 0);
    assert!(e.is_within(9));
    assert!(e.is_within(100));
    assert!(!e.is_within(8));
    assert!(!e.is_within(5));
    assert!(!e.is_within(0));
}

#[test]
fn entry_range_may_end_at_the_end_of_the_code() {
    let e = entry(0, 10, 9, 0);
    assert!(e.is_within(10));
    assert!(!e.is_within(9));
}

#[test]
fn entry_with_reversed_range_is_never_within() {
    let e = entry(6, 2, 0, 0);
    assert!(!e.is_within(100));
}

#[test]
fn entry_with_catch_type_zero_catches_all() {
    assert!(entry(0, 1, 2, 0).catches_all());
    assert!(!entry(0, 1, 2, 1).catches_all());
}

#[test]
fn handlers_fit_looks_at_every_entry() {
    let mut code = CodeAttribute::new();
    assert!(code.handlers_fit());
    code.code = vec![0; 10];
    code.exception_table = vec![entry(0, 5, 6, 0), entry(5, 10, 9, 3)];
    assert!(code.handlers_fit());
    code.exception_table.push(entry(0, 11, 0, 0));
    assert!(!code.handlers_fit());
    code.exception_table = vec![entry(0, 5, 10, 0)];
    assert!(!code.handlers_fit());
}
