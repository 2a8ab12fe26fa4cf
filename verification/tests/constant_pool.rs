use jvm::classfile::error::DecodeError;
use jvm::oops::constant_pool::{resolve_name, same_text, CpEntry};

fn sample_pool() -> Vec<CpEntry> {
    vec![
        CpEntry::Other { tag: 0 },
        CpEntry::Utf8 { val: String::from("Code") },
        CpEntry::Other { tag: 7 },
        CpEntry::Utf8 { val: String::from("") },
        CpEntry::Utf8 { val: String::from("VendorExt") },
    ]
}

#[test]
fn resolve_name_finds_text() {
    let pool = sample_pool();
    assert_eq!(resolve_name(&pool, 1), Ok(&String::from("Code")));
    assert_eq!(resolve_name(&pool, 4), Ok(&String::from("VendorExt")));
    assert_eq!(resolve_name(&pool, 3), Ok(&String::new()));
}

#[test]
fn resolve_name_refuses_index_zero() {
    let pool = sample_pool();
    assert_eq!(resolve_name(&pool, 0), Err(DecodeError::MalformedIndex));
}

#[test]
fn resolve_name_refuses_index_zero_even_if_slot_zero_is_text() {
    let pool = vec![CpEntry::Utf8 { val: String::from("Code") }];
    assert_eq!(resolve_name(&pool, 0), Err(DecodeError::MalformedIndex));
}

#[test]
fn resolve_name_refuses_index_past_the_pool() {
    let pool = sample_pool();
    assert_eq!(resolve_name(&pool, 5), Err(DecodeError::MalformedIndex));
    assert_eq!(resolve_name(&pool, u16::MAX), Err(DecodeError::MalformedIndex));
    assert_eq!(resolve_name(&[], 1), Err(DecodeError::MalformedIndex));
}

#[test]
fn resolve_name_refuses_entry_of_another_kind() {
    let pool = sample_pool();
    assert_eq!(resolve_name(&pool, 2), Err(DecodeError::MalformedIndex));
}

#[test]
fn same_text_compares_whole_strings() {
    assert!(same_text("Code", "Code"));
    assert!(same_text("", ""));
    assert!(!same_text("Code", "code"));
    assert!(!same_text("Code", "Codes"));
    assert!(!same_text("Codes", "Code"));
    assert!(!same_text("", "x"));
    assert!(same_text("d\u{e9}j\u{e0}", "d\u{e9}j\u{e0}"));
    assert!(!same_text("d\u{e9}j\u{e0}", "d\u{e9}ja"));
}

#[test]
fn cp_entry_clone_is_equal() {
    for entry in sample_pool() {
        assert_eq!(entry.clone(), entry);
    }
}
